//! Where the configuration file is looked for.

use vstd::prelude::*;
use vstd::string::*;
use crate::first::{first_of, lemma_first_stays};
use crate::text::{owned, texts};

verus! {

/// The paths that are tried when the environment names none, in order.
pub open spec fn default_candidates() -> Seq<Seq<char>> {
    seq!["/etc/l4p/l4p.yaml"@, "/etc/l4p/config.yaml"@, "l4p.yaml"@, "config.yaml"@]
}

/// The paths that are tried, in order: the one from the environment, if
/// any, before the default ones.
pub open spec fn candidates_for(env_path: Option<String>) -> Seq<Seq<char>> {
    match env_path {
        Some(p) => seq![p@] + default_candidates(),
        None => default_candidates(),
    }
}

/// For each path, its index if the path exists.
pub open spec fn present(paths: Seq<String>, exists: Seq<bool>) -> spec_fn(int) -> Option<int> {
    |i: int|
        if i < exists.len() && exists[i] {
            Some(i)
        } else {
            None
        }
}

/// The index of the first path that exists. `exists[i]` says whether
/// `paths[i]` does; a path without an entry counts as missing.
pub open spec fn first_present(paths: Seq<String>, exists: Seq<bool>) -> Option<int> {
    first_of(present(paths, exists), paths.len() as int)
}

/// The paths at which the configuration file is looked for, in order.
/// `env_path` is the path that the environment gives, if it gives one.
pub fn config_candidates(env_path: Option<String>) -> (paths: Vec<String>)
    ensures
        texts(paths@) == candidates_for(env_path),
{
    let mut paths: Vec<String> = Vec::new();
    match env_path {
        Some(p) => {
            paths.push(p);
        },
        None => {},
    }
    paths.push(owned("/etc/l4p/l4p.yaml"));
    paths.push(owned("/etc/l4p/config.yaml"));
    paths.push(owned("l4p.yaml"));
    paths.push(owned("config.yaml"));
    proof {
        assert(texts(paths@) =~= candidates_for(env_path));
    }
    paths
}

/// The first of `paths` that exists, or, where none does, all the paths
/// that were tried.
pub fn find_config(paths: Vec<String>, exists: &Vec<bool>) -> (r: Result<String, Vec<String>>)
    ensures
        r.is_ok() == first_present(paths@, exists@).is_some(),
        r matches Ok(p) ==> p@ == paths@[first_present(paths@, exists@).unwrap()]@,
        r matches Err(tried) ==> tried == paths,
{
    let ghost f = present(paths@, exists@);
    let mut i: usize = 0;
    while i < paths.len()
        invariant
            i <= paths@.len(),
            f == present(paths@, exists@),
            first_of(f, i as int).is_none(),
        decreases paths@.len() - i,
    {
        if i < exists.len() && exists[i] {
            proof {
                assert(first_of(f, i + 1) == f(i as int));
                lemma_first_stays(f, i + 1, paths@.len() as int);
            }
            return Ok(owned(paths[i].as_str()));
        }
        proof {
            assert(first_of(f, i + 1) == f(i as int));
        }
        i = i + 1;
    }
    Err(paths)
}

} // verus!
