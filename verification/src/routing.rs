//! The choice of an upstream for an accepted connection.
//!
//! A listener without TLS always uses its default upstream. A listener
//! with TLS looks the client's server names up in its table, in the order
//! in which the client gave them; the first name that the table knows
//! decides. Names are compared without regard to the case of ASCII
//! letters; where several entries of the table match a name, the first
//! entry counts.

use vstd::prelude::*;
use vstd::string::*;
use crate::first::{first_of, lemma_first_at, lemma_first_none, lemma_first_stays};
use crate::sni::{get_sni, sni_names};
use crate::text::{owned, same_ignoring_case, same_text_ignoring_case, texts};
use crate::upstream::Upstream;

verus! {

/// A table of server names and upstream names as plain values.
pub open spec fn pair_views(v: Seq<(String, String)>) -> Seq<(Seq<char>, Seq<char>)> {
    v.map_values(|p: (String, String)| (p.0@, p.1@))
}

/// An optional table as plain values.
pub open spec fn table_view(t: Option<Vec<(String, String)>>) -> Option<
    Seq<(Seq<char>, Seq<char>)>,
> {
    match t {
        Some(v) => Some(pair_views(v@)),
        None => None,
    }
}

/// For each entry of `table`, its upstream if its server name is `name`.
pub open spec fn routes(table: Seq<(Seq<char>, Seq<char>)>, name: Seq<char>) -> spec_fn(
    int,
) -> Option<Seq<char>> {
    |i: int|
        if same_ignoring_case(table[i].0, name) {
            Some(table[i].1)
        } else {
            None
        }
}

/// The upstream of the first entry of `table` whose server name is `name`.
pub open spec fn route_of(table: Seq<(Seq<char>, Seq<char>)>, name: Seq<char>) -> Option<
    Seq<char>,
> {
    first_of(routes(table, name), table.len() as int)
}

/// For each of `names`, the upstream that `table` routes it to.
pub open spec fn hits(table: Seq<(Seq<char>, Seq<char>)>, names: Seq<Seq<char>>) -> spec_fn(
    int,
) -> Option<Seq<char>> {
    |i: int| route_of(table, names[i])
}

/// The upstream of the first of `names` that `table` knows.
pub open spec fn first_hit(table: Seq<(Seq<char>, Seq<char>)>, names: Seq<Seq<char>>) -> Option<
    Seq<char>,
> {
    first_of(hits(table, names), names.len() as int)
}

/// The name of the upstream for a connection whose client gave the server
/// names `names`.
pub open spec fn chosen_upstream(
    tls: bool,
    table: Option<Seq<(Seq<char>, Seq<char>)>>,
    names: Seq<Seq<char>>,
    default: Seq<char>,
) -> Seq<char> {
    if !tls {
        default
    } else {
        match table {
            Some(t) => match first_hit(t, names) {
                Some(u) => u,
                None => default,
            },
            None => default,
        }
    }
}

/// For each place in the registry, the place if its upstream is called
/// `name`.
pub open spec fn positions(reg: Seq<(String, Upstream)>, name: Seq<char>) -> spec_fn(
    int,
) -> Option<int> {
    |i: int|
        if reg[i].0@ == name {
            Some(i)
        } else {
            None
        }
}

/// The place of the first upstream called `name` in the registry.
pub open spec fn position_of(reg: Seq<(String, Upstream)>, name: Seq<char>) -> Option<int> {
    first_of(positions(reg, name), reg.len() as int)
}

/// The upstream that serves a connection.
#[derive(Debug, Clone, Copy, PartialEq, Eq, Structural)]
pub struct Dispatch {
    /// Its place in the registry.
    pub at: usize,
    /// Whether it is the default upstream, taken because the registry does
    /// not hold the upstream that was chosen.
    pub fallback: bool,
}

/// The place of the upstream that serves a connection for which `selected`
/// was chosen: that of `selected`, or else that of `default`.
pub open spec fn dispatched(reg: Seq<(String, Upstream)>, selected: Seq<char>, default: Seq<char>) -> Option<
    int,
> {
    match position_of(reg, selected) {
        Some(i) => Some(i),
        None => position_of(reg, default),
    }
}

/// The upstream that `table` routes the server name `name` to.
pub fn lookup_route<'a>(table: &'a Vec<(String, String)>, name: &str) -> (r: Option<&'a String>)
    ensures
        r.is_some() == route_of(pair_views(table@), name@).is_some(),
        r matches Some(u) ==> Some(u@) == route_of(pair_views(table@), name@),
{
    let ghost f = routes(pair_views(table@), name@);
    let mut i: usize = 0;
    while i < table.len()
        invariant
            i <= table@.len(),
            f == routes(pair_views(table@), name@),
            first_of(f, i as int).is_none(),
        decreases table@.len() - i,
    {
        if same_text_ignoring_case(table[i].0.as_str(), name) {
            proof {
                assert(first_of(f, i + 1) == f(i as int));
                lemma_first_stays(f, i + 1, table@.len() as int);
            }
            return Some(&table[i].1);
        }
        proof {
            assert(first_of(f, i + 1) == f(i as int));
        }
        i = i + 1;
    }
    None
}

/// The name of the upstream for a connection. `names` are the server names
/// that the client gave, in its order; they count only on a listener with
/// TLS and a table.
pub fn select_upstream(
    tls: bool,
    sni: &Option<Vec<(String, String)>>,
    names: &Vec<String>,
    default: &str,
) -> (chosen: String)
    ensures
        chosen@ == chosen_upstream(tls, table_view(*sni), texts(names@), default@),
{
    if !tls {
        return owned(default);
    }
    match sni {
        None => owned(default),
        Some(table) => {
            let ghost t = pair_views(table@);
            let ghost f = hits(t, texts(names@));
            let mut i: usize = 0;
            while i < names.len()
                invariant
                    i <= names@.len(),
                    tls,
                    table_view(*sni) == Some(t),
                    t == pair_views(table@),
                    f == hits(t, texts(names@)),
                    first_of(f, i as int).is_none(),
                decreases names@.len() - i,
            {
                assert(texts(names@)[i as int] == names@[i as int]@);
                match lookup_route(table, names[i].as_str()) {
                    Some(u) => {
                        proof {
                            assert(first_of(f, i + 1) == f(i as int));
                            lemma_first_stays(f, i + 1, names@.len() as int);
                        }
                        return owned(u.as_str());
                    },
                    None => {
                        proof {
                            assert(first_of(f, i + 1) == f(i as int));
                        }
                    },
                }
                i = i + 1;
            }
            owned(default)
        },
    }
}

/// The name of the upstream for a connection on a listener, from the bytes
/// that were peeked from the connection. A listener without TLS does not
/// look at them.
pub fn route_connection(
    tls: bool,
    sni: &Option<Vec<(String, String)>>,
    peeked: &[u8],
    default: &str,
) -> (chosen: String)
    ensures
        chosen@ == chosen_upstream(tls, table_view(*sni), sni_names(peeked@), default@),
{
    if !tls {
        return owned(default);
    }
    let names: Vec<String> = get_sni(peeked);
    select_upstream(tls, sni, &names, default)
}

/// The place in the registry of the first upstream called `name`.
pub fn find_upstream(reg: &Vec<(String, Upstream)>, name: &str) -> (r: Option<usize>)
    ensures
        r.is_some() == position_of(reg@, name@).is_some(),
        r matches Some(i) ==> position_of(reg@, name@) == Some(i as int) && i < reg@.len()
            && reg@[i as int].0@ == name@,
{
    let ghost f = positions(reg@, name@);
    let mut i: usize = 0;
    while i < reg.len()
        invariant
            i <= reg@.len(),
            f == positions(reg@, name@),
            first_of(f, i as int).is_none(),
        decreases reg@.len() - i,
    {
        if crate::text::same_text(reg[i].0.as_str(), name) {
            proof {
                assert(first_of(f, i + 1) == f(i as int));
                lemma_first_stays(f, i + 1, reg@.len() as int);
            }
            return Some(i);
        }
        proof {
            assert(first_of(f, i + 1) == f(i as int));
        }
        i = i + 1;
    }
    None
}

/// The upstream that serves a connection for which `selected` was chosen.
/// Where the registry does not hold `selected`, the default upstream
/// serves, and the result says so; where it holds neither, nothing serves
/// and the connection is closed.
pub fn dispatch(reg: &Vec<(String, Upstream)>, selected: &str, default: &str) -> (r: Option<Dispatch>)
    ensures
        r.is_some() == dispatched(reg@, selected@, default@).is_some(),
        r matches Some(d) ==> dispatched(reg@, selected@, default@) == Some(d.at as int) && d.at
            < reg@.len() && d.fallback == position_of(reg@, selected@).is_none(),
{
    match find_upstream(reg, selected) {
        Some(i) => Some(Dispatch { at: i, fallback: false }),
        None => match find_upstream(reg, default) {
            Some(i) => Some(Dispatch { at: i, fallback: true }),
            None => None,
        },
    }
}

/// On a listener without TLS every connection goes to the default
/// upstream, whatever the client sends.
pub proof fn lemma_plain_listener_uses_default(
    table: Option<Seq<(Seq<char>, Seq<char>)>>,
    names: Seq<Seq<char>>,
    default: Seq<char>,
)
    ensures
        chosen_upstream(false, table, names, default) == default,
{
}

/// On a listener with TLS, if some server name of the client matches a
/// key of the table, the upstream is the value of the first such name in
/// the client's order: `names[i]` is the first name with a match, and
/// entry `k` is the first entry that matches it.
pub proof fn lemma_first_matching_name_decides(
    table: Seq<(Seq<char>, Seq<char>)>,
    names: Seq<Seq<char>>,
    default: Seq<char>,
    i: int,
    k: int,
)
    requires
        0 <= i < names.len(),
        0 <= k < table.len(),
        same_ignoring_case(table[k].0, names[i]),
        forall|t: int| 0 <= t < k ==> !same_ignoring_case((#[trigger] table[t]).0, names[i]),
        forall|j: int, t: int|
            0 <= j < i && 0 <= t < table.len() ==> !same_ignoring_case(
                (#[trigger] table[t]).0,
                #[trigger] names[j],
            ),
    ensures
        chosen_upstream(true, Some(table), names, default) == table[k].1,
{
    let f = hits(table, names);
    assert forall|j: int| 0 <= j < i implies (#[trigger] f(j)).is_none() by {
        let g = routes(table, names[j]);
        assert forall|t: int| 0 <= t < table.len() implies (#[trigger] g(t)).is_none() by {
            assert(!same_ignoring_case(table[t].0, names[j]));
        }
        lemma_first_none(g, table.len() as int);
    }
    let g = routes(table, names[i]);
    assert forall|t: int| 0 <= t < k implies (#[trigger] g(t)).is_none() by {
        assert(!same_ignoring_case(table[t].0, names[i]));
    }
    lemma_first_at(g, table.len() as int, k);
    lemma_first_at(f, names.len() as int, i);
}

/// On a listener with TLS, where no server name of the client matches a
/// key of the table, the default upstream is used.
pub proof fn lemma_no_match_uses_default(
    table: Seq<(Seq<char>, Seq<char>)>,
    names: Seq<Seq<char>>,
    default: Seq<char>,
)
    requires
        forall|j: int, t: int|
            0 <= j < names.len() && 0 <= t < table.len() ==> !same_ignoring_case(
                (#[trigger] table[t]).0,
                #[trigger] names[j],
            ),
    ensures
        chosen_upstream(true, Some(table), names, default) == default,
{
    let f = hits(table, names);
    assert forall|j: int| 0 <= j < names.len() implies (#[trigger] f(j)).is_none() by {
        let g = routes(table, names[j]);
        assert forall|t: int| 0 <= t < table.len() implies (#[trigger] g(t)).is_none() by {
            assert(!same_ignoring_case(table[t].0, names[j]));
        }
        lemma_first_none(g, table.len() as int);
    }
    lemma_first_none(f, names.len() as int);
}

} // verus!
