//! The first of a row of optional findings.

use vstd::prelude::*;

verus! {

/// The first of `f(0)`, ..., `f(n - 1)` that is there.
pub open spec fn first_of<T>(f: spec_fn(int) -> Option<T>, n: int) -> Option<T>
    decreases n,
{
    if n <= 0 {
        None
    } else {
        match first_of(f, n - 1) {
            Some(e) => Some(e),
            None => f(n - 1),
        }
    }
}

/// What is first among the first `n` stays first among more.
pub proof fn lemma_first_stays<T>(f: spec_fn(int) -> Option<T>, n: int, m: int)
    requires
        0 <= n <= m,
        first_of(f, n).is_some(),
    ensures
        first_of(f, m) == first_of(f, n),
    decreases m - n,
{
    if n < m {
        lemma_first_stays(f, n, m - 1);
    }
}

/// Where nothing is found before `i`, what is found at `i` is the first.
pub proof fn lemma_first_at<T>(f: spec_fn(int) -> Option<T>, n: int, i: int)
    requires
        0 <= i < n,
        forall|j: int| 0 <= j < i ==> (#[trigger] f(j)).is_none(),
        f(i).is_some(),
    ensures
        first_of(f, n) == f(i),
{
    lemma_first_none(f, i);
    assert(first_of(f, i + 1) == f(i));
    lemma_first_stays(f, i + 1, n);
}

/// Where nothing is found at all, there is no first.
pub proof fn lemma_first_none<T>(f: spec_fn(int) -> Option<T>, n: int)
    requires
        forall|j: int| 0 <= j < n ==> (#[trigger] f(j)).is_none(),
    ensures
        first_of(f, n).is_none(),
    decreases n,
{
    if n > 0 {
        lemma_first_none(f, n - 1);
    }
}

/// Where something is found at `j`, there is a first.
pub proof fn lemma_first_exists<T>(f: spec_fn(int) -> Option<T>, n: int, j: int)
    requires
        0 <= j < n,
        f(j).is_some(),
    ensures
        first_of(f, n).is_some(),
    decreases n,
{
    if j < n - 1 {
        lemma_first_exists(f, n - 1, j);
    }
}

/// Where there is no first, nothing is found anywhere.
pub proof fn lemma_none_found<T>(f: spec_fn(int) -> Option<T>, n: int, j: int)
    requires
        0 <= j < n,
        first_of(f, n).is_none(),
    ensures
        f(j).is_none(),
{
    if f(j).is_some() {
        lemma_first_exists(f, n, j);
    }
}

} // verus!
