use vstd::prelude::*;

verus! {

/// The first of `f(0), f(1), ..., f(n - 1)` that is `Some`: the first problem a check
/// over `n` items reports.
pub open spec fn first_some<T>(n: nat, f: spec_fn(int) -> Option<T>) -> Option<T>
    decreases n,
{
    if n == 0 {
        None
    } else {
        match first_some((n - 1) as nat, f) {
            Some(x) => Some(x),
            None => f(n - 1),
        }
    }
}

/// No item reports a problem exactly when none of them does.
pub proof fn lemma_first_some_none<T>(n: nat, f: spec_fn(int) -> Option<T>)
    ensures first_some(n, f) is None <==> forall|i: int| 0 <= i < n ==> (#[trigger] f(i)) is None,
    decreases n,
{
    if n > 0 {
        lemma_first_some_none((n - 1) as nat, f);
    }
}

/// Once a problem is found among the first `k` items, looking further does not change it.
pub proof fn lemma_first_some_stable<T>(k: nat, n: nat, f: spec_fn(int) -> Option<T>)
    requires k <= n, first_some(k, f) is Some,
    ensures first_some(n, f) == first_some(k, f),
    decreases n,
{
    if n > k {
        lemma_first_some_stable(k, (n - 1) as nat, f);
    }
}

/// One step of a scan: with no problem among the first `i` items, the first `i + 1`
/// report what item `i` reports, and a problem there is the overall answer.
pub proof fn lemma_first_some_step<T>(i: nat, n: nat, f: spec_fn(int) -> Option<T>)
    requires i < n, first_some(i, f) is None,
    ensures
        first_some(i + 1, f) == f(i as int),
        f(i as int) is Some ==> first_some(n, f) == f(i as int),
{
    assert(first_some(i + 1, f) == f(i as int));
    if f(i as int) is Some {
        lemma_first_some_stable(i + 1, n, f);
    }
}

} // verus!
