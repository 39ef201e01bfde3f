use vstd::prelude::*;
use crate::state::VectorView;
use crate::stateroot::{insert_state, ordered_states, state_order, state_set_root};
use crate::strmap::{key_order, lemma_key_order_eq, lemma_key_order_props};

verus! {

broadcast use vstd::seq_lib::group_to_multiset_ensures;

/// States listed in state-root order.
pub open spec fn states_sorted(s: Seq<VectorView>) -> bool {
    forall|i: int, j: int| 0 <= i < j < s.len() ==> state_order(#[trigger] s[i], #[trigger] s[j]) <= 0
}

/// No two different states of a list tie in state-root order.
pub open spec fn no_order_ties(s: Seq<VectorView>) -> bool {
    forall|i: int, j: int| 0 <= i < s.len() && 0 <= j < s.len() && state_order(#[trigger] s[i], #[trigger] s[j]) == 0
        ==> s[i] == s[j]
}

proof fn lemma_state_order_props(a: VectorView, b: VectorView, c: VectorView)
    ensures
        state_order(a, b) == -state_order(b, a),
        state_order(a, b) <= 0 && state_order(b, c) <= 0 ==> state_order(a, c) <= 0,
{
    lemma_key_order_props(a.vector_id, b.vector_id, c.vector_id);
    lemma_key_order_props(b.vector_id, c.vector_id, a.vector_id);
    lemma_key_order_props(a.vector_id, c.vector_id, b.vector_id);
    lemma_key_order_eq(a.vector_id, b.vector_id);
    lemma_key_order_eq(b.vector_id, c.vector_id);
    lemma_key_order_eq(a.vector_id, c.vector_id);
    lemma_key_order_eq(b.vector_id, a.vector_id);
}

proof fn lemma_multiset_first<A>(s: Seq<A>)
    requires s.len() > 0,
    ensures s.to_multiset() == s.drop_first().to_multiset().insert(s[0]),
{
    vstd::seq_lib::lemma_multiset_commutative(seq![s[0]], s.drop_first());
    assert(seq![s[0]] + s.drop_first() =~= s);
    assert(seq![s[0]] =~= Seq::<A>::empty().push(s[0]));
}

proof fn lemma_insert_state_props(s: Seq<VectorView>, x: VectorView)
    requires states_sorted(s),
    ensures
        states_sorted(insert_state(s, x)),
        insert_state(s, x).to_multiset() == s.to_multiset().insert(x),
    decreases s.len(),
{
    let r = insert_state(s, x);
    if s.len() == 0 {
        assert(r == seq![x]);
        assert(seq![x] =~= Seq::<VectorView>::empty().push(x));
    } else if state_order(x, s[0]) < 0 {
        assert(r == seq![x] + s);
        assert(r.drop_first() =~= s);
        lemma_multiset_first(r);
        assert forall|i: int, j: int| 0 <= i < j < r.len() implies state_order(#[trigger] r[i], #[trigger] r[j]) <= 0 by {
            if i == 0 {
                lemma_state_order_props(x, s[0], r[j]);
            } else {
                assert(r[i] == s[i - 1] && r[j] == s[j - 1]);
            }
        }
    } else {
        let t = s.drop_first();
        assert(states_sorted(t)) by {
            assert forall|i: int, j: int| 0 <= i < j < t.len() implies state_order(#[trigger] t[i], #[trigger] t[j]) <= 0 by {
                assert(t[i] == s[i + 1] && t[j] == s[j + 1]);
            }
        }
        lemma_insert_state_props(t, x);
        let it = insert_state(t, x);
        assert(r == seq![s[0]] + it);
        assert(r.drop_first() =~= it);
        lemma_multiset_first(r);
        lemma_multiset_first(s);
        lemma_state_order_props(s[0], x, x);
        assert forall|j: int| 0 <= j < it.len() implies state_order(s[0], #[trigger] it[j]) <= 0 by {
            assert(it.to_multiset().count(it[j]) > 0);
            assert(t.to_multiset().insert(x).count(it[j]) > 0);
            if it[j] != x {
                assert(t.to_multiset().count(it[j]) > 0);
                assert(t.contains(it[j]));
                let k = choose|k: int| 0 <= k < t.len() && t[k] == it[j];
                assert(s[k + 1] == t[k]);
            }
        }
        assert forall|i: int, j: int| 0 <= i < j < r.len() implies state_order(#[trigger] r[i], #[trigger] r[j]) <= 0 by {
            if i == 0 {
                assert(r[j] == it[j - 1]);
            } else {
                assert(r[i] == it[i - 1] && r[j] == it[j - 1]);
            }
        }
    }
}

/// State-root order lists the states sorted, each as many times as given.
pub proof fn lemma_ordered_states_sorted(s: Seq<VectorView>)
    ensures
        states_sorted(ordered_states(s)),
        ordered_states(s).to_multiset() == s.to_multiset(),
    decreases s.len(),
{
    if s.len() > 0 {
        lemma_ordered_states_sorted(s.drop_last());
        lemma_insert_state_props(ordered_states(s.drop_last()), s.last());
        assert(s.drop_last().push(s.last()) =~= s);
    }
}

proof fn lemma_sorted_unique(a: Seq<VectorView>, b: Seq<VectorView>, all: Seq<VectorView>)
    requires
        states_sorted(a), states_sorted(b),
        a.to_multiset() == b.to_multiset(),
        a.to_multiset().subset_of(all.to_multiset()),
        no_order_ties(all),
    ensures a == b,
    decreases a.len(),
{
    assert(a.len() == a.to_multiset().len() && b.len() == b.to_multiset().len());
    if a.len() > 0 {
        assert(a.to_multiset().count(a[0]) > 0);
        assert(b.to_multiset().count(b[0]) > 0);
        assert(b.contains(a[0]));
        assert(a.contains(b[0]));
        let k = choose|k: int| 0 <= k < b.len() && b[k] == a[0];
        let m = choose|m: int| 0 <= m < a.len() && a[m] == b[0];
        if k > 0 { assert(state_order(b[0], b[k]) <= 0); }
        if m > 0 { assert(state_order(a[0], a[m]) <= 0); }
        lemma_state_order_props(a[0], b[0], b[0]);
        lemma_state_order_props(a[0], a[0], a[0]);
        assert(state_order(a[0], b[0]) == 0);
        assert(all.to_multiset().count(a[0]) > 0 && all.to_multiset().count(b[0]) > 0);
        assert(all.contains(a[0]) && all.contains(b[0]));
        let p = choose|p: int| 0 <= p < all.len() && all[p] == a[0];
        let q = choose|q: int| 0 <= q < all.len() && all[q] == b[0];
        assert(state_order(all[p], all[q]) == 0);
        assert(a[0] == b[0]);
        lemma_multiset_first(a);
        lemma_multiset_first(b);
        let ta = a.drop_first();
        let tb = b.drop_first();
        assert(ta.to_multiset() =~= a.to_multiset().remove(a[0]));
        assert(tb.to_multiset() =~= b.to_multiset().remove(b[0]));
        assert(states_sorted(ta)) by {
            assert forall|i: int, j: int| 0 <= i < j < ta.len() implies state_order(#[trigger] ta[i], #[trigger] ta[j]) <= 0 by {
                assert(ta[i] == a[i + 1] && ta[j] == a[j + 1]);
            }
        }
        assert(states_sorted(tb)) by {
            assert forall|i: int, j: int| 0 <= i < j < tb.len() implies state_order(#[trigger] tb[i], #[trigger] tb[j]) <= 0 by {
                assert(tb[i] == b[i + 1] && tb[j] == b[j + 1]);
            }
        }
        lemma_sorted_unique(ta, tb, all);
        assert(a =~= seq![a[0]] + ta);
        assert(b =~= seq![b[0]] + tb);
    }
}

/// The state root of a set of states does not depend on the order the states are given
/// in, as long as no two different states tie in state-root order.
pub proof fn lemma_state_root_order_free(s1: Seq<VectorView>, s2: Seq<VectorView>, logical_clock: u64)
    requires
        s1.to_multiset() == s2.to_multiset(),
        no_order_ties(s1),
    ensures state_set_root(s1, logical_clock) == state_set_root(s2, logical_clock),
{
    lemma_ordered_states_sorted(s1);
    lemma_ordered_states_sorted(s2);
    lemma_sorted_unique(ordered_states(s1), ordered_states(s2), s1);
}

} // verus!
