use vstd::prelude::*;
use crate::dag::{acyclic, dag_check, edge_error, edge_problems, event_with_hash, has_hash, hash_taken_before, hashes_unique,
    index_error, index_problems, lemma_edges_ok_sound, lemma_index_ok_unique, parent_problem, parent_problems, greedy_at, greedy_of, hashes_distinct, is_greedy_order, is_parent, is_topological, lemma_greedy_unique, order_by, ready, SortKey};
use crate::event::EventView;
use crate::checks::lemma_first_some_none;
use crate::replay::{dup_parent_problems, entity_index_problems, entity_order, entity_order_check, event_dup_parent, is_root, roots_upto};

verus! {

/// `es2` lists the events of `es1` in another order: position `i` of `es2` holds event
/// `perm[i]` of `es1`, and `inv` maps each event of `es1` back to its position in `es2`.
pub open spec fn is_reordering(es1: Seq<EventView>, es2: Seq<EventView>, perm: Seq<int>, inv: Seq<int>) -> bool {
    &&& es1.len() == es2.len()
    &&& perm.len() == es2.len()
    &&& inv.len() == es1.len()
    &&& forall|i: int| 0 <= i < es2.len() ==> 0 <= #[trigger] perm[i] < es1.len() && inv[perm[i]] == i
    &&& forall|k: int| 0 <= k < es1.len() ==> 0 <= #[trigger] inv[k] < es2.len() && perm[inv[k]] == k
    &&& forall|i: int| 0 <= i < es2.len() ==> #[trigger] es2[i] == es1[perm[i]]
}

/// An order of `es1`'s events carried over to positions in `es2`.
pub open spec fn carried(order: Seq<int>, inv: Seq<int>) -> Seq<int> {
    order.map_values(|k: int| inv[k])
}

proof fn lemma_carried_contains(order: Seq<int>, es1: Seq<EventView>, es2: Seq<EventView>, perm: Seq<int>, inv: Seq<int>, m2: int)
    requires
        is_reordering(es1, es2, perm, inv),
        forall|q: int| 0 <= q < order.len() ==> 0 <= #[trigger] order[q] < es1.len(),
        0 <= m2 < es2.len(),
    ensures carried(order, inv).contains(m2) <==> order.contains(perm[m2]),
{
    let c = carried(order, inv);
    if c.contains(m2) {
        let q = choose|q: int| 0 <= q < c.len() && c[q] == m2;
        assert(inv[order[q]] == m2);
        assert(perm[inv[order[q]]] == order[q]);
        assert(order[q] == perm[m2]);
    }
    if order.contains(perm[m2]) {
        let q = choose|q: int| 0 <= q < order.len() && order[q] == perm[m2];
        assert(c[q] == inv[perm[m2]]);
    }
}

proof fn lemma_ready_carried(es1: Seq<EventView>, es2: Seq<EventView>, perm: Seq<int>, inv: Seq<int>, placed: Seq<int>, k2: int)
    requires
        is_reordering(es1, es2, perm, inv),
        forall|q: int| 0 <= q < placed.len() ==> 0 <= #[trigger] placed[q] < es1.len(),
        0 <= k2 < es2.len(),
    ensures ready(es2, carried(placed, inv), k2) <==> ready(es1, placed, perm[k2]),
{
    lemma_carried_contains(placed, es1, es2, perm, inv, k2);
    let k1 = perm[k2];
    if ready(es2, carried(placed, inv), k2) {
        assert forall|m: int| 0 <= m < es1.len() && #[trigger] is_parent(es1, m, k1) implies placed.contains(m) by {
            let m2 = inv[m];
            assert(es2[m2] == es1[m] && es2[k2] == es1[k1]);
            assert(is_parent(es2, m2, k2));
            lemma_carried_contains(placed, es1, es2, perm, inv, m2);
        }
    }
    if ready(es1, placed, k1) {
        assert forall|m2: int| 0 <= m2 < es2.len() && #[trigger] is_parent(es2, m2, k2) implies carried(placed, inv).contains(m2) by {
            assert(es2[m2] == es1[perm[m2]] && es2[k2] == es1[k1]);
            assert(is_parent(es1, perm[m2], k1));
            lemma_carried_contains(placed, es1, es2, perm, inv, m2);
        }
    }
}

proof fn lemma_topological_carried(es1: Seq<EventView>, es2: Seq<EventView>, perm: Seq<int>, inv: Seq<int>, o1: Seq<int>)
    requires is_reordering(es1, es2, perm, inv), is_topological(es1, o1),
    ensures is_topological(es2, carried(o1, inv)),
{
    let o2 = carried(o1, inv);
    assert forall|q: int| 0 <= q < o2.len() implies 0 <= #[trigger] o2[q] < es2.len() by {
        assert(0 <= o1[q] < es1.len());
    }
    assert forall|k2: int| 0 <= k2 < es2.len() implies #[trigger] o2.contains(k2) by {
        assert(o1.contains(perm[k2]));
        lemma_carried_contains(o1, es1, es2, perm, inv, k2);
    }
    assert(o2.no_duplicates()) by {
        assert forall|a: int, b: int| 0 <= a < o2.len() && 0 <= b < o2.len() && a != b implies o2[a] != o2[b] by {
            assert(0 <= o1[a] < es1.len() && 0 <= o1[b] < es1.len());
            assert(o1[a] != o1[b]);
            assert(perm[inv[o1[a]]] == o1[a] && perm[inv[o1[b]]] == o1[b]);
        }
    }
    assert forall|a: int, b: int| 0 <= a < o2.len() && 0 <= b < o2.len() && #[trigger] is_parent(es2, o2[b], o2[a])
        implies b < a by {
        assert(0 <= o1[a] < es1.len() && 0 <= o1[b] < es1.len());
        assert(es2[o2[a]] == es1[perm[inv[o1[a]]]] && es2[o2[b]] == es1[perm[inv[o1[b]]]]);
        assert(is_parent(es1, o1[b], o1[a]));
    }
}

proof fn lemma_distinct_carried(es1: Seq<EventView>, es2: Seq<EventView>, perm: Seq<int>, inv: Seq<int>)
    requires is_reordering(es1, es2, perm, inv), hashes_distinct(es1),
    ensures hashes_distinct(es2),
{
    assert forall|i: int, j: int| 0 <= i < es2.len() && 0 <= j < es2.len() && i != j implies
        (#[trigger] es2[i]).event_hash != (#[trigger] es2[j]).event_hash by {
        assert(inv[perm[i]] == i && inv[perm[j]] == j);
        assert(perm[i] != perm[j]);
    }
}

/// A list of events that passes DAG validation passes it in any other order too.
pub proof fn lemma_dag_check_reordered(es1: Seq<EventView>, es2: Seq<EventView>, perm: Seq<int>, inv: Seq<int>)
    requires is_reordering(es1, es2, perm, inv), dag_check(es1) is Ok,
    ensures dag_check(es2) is Ok,
{
    lemma_index_ok_unique(es1);
    lemma_distinct_carried(es1, es2, perm, inv);
    assert forall|i: int| 0 <= i < es2.len() implies (#[trigger] index_problems(es2)(i)) is None by {
        assert(es2[i] == es1[perm[i]]);
        assert(es2[i].event_hash.len() > 0);
        if hash_taken_before(es2, i) {
            let j = choose|j: int| 0 <= j < i && es2[j].event_hash == es2[i].event_hash;
            assert(es2[j].event_hash != es2[i].event_hash);
        }
    }
    lemma_first_some_none(es2.len(), index_problems(es2));
    lemma_edges_ok_sound(es1);
    assert forall|i: int| 0 <= i < es2.len() implies (#[trigger] edge_problems(es2)(i)) is None by {
        let i1 = perm[i];
        assert(es2[i] == es1[i1]);
        assert forall|j: int| 0 <= j < es2[i].parent_hashes.len() implies (#[trigger] parent_problems(es2, i)(j)) is None by {
            assert(parent_problem(es1, i1, j) is None);
            let p = es2[i].parent_hashes[j];
            assert(has_hash(es1, p));
            let k1 = event_with_hash(es1, p);
            assert(es2[inv[k1]] == es1[k1]);
            assert(has_hash(es2, p));
            let k2 = event_with_hash(es2, p);
            assert(es2[k2].event_hash == p);
            assert(es2[inv[k1]].event_hash == p);
            assert(k2 == inv[k1]);
        }
        lemma_first_some_none(es2[i].parent_hashes.len(), parent_problems(es2, i));
    }
    lemma_first_some_none(es2.len(), edge_problems(es2));
    let o1 = choose|order: Seq<int>| is_topological(es1, order);
    lemma_topological_carried(es1, es2, perm, inv, o1);
    assert(acyclic(es2));
}

proof fn lemma_greedy_carried(es1: Seq<EventView>, es2: Seq<EventView>, perm: Seq<int>, inv: Seq<int>, o1: Seq<int>, key: SortKey)
    requires is_reordering(es1, es2, perm, inv), is_greedy_order(es1, o1, key),
    ensures is_greedy_order(es2, carried(o1, inv), key),
{
    let o2 = carried(o1, inv);
    assert forall|q: int| 0 <= q < o2.len() implies 0 <= #[trigger] o2[q] < es2.len() by {
        assert(0 <= o1[q] < es1.len());
    }
    assert forall|k2: int| 0 <= k2 < es2.len() implies #[trigger] o2.contains(k2) by {
        assert(o1.contains(perm[k2]));
        lemma_carried_contains(o1, es1, es2, perm, inv, k2);
    }
    assert(o2.no_duplicates()) by {
        assert forall|a: int, b: int| 0 <= a < o2.len() && 0 <= b < o2.len() && a != b implies o2[a] != o2[b] by {
            assert(0 <= o1[a] < es1.len() && 0 <= o1[b] < es1.len());
            assert(o1[a] != o1[b]);
            assert(perm[inv[o1[a]]] == o1[a] && perm[inv[o1[b]]] == o1[b]);
        }
    }
    assert forall|a: int, b: int| 0 <= a < o2.len() && 0 <= b < o2.len() && #[trigger] is_parent(es2, o2[b], o2[a])
        implies b < a by {
        assert(0 <= o1[a] < es1.len() && 0 <= o1[b] < es1.len());
        assert(es2[o2[a]] == es1[perm[inv[o1[a]]]] && es2[o2[b]] == es1[perm[inv[o1[b]]]]);
        assert(is_parent(es1, o1[b], o1[a]));
    }
    assert(is_topological(es2, o2));
    assert forall|p: int| 0 <= p < o2.len() implies #[trigger] greedy_at(es2, o2, p, key) by {
        assert(greedy_at(es1, o1, p, key));
        let placed = o1.take(p);
        assert(o2.take(p) =~= carried(placed, inv));
        assert forall|q: int| 0 <= q < placed.len() implies 0 <= #[trigger] placed[q] < es1.len() by {
            assert(placed[q] == o1[q]);
        }
        assert(0 <= o1[p] < es1.len());
        assert(perm[o2[p]] == o1[p]);
        lemma_ready_carried(es1, es2, perm, inv, placed, o2[p]);
        assert forall|k2: int| #[trigger] ready(es2, o2.take(p), k2) implies order_by(key, es2[o2[p]], es2[k2]) <= 0 by {
            lemma_ready_carried(es1, es2, perm, inv, placed, k2);
            assert(ready(es1, placed, perm[k2]));
            assert(es2[o2[p]] == es1[o1[p]] && es2[k2] == es1[perm[k2]]);
        }
    }
}

/// The greedy order does not depend on the order the events are given in: for events
/// with distinct hashes, the greedy order of any reordering lists the same events in the
/// same order.
pub proof fn lemma_greedy_order_free(es1: Seq<EventView>, es2: Seq<EventView>, perm: Seq<int>, inv: Seq<int>, key: SortKey)
    requires
        is_reordering(es1, es2, perm, inv),
        hashes_distinct(es1),
        is_greedy_order(es1, greedy_of(es1, key), key),
    ensures
        is_greedy_order(es2, greedy_of(es2, key), key),
        greedy_of(es2, key).map_values(|k: int| es2[k]) == greedy_of(es1, key).map_values(|k: int| es1[k]),
{
    let o1 = greedy_of(es1, key);
    let o2 = carried(o1, inv);
    lemma_greedy_carried(es1, es2, perm, inv, o1, key);
    assert(hashes_distinct(es2)) by {
        assert forall|i: int, j: int| 0 <= i < es2.len() && 0 <= j < es2.len() && i != j implies
            (#[trigger] es2[i]).event_hash != (#[trigger] es2[j]).event_hash by {
            assert(inv[perm[i]] == i && inv[perm[j]] == j);
            assert(perm[i] != perm[j]);
        }
    }
    lemma_greedy_unique(es2, greedy_of(es2, key), o2, key);
    let m1 = o1.map_values(|k: int| es1[k]);
    let m2 = o2.map_values(|k: int| es2[k]);
    assert forall|q: int| 0 <= q < o1.len() implies #[trigger] m2[q] == m1[q] by {
        assert(0 <= o1[q] < es1.len());
        assert(es2[inv[o1[q]]] == es1[perm[inv[o1[q]]]]);
    }
    assert(m2 =~= m1);
}

/// `topological_order` does not depend on the order of its input: when it orders a list of
/// events, it orders every reordering of them too, giving the same events in the same order.
pub proof fn lemma_topological_order_free(es1: Seq<EventView>, es2: Seq<EventView>, perm: Seq<int>, inv: Seq<int>)
    requires
        is_reordering(es1, es2, perm, inv),
        dag_check(es1) is Ok,
        is_greedy_order(es1, greedy_of(es1, SortKey::Dag), SortKey::Dag),
    ensures
        dag_check(es2) is Ok,
        is_greedy_order(es2, greedy_of(es2, SortKey::Dag), SortKey::Dag),
        greedy_of(es2, SortKey::Dag).map_values(|k: int| es2[k]) == greedy_of(es1, SortKey::Dag).map_values(|k: int| es1[k]),
{
    lemma_dag_check_reordered(es1, es2, perm, inv);
    lemma_index_ok_unique(es1);
    lemma_greedy_order_free(es1, es2, perm, inv, SortKey::Dag);
}

/// The count of roots among the first `n` events is zero exactly when none of them is a root.
proof fn lemma_no_root(es: Seq<EventView>, n: nat)
    requires n <= es.len(),
    ensures roots_upto(es, n) == 0 <==> forall|j: int| 0 <= j < n ==> !#[trigger] is_root(es, j),
    decreases n,
{
    if n > 0 {
        lemma_no_root(es, (n - 1) as nat);
    }
}

/// Exactly one root among the first `n` events.
spec fn one_root(es: Seq<EventView>, n: nat, i: int) -> bool {
    &&& 0 <= i < n
    &&& is_root(es, i)
    &&& forall|j: int| 0 <= j < n && #[trigger] is_root(es, j) ==> j == i
}

/// The count of roots among the first `n` events is one exactly when one of them is a
/// root and no other is.
#[verifier::spinoff_prover]
proof fn lemma_root_count(es: Seq<EventView>, n: nat)
    requires n <= es.len(),
    ensures roots_upto(es, n) == 1 <==> exists|i: int| #[trigger] one_root(es, n, i),
    decreases n,
{
    if n > 0 {
        let m = (n - 1) as nat;
        lemma_root_count(es, m);
        lemma_no_root(es, m);
        let last = is_root(es, m as int);
        assert(roots_upto(es, n) == roots_upto(es, m) + if last { 1nat } else { 0nat });
        if roots_upto(es, n) == 1 {
            if last {
                assert(one_root(es, n, m as int));
            } else {
                let i = choose|i: int| #[trigger] one_root(es, m, i);
                assert(one_root(es, n, i));
            }
        }
        if exists|i: int| #[trigger] one_root(es, n, i) {
            let i = choose|i: int| #[trigger] one_root(es, n, i);
            if i == m {
                assert forall|j: int| 0 <= j < m implies !#[trigger] is_root(es, j) by {
                    if is_root(es, j) { assert(j == i); }
                }
            } else {
                assert(one_root(es, m, i));
            }
        }
    }
}

proof fn lemma_root_carried(es1: Seq<EventView>, es2: Seq<EventView>, perm: Seq<int>, inv: Seq<int>, k2: int)
    requires is_reordering(es1, es2, perm, inv), 0 <= k2 < es2.len(),
    ensures is_root(es2, k2) <==> is_root(es1, perm[k2]),
{
    let k1 = perm[k2];
    if is_root(es2, k2) {
        assert forall|m: int| 0 <= m < es1.len() implies !#[trigger] is_parent(es1, m, k1) by {
            assert(es2[inv[m]] == es1[m] && es2[k2] == es1[k1]);
            if is_parent(es1, m, k1) { assert(is_parent(es2, inv[m], k2)); }
        }
    }
    if is_root(es1, k1) {
        assert forall|m2: int| 0 <= m2 < es2.len() implies !#[trigger] is_parent(es2, m2, k2) by {
            assert(es2[m2] == es1[perm[m2]] && es2[k2] == es1[k1]);
            if is_parent(es2, m2, k2) { assert(is_parent(es1, perm[m2], k1)); }
        }
    }
}

/// How an entity's history is checked and ordered does not depend on the order its events
/// are given in: when a list of events passes the checks, every reordering of it passes
/// them too and is applied in the same order.
pub proof fn lemma_entity_order_free(g1: Seq<EventView>, g2: Seq<EventView>, perm: Seq<int>, inv: Seq<int>)
    requires
        is_reordering(g1, g2, perm, inv),
        entity_order_check(g1) is Ok,
        is_greedy_order(g1, greedy_of(g1, SortKey::Entity), SortKey::Entity),
    ensures
        entity_order_check(g2) is Ok,
        is_greedy_order(g2, greedy_of(g2, SortKey::Entity), SortKey::Entity),
        entity_order(g2) == entity_order(g1),
{
    let n = g1.len();
    if n > 0 {
        lemma_first_some_none(n, entity_index_problems(g1));
        assert forall|a: int, b: int| 0 <= a < n && 0 <= b < n && a != b implies
            (#[trigger] g1[a]).event_hash != (#[trigger] g1[b]).event_hash by {
            if a < b { assert(entity_index_problems(g1)(b) is None); } else { assert(entity_index_problems(g1)(a) is None); }
        }
        lemma_distinct_carried(g1, g2, perm, inv);
        assert forall|i: int| 0 <= i < n implies (#[trigger] entity_index_problems(g2)(i)) is None by {
            if hash_taken_before(g2, i) {
                let j = choose|j: int| 0 <= j < i && g2[j].event_hash == g2[i].event_hash;
                assert(g2[j].event_hash != g2[i].event_hash);
            }
        }
        lemma_first_some_none(n, entity_index_problems(g2));
        lemma_first_some_none(n, event_dup_parent(g1));
        assert forall|i: int| 0 <= i < n implies (#[trigger] event_dup_parent(g2)(i)) is None by {
            assert(g2[i] == g1[perm[i]]);
            assert(dup_parent_problems(g2, i) =~= dup_parent_problems(g1, perm[i]));
            assert(event_dup_parent(g1)(perm[i]) is None);
        }
        lemma_first_some_none(n, event_dup_parent(g2));
        lemma_root_count(g1, n);
        lemma_root_count(g2, n);
        let r1 = choose|i: int| #[trigger] one_root(g1, n, i);
        let r2 = inv[r1];
        lemma_root_carried(g1, g2, perm, inv, r2);
        assert forall|j: int| 0 <= j < n && #[trigger] is_root(g2, j) implies j == r2 by {
            lemma_root_carried(g1, g2, perm, inv, j);
            assert(perm[j] == r1);
        }
        assert(one_root(g2, n, r2));
        let o1 = choose|order: Seq<int>| is_topological(g1, order);
        lemma_topological_carried(g1, g2, perm, inv, o1);
        assert(acyclic(g2));
    } else {
        assert(hashes_distinct(g1));
    }
    lemma_greedy_order_free(g1, g2, perm, inv, SortKey::Entity);
}

} // verus!
