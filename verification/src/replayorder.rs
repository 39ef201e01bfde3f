use vstd::prelude::*;
use crate::dag::{dag_check, SortKey};
use crate::dagorder::{is_reordering, lemma_dag_check_reordered, lemma_entity_order_free};
use crate::event::EventView;
use crate::replay::{entity_groups, entity_order, entity_order_check, group_events, group_ordered, groups_ordered,
    groups_upto, lemma_groups_err_stable, replay_groups, replay_spec, Groups};
use crate::strmap::{entries_sorted, key_order, lemma_insert_sorted, lemma_key_order_eq, lemma_key_order_props,
    lemma_lookup_first, lemma_lookup_insert, lemma_lookup_some, lookup};

verus! {

/// The positions among the first `n` events whose entity is `k`, in increasing order.
pub open spec fn entity_positions(es: Seq<EventView>, k: Seq<char>, n: nat) -> Seq<int>
    decreases n,
{
    if n == 0 {
        Seq::empty()
    } else {
        let prev = entity_positions(es, k, (n - 1) as nat);
        if es[n - 1].entity_id == k { prev.push(n - 1) } else { prev }
    }
}

proof fn lemma_positions(es: Seq<EventView>, k: Seq<char>, n: nat)
    requires n <= es.len(),
    ensures
        forall|a: int| 0 <= a < entity_positions(es, k, n).len() ==>
            0 <= #[trigger] entity_positions(es, k, n)[a] < n && es[entity_positions(es, k, n)[a]].entity_id == k,
        forall|i: int| 0 <= i < n && #[trigger] es[i].entity_id == k ==> entity_positions(es, k, n).contains(i),
        forall|a: int, b: int| 0 <= a < b < entity_positions(es, k, n).len() ==>
            #[trigger] entity_positions(es, k, n)[a] < #[trigger] entity_positions(es, k, n)[b],
    decreases n,
{
    if n > 0 {
        let m = (n - 1) as nat;
        lemma_positions(es, k, m);
        let prev = entity_positions(es, k, m);
        let p = entity_positions(es, k, n);
        assert forall|i: int| 0 <= i < n && #[trigger] es[i].entity_id == k implies p.contains(i) by {
            if i < m {
                let a = choose|a: int| 0 <= a < prev.len() && prev[a] == i;
                assert(p[a] == i);
            } else {
                assert(p[p.len() - 1] == i);
            }
        }
    }
}

/// The groups of the first `n` events: sorted by entity id, and each entity's group is the
/// list of its positions.
proof fn lemma_groups_upto(es: Seq<EventView>, n: nat)
    requires n <= es.len(),
    ensures
        entries_sorted(groups_upto(es, n)),
        forall|k: Seq<char>| #[trigger] lookup(groups_upto(es, n), k) == if entity_positions(es, k, n).len() > 0 {
            Some(entity_positions(es, k, n))
        } else {
            None::<Seq<int>>
        },
    decreases n,
{
    if n > 0 {
        let m = (n - 1) as nat;
        lemma_groups_upto(es, m);
        let g = groups_upto(es, m);
        let e = es[m as int].entity_id;
        let value = match lookup(g, e) { Some(x) => x.push(m as int), None => seq![m as int] };
        assert(groups_upto(es, n) == crate::strmap::sorted_insert(g, e, value));
        lemma_insert_sorted(g, e, value);
        assert forall|k: Seq<char>| #[trigger] lookup(groups_upto(es, n), k) == if entity_positions(es, k, n).len() > 0 {
            Some(entity_positions(es, k, n))
        } else {
            None::<Seq<int>>
        } by {
            lemma_lookup_insert(g, e, value, k);
            if k == e {
                if entity_positions(es, k, m).len() == 0 {
                    assert(entity_positions(es, k, n) =~= seq![m as int]);
                }
            }
        }
    }
}

/// Two sorted entry lists with the same keys have them at the same positions.
proof fn lemma_same_keys(s1: Groups, s2: Groups)
    requires
        entries_sorted(s1), entries_sorted(s2),
        forall|k: Seq<char>| (#[trigger] lookup(s1, k) is Some) == (lookup(s2, k) is Some),
    ensures
        s1.len() == s2.len(),
        forall|p: int| 0 <= p < s1.len() ==> (#[trigger] s1[p]).0 == s2[p].0,
    decreases s1.len(),
{
    if s1.len() == 0 {
        if s2.len() > 0 {
            lemma_lookup_some(s2, s2[0].0);
            lemma_lookup_some(s1, s2[0].0);
            assert(lookup(s1, s2[0].0) is Some);
        }
    } else if s2.len() == 0 {
        lemma_lookup_some(s1, s1[0].0);
        lemma_lookup_some(s2, s1[0].0);
        assert(lookup(s2, s1[0].0) is Some);
    } else {
        let a = s1[0].0;
        let b = s2[0].0;
        lemma_lookup_some(s1, a);
        lemma_lookup_some(s2, a);
        lemma_lookup_some(s1, b);
        lemma_lookup_some(s2, b);
        assert(lookup(s2, a) is Some);
        assert(lookup(s1, b) is Some);
        let ja = choose|j: int| 0 <= j < s2.len() && (#[trigger] s2[j]).0 == a;
        let jb = choose|j: int| 0 <= j < s1.len() && (#[trigger] s1[j]).0 == b;
        lemma_key_order_eq(b, a);
        lemma_key_order_eq(a, b);
        lemma_key_order_props(a, b, a);
        if ja > 0 { assert(key_order(s2[0].0, s2[ja].0) < 0); }
        if jb > 0 { assert(key_order(s1[0].0, s1[jb].0) < 0); }
        assert(a == b);
        let t1 = s1.drop_first();
        let t2 = s2.drop_first();
        assert(entries_sorted(t1)) by {
            assert forall|i: int, j: int| 0 <= i < j < t1.len() implies key_order(#[trigger] t1[i].0, #[trigger] t1[j].0) < 0 by {
                assert(t1[i] == s1[i + 1] && t1[j] == s1[j + 1]);
            }
        }
        assert(entries_sorted(t2)) by {
            assert forall|i: int, j: int| 0 <= i < j < t2.len() implies key_order(#[trigger] t2[i].0, #[trigger] t2[j].0) < 0 by {
                assert(t2[i] == s2[i + 1] && t2[j] == s2[j + 1]);
            }
        }
        assert forall|k: Seq<char>| (#[trigger] lookup(t1, k) is Some) == (lookup(t2, k) is Some) by {
            lemma_lookup_some(t1, k);
            lemma_lookup_some(t2, k);
            lemma_lookup_some(s1, k);
            lemma_lookup_some(s2, k);
            assert(lookup(s1, k) is Some == lookup(s2, k) is Some);
            if k != a {
                if lookup(s1, k) is Some {
                    let j = choose|j: int| 0 <= j < s1.len() && (#[trigger] s1[j]).0 == k;
                    assert(t1[j - 1] == s1[j]);
                }
                if lookup(s2, k) is Some {
                    let j = choose|j: int| 0 <= j < s2.len() && (#[trigger] s2[j]).0 == k;
                    assert(t2[j - 1] == s2[j]);
                }
                if lookup(t1, k) is Some {
                    let j = choose|j: int| 0 <= j < t1.len() && (#[trigger] t1[j]).0 == k;
                    assert(s1[j + 1] == t1[j]);
                }
                if lookup(t2, k) is Some {
                    let j = choose|j: int| 0 <= j < t2.len() && (#[trigger] t2[j]).0 == k;
                    assert(s2[j + 1] == t2[j]);
                }
            } else {
                if lookup(t1, k) is Some {
                    let j = choose|j: int| 0 <= j < t1.len() && (#[trigger] t1[j]).0 == k;
                    assert(s1[j + 1] == t1[j]);
                    assert(key_order(s1[0].0, s1[j + 1].0) < 0);
                    lemma_key_order_eq(s1[0].0, s1[j + 1].0);
                }
                if lookup(t2, k) is Some {
                    let j = choose|j: int| 0 <= j < t2.len() && (#[trigger] t2[j]).0 == k;
                    assert(s2[j + 1] == t2[j]);
                    assert(key_order(s2[0].0, s2[j + 1].0) < 0);
                    lemma_key_order_eq(s2[0].0, s2[j + 1].0);
                }
            }
        }
        lemma_same_keys(t1, t2);
        assert forall|p: int| 0 <= p < s1.len() implies (#[trigger] s1[p]).0 == s2[p].0 by {
            if p > 0 { assert(s1[p] == t1[p - 1] && s2[p] == t2[p - 1]); }
        }
    }
}

/// In sorted entries, the entry at position `j` is the lookup of its key.
proof fn lemma_lookup_own(s: Groups, j: int)
    requires entries_sorted(s), 0 <= j < s.len(),
    ensures lookup(s, s[j].0) == Some(s[j].1),
{
    assert forall|i: int| 0 <= i < j implies (#[trigger] s[i]).0 != s[j].0 by {
        lemma_key_order_eq(s[i].0, s[j].0);
    }
    lemma_lookup_first(s, s[j].0, j);
}

/// The history of one entity in a reordering is a reordering of its history.
proof fn lemma_group_reordered(es1: Seq<EventView>, es2: Seq<EventView>, perm: Seq<int>, inv: Seq<int>, k: Seq<char>)
    requires is_reordering(es1, es2, perm, inv),
    ensures
        exists|pg: Seq<int>, ig: Seq<int>| is_reordering(
            group_events(es1, entity_positions(es1, k, es1.len())),
            group_events(es2, entity_positions(es2, k, es2.len())), pg, ig),
{
    let n = es1.len();
    let p1 = entity_positions(es1, k, n);
    let p2 = entity_positions(es2, k, n);
    lemma_positions(es1, k, n);
    lemma_positions(es2, k, n);
    let g1 = group_events(es1, p1);
    let g2 = group_events(es2, p2);
    assert(p1.no_duplicates()) by {
        assert forall|a: int, b: int| 0 <= a < p1.len() && 0 <= b < p1.len() && a != b implies p1[a] != p1[b] by {
            if a < b { assert(p1[a] < p1[b]); } else { assert(p1[b] < p1[a]); }
        }
    }
    assert(p2.no_duplicates()) by {
        assert forall|a: int, b: int| 0 <= a < p2.len() && 0 <= b < p2.len() && a != b implies p2[a] != p2[b] by {
            if a < b { assert(p2[a] < p2[b]); } else { assert(p2[b] < p2[a]); }
        }
    }
    // Each position of the entity in one list maps to one in the other.
    assert forall|a: int| 0 <= a < p2.len() implies #[trigger] p1.contains(perm[p2[a]]) by {
        assert(es2[p2[a]] == es1[perm[p2[a]]]);
        assert(es1[perm[p2[a]]].entity_id == k);
    }
    assert forall|b: int| 0 <= b < p1.len() implies #[trigger] p2.contains(inv[p1[b]]) by {
        assert(es2[inv[p1[b]]] == es1[perm[inv[p1[b]]]]);
        assert(es2[inv[p1[b]]].entity_id == k);
    }
    // The two lists have the same length.
    let f = |i: int| perm[i];
    let set2 = p2.to_set();
    let set1 = p1.to_set();
    assert(set2.map(f) =~= set1) by {
        assert forall|x: int| set1.contains(x) implies #[trigger] set2.map(f).contains(x) by {
            let b = choose|b: int| 0 <= b < p1.len() && p1[b] == x;
            assert(p2.contains(inv[p1[b]]));
            assert(set2.contains(inv[x]) && f(inv[x]) == x);
        }
        assert forall|x: int| set2.map(f).contains(x) implies #[trigger] set1.contains(x) by {
            let i = choose|i: int| set2.contains(i) && f(i) == x;
            let a = choose|a: int| 0 <= a < p2.len() && p2[a] == i;
            assert(p1.contains(perm[p2[a]]));
        }
    }
    assert(vstd::relations::injective_on(f, set2)) by {
        assert forall|x: int, y: int| set2.contains(x) && set2.contains(y) && #[trigger] f(x) == #[trigger] f(y) implies x == y by {
            let a = choose|a: int| 0 <= a < p2.len() && p2[a] == x;
            let b = choose|b: int| 0 <= b < p2.len() && p2[b] == y;
            assert(inv[perm[x]] == x && inv[perm[y]] == y);
        }
    }
    vstd::seq_lib::seq_to_set_is_finite(p2);
    p1.unique_seq_to_set();
    p2.unique_seq_to_set();
    vstd::set_lib::lemma_map_size(set2, set1, f);
    assert(p1.len() == p2.len());
    let pg = Seq::new(p2.len(), |a: int| p1.index_of(perm[p2[a]]));
    let ig = Seq::new(p1.len(), |b: int| p2.index_of(inv[p1[b]]));
    assert forall|a: int| 0 <= a < g2.len() implies 0 <= #[trigger] pg[a] < g1.len() && ig[pg[a]] == a by {
        assert(p1.contains(perm[p2[a]]));
        let b = pg[a];
        assert(p1[b] == perm[p2[a]]);
        assert(inv[p1[b]] == p2[a]);
        assert(p2.contains(inv[p1[b]]));
        assert(p2[ig[b]] == p2[a]);
    }
    assert forall|b: int| 0 <= b < g1.len() implies 0 <= #[trigger] ig[b] < g2.len() && pg[ig[b]] == b by {
        assert(p2.contains(inv[p1[b]]));
        let a = ig[b];
        assert(p2[a] == inv[p1[b]]);
        assert(perm[p2[a]] == p1[b]);
        assert(p1.contains(perm[p2[a]]));
        assert(p1[pg[a]] == p1[b]);
    }
    assert forall|a: int| 0 <= a < g2.len() implies #[trigger] g2[a] == g1[pg[a]] by {
        assert(p1.contains(perm[p2[a]]));
        assert(p1[pg[a]] == perm[p2[a]]);
        assert(es2[p2[a]] == es1[perm[p2[a]]]);
    }
    assert(is_reordering(g1, g2, pg, ig));
}

/// Replaying a list of events does not depend on the order they are given in: when a list
/// replays, every reordering of it replays to the same states, applied hashes and clock.
pub proof fn lemma_replay_order_free(es1: Seq<EventView>, es2: Seq<EventView>, perm: Seq<int>, inv: Seq<int>)
    requires
        is_reordering(es1, es2, perm, inv),
        replay_spec(es1) is Ok,
        groups_ordered(es1),
    ensures
        replay_spec(es2) == replay_spec(es1),
        groups_ordered(es2),
{
    let n = es1.len();
    lemma_dag_check_reordered(es1, es2, perm, inv);
    let gs1 = entity_groups(es1);
    let gs2 = entity_groups(es2);
    lemma_groups_upto(es1, n);
    lemma_groups_upto(es2, n);
    assert forall|k: Seq<char>| (#[trigger] lookup(gs1, k) is Some) == (lookup(gs2, k) is Some) by {
        lemma_positions(es1, k, n);
        lemma_positions(es2, k, n);
        let p1 = entity_positions(es1, k, n);
        let p2 = entity_positions(es2, k, n);
        if p1.len() > 0 {
            let i = p1[0];
            assert(es2[inv[i]] == es1[perm[inv[i]]]);
            assert(p2.contains(inv[i]));
        }
        if p2.len() > 0 {
            let i = p2[0];
            assert(es2[i] == es1[perm[i]]);
            assert(p1.contains(perm[i]));
        }
    }
    lemma_same_keys(gs1, gs2);
    // Group `j` of each list holds the positions of the same entity.
    assert forall|j: int| 0 <= j < gs1.len() implies
        (#[trigger] gs1[j]).1 == entity_positions(es1, gs1[j].0, n) && gs2[j].1 == entity_positions(es2, gs1[j].0, n) by {
        lemma_lookup_own(gs1, j);
        lemma_lookup_own(gs2, j);
        assert(lookup(gs1, gs1[j].0) == Some(gs1[j].1));
        assert(lookup(gs2, gs2[j].0) == Some(gs2[j].1));
    }
    // Each group of the first list passes its checks.
    assert forall|j: int| 0 <= j < gs1.len() implies #[trigger] entity_order_check(group_events(es1, gs1[j].1)) is Ok by {
        lemma_replay_prefix_ok(es1, gs1, j);
    }
    lemma_replay_groups_same(es1, es2, perm, inv, gs1, gs2, gs1.len());
    assert forall|j: int| 0 <= j < gs2.len() implies #[trigger] group_ordered(es2, gs2, j) by {
        lemma_group_reordered(es1, es2, perm, inv, gs1[j].0);
        let (pg, ig) = choose|pg: Seq<int>, ig: Seq<int>| is_reordering(
            group_events(es1, entity_positions(es1, gs1[j].0, n)),
            group_events(es2, entity_positions(es2, gs1[j].0, n)), pg, ig);
        assert(group_ordered(es1, gs1, j));
        assert(entity_order_check(group_events(es1, gs1[j].1)) is Ok);
        lemma_entity_order_free(group_events(es1, gs1[j].1), group_events(es2, gs2[j].1), pg, ig);
    }
}

/// In a replay that succeeds, the history of every entity passes its checks.
proof fn lemma_replay_prefix_ok(es: Seq<EventView>, gs: Groups, j: int)
    requires
        replay_spec(es) is Ok, gs == entity_groups(es), 0 <= j < gs.len(),
    ensures entity_order_check(group_events(es, gs[j].1)) is Ok,
{
    assert(dag_check(es) is Ok);
    if replay_groups(es, gs, j as nat) is Err {
        lemma_groups_err_stable(es, gs, j as nat, gs.len());
    } else if entity_order_check(group_events(es, gs[j].1)) is Err {
        assert(replay_groups(es, gs, (j + 1) as nat) is Err);
        lemma_groups_err_stable(es, gs, (j + 1) as nat, gs.len());
    }
}

proof fn lemma_replay_groups_same(es1: Seq<EventView>, es2: Seq<EventView>, perm: Seq<int>, inv: Seq<int>,
    gs1: Groups, gs2: Groups, m: nat)
    requires
        is_reordering(es1, es2, perm, inv),
        gs1 == entity_groups(es1),
        gs2 == entity_groups(es2),
        m <= gs1.len(), gs1.len() == gs2.len(),
        forall|j: int| 0 <= j < gs1.len() ==> (#[trigger] gs1[j]).1 == entity_positions(es1, gs1[j].0, es1.len())
            && gs2[j].1 == entity_positions(es2, gs1[j].0, es1.len()),
        forall|j: int| 0 <= j < gs1.len() ==> #[trigger] entity_order_check(group_events(es1, gs1[j].1)) is Ok,
        groups_ordered(es1),
    ensures replay_groups(es2, gs2, m) == replay_groups(es1, gs1, m),
    decreases m,
{
    if m > 0 {
        let j = m - 1;
        lemma_replay_groups_same(es1, es2, perm, inv, gs1, gs2, (m - 1) as nat);
        lemma_group_reordered(es1, es2, perm, inv, gs1[j].0);
        let (pg, ig) = choose|pg: Seq<int>, ig: Seq<int>| is_reordering(
            group_events(es1, entity_positions(es1, gs1[j].0, es1.len())),
            group_events(es2, entity_positions(es2, gs1[j].0, es2.len())), pg, ig);
        assert(group_ordered(es1, gs1, j));
        assert(entity_order_check(group_events(es1, gs1[j].1)) is Ok);
        lemma_entity_order_free(group_events(es1, gs1[j].1), group_events(es2, gs2[j].1), pg, ig);
    }
}

} // verus!
