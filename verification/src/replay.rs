use vstd::prelude::*;
use crate::checks::{first_some, lemma_first_some_none, lemma_first_some_step};
use crate::dag::{acyclic, as_ints, find_hash, greedy_of, greedy_order, has_hash, hash_taken_before, hashes_distinct,
    index_lists, is_greedy_order, is_parent, is_topological, lemma_greedy_unique, listed_before, parents_listed, views, SortKey};
use crate::event::{EventView, OperationTag, OperationType, VectorEvent, VectorStateView};
use crate::strmap::{entries_sorted, key_order, lemma_insert_at, lemma_insert_sorted, lemma_key_order_eq, lemma_lookup_at, lookup, sorted_insert, compare_keys, StateMap};
use crate::text::Order;
use crate::region::REGION_CREATE_OPERATION_NAME;
use crate::strmap::str_eq;
use crate::dag::{dag_check, validate_dag};
use crate::event::strings_view;
use crate::encoding::{be_bytes, push_bytes, push_u64_be};
use crate::hash::{blake3_hex, canonical_replay_hash, hash_hex, replay_material};
use crate::serialization::{canonical_state_map_bytes, state_map_bytes, utf8};
use crate::state::{StateRoot, StateRootView};
use crate::text::{concat2, decimal, decimal_string};

verus! {

/// An entity-keyed state, as sorted entries.
pub type StateEntries = Seq<(Seq<char>, VectorStateView)>;

/// Whether an operation creates its entity: an origin, or the creation of a region.
pub open spec fn creates_entity(op: OperationTag) -> bool {
    op == OperationTag::OriginCreate || op == OperationTag::Other(REGION_CREATE_OPERATION_NAME@)
}

/// What applying one event does to the entity states.
pub open spec fn apply_spec(state: StateEntries, e: EventView) -> Result<StateEntries, Seq<char>> {
    let current = lookup(state, e.entity_id);
    if creates_entity(e.operation) {
        if current is Some {
            Err("origin create attempted for existing entity_id: "@ + e.entity_id)
        } else {
            Ok(sorted_insert(state, e.entity_id, e.vector_after))
        }
    } else {
        match current {
            None => Err("non-origin event references missing entity state: "@ + e.entity_id),
            Some(v) => if v != e.vector_before {
                Err("vector_before mismatch for entity_id "@ + e.entity_id)
            } else {
                Ok(sorted_insert(state, e.entity_id, e.vector_after))
            },
        }
    }
}

/// Applies one event: an origin or region-creation event creates its entity, any other
/// event must find the entity in exactly the state the event starts from. On error the
/// states are unchanged.
fn apply_event(state: &mut StateMap, event: &VectorEvent) -> (r: Result<(), String>)
    ensures
        match apply_spec(old(state)@, event@) {
            Ok(s) => r is Ok && final(state)@ == s,
            Err(m) => r is Err && r->Err_0@ == m && final(state)@ == old(state)@,
        },
{
    let current = state.get(event.entity_id.as_str());
    let creates = match &event.operation {
        OperationType::OriginCreate => true,
        OperationType::Other(name) => str_eq(name.as_str(), REGION_CREATE_OPERATION_NAME),
        _ => false,
    };
    match creates {
        true => {
            if current.is_some() {
                return Err(concat2("origin create attempted for existing entity_id: ", event.entity_id.as_str()));
            }
        }
        false => {
            match current {
                None => {
                    return Err(concat2("non-origin event references missing entity state: ", event.entity_id.as_str()));
                }
                Some(cur) => {
                    if !cur.same_as(&event.vector_before) {
                        return Err(concat2("vector_before mismatch for entity_id ", event.entity_id.as_str()));
                    }
                }
            }
        }
    }
    state.insert(event.entity_id.clone(), event.vector_after.duplicate());
    Ok(())
}

// ---------------------------------------------------------------------------
// Ordering the history of one entity

pub open spec fn entity_index_problem(es: Seq<EventView>, i: int) -> Option<Seq<char>> {
    if hash_taken_before(es, i) { Some("duplicate event_hash detected: "@ + es[i].event_hash) } else { None }
}

pub open spec fn entity_index_problems(es: Seq<EventView>) -> spec_fn(int) -> Option<Seq<char>> {
    |i: int| entity_index_problem(es, i)
}

pub open spec fn dup_parent_problem(es: Seq<EventView>, i: int, j: int) -> Option<Seq<char>> {
    if es[i].parent_hashes.take(j).contains(es[i].parent_hashes[j]) {
        Some("duplicate parent hash in event: "@ + es[i].event_hash)
    } else {
        None
    }
}

pub open spec fn dup_parent_problems(es: Seq<EventView>, i: int) -> spec_fn(int) -> Option<Seq<char>> {
    |j: int| dup_parent_problem(es, i, j)
}

pub open spec fn event_dup_parent(es: Seq<EventView>) -> spec_fn(int) -> Option<Seq<char>> {
    |i: int| first_some(es[i].parent_hashes.len(), dup_parent_problems(es, i))
}

/// Event `i` has no parent among the events.
pub open spec fn is_root(es: Seq<EventView>, i: int) -> bool {
    forall|m: int| 0 <= m < es.len() ==> !#[trigger] is_parent(es, m, i)
}

/// The number of roots among the first `n` events.
pub open spec fn roots_upto(es: Seq<EventView>, n: nat) -> nat
    decreases n,
{
    if n == 0 { 0 } else { roots_upto(es, (n - 1) as nat) + if is_root(es, n - 1) { 1nat } else { 0nat } }
}

/// What ordering an entity's history decides: a hash used twice, a parent listed twice,
/// a number of roots other than one, or a cycle, in that order of checking.
pub open spec fn entity_order_check(es: Seq<EventView>) -> Result<(), Seq<char>> {
    if es.len() == 0 {
        Ok(())
    } else if first_some(es.len(), entity_index_problems(es)) is Some {
        Err(first_some(es.len(), entity_index_problems(es))->0)
    } else if first_some(es.len(), event_dup_parent(es)) is Some {
        Err(first_some(es.len(), event_dup_parent(es))->0)
    } else if roots_upto(es, es.len()) != 1 {
        Err("entity history must have exactly one root event, found "@ + decimal(roots_upto(es, es.len())) + " roots"@)
    } else if acyclic(es) {
        Ok(())
    } else {
        Err("entity replay ordering failed due to unresolved ancestry or cycle"@)
    }
}

/// The order in which an entity's history is applied.
pub open spec fn entity_order(es: Seq<EventView>) -> Seq<EventView> {
    greedy_of(es, SortKey::Entity).map_values(|k: int| es[k])
}

/// Checks that no hash is used twice.
fn entity_index(events: &[VectorEvent]) -> (r: Result<(), String>)
    ensures
        match r {
            Ok(()) => first_some(events@.len(), entity_index_problems(views(events@))) is None,
            Err(m) => first_some(events@.len(), entity_index_problems(views(events@))) == Some(m@),
        },
{
    let ghost es = views(events@);
    let mut i: usize = 0;
    while i < events.len()
        invariant i <= events.len(), es == views(events@), first_some(i as nat, entity_index_problems(es)) is None,
        decreases events.len() - i,
    {
        proof { lemma_first_some_step(i as nat, es.len(), entity_index_problems(es)); }
        let mut j: usize = 0;
        while j < i
            invariant
                j <= i, i < events.len(), es == views(events@),
                first_some(i as nat, entity_index_problems(es)) is None,
                forall|k: int| 0 <= k < j ==> es[k].event_hash != es[i as int].event_hash,
            decreases i - j,
        {
            if events[j].event_hash == events[i].event_hash {
                assert(es[j as int].event_hash == es[i as int].event_hash);
                assert(hash_taken_before(es, i as int));
                proof { lemma_first_some_step(i as nat, es.len(), entity_index_problems(es)); }
                return Err(concat2("duplicate event_hash detected: ", events[i].event_hash.as_str()));
            }
            j += 1;
        }
        assert(!hash_taken_before(es, i as int));
        proof { lemma_first_some_step(i as nat, es.len(), entity_index_problems(es)); }
        i += 1;
    }
    Ok(())
}

/// Checks that no event lists a parent twice.
fn check_parent_lists(events: &[VectorEvent]) -> (r: Result<(), String>)
    ensures
        match r {
            Ok(()) => first_some(events@.len(), event_dup_parent(views(events@))) is None,
            Err(m) => first_some(events@.len(), event_dup_parent(views(events@))) == Some(m@),
        },
{
    let ghost es = views(events@);
    let mut i: usize = 0;
    while i < events.len()
        invariant i <= events.len(), es == views(events@), first_some(i as nat, event_dup_parent(es)) is None,
        decreases events.len() - i,
    {
        let parents = &events[i].parent_hashes;
        let mut j: usize = 0;
        while j < parents.len()
            invariant
                j <= parents.len(), i < events.len(), es == views(events@), parents == &events@[i as int].parent_hashes,
                es[i as int].parent_hashes == crate::event::strings_view(parents@),
                first_some(i as nat, event_dup_parent(es)) is None,
                first_some(j as nat, dup_parent_problems(es, i as int)) is None,
            decreases parents.len() - j,
        {
            proof { lemma_first_some_step(j as nat, parents@.len() as nat, dup_parent_problems(es, i as int)); }
            if listed_before(parents, j) {
                proof { lemma_first_some_step(i as nat, es.len(), event_dup_parent(es)); }
                return Err(concat2("duplicate parent hash in event: ", events[i].event_hash.as_str()));
            }
            j += 1;
        }
        proof { lemma_first_some_step(i as nat, es.len(), event_dup_parent(es)); }
        i += 1;
    }
    Ok(())
}

/// The indices of the parents of each event that are among the events.
fn local_parents(events: &[VectorEvent]) -> (pi: Vec<Vec<usize>>)
    requires hashes_distinct(views(events@)),
    ensures parents_listed(views(events@), index_lists(pi@)),
{
    let ghost es = views(events@);
    let mut out: Vec<Vec<usize>> = Vec::new();
    let mut i: usize = 0;
    while i < events.len()
        invariant
            i <= events.len(), es == views(events@), hashes_distinct(es), out@.len() == i,
            forall|a: int, b: int| 0 <= a < i && 0 <= b < out@[a]@.len() ==>
                (#[trigger] out@[a]@[b]) < es.len() && is_parent(es, out@[a]@[b] as int, a),
            forall|a: int, m: int| 0 <= a < i && 0 <= m < es.len() && #[trigger] is_parent(es, m, a) ==>
                out@[a]@.contains(m as usize),
        decreases events.len() - i,
    {
        let parents = &events[i].parent_hashes;
        let ghost ps = es[i as int].parent_hashes;
        let mut cur: Vec<usize> = Vec::new();
        let mut j: usize = 0;
        while j < parents.len()
            invariant
                j <= parents.len(), i < events.len(), es == views(events@), hashes_distinct(es),
                parents == &events@[i as int].parent_hashes, ps == es[i as int].parent_hashes,
                ps == crate::event::strings_view(parents@),
                forall|b: int| 0 <= b < cur@.len() ==> (#[trigger] cur@[b]) < es.len() && is_parent(es, cur@[b] as int, i as int),
                forall|b: int, m: int| 0 <= b < j && 0 <= m < es.len() && (#[trigger] es[m]).event_hash == #[trigger] ps[b] ==>
                    cur@.contains(m as usize),
            decreases parents.len() - j,
        {
            match find_hash(events, &parents[j]) {
                Some(k) => {
                    proof { assert(ps[j as int] == es[k as int].event_hash); }
                    let ghost before = cur@;
                    cur.push(k);
                    proof {
                        assert(cur@[before.len() as int] == k);
                        assert forall|b: int, m: int| 0 <= b < j + 1 && 0 <= m < es.len() && (#[trigger] es[m]).event_hash == #[trigger] ps[b]
                            implies cur@.contains(m as usize) by {
                            if b == j {
                                if m != k as int { assert(es[m].event_hash == es[k as int].event_hash); }
                                assert(cur@[before.len() as int] == m as usize);
                            } else {
                                assert(before.contains(m as usize));
                                let q = choose|q: int| 0 <= q < before.len() && before[q] == m as usize;
                                assert(cur@[q] == m as usize);
                            }
                        }
                    }
                }
                None => {
                    proof {
                        assert forall|b: int, m: int| 0 <= b < j + 1 && 0 <= m < es.len() && (#[trigger] es[m]).event_hash == #[trigger] ps[b]
                            implies cur@.contains(m as usize) by {
                            if b == j { assert(has_hash(es, ps[b])); }
                        }
                    }
                }
            }
            j += 1;
        }
        proof {
            assert forall|m: int| 0 <= m < es.len() && #[trigger] is_parent(es, m, i as int) implies cur@.contains(m as usize) by {
                let b = choose|b: int| 0 <= b < ps.len() && ps[b] == es[m].event_hash;
            }
        }
        out.push(cur);
        proof {
            assert forall|a: int, b: int| 0 <= a < i + 1 && 0 <= b < out@[a]@.len() implies
                (#[trigger] out@[a]@[b]) < es.len() && is_parent(es, out@[a]@[b] as int, a) by {}
        }
        i += 1;
    }
    proof {
        assert(index_lists(out@).len() == es.len());
        assert forall|a: int, b: int| 0 <= a < es.len() && 0 <= b < index_lists(out@)[a].len() implies
            (#[trigger] index_lists(out@)[a][b]) < es.len() && is_parent(es, index_lists(out@)[a][b] as int, a) by {
            assert(index_lists(out@)[a] == out@[a]@);
        }
        assert forall|a: int, m: int| 0 <= a < es.len() && 0 <= m < es.len() && #[trigger] is_parent(es, m, a) implies
            index_lists(out@)[a].contains(m as usize) by {
            assert(index_lists(out@)[a] == out@[a]@);
        }
    }
    out
}

/// Puts the history of one entity in replay order: from its single root, each event after
/// its parents, taking next the smallest ready event by (logical clock, timestamp, entity,
/// id, hash).
fn order_entity_events(events: &[VectorEvent]) -> (r: Result<Vec<VectorEvent>, String>)
    ensures
        match r {
            Ok(out) => entity_order_check(views(events@)) is Ok && views(out@) == entity_order(views(events@))
                && is_greedy_order(views(events@), greedy_of(views(events@), SortKey::Entity), SortKey::Entity),
            Err(m) => entity_order_check(views(events@)) == Err::<(), Seq<char>>(m@),
        },
{
    let ghost es = views(events@);
    if events.len() == 0 {
        proof {
            assert(is_greedy_order(es, Seq::<int>::empty(), SortKey::Entity));
            assert(entity_order(es) =~= Seq::<EventView>::empty());
        }
        return Ok(Vec::new());
    }
    entity_index(events)?;
    check_parent_lists(events)?;
    proof {
        lemma_first_some_none(es.len(), entity_index_problems(es));
        assert forall|a: int, b: int| 0 <= a < es.len() && 0 <= b < es.len() && a != b implies
            (#[trigger] es[a]).event_hash != (#[trigger] es[b]).event_hash by {
            if a < b { assert(entity_index_problems(es)(b) is None); } else { assert(entity_index_problems(es)(a) is None); }
        }
        assert(hashes_distinct(es));
    }
    let pi = local_parents(events);
    let mut roots: u64 = 0;
    let mut i: usize = 0;
    while i < pi.len()
        invariant
            i <= pi.len(), pi@.len() == es.len(), es == views(events@), parents_listed(es, index_lists(pi@)),
            roots == roots_upto(es, i as nat), roots <= i,
        decreases pi.len() - i,
    {
        proof {
            assert(index_lists(pi@)[i as int] == pi@[i as int]@);
            if pi@[i as int]@.len() == 0 {
                assert forall|m: int| 0 <= m < es.len() implies !#[trigger] is_parent(es, m, i as int) by {
                    if is_parent(es, m, i as int) { assert(index_lists(pi@)[i as int].contains(m as usize)); }
                }
            } else {
                assert(is_parent(es, index_lists(pi@)[i as int][0] as int, i as int));
            }
        }
        if pi[i].len() == 0 {
            roots += 1;
        }
        i += 1;
    }
    if roots != 1 {
        let count = decimal_string(roots as u128);
        let head = concat2("entity history must have exactly one root event, found ", count.as_str());
        return Err(concat2(head.as_str(), " roots"));
    }
    let (order, complete) = greedy_order(events, &pi, SortKey::Entity);
    if !complete {
        return Err("entity replay ordering failed due to unresolved ancestry or cycle".to_string());
    }
    let ghost ord = as_ints(order@);
    proof { lemma_greedy_unique(es, ord, greedy_of(es, SortKey::Entity), SortKey::Entity); }
    let mut out: Vec<VectorEvent> = Vec::new();
    let mut i: usize = 0;
    while i < order.len()
        invariant
            i <= order.len(), es == views(events@), ord == as_ints(order@), is_topological(es, ord),
            views(out@) =~= ord.take(i as int).map_values(|k: int| es[k]),
        decreases order.len() - i,
    {
        assert(0 <= ord[i as int] < es.len());
        let e = events[order[i]].duplicate();
        assert(e@ == es[ord[i as int]]);
        let ghost prev = views(out@);
        out.push(e);
        assert(views(out@) =~= prev.push(e@));
        assert(ord.take(i + 1) =~= ord.take(i as int).push(ord[i as int]));
        i += 1;
    }
    assert(ord.take(ord.len() as int) =~= ord);
    Ok(out)
}

// ---------------------------------------------------------------------------
// Grouping by entity

/// Entity groups: each entity id with the indices of its events in input order, by id.
pub type Groups = Seq<(Seq<char>, Seq<int>)>;

pub open spec fn group_insert(groups: Groups, entity: Seq<char>, i: int) -> Groups {
    match lookup(groups, entity) {
        Some(g) => sorted_insert(groups, entity, g.push(i)),
        None => sorted_insert(groups, entity, seq![i]),
    }
}

/// The groups of the first `n` events.
pub open spec fn groups_upto(es: Seq<EventView>, n: nat) -> Groups
    decreases n,
{
    if n == 0 { Seq::empty() } else { group_insert(groups_upto(es, (n - 1) as nat), es[n - 1].entity_id, n - 1) }
}

pub open spec fn entity_groups(es: Seq<EventView>) -> Groups {
    groups_upto(es, es.len())
}

/// The events of a group.
pub open spec fn group_events(es: Seq<EventView>, idx: Seq<int>) -> Seq<EventView> {
    idx.map_values(|k: int| es[k])
}

pub open spec fn group_views(gs: Seq<(String, Vec<usize>)>) -> Groups {
    gs.map_values(|g: (String, Vec<usize>)| (g.0@, as_ints(g.1@)))
}

/// Groups the events by entity id, in id order, each group in input order.
#[verifier::spinoff_prover]
#[verifier::rlimit(40)]
fn group_by_entity(events: &[VectorEvent]) -> (r: Vec<(String, Vec<usize>)>)
    ensures
        group_views(r@) == entity_groups(views(events@)),
        forall|g: int, t: int| 0 <= g < r@.len() && 0 <= t < r@[g].1@.len() ==> (#[trigger] r@[g].1@[t]) < events@.len(),
{
    let ghost es = views(events@);
    let mut groups: Vec<(String, Vec<usize>)> = Vec::new();
    assert(group_views(groups@) =~= groups_upto(es, 0));
    let mut i: usize = 0;
    while i < events.len()
        invariant
            i <= events.len(), es == views(events@),
            group_views(groups@) == groups_upto(es, i as nat),
            entries_sorted(group_views(groups@)),
            forall|g: int, t: int| 0 <= g < groups@.len() && 0 <= t < groups@[g].1@.len() ==> (#[trigger] groups@[g].1@[t]) < i,
        decreases events.len() - i,
    {
        let ghost gv = group_views(groups@);
        let key = &events[i].entity_id;
        let mut p: usize = 0;
        while p < groups.len()
            invariant
                p <= groups.len(), gv == group_views(groups@), key == &events@[i as int].entity_id,
                forall|j: int| 0 <= j < p ==> key_order(#[trigger] gv[j].0, key@) < 0,
            ensures
                p <= groups.len(), gv == group_views(groups@),
                forall|j: int| 0 <= j < p ==> key_order(#[trigger] gv[j].0, key@) < 0,
                p < groups.len() ==> key_order(gv[p as int].0, key@) >= 0,
            decreases groups.len() - p,
        {
            if compare_keys(&groups[p].0, key) != Order::Less {
                break;
            }
            p += 1;
        }
        proof {
            lemma_lookup_at(gv, key@, p as int);
            if p < gv.len() { lemma_key_order_eq(gv[p as int].0, key@); }
        }
        let ghost value = match lookup(gv, key@) { Some(g) => g.push(i as int), None => seq![i as int] };
        proof {
            lemma_insert_at(gv, key@, value, p as int);
            lemma_insert_sorted(gv, key@, value);
        }
        if p < groups.len() && compare_keys(&groups[p].0, key) == Order::Equal {
            let mut idx: Vec<usize> = Vec::new();
            let mut t: usize = 0;
            while t < groups[p].1.len()
                invariant p < groups.len(), t <= groups@[p as int].1@.len(), idx@ == groups@[p as int].1@.take(t as int),
                decreases groups@[p as int].1@.len() - t,
            {
                idx.push(groups[p].1[t]);
                t += 1;
                assert(idx@ =~= groups@[p as int].1@.take(t as int));
            }
            assert(idx@ =~= groups@[p as int].1@);
            idx.push(i);
            assert(as_ints(idx@) =~= as_ints(groups@[p as int].1@).push(i as int));
            let ghost before = groups@;
            groups.set(p, (key.clone(), idx));
            assert(group_views(groups@) =~= gv.update(p as int, (key@, value)));
            proof {
                assert forall|g: int, t: int| 0 <= g < groups@.len() && 0 <= t < groups@[g].1@.len() implies
                    (#[trigger] groups@[g].1@[t]) < i + 1 by {
                    if g != p as int { assert(groups@[g] == before[g]); }
                    else if t < before[g].1@.len() { assert(groups@[g].1@[t] == before[g].1@[t]); }
                }
            }
        } else {
            let mut idx: Vec<usize> = Vec::new();
            idx.push(i);
            assert(as_ints(idx@) =~= seq![i as int]);
            let ghost before = groups@;
            groups.insert(p, (key.clone(), idx));
            assert(group_views(groups@) =~= gv.insert(p as int, (key@, value)));
            proof {
                assert forall|g: int, t: int| 0 <= g < groups@.len() && 0 <= t < groups@[g].1@.len() implies
                    (#[trigger] groups@[g].1@[t]) < i + 1 by {
                    if g < p as int { assert(groups@[g] == before[g]); }
                    else if g > p as int { assert(groups@[g] == before[g - 1]); }
                }
            }
        }
        i += 1;
    }
    groups
}

// ---------------------------------------------------------------------------
// Replay

/// Entity states, applied hashes and the largest logical clock seen, or the first error.
pub type Progress = Result<(StateEntries, Seq<Seq<char>>, u64), Seq<char>>;

pub open spec fn apply_step(acc: Progress, e: EventView) -> Progress {
    match acc {
        Err(m) => Err(m),
        Ok((st, applied, clock)) => match apply_spec(st, e) {
            Err(m) => Err(m),
            Ok(st2) => Ok((st2, applied.push(e.event_hash), if clock >= e.logical_clock { clock } else { e.logical_clock })),
        },
    }
}

/// Applies the first `n` events in turn.
pub open spec fn apply_prefix(acc: Progress, evs: Seq<EventView>, n: nat) -> Progress
    decreases n,
{
    if n == 0 { acc } else { apply_step(apply_prefix(acc, evs, (n - 1) as nat), evs[n - 1]) }
}

/// Replays the first `n` groups: each entity's history in its replay order.
pub open spec fn replay_groups(es: Seq<EventView>, gs: Groups, n: nat) -> Progress
    decreases n,
{
    if n == 0 {
        Ok((Seq::empty(), Seq::empty(), 0u64))
    } else {
        match replay_groups(es, gs, (n - 1) as nat) {
            Err(m) => Err(m),
            Ok(acc) => {
                let g = group_events(es, gs[n - 1].1);
                match entity_order_check(g) {
                    Err(m) => Err(m),
                    Ok(()) => apply_prefix(Ok(acc), entity_order(g), entity_order(g).len()),
                }
            },
        }
    }
}

/// Group `j` of the events has a replay order.
pub open spec fn group_ordered(es: Seq<EventView>, gs: Groups, j: int) -> bool {
    is_greedy_order(group_events(es, gs[j].1), greedy_of(group_events(es, gs[j].1), SortKey::Entity), SortKey::Entity)
}

/// Every entity's history among the events has a replay order.
pub open spec fn groups_ordered(es: Seq<EventView>) -> bool {
    forall|j: int| 0 <= j < entity_groups(es).len() ==> #[trigger] group_ordered(es, entity_groups(es), j)
}

/// What replaying a set of events yields: after the DAG checks, the history of each
/// entity, entity by entity in id order, applied in replay order.
pub open spec fn replay_spec(es: Seq<EventView>) -> Progress {
    match dag_check(es) {
        Err(m) => Err(m),
        Ok(()) => replay_groups(es, entity_groups(es), entity_groups(es).len()),
    }
}

proof fn lemma_apply_err_stable(acc: Progress, evs: Seq<EventView>, t: nat, n: nat)
    requires t <= n, apply_prefix(acc, evs, t) is Err,
    ensures apply_prefix(acc, evs, n) == apply_prefix(acc, evs, t),
    decreases n,
{
    if n > t { lemma_apply_err_stable(acc, evs, t, (n - 1) as nat); }
}

pub proof fn lemma_groups_err_stable(es: Seq<EventView>, gs: Groups, t: nat, n: nat)
    requires t <= n, replay_groups(es, gs, t) is Err,
    ensures replay_groups(es, gs, n) == replay_groups(es, gs, t),
    decreases n,
{
    if n > t { lemma_groups_err_stable(es, gs, t, (n - 1) as nat); }
}

/// The bytes a replay state root is taken over.
pub open spec fn state_root_material(state: StateEntries, event_count: u64, logical_clock: u64) -> Seq<u8> {
    utf8("state-root-v1"@) + be_bytes(event_count as nat, 8) + be_bytes(logical_clock as nat, 8) + state_map_bytes(state)
}

/// The state root of entity states after `event_count` events.
pub open spec fn state_root_of(state: StateEntries, event_count: u64, logical_clock: u64) -> StateRootView {
    StateRootView { root_hash: hash_hex(state_root_material(state, event_count, logical_clock)), event_count, logical_clock }
}

/// The state root of the entity states: a hash over the tag, the counters and the states.
pub fn compute_state_root(state: &StateMap, event_count: u64, logical_clock: u64) -> (r: StateRoot)
    ensures r@ == state_root_of(state@, event_count, logical_clock),
{
    let mut bytes: Vec<u8> = Vec::new();
    push_bytes(&mut bytes, "state-root-v1".as_bytes());
    push_u64_be(&mut bytes, event_count);
    push_u64_be(&mut bytes, logical_clock);
    let body = canonical_state_map_bytes(state);
    push_bytes(&mut bytes, body.as_slice());
    assert(bytes@ =~= state_root_material(state@, event_count, logical_clock));
    let root_hash = blake3_hex(bytes.as_slice());
    StateRoot { root_hash, event_count, logical_clock }
}

/// The outcome of a replay.
#[derive(Debug, Clone)]
pub struct ReplayResult {
    pub final_state: StateMap,
    pub state_root: StateRoot,
    pub replay_hash: String,
    pub applied_event_hashes: Vec<String>,
}

/// `r` is the result of replaying events with progress `(st, applied, clock)`.
pub open spec fn replay_result_is(r: ReplayResult, st: StateEntries, applied: Seq<Seq<char>>, clock: u64) -> bool {
    &&& r.final_state@ == st
    &&& strings_view(r.applied_event_hashes@) == applied
    &&& r.state_root@ == state_root_of(st, applied.len() as u64, clock)
    &&& r.replay_hash@ == hash_hex(replay_material(applied))
}

/// Replaying one history twice gives the same result: two results of replaying the same
/// events agree in their states, applied hashes, state root and replay hash.
pub proof fn lemma_replay_result_unique(r1: ReplayResult, r2: ReplayResult, es: Seq<EventView>)
    requires
        replay_spec(es) matches Ok((st, applied, clock)) && replay_result_is(r1, st, applied, clock)
            && replay_result_is(r2, st, applied, clock),
    ensures
        r1.final_state@ == r2.final_state@,
        strings_view(r1.applied_event_hashes@) == strings_view(r2.applied_event_hashes@),
        r1.state_root@ == r2.state_root@,
        r1.replay_hash@ == r2.replay_hash@,
{
}

/// Replays a set of events: checks the DAG, then applies each entity's history in
/// replay order, entity by entity in id order.
pub fn replay_events(events: &[VectorEvent]) -> (r: Result<ReplayResult, String>)
    ensures
        match replay_spec(views(events@)) {
            Ok((st, applied, clock)) => r is Ok && replay_result_is(r->Ok_0, st, applied, clock),
            Err(m) => r is Err && r->Err_0@ == m,
        },
        r is Ok ==> groups_ordered(views(events@)),
{
    let ghost es = views(events@);
    validate_dag(events)?;
    let groups = group_by_entity(events);
    let ghost gs = group_views(groups@);
    let mut state = StateMap::new();
    let mut applied: Vec<String> = Vec::new();
    let mut clock: u64 = 0;
    assert(strings_view(applied@) =~= Seq::<Seq<char>>::empty());
    let mut g: usize = 0;
    while g < groups.len()
        invariant
            g <= groups.len(), es == views(events@), dag_check(es) is Ok, gs == group_views(groups@), gs == entity_groups(es),
            forall|a: int, t: int| 0 <= a < groups@.len() && 0 <= t < groups@[a].1@.len() ==> (#[trigger] groups@[a].1@[t]) < events@.len(),
            replay_groups(es, gs, g as nat) == Ok::<(StateEntries, Seq<Seq<char>>, u64), Seq<char>>((state@, strings_view(applied@), clock)),
            forall|j: int| 0 <= j < g ==> #[trigger] group_ordered(es, gs, j),
        decreases groups.len() - g,
    {
        let idx = &groups[g].1;
        let ghost gi = gs[g as int].1;
        assert(gi == as_ints(idx@));
        let mut members: Vec<VectorEvent> = Vec::new();
        let mut t: usize = 0;
        while t < idx.len()
            invariant
                t <= idx.len(), g < groups.len(), idx == &groups@[g as int].1, gi == as_ints(idx@), es == views(events@),
                forall|a: int, u: int| 0 <= a < groups@.len() && 0 <= u < groups@[a].1@.len() ==> (#[trigger] groups@[a].1@[u]) < events@.len(),
                views(members@) =~= group_events(es, gi.take(t as int)),
            decreases idx.len() - t,
        {
            assert(groups@[g as int].1@[t as int] < events@.len());
            let e = events[idx[t]].duplicate();
            assert(e@ == es[gi[t as int]]);
            let ghost prev = views(members@);
            members.push(e);
            assert(views(members@) =~= prev.push(e@));
            assert(gi.take(t + 1) =~= gi.take(t as int).push(gi[t as int]));
            t += 1;
            assert(views(members@) =~= group_events(es, gi.take(t as int)));
        }
        assert(gi.take(idx.len() as int) =~= gi);
        let ghost ge = group_events(es, gi);
        let ghost acc = (state@, strings_view(applied@), clock);
        let ordered = match order_entity_events(members.as_slice()) {
            Ok(o) => o,
            Err(m) => {
                proof { lemma_groups_err_stable(es, gs, (g + 1) as nat, gs.len()); }
                return Err(m);
            }
        };
        let ghost ov = entity_order(ge);
        assert(views(ordered@) == ov);
        assert(group_ordered(es, gs, g as int));
        let mut t: usize = 0;
        while t < ordered.len()
            invariant
                t <= ordered.len(), views(ordered@) == ov, g < groups.len(), es == views(events@), dag_check(es) is Ok,
                gs == group_views(groups@), gs == entity_groups(es), ge == group_events(es, gs[g as int].1),
                entity_order_check(ge) is Ok, ov == entity_order(ge),
                replay_groups(es, gs, g as nat) == Ok::<(StateEntries, Seq<Seq<char>>, u64), Seq<char>>(acc),
                apply_prefix(Ok(acc), ov, t as nat) == Ok::<(StateEntries, Seq<Seq<char>>, u64), Seq<char>>((state@, strings_view(applied@), clock)),
                forall|a: int, u: int| 0 <= a < groups@.len() && 0 <= u < groups@[a].1@.len() ==> (#[trigger] groups@[a].1@[u]) < events@.len(),
                forall|j: int| 0 <= j <= g ==> #[trigger] group_ordered(es, gs, j),
            decreases ordered.len() - t,
        {
            let ev = &ordered[t];
            match apply_event(&mut state, ev) {
                Ok(()) => {}
                Err(m) => {
                    proof {
                        lemma_apply_err_stable(Ok(acc), ov, (t + 1) as nat, ov.len());
                        lemma_groups_err_stable(es, gs, (g + 1) as nat, gs.len());
                    }
                    return Err(m);
                }
            }
            let ghost before = strings_view(applied@);
            applied.push(ev.event_hash.clone());
            assert(strings_view(applied@) =~= before.push(ev.event_hash@));
            if ev.logical_clock > clock {
                clock = ev.logical_clock;
            }
            t += 1;
        }
        g += 1;
    }
    let replay_hash = canonical_replay_hash(&applied);
    let state_root = compute_state_root(&state, applied.len() as u64, clock);
    Ok(ReplayResult { final_state: state, state_root, replay_hash, applied_event_hashes: applied })
}

/// Whether replaying the events reproduces the expected state root and replay hash.
pub fn verify_replay(events: &[VectorEvent], expected_state_root: &StateRoot, expected_replay_hash: &str) -> (r: Result<bool, String>)
    ensures
        match replay_spec(views(events@)) {
            Ok((st, applied, clock)) => r == Ok::<bool, String>(
                state_root_of(st, applied.len() as u64, clock) == expected_state_root@
                && hash_hex(replay_material(applied)) == expected_replay_hash@),
            Err(m) => r is Err && r->Err_0@ == m,
        },
{
    let result = replay_events(events)?;
    let same_root = result.state_root.root_hash == expected_state_root.root_hash
        && result.state_root.event_count == expected_state_root.event_count
        && result.state_root.logical_clock == expected_state_root.logical_clock;
    let same_hash = crate::strmap::str_eq(result.replay_hash.as_str(), expected_replay_hash);
    Ok(same_root && same_hash)
}

/// The canonical bytes of a replay's final entity states.
pub fn canonical_final_state_bytes(result: &ReplayResult) -> (r: Vec<u8>)
    ensures r@ == state_map_bytes(result.final_state@),
{
    canonical_state_map_bytes(&result.final_state)
}

/// Replays a fixed list of events.
pub struct ReplayEngine {
    pub events: Vec<VectorEvent>,
}

impl ReplayEngine {
    pub fn new(events: Vec<VectorEvent>) -> (r: Self)
        ensures r.events == events,
    {
        ReplayEngine { events }
    }

    pub fn replay(&self) -> (r: Result<ReplayResult, String>)
        ensures
            match replay_spec(views(self.events@)) {
                Ok((st, applied, clock)) => r is Ok && replay_result_is(r->Ok_0, st, applied, clock),
                Err(m) => r is Err && r->Err_0@ == m,
            },
    {
        replay_events(self.events.as_slice())
    }
}


/// Replays are deterministic: any two results that `replay_events` may give for the same
/// events agree on the final state, the applied hashes, the state root and the replay hash.
pub proof fn lemma_replay_deterministic(es: Seq<EventView>, r1: ReplayResult, r2: ReplayResult)
    requires
        replay_spec(es) matches Ok((st, applied, clock)) && replay_result_is(r1, st, applied, clock)
            && replay_result_is(r2, st, applied, clock),
    ensures
        r1.final_state@ == r2.final_state@,
        strings_view(r1.applied_event_hashes@) == strings_view(r2.applied_event_hashes@),
        r1.state_root@ == r2.state_root@,
        r1.replay_hash@ == r2.replay_hash@,
{
}

} // verus!
