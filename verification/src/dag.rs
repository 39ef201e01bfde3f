use vstd::prelude::*;
use crate::checks::{first_some, lemma_first_some_none, lemma_first_some_step};
use crate::event::{EventView, VectorEvent};
use crate::text::{concat2, concat4, order_of, Order};
use vstd::string::StringSliceAdditionalSpecFns;

verus! {

/// The views of a list of events.
pub open spec fn views(events: Seq<VectorEvent>) -> Seq<EventView> {
    events.map_values(|e: VectorEvent| e@)
}

// ---------------------------------------------------------------------------
// Hash index

/// Event `i` carries the hash of an earlier event.
pub open spec fn hash_taken_before(es: Seq<EventView>, i: int) -> bool {
    exists|j: int| 0 <= j < i && es[j].event_hash == es[i].event_hash
}

/// What indexing reports about event `i`.
pub open spec fn index_problem(es: Seq<EventView>, i: int) -> Option<Seq<char>> {
    if es[i].event_hash.len() == 0 {
        Some("event "@ + es[i].event_id + " has empty event_hash"@)
    } else if hash_taken_before(es, i) {
        Some("duplicate event_hash detected: "@ + es[i].event_hash)
    } else {
        None
    }
}

pub open spec fn index_problems(es: Seq<EventView>) -> spec_fn(int) -> Option<Seq<char>> {
    |i: int| index_problem(es, i)
}

/// The first indexing problem: an empty hash, or a hash used twice.
pub open spec fn index_error(es: Seq<EventView>) -> Option<Seq<char>> {
    first_some(es.len(), index_problems(es))
}

/// No two events carry the same hash.
pub open spec fn hashes_distinct(es: Seq<EventView>) -> bool {
    forall|i: int, j: int| 0 <= i < es.len() && 0 <= j < es.len() && i != j ==>
        (#[trigger] es[i]).event_hash != (#[trigger] es[j]).event_hash
}

/// Every event has a non-empty hash of its own.
pub open spec fn hashes_unique(es: Seq<EventView>) -> bool {
    &&& forall|i: int| 0 <= i < es.len() ==> (#[trigger] es[i]).event_hash.len() > 0
    &&& hashes_distinct(es)
}

pub proof fn lemma_index_ok_unique(es: Seq<EventView>)
    requires index_error(es) is None,
    ensures hashes_unique(es),
{
    lemma_first_some_none(es.len(), index_problems(es));
    assert forall|i: int, j: int| 0 <= i < es.len() && 0 <= j < es.len() && i != j implies
        (#[trigger] es[i]).event_hash != (#[trigger] es[j]).event_hash by {
        if i < j {
            assert(index_problems(es)(j) is None);
        } else {
            assert(index_problems(es)(i) is None);
        }
    }
    assert forall|i: int| 0 <= i < es.len() implies (#[trigger] es[i]).event_hash.len() > 0 by {
        assert(index_problems(es)(i) is None);
    }
}

// ---------------------------------------------------------------------------
// Parent edges

/// Some event carries hash `h`.
pub open spec fn has_hash(es: Seq<EventView>, h: Seq<char>) -> bool {
    exists|k: int| 0 <= k < es.len() && es[k].event_hash == h
}

/// The event that carries hash `h`.
pub open spec fn event_with_hash(es: Seq<EventView>, h: Seq<char>) -> int {
    choose|k: int| 0 <= k < es.len() && es[k].event_hash == h
}

/// What the edge checks report about the `j`-th parent of event `i`.
pub open spec fn parent_problem(es: Seq<EventView>, i: int, j: int) -> Option<Seq<char>> {
    let e = es[i];
    let p = e.parent_hashes[j];
    if e.parent_hashes.take(j).contains(p) {
        Some("duplicate parent hash in event: "@ + e.event_hash)
    } else if !has_hash(es, p) {
        Some("missing parent event: "@ + p)
    } else if es[event_with_hash(es, p)].region_id != e.region_id {
        Some("region inadmissible: parent region "@ + es[event_with_hash(es, p)].region_id + " != child region "@ + e.region_id)
    } else {
        None
    }
}

pub open spec fn parent_problems(es: Seq<EventView>, i: int) -> spec_fn(int) -> Option<Seq<char>> {
    |j: int| parent_problem(es, i, j)
}

pub open spec fn event_edge_problem(es: Seq<EventView>, i: int) -> Option<Seq<char>> {
    first_some(es[i].parent_hashes.len(), parent_problems(es, i))
}

pub open spec fn edge_problems(es: Seq<EventView>) -> spec_fn(int) -> Option<Seq<char>> {
    |i: int| event_edge_problem(es, i)
}

/// The first edge problem, event by event and parent by parent: a parent listed twice,
/// a parent that is not in the set, or a parent in another region.
pub open spec fn edge_error(es: Seq<EventView>) -> Option<Seq<char>> {
    first_some(es.len(), edge_problems(es))
}

/// Every parent of every event is another event of the set, listed once, in the same region.
pub open spec fn edges_sound(es: Seq<EventView>) -> bool {
    forall|i: int, j: int| 0 <= i < es.len() && 0 <= j < es[i].parent_hashes.len() ==>
        #[trigger] parent_problem(es, i, j) is None
}

pub proof fn lemma_edges_ok_sound(es: Seq<EventView>)
    requires edge_error(es) is None,
    ensures edges_sound(es),
{
    lemma_first_some_none(es.len(), edge_problems(es));
    assert forall|i: int, j: int| 0 <= i < es.len() && 0 <= j < es[i].parent_hashes.len() implies
        #[trigger] parent_problem(es, i, j) is None by {
        assert(edge_problems(es)(i) is None);
        lemma_first_some_none(es[i].parent_hashes.len(), parent_problems(es, i));
        assert(parent_problems(es, i)(j) is None);
    }
}

// ---------------------------------------------------------------------------
// Order

/// Event `k` is a parent of event `i`.
pub open spec fn is_parent(es: Seq<EventView>, k: int, i: int) -> bool {
    es[i].parent_hashes.contains(es[k].event_hash)
}

/// `order` lists every event index once, each after all of its parents.
pub open spec fn is_topological(es: Seq<EventView>, order: Seq<int>) -> bool {
    &&& order.len() == es.len()
    &&& forall|q: int| 0 <= q < order.len() ==> 0 <= #[trigger] order[q] < es.len()
    &&& forall|k: int| 0 <= k < es.len() ==> #[trigger] order.contains(k)
    &&& order.no_duplicates()
    &&& forall|a: int, b: int| 0 <= a < order.len() && 0 <= b < order.len() && #[trigger] is_parent(es, order[b], order[a]) ==> b < a
}

/// The parent relation has no cycle: some order puts every parent first.
pub open spec fn acyclic(es: Seq<EventView>) -> bool {
    exists|order: Seq<int>| is_topological(es, order)
}

/// What `validate_dag` decides for a list of events.
pub open spec fn dag_check(es: Seq<EventView>) -> Result<(), Seq<char>> {
    match index_error(es) {
        Some(m) => Err(m),
        None => match edge_error(es) {
            Some(m) => Err(m),
            None => if acyclic(es) { Ok(()) } else { Err("cycle detected in event DAG"@) },
        },
    }
}

/// Three-way order of events by (logical clock, timestamp, hash, id).
pub open spec fn event_order(a: EventView, b: EventView) -> int {
    if a.logical_clock < b.logical_clock {
        -1
    } else if a.logical_clock > b.logical_clock {
        1
    } else if a.timestamp < b.timestamp {
        -1
    } else if a.timestamp > b.timestamp {
        1
    } else if crate::strmap::key_order(a.event_hash, b.event_hash) != 0 {
        crate::strmap::key_order(a.event_hash, b.event_hash)
    } else {
        crate::strmap::key_order(a.event_id, b.event_id)
    }
}

/// Three-way order of events of one entity by (logical clock, timestamp, entity, id, hash).
pub open spec fn entity_event_order(a: EventView, b: EventView) -> int {
    if a.logical_clock < b.logical_clock {
        -1
    } else if a.logical_clock > b.logical_clock {
        1
    } else if a.timestamp < b.timestamp {
        -1
    } else if a.timestamp > b.timestamp {
        1
    } else if crate::strmap::key_order(a.entity_id, b.entity_id) != 0 {
        crate::strmap::key_order(a.entity_id, b.entity_id)
    } else if crate::strmap::key_order(a.event_id, b.event_id) != 0 {
        crate::strmap::key_order(a.event_id, b.event_id)
    } else {
        crate::strmap::key_order(a.event_hash, b.event_hash)
    }
}

/// Which key a topological order breaks ties by.
#[derive(Debug, Clone, Copy, PartialEq, Eq, Structural)]
pub enum SortKey {
    /// (logical clock, timestamp, hash, id), for a whole DAG.
    Dag,
    /// (logical clock, timestamp, entity, id, hash), for the history of one entity.
    Entity,
}

pub open spec fn order_by(key: SortKey, a: EventView, b: EventView) -> int {
    match key {
        SortKey::Dag => event_order(a, b),
        SortKey::Entity => entity_event_order(a, b),
    }
}

/// Event `k` is not placed yet and all of its parents are.
pub open spec fn ready(es: Seq<EventView>, placed: Seq<int>, k: int) -> bool {
    &&& 0 <= k < es.len()
    &&& !placed.contains(k)
    &&& forall|m: int| 0 <= m < es.len() && #[trigger] is_parent(es, m, k) ==> placed.contains(m)
}

/// Position `p` of `order` holds the smallest event that was ready there.
pub open spec fn greedy_at(es: Seq<EventView>, order: Seq<int>, p: int, key: SortKey) -> bool {
    &&& ready(es, order.take(p), order[p])
    &&& forall|k: int| #[trigger] ready(es, order.take(p), k) ==> order_by(key, es[order[p]], es[k]) <= 0
}

/// `order` is the topological order that always takes the smallest ready event next.
pub open spec fn is_greedy_order(es: Seq<EventView>, order: Seq<int>, key: SortKey) -> bool {
    &&& is_topological(es, order)
    &&& forall|p: int| 0 <= p < order.len() ==> #[trigger] greedy_at(es, order, p, key)
}

/// The greedy order of a set of events, when one exists.
pub open spec fn greedy_of(es: Seq<EventView>, key: SortKey) -> Seq<int> {
    choose|order: Seq<int>| is_greedy_order(es, order, key)
}

// ---------------------------------------------------------------------------
// Executable checks

/// Checks that every event has a non-empty hash of its own.
fn event_index(events: &[VectorEvent]) -> (r: Result<(), String>)
    ensures
        match r {
            Ok(()) => index_error(views(events@)) is None,
            Err(m) => index_error(views(events@)) == Some(m@),
        },
{
    let ghost es = views(events@);
    let mut i: usize = 0;
    while i < events.len()
        invariant
            i <= events.len(), es == views(events@),
            first_some(i as nat, index_problems(es)) is None,
        decreases events.len() - i,
    {
        proof { lemma_first_some_step(i as nat, es.len(), index_problems(es)); }
        if events[i].event_hash.as_str().is_empty() {
            let m = concat2(concat2("event ", events[i].event_id.as_str()).as_str(), " has empty event_hash");
            return Err(m);
        }
        let mut j: usize = 0;
        while j < i
            invariant
                j <= i, i < events.len(), es == views(events@),
                first_some(i as nat, index_problems(es)) is None,
                es[i as int].event_hash.len() > 0,
                forall|k: int| 0 <= k < j ==> es[k].event_hash != es[i as int].event_hash,
            decreases i - j,
        {
            if events[j].event_hash == events[i].event_hash {
                assert(es[j as int].event_hash == es[i as int].event_hash);
                assert(hash_taken_before(es, i as int));
                proof { lemma_first_some_step(i as nat, es.len(), index_problems(es)); }
                let m = concat2("duplicate event_hash detected: ", events[i].event_hash.as_str());
                return Err(m);
            }
            j += 1;
        }
        assert(!hash_taken_before(es, i as int));
        proof { lemma_first_some_step(i as nat, es.len(), index_problems(es)); }
        i += 1;
    }
    Ok(())
}

/// The index of the first event with hash `h`.
pub(crate) fn find_hash(events: &[VectorEvent], h: &String) -> (r: Option<usize>)
    ensures
        match r {
            Some(k) => k < events.len() && views(events@)[k as int].event_hash == h@ && has_hash(views(events@), h@)
                && (hashes_unique(views(events@)) ==> k == event_with_hash(views(events@), h@))
                && (forall|m: int| 0 <= m < k ==> views(events@)[m].event_hash != h@),
            None => !has_hash(views(events@), h@),
        },
{
    let ghost es = views(events@);
    let mut k: usize = 0;
    while k < events.len()
        invariant k <= events.len(), es == views(events@), forall|m: int| 0 <= m < k ==> es[m].event_hash != h@,
        decreases events.len() - k,
    {
        if events[k].event_hash == *h {
            proof {
                assert(has_hash(es, h@));
                let c = event_with_hash(es, h@);
                if hashes_unique(es) && c != k {
                    assert(es[c].event_hash == es[k as int].event_hash);
                }
            }
            return Some(k);
        }
        k += 1;
    }
    None
}

/// The views of lists of indices.
pub open spec fn index_lists(pi: Seq<Vec<usize>>) -> Seq<Seq<usize>> {
    pi.map_values(|v: Vec<usize>| v@)
}

/// `pi[i][j]` is the index of the `j`-th parent of event `i`.
pub open spec fn parents_resolved(es: Seq<EventView>, pi: Seq<Seq<usize>>) -> bool {
    &&& pi.len() == es.len()
    &&& forall|i: int| 0 <= i < es.len() ==> (#[trigger] pi[i]).len() == es[i].parent_hashes.len()
    &&& forall|i: int, j: int| 0 <= i < es.len() && 0 <= j < pi[i].len() ==>
            (#[trigger] pi[i][j]) < es.len() && es[pi[i][j] as int].event_hash == es[i].parent_hashes[j]
}

/// Whether the `j`-th string of `v` already occurs before position `j`.
pub(crate) fn listed_before(v: &Vec<String>, j: usize) -> (r: bool)
    requires j < v.len(),
    ensures r == crate::event::strings_view(v@).take(j as int).contains(v@[j as int]@),
{
    let ghost ps = crate::event::strings_view(v@);
    let mut m: usize = 0;
    while m < j
        invariant m <= j, j < v.len(), ps == crate::event::strings_view(v@), forall|c: int| 0 <= c < m ==> ps[c] != ps[j as int],
        decreases j - m,
    {
        if v[m] == v[j] {
            assert(ps.take(j as int)[m as int] == ps[j as int]);
            return true;
        }
        m += 1;
    }
    false
}

/// Checks every parent edge and resolves each parent to the index of its event.
fn parent_indices(events: &[VectorEvent]) -> (r: Result<Vec<Vec<usize>>, String>)
    requires index_error(views(events@)) is None,
    ensures
        match r {
            Ok(pi) => edge_error(views(events@)) is None && parents_resolved(views(events@), index_lists(pi@)),
            Err(m) => edge_error(views(events@)) == Some(m@),
        },
{
    let ghost es = views(events@);
    proof { lemma_index_ok_unique(es); }
    let mut out: Vec<Vec<usize>> = Vec::new();
    let mut i: usize = 0;
    while i < events.len()
        invariant
            i <= events.len(), es == views(events@), hashes_unique(es),
            first_some(i as nat, edge_problems(es)) is None,
            out@.len() == i,
            forall|a: int| 0 <= a < i ==> (#[trigger] out@[a])@.len() == es[a].parent_hashes.len(),
            forall|a: int, b: int| 0 <= a < i && 0 <= b < out@[a]@.len() ==>
                (#[trigger] out@[a]@[b]) < es.len() && es[out@[a]@[b] as int].event_hash == es[a].parent_hashes[b],
        decreases events.len() - i,
    {
        let parents = &events[i].parent_hashes;
        let ghost ps = es[i as int].parent_hashes;
        assert(ps == crate::event::strings_view(parents@));
        let mut cur: Vec<usize> = Vec::new();
        let mut j: usize = 0;
        while j < parents.len()
            invariant
                j <= parents.len(), i < events.len(), es == views(events@), hashes_unique(es),
                parents == &events@[i as int].parent_hashes,
                ps == es[i as int].parent_hashes, ps.len() == parents@.len(),
                first_some(i as nat, edge_problems(es)) is None,
                first_some(j as nat, parent_problems(es, i as int)) is None,
                cur@.len() == j,
                forall|b: int| 0 <= b < j ==> (#[trigger] cur@[b]) < es.len() && es[cur@[b] as int].event_hash == ps[b],
            decreases parents.len() - j,
        {
            proof { lemma_first_some_step(j as nat, ps.len(), parent_problems(es, i as int)); }
            if listed_before(parents, j) {
                proof { lemma_first_some_step(i as nat, es.len(), edge_problems(es)); }
                return Err(concat2("duplicate parent hash in event: ", events[i].event_hash.as_str()));
            }
            assert(!ps.take(j as int).contains(ps[j as int]));
            match find_hash(events, &parents[j]) {
                None => {
                    proof { lemma_first_some_step(i as nat, es.len(), edge_problems(es)); }
                    return Err(concat2("missing parent event: ", parents[j].as_str()));
                }
                Some(k) => {
                    if events[k].region_id != events[i].region_id {
                        proof { lemma_first_some_step(i as nat, es.len(), edge_problems(es)); }
                        return Err(concat4("region inadmissible: parent region ", events[k].region_id.as_str(),
                            " != child region ", events[i].region_id.as_str()));
                    }
                    cur.push(k);
                }
            }
            j += 1;
        }
        proof { lemma_first_some_step(i as nat, es.len(), edge_problems(es)); }
        out.push(cur);
        i += 1;
    }
    Ok(out)
}

pub proof fn lemma_order_by_props(key: SortKey, a: EventView, b: EventView, c: EventView)
    ensures
        order_by(key, a, b) == -order_by(key, b, a),
        -1 <= order_by(key, a, b) <= 1,
        order_by(key, a, a) == 0,
        order_by(key, a, b) <= 0 && order_by(key, b, c) <= 0 ==> order_by(key, a, c) <= 0,
        order_by(key, a, b) == 0 ==> a.event_hash == b.event_hash,
{
    lemma_key_triple(a.event_hash, b.event_hash, c.event_hash);
    lemma_key_triple(a.event_id, b.event_id, c.event_id);
    lemma_key_triple(a.entity_id, b.entity_id, c.entity_id);
}

proof fn lemma_key_triple(a: Seq<char>, b: Seq<char>, c: Seq<char>)
    ensures
        crate::strmap::key_order(a, b) == -crate::strmap::key_order(b, a),
        crate::strmap::key_order(b, c) == -crate::strmap::key_order(c, b),
        crate::strmap::key_order(a, c) == -crate::strmap::key_order(c, a),
        -1 <= crate::strmap::key_order(a, b) <= 1,
        -1 <= crate::strmap::key_order(b, c) <= 1,
        -1 <= crate::strmap::key_order(a, c) <= 1,
        crate::strmap::key_order(a, b) <= 0 && crate::strmap::key_order(b, c) <= 0 ==> crate::strmap::key_order(a, c) <= 0,
        crate::strmap::key_order(a, b) < 0 && crate::strmap::key_order(b, c) <= 0 ==> crate::strmap::key_order(a, c) < 0,
        crate::strmap::key_order(a, b) <= 0 && crate::strmap::key_order(b, c) < 0 ==> crate::strmap::key_order(a, c) < 0,
        (crate::strmap::key_order(a, b) == 0) == (a == b),
        (crate::strmap::key_order(b, c) == 0) == (b == c),
        (crate::strmap::key_order(a, c) == 0) == (a == c),
        crate::strmap::key_order(a, a) == 0,
{
    crate::strmap::lemma_key_order_props(a, b, c);
    crate::strmap::lemma_key_order_props(b, c, a);
    crate::strmap::lemma_key_order_props(a, c, b);
    crate::strmap::lemma_key_order_eq(a, b);
    crate::strmap::lemma_key_order_eq(b, c);
    crate::strmap::lemma_key_order_eq(a, c);
    crate::strmap::lemma_key_order_eq(a, a);
}

/// Compares two events by (logical clock, timestamp, hash, id).
pub fn compare_events(a: &VectorEvent, b: &VectorEvent) -> (r: Order)
    ensures r == order_of(event_order(a@, b@)),
{
    if a.logical_clock < b.logical_clock {
        Order::Less
    } else if a.logical_clock > b.logical_clock {
        Order::Greater
    } else if a.timestamp < b.timestamp {
        Order::Less
    } else if a.timestamp > b.timestamp {
        Order::Greater
    } else {
        let h = crate::strmap::compare_keys(&a.event_hash, &b.event_hash);
        proof { crate::strmap::lemma_key_order_props(a.event_hash@, b.event_hash@, b.event_hash@); }
        if h != Order::Equal {
            h
        } else {
            crate::strmap::compare_keys(&a.event_id, &b.event_id)
        }
    }
}

/// Compares two events by the given key.
pub fn compare_by(key: SortKey, a: &VectorEvent, b: &VectorEvent) -> (r: Order)
    ensures r == order_of(order_by(key, a@, b@)),
{
    match key {
        SortKey::Dag => compare_events(a, b),
        SortKey::Entity => {
            if a.logical_clock < b.logical_clock {
                Order::Less
            } else if a.logical_clock > b.logical_clock {
                Order::Greater
            } else if a.timestamp < b.timestamp {
                Order::Less
            } else if a.timestamp > b.timestamp {
                Order::Greater
            } else {
                proof {
                    lemma_key_triple(a.entity_id@, b.entity_id@, b.entity_id@);
                    lemma_key_triple(a.event_id@, b.event_id@, b.event_id@);
                }
                let c = crate::strmap::compare_keys(&a.entity_id, &b.entity_id);
                if c != Order::Equal {
                    return c;
                }
                let d = crate::strmap::compare_keys(&a.event_id, &b.event_id);
                if d != Order::Equal {
                    return d;
                }
                crate::strmap::compare_keys(&a.event_hash, &b.event_hash)
            }
        }
    }
}

/// `pi[i]` lists parents of event `i`, and every parent of event `i` in the set.
pub open spec fn parents_listed(es: Seq<EventView>, pi: Seq<Seq<usize>>) -> bool {
    &&& pi.len() == es.len()
    &&& forall|i: int, j: int| 0 <= i < es.len() && 0 <= j < pi[i].len() ==>
            (#[trigger] pi[i][j]) < es.len() && is_parent(es, pi[i][j] as int, i)
    &&& forall|i: int, m: int| 0 <= i < es.len() && 0 <= m < es.len() && #[trigger] is_parent(es, m, i) ==>
            pi[i].contains(m as usize)
}

pub proof fn lemma_resolved_listed(es: Seq<EventView>, pi: Seq<Seq<usize>>)
    requires hashes_unique(es), parents_resolved(es, pi),
    ensures parents_listed(es, pi),
{
    assert forall|i: int, j: int| 0 <= i < es.len() && 0 <= j < pi[i].len() implies
        (#[trigger] pi[i][j]) < es.len() && is_parent(es, pi[i][j] as int, i) by {
        assert(es[i].parent_hashes[j] == es[pi[i][j] as int].event_hash);
    }
    assert forall|i: int, m: int| 0 <= i < es.len() && 0 <= m < es.len() && #[trigger] is_parent(es, m, i) implies
        pi[i].contains(m as usize) by {
        let j = choose|j: int| 0 <= j < es[i].parent_hashes.len() && es[i].parent_hashes[j] == es[m].event_hash;
        assert(es[pi[i][j] as int].event_hash == es[m].event_hash);
        assert(pi[i][j] == m as usize);
    }
}

/// Two greedy orders under the same key are the same order, when hashes are distinct:
/// a topological order that always takes the smallest ready event is determined by the events.
pub proof fn lemma_greedy_unique(es: Seq<EventView>, o1: Seq<int>, o2: Seq<int>, key: SortKey)
    requires hashes_distinct(es), is_greedy_order(es, o1, key), is_greedy_order(es, o2, key),
    ensures o1 == o2,
{
    lemma_greedy_prefix(es, o1, o2, key, o1.len() as int);
    assert(o1 =~= o1.take(o1.len() as int));
    assert(o2 =~= o2.take(o2.len() as int));
}

proof fn lemma_greedy_prefix(es: Seq<EventView>, o1: Seq<int>, o2: Seq<int>, key: SortKey, p: int)
    requires hashes_distinct(es), is_greedy_order(es, o1, key), is_greedy_order(es, o2, key), 0 <= p <= o1.len(),
    ensures o1.take(p) == o2.take(p),
    decreases p,
{
    if p > 0 {
        lemma_greedy_prefix(es, o1, o2, key, p - 1);
        let q = p - 1;
        assert(greedy_at(es, o1, q, key));
        assert(greedy_at(es, o2, q, key));
        assert(o1.take(q) =~= o2.take(q));
        assert(ready(es, o1.take(q), o2[q]));
        assert(ready(es, o2.take(q), o1[q]));
        lemma_order_by_props(key, es[o1[q]], es[o2[q]], es[o2[q]]);
        if o1[q] != o2[q] {
            assert(es[o1[q]].event_hash == es[o2[q]].event_hash);
        }
        assert(o1.take(p) =~= o1.take(q).push(o1[q]));
        assert(o2.take(p) =~= o2.take(q).push(o2[q]));
    }
}

/// A list of indices as integers.
pub open spec fn as_ints(v: Seq<usize>) -> Seq<int> {
    v.map_values(|x: usize| x as int)
}

/// Distinct indices below `n` number at most `n`.
proof fn lemma_distinct_bounded(s: Seq<int>, n: int)
    requires n >= 0, s.no_duplicates(), forall|q: int| 0 <= q < s.len() ==> 0 <= #[trigger] s[q] < n,
    ensures s.len() <= n,
{
    s.unique_seq_to_set();
    vstd::set_lib::lemma_int_range(0, n);
    assert(s.to_set().subset_of(vstd::set_lib::set_int_range(0, n)));
    vstd::set_lib::lemma_len_subset(s.to_set(), vstd::set_lib::set_int_range(0, n));
}

/// Distinct indices that cover every index below `n` number at least `n`.
proof fn lemma_covering_bounded(s: Seq<int>, n: int)
    requires n >= 0, s.no_duplicates(), forall|k: int| 0 <= k < n ==> #[trigger] s.contains(k),
    ensures s.len() >= n,
{
    s.unique_seq_to_set();
    vstd::set_lib::lemma_int_range(0, n);
    assert(vstd::set_lib::set_int_range(0, n).subset_of(s.to_set()));
    vstd::set_lib::lemma_len_subset(vstd::set_lib::set_int_range(0, n), s.to_set());
}

/// Every position of a topological order up to `p` holds a placed event, when no
/// event is ready.
proof fn lemma_prefix_placed(es: Seq<EventView>, placed: Seq<int>, o: Seq<int>, p: int)
    requires
        is_topological(es, o), 0 <= p <= o.len(),
        forall|k: int| 0 <= k < es.len() && !placed.contains(k) ==> !#[trigger] ready(es, placed, k),
    ensures forall|q: int| 0 <= q < p ==> placed.contains(#[trigger] o[q]),
    decreases p,
{
    if p > 0 {
        lemma_prefix_placed(es, placed, o, p - 1);
        let x = o[p - 1];
        if !placed.contains(x) {
            assert(!ready(es, placed, x));
            let m = choose|m: int| 0 <= m < es.len() && #[trigger] is_parent(es, m, x) && !placed.contains(m);
            assert(o.contains(m));
            let q2 = choose|q2: int| 0 <= q2 < o.len() && o[q2] == m;
            assert(is_parent(es, o[q2], o[p - 1]));
            assert(placed.contains(o[q2]));
        }
    }
}

/// When no event is ready and some event is unplaced, the parent relation has a cycle.
proof fn lemma_stuck_not_acyclic(es: Seq<EventView>, placed: Seq<int>, u: int)
    requires
        0 <= u < es.len(), !placed.contains(u),
        forall|k: int| 0 <= k < es.len() && !placed.contains(k) ==> !#[trigger] ready(es, placed, k),
    ensures !acyclic(es),
{
    if acyclic(es) {
        let o = choose|o: Seq<int>| is_topological(es, o);
        lemma_prefix_placed(es, placed, o, o.len() as int);
        assert(o.contains(u));
        let q = choose|q: int| 0 <= q < o.len() && o[q] == u;
        assert(placed.contains(o[q]));
    }
}

/// Whether event `k` is ready: unplaced, with every parent placed.
fn is_ready(events: &[VectorEvent], pi: &Vec<Vec<usize>>, placed: &Vec<bool>, k: usize, Ghost(ord): Ghost<Seq<int>>) -> (r: bool)
    requires
        k < events.len(), parents_listed(views(events@), index_lists(pi@)),
        placed@.len() == events.len(),
        forall|m: int| 0 <= m < events.len() ==> placed@[m] == ord.contains(m),
    ensures r == ready(views(events@), ord, k as int),
{
    let ghost es = views(events@);
    if placed[k] {
        return false;
    }
    let ps = &pi[k];
    assert(ps@ == index_lists(pi@)[k as int]);
    let mut j: usize = 0;
    while j < ps.len()
        invariant
            j <= ps.len(), k < events.len(), es == views(events@),
            parents_listed(es, index_lists(pi@)), ps@ == index_lists(pi@)[k as int],
            placed@.len() == events.len(),
            forall|m: int| 0 <= m < events.len() ==> placed@[m] == ord.contains(m),
            forall|b: int| 0 <= b < j ==> ord.contains(#[trigger] ps@[b] as int),
        decreases ps.len() - j,
    {
        let m = ps[j];
        if !placed[m] {
            proof {
                assert(is_parent(es, ps@[j as int] as int, k as int));
            }
            return false;
        }
        j += 1;
    }
    proof {
        assert forall|m: int| 0 <= m < es.len() && #[trigger] is_parent(es, m, k as int) implies ord.contains(m) by {
            assert(ps@.contains(m as usize));
            let b = choose|b: int| 0 <= b < ps@.len() && ps@[b] == m as usize;
            assert(ord.contains(ps@[b] as int));
        }
    }
    true
}

/// Places events one at a time, always the smallest ready one, until none is ready;
/// reports whether every event was placed.
pub(crate) fn greedy_order(events: &[VectorEvent], pi: &Vec<Vec<usize>>, key: SortKey) -> (r: (Vec<usize>, bool))
    requires parents_listed(views(events@), index_lists(pi@)),
    ensures
        r.1 == acyclic(views(events@)),
        r.1 ==> is_greedy_order(views(events@), as_ints(r.0@), key),
{
    let ghost es = views(events@);
    let n = events.len();
    let mut placed: Vec<bool> = Vec::new();
    let mut t: usize = 0;
    while t < n
        invariant t <= n, n == events.len(), placed@.len() == t, forall|m: int| 0 <= m < t ==> placed@[m] == false,
        decreases n - t,
    {
        placed.push(false);
        t += 1;
    }
    let mut order: Vec<usize> = Vec::new();
    assert(as_ints(order@) =~= Seq::<int>::empty());
    loop
        invariant
            n == events.len(), es == views(events@), parents_listed(es, index_lists(pi@)),
            placed@.len() == n,
            forall|m: int| 0 <= m < n ==> placed@[m] == as_ints(order@).contains(m),
            forall|q: int| 0 <= q < order@.len() ==> 0 <= #[trigger] as_ints(order@)[q] < n,
            as_ints(order@).no_duplicates(),
            forall|p: int| 0 <= p < order@.len() ==> #[trigger] greedy_at(es, as_ints(order@), p, key),
        ensures
            forall|c: int| 0 <= c < n ==> !#[trigger] ready(es, as_ints(order@), c),
        decreases n - order@.len(),
    {
        let ghost ord = as_ints(order@);
        let mut best: Option<usize> = None;
        let mut k: usize = 0;
        while k < n
            invariant
                k <= n, n == events.len(), es == views(events@), parents_listed(es, index_lists(pi@)),
                placed@.len() == n, ord == as_ints(order@),
                forall|m: int| 0 <= m < n ==> placed@[m] == ord.contains(m),
                match best {
                    Some(b) => b < n && ready(es, ord, b as int)
                        && forall|c: int| 0 <= c < k && #[trigger] ready(es, ord, c) ==> order_by(key, es[b as int], es[c]) <= 0,
                    None => forall|c: int| 0 <= c < k ==> !#[trigger] ready(es, ord, c),
                },
            decreases n - k,
        {
            if is_ready(events, pi, &placed, k, Ghost(ord)) {
                match best {
                    None => {
                        proof { lemma_order_by_props(key, es[k as int], es[k as int], es[k as int]); }
                        best = Some(k);
                    }
                    Some(b) => {
                        let o = compare_by(key, &events[k], &events[b]);
                        proof {
                            lemma_order_by_props(key, es[k as int], es[b as int], es[k as int]);
                            assert forall|c: int| 0 <= c < k + 1 && #[trigger] ready(es, ord, c) implies
                                order_by(key, es[(if o == Order::Less { k } else { b }) as int], es[c]) <= 0 by {
                                lemma_order_by_props(key, es[k as int], es[b as int], es[c]);
                            }
                        }
                        if o == Order::Less {
                            best = Some(k);
                        }
                    }
                }
            }
            k += 1;
        }
        match best {
            None => { break; }
            Some(b) => {
                proof {
                    lemma_distinct_bounded(ord.push(b as int), n as int);
                    assert(ord.push(b as int) =~= as_ints(order@.push(b)));
                }
                order.push(b);
                placed.set(b, true);
                proof {
                    let nord = as_ints(order@);
                    assert(nord =~= ord.push(b as int));
                    assert(nord.take(ord.len() as int) =~= ord);
                    assert forall|p: int| 0 <= p < order@.len() implies #[trigger] greedy_at(es, nord, p, key) by {
                        if p < ord.len() {
                            assert(nord.take(p) =~= ord.take(p));
                            assert(greedy_at(es, ord, p, key));
                        }
                    }
                    assert forall|m: int| 0 <= m < n implies placed@[m] == nord.contains(m) by {
                        if m == b as int { assert(nord[ord.len() as int] == m); }
                        else if nord.contains(m) {
                            let q = choose|q: int| 0 <= q < nord.len() && nord[q] == m;
                            assert(ord[q] == m);
                        } else {
                            if ord.contains(m) {
                                let q = choose|q: int| 0 <= q < ord.len() && ord[q] == m;
                                assert(nord[q] == m);
                            }
                        }
                    }
                }
            }
        }
    }
    let ghost ord = as_ints(order@);
    let mut u: usize = 0;
    while u < n
        invariant
            u <= n, n == events.len(), placed@.len() == n, forall|m: int| 0 <= m < u ==> placed@[m],
            es == views(events@), ord == as_ints(order@),
            forall|m: int| 0 <= m < n ==> placed@[m] == ord.contains(m),
            forall|c: int| 0 <= c < n ==> !#[trigger] ready(es, ord, c),
        decreases n - u,
    {
        if !placed[u] {
            proof {
                assert(!ord.contains(u as int));
                lemma_stuck_not_acyclic(es, ord, u as int);
            }
            return (order, false);
        }
        u += 1;
    }
    proof {
        assert forall|m: int| 0 <= m < n implies #[trigger] ord.contains(m) by { assert(placed@[m]); }
        lemma_distinct_bounded(ord, n as int);
        lemma_covering_bounded(ord, n as int);
        assert forall|a: int, b: int| 0 <= a < ord.len() && 0 <= b < ord.len() && #[trigger] is_parent(es, ord[b], ord[a]) implies b < a by {
            assert(greedy_at(es, ord, a, key));
            assert(ready(es, ord.take(a), ord[a]));
            assert(ord.take(a).contains(ord[b]));
            let q = choose|q: int| 0 <= q < a && ord.take(a)[q] == ord[b];
            assert(ord[q] == ord[b]);
        }
        assert(is_topological(es, ord));
    }
    (order, true)
}

/// Checks that events form a DAG: unique non-empty hashes, every parent present once and
/// in the child's region, and no cycle.
pub fn validate_dag(events: &[VectorEvent]) -> (r: Result<(), String>)
    ensures
        match r {
            Ok(()) => dag_check(views(events@)) == Ok::<(), Seq<char>>(()),
            Err(m) => dag_check(views(events@)) == Err::<(), Seq<char>>(m@),
        },
{
    event_index(events)?;
    let pi = parent_indices(events)?;
    proof {
        lemma_index_ok_unique(views(events@));
        lemma_resolved_listed(views(events@), index_lists(pi@));
    }
    let (_order, complete) = greedy_order(events, &pi, SortKey::Dag);
    if complete {
        Ok(())
    } else {
        Err("cycle detected in event DAG".to_string())
    }
}

/// The events of a valid DAG, each after its parents, always taking next the smallest
/// ready event by (logical clock, timestamp, hash, id).
pub fn topological_order(events: &[VectorEvent]) -> (r: Result<Vec<VectorEvent>, String>)
    ensures
        match r {
            Ok(out) => dag_check(views(events@)) is Ok && hashes_unique(views(events@))
                && is_greedy_order(views(events@), greedy_of(views(events@), SortKey::Dag), SortKey::Dag)
                && views(out@) == greedy_of(views(events@), SortKey::Dag).map_values(|k: int| views(events@)[k]),
            Err(m) => dag_check(views(events@)) == Err::<(), Seq<char>>(m@),
        },
{
    let ghost es = views(events@);
    event_index(events)?;
    let pi = parent_indices(events)?;
    proof {
        lemma_index_ok_unique(es);
        lemma_resolved_listed(es, index_lists(pi@));
    }
    let (order, complete) = greedy_order(events, &pi, SortKey::Dag);
    if !complete {
        return Err("cycle detected in event DAG".to_string());
    }
    let ghost ord = as_ints(order@);
    proof {
        lemma_greedy_unique(es, ord, greedy_of(es, SortKey::Dag), SortKey::Dag);
    }
    let mut out: Vec<VectorEvent> = Vec::new();
    let mut i: usize = 0;
    while i < order.len()
        invariant
            i <= order.len(), es == views(events@), ord == as_ints(order@), is_topological(es, ord),
            views(out@) =~= ord.take(i as int).map_values(|k: int| es[k]),
        decreases order.len() - i,
    {
        assert(0 <= ord[i as int] < es.len());
        let e = events[order[i]].duplicate();
        assert(e@ == es[ord[i as int]]);
        let ghost prev = views(out@);
        out.push(e);
        assert(views(out@) =~= prev.push(e@));
        assert(ord.take(i + 1) =~= ord.take(i as int).push(ord[i as int]));
        i += 1;
        assert(views(out@) =~= ord.take(i as int).map_values(|k: int| es[k]));
    }
    assert(ord.take(ord.len() as int) =~= ord);
    Ok(out)
}

/// A conflict found in a set of events.
#[derive(Debug, Clone, PartialEq, Eq)]
pub struct DagConflict {
    pub event_hash: String,
    pub reason: String,
}

impl View for DagConflict {
    type V = (Seq<char>, Seq<char>);
    open spec fn view(&self) -> (Seq<char>, Seq<char>) {
        (self.event_hash@, self.reason@)
    }
}

/// The conflicts reported for the first `j` parents of event `i`.
pub open spec fn parent_conflicts(es: Seq<EventView>, i: int, j: nat) -> Seq<(Seq<char>, Seq<char>)>
    decreases j,
{
    if j == 0 {
        Seq::empty()
    } else {
        let p = es[i].parent_hashes[j - 1];
        let h = es[i].event_hash;
        let dup = if es[i].parent_hashes.take(j - 1).contains(p) {
            seq![(h, "duplicate parent hash in event: "@ + p)]
        } else {
            Seq::empty()
        };
        let missing = if !has_hash(es, p) { seq![(h, "missing parent event: "@ + p)] } else { Seq::empty() };
        parent_conflicts(es, i, (j - 1) as nat) + dup + missing
    }
}

/// The conflicts reported for event `i`.
pub open spec fn event_conflicts(es: Seq<EventView>, i: int) -> Seq<(Seq<char>, Seq<char>)> {
    let h = es[i].event_hash;
    let own = if es[i].parent_hashes.contains(h) { seq![(h, "self-parent cycle detected"@)] } else { Seq::empty() };
    own + parent_conflicts(es, i, es[i].parent_hashes.len())
}

/// The conflicts reported for the first `n` events.
pub open spec fn conflicts_upto(es: Seq<EventView>, n: nat) -> Seq<(Seq<char>, Seq<char>)>
    decreases n,
{
    if n == 0 { Seq::empty() } else { conflicts_upto(es, (n - 1) as nat) + event_conflicts(es, n - 1) }
}

/// Everything `detect_conflicts` reports: an indexing problem alone, or the self-parent,
/// duplicate-parent and missing-parent conflicts event by event.
pub open spec fn dag_conflicts(es: Seq<EventView>) -> Seq<(Seq<char>, Seq<char>)> {
    match index_error(es) {
        Some(m) => seq![(Seq::<char>::empty(), m)],
        None => conflicts_upto(es, es.len()),
    }
}

proof fn lemma_parent_conflicts_empty(es: Seq<EventView>, i: int, j: nat)
    requires edges_sound(es), 0 <= i < es.len(), j <= es[i].parent_hashes.len(),
    ensures parent_conflicts(es, i, j).len() == 0,
    decreases j,
{
    if j > 0 {
        lemma_parent_conflicts_empty(es, i, (j - 1) as nat);
        assert(parent_problem(es, i, j - 1) is None);
    }
}

proof fn lemma_conflicts_upto_empty(es: Seq<EventView>, n: nat, order: Seq<int>)
    requires edges_sound(es), is_topological(es, order), n <= es.len(),
    ensures conflicts_upto(es, n).len() == 0,
    decreases n,
{
    if n > 0 {
        let i = n - 1;
        lemma_conflicts_upto_empty(es, (n - 1) as nat, order);
        lemma_parent_conflicts_empty(es, i, es[i].parent_hashes.len());
        if es[i].parent_hashes.contains(es[i].event_hash) {
            assert(order.contains(i));
            let q = choose|q: int| 0 <= q < order.len() && order[q] == i;
            assert(is_parent(es, order[q], order[q]));
        }
    }
}

/// A set of events that passes DAG validation has no conflicts to report: no self-parent,
/// no parent listed twice and no missing parent.
pub proof fn lemma_valid_dag_has_no_conflicts(es: Seq<EventView>)
    requires dag_check(es) is Ok,
    ensures dag_conflicts(es).len() == 0,
{
    lemma_edges_ok_sound(es);
    let order = choose|order: Seq<int>| is_topological(es, order);
    lemma_conflicts_upto_empty(es, es.len(), order);
}

pub open spec fn conflict_views(v: Seq<DagConflict>) -> Seq<(Seq<char>, Seq<char>)> {
    v.map_values(|c: DagConflict| c@)
}

/// Whether some string of `v` equals `h`.
pub(crate) fn contains_string(v: &Vec<String>, h: &String) -> (r: bool)
    ensures r == crate::event::strings_view(v@).contains(h@),
{
    let ghost ps = crate::event::strings_view(v@);
    let mut m: usize = 0;
    while m < v.len()
        invariant m <= v.len(), ps == crate::event::strings_view(v@), forall|c: int| 0 <= c < m ==> ps[c] != h@,
        decreases v.len() - m,
    {
        if v[m] == *h {
            assert(ps[m as int] == h@);
            return true;
        }
        m += 1;
    }
    false
}

/// Lists the structural conflicts of a set of events.
pub fn detect_conflicts(events: &[VectorEvent]) -> (r: Vec<DagConflict>)
    ensures conflict_views(r@) == dag_conflicts(views(events@)),
{
    let ghost es = views(events@);
    let mut out: Vec<DagConflict> = Vec::new();
    match event_index(events) {
        Err(m) => {
            out.push(DagConflict { event_hash: String::new(), reason: m });
            assert(conflict_views(out@) =~= dag_conflicts(es));
            return out;
        }
        Ok(()) => {}
    }
    let mut i: usize = 0;
    while i < events.len()
        invariant i <= events.len(), es == views(events@), index_error(es) is None,
            conflict_views(out@) =~= conflicts_upto(es, i as nat),
        decreases events.len() - i,
    {
        let e = &events[i];
        let ghost before = conflict_views(out@);
        if contains_string(&e.parent_hashes, &e.event_hash) {
            out.push(DagConflict { event_hash: e.event_hash.clone(), reason: "self-parent cycle detected".to_string() });
        }
        let ghost own = conflict_views(out@).skip(before.len() as int);
        assert(before + own =~= conflict_views(out@));
        let mut j: usize = 0;
        while j < e.parent_hashes.len()
            invariant
                j <= e.parent_hashes.len(), i < events.len(), e == &events@[i as int], es == views(events@),
                conflict_views(out@) =~= before + own + parent_conflicts(es, i as int, j as nat),
            decreases e.parent_hashes.len() - j,
        {
            let p = &e.parent_hashes[j];
            assert(p@ == es[i as int].parent_hashes[j as int]);
            let ghost h = es[i as int].event_hash;
            let ghost start = conflict_views(out@);
            let dup = listed_before(&e.parent_hashes, j);
            if dup {
                out.push(DagConflict { event_hash: e.event_hash.clone(), reason: concat2("duplicate parent hash in event: ", p.as_str()) });
            }
            let ghost dseq = if dup { seq![(h, "duplicate parent hash in event: "@ + p@)] } else { Seq::empty() };
            assert(conflict_views(out@) =~= start + dseq);
            let ghost mid = conflict_views(out@);
            let missing = find_hash(events, p).is_none();
            if missing {
                out.push(DagConflict { event_hash: e.event_hash.clone(), reason: concat2("missing parent event: ", p.as_str()) });
            }
            let ghost mseq = if missing { seq![(h, "missing parent event: "@ + p@)] } else { Seq::empty() };
            assert(conflict_views(out@) =~= mid + mseq);
            assert(parent_conflicts(es, i as int, (j + 1) as nat) == parent_conflicts(es, i as int, j as nat) + dseq + mseq);
            j += 1;
            assert(conflict_views(out@) =~= before + own + parent_conflicts(es, i as int, j as nat));
        }
        i += 1;
        assert(conflict_views(out@) =~= conflicts_upto(es, i as nat));
    }
    out
}

} // verus!
