use vstd::prelude::*;
use crate::dag::event_order;
use crate::engine::{insert_event, next_clock, region_with_id, sorted_events};
use crate::event::EventView;
use crate::genesis::lemma_genesis_region_key;
use crate::region::{first_match, genesis_event, insert_by_order, is_region_create, listed_order, norm_name, norm_prefix,
    region_from_event, region_listing, regions_from_events, RegionView, RequestView};
use crate::strmap::{entries_sorted, lemma_insert_sorted, lemma_key_order_eq, sorted_insert};

verus! {

/// A region is listed under a name and prefix, both normalized.
pub open spec fn listed_under(x: RegionView, name: Seq<char>, prefix: Option<Seq<char>>) -> bool {
    x.normalized_name == norm_name(name) && norm_prefix(x.region_prefix) == norm_prefix(prefix)
}

proof fn lemma_first_match(list: Seq<RegionView>, name: Seq<char>, prefix: Option<Seq<char>>)
    ensures
        first_match(list, name, prefix) is None <==> forall|i: int| 0 <= i < list.len() ==> !listed_under(#[trigger] list[i], name, prefix),
        first_match(list, name, prefix) matches Some(x) ==> list.contains(x) && listed_under(x, name, prefix),
    decreases list.len(),
{
    if list.len() > 0 {
        let t = list.drop_first();
        lemma_first_match(t, name, prefix);
        if !listed_under(list[0], name, prefix) {
            assert forall|i: int| 0 <= i < t.len() implies #[trigger] t[i] == list[i + 1] by {}
            if first_match(list, name, prefix) is None {
                assert forall|i: int| 0 <= i < list.len() implies !listed_under(#[trigger] list[i], name, prefix) by {
                    if i > 0 { assert(list[i] == t[i - 1]); }
                }
            }
            if first_match(t, name, prefix) is Some {
                let x = first_match(t, name, prefix)->0;
                let j = choose|j: int| 0 <= j < t.len() && t[j] == x;
                assert(list[j + 1] == x);
            }
        } else {
            assert(list[0] == list[0]);
        }
    }
}

proof fn lemma_insert_by_order_has(s: Seq<RegionView>, x: RegionView, y: RegionView)
    ensures insert_by_order(s, x).contains(y) <==> (y == x || s.contains(y)),
    decreases s.len(),
{
    let r = insert_by_order(s, x);
    if s.len() > 0 {
        let t = s.drop_first();
        lemma_insert_by_order_has(t, x, y);
        if crate::region::region_order(x, s[0]) < 0 {
            assert(r =~= seq![x] + s);
            if s.contains(y) { let j = choose|j: int| 0 <= j < s.len() && s[j] == y; assert(r[j + 1] == y); }
            if r.contains(y) && y != x { let j = choose|j: int| 0 <= j < r.len() && r[j] == y; assert(s[j - 1] == y); }
        } else {
            let rt = insert_by_order(t, x);
            assert(r =~= seq![s[0]] + rt);
            if s.contains(y) {
                let j = choose|j: int| 0 <= j < s.len() && s[j] == y;
                if j > 0 { assert(t[j - 1] == y); let k = choose|k: int| 0 <= k < rt.len() && rt[k] == y; assert(r[k + 1] == y); }
                else { assert(r[0] == y); }
            }
            if y == x { let k = choose|k: int| 0 <= k < rt.len() && rt[k] == y; assert(r[k + 1] == y); }
            if r.contains(y) {
                let j = choose|j: int| 0 <= j < r.len() && r[j] == y;
                if j > 0 {
                    assert(rt[j - 1] == y);
                    if y != x { let k = choose|k: int| 0 <= k < t.len() && t[k] == y; assert(s[k + 1] == y); }
                }
            }
        }
    } else {
        assert(r == seq![x]);
    }
}

proof fn lemma_listed_order_has(s: Seq<RegionView>, y: RegionView)
    ensures listed_order(s).contains(y) <==> s.contains(y),
    decreases s.len(),
{
    if s.len() > 0 {
        let t = s.drop_last();
        lemma_listed_order_has(t, y);
        lemma_insert_by_order_has(listed_order(t), s.last(), y);
        if s.contains(y) && y != s.last() {
            let j = choose|j: int| 0 <= j < s.len() && s[j] == y;
            assert(t[j] == y);
        }
        if t.contains(y) {
            let j = choose|j: int| 0 <= j < t.len() && t[j] == y;
            assert(s[j] == y);
        }
    }
}

/// The values of a keyed insertion: the inserted one, and values already there.
proof fn lemma_insert_values(m: Seq<(Seq<char>, RegionView)>, k: Seq<char>, v: RegionView)
    ensures
        sorted_insert(m, k, v).contains((k, v)),
        forall|i: int| 0 <= i < sorted_insert(m, k, v).len() ==>
            #[trigger] sorted_insert(m, k, v)[i] == (k, v) || m.contains(sorted_insert(m, k, v)[i]),
    decreases m.len(),
{
    let r = sorted_insert(m, k, v);
    if m.len() == 0 {
        assert(r[0] == (k, v));
    } else if crate::strmap::key_order(m[0].0, k) < 0 {
        let t = m.drop_first();
        lemma_insert_values(t, k, v);
        let rt = sorted_insert(t, k, v);
        assert(r =~= seq![m[0]] + rt);
        let j = choose|j: int| 0 <= j < rt.len() && rt[j] == (k, v);
        assert(r[j + 1] == (k, v));
        assert forall|i: int| 0 <= i < r.len() implies #[trigger] r[i] == (k, v) || m.contains(r[i]) by {
            if i == 0 { assert(m[0] == r[0]); } else {
                assert(r[i] == rt[i - 1]);
                if rt[i - 1] != (k, v) {
                    let q = choose|q: int| 0 <= q < t.len() && t[q] == rt[i - 1];
                    assert(m[q + 1] == r[i]);
                }
            }
        }
    } else if m[0].0 == k {
        assert(r =~= seq![(k, v)] + m.drop_first());
        assert(r[0] == (k, v));
        assert forall|i: int| 0 <= i < r.len() implies #[trigger] r[i] == (k, v) || m.contains(r[i]) by {
            if i > 0 { assert(r[i] == m[i]); }
        }
    } else {
        assert(r =~= seq![(k, v)] + m);
        assert(r[0] == (k, v));
        assert forall|i: int| 0 <= i < r.len() implies #[trigger] r[i] == (k, v) || m.contains(r[i]) by {
            if i > 0 { assert(r[i] == m[i - 1]); }
        }
    }
}

proof fn lemma_insert_event_has(s: Seq<EventView>, x: EventView, y: EventView)
    ensures insert_event(s, x).contains(y) <==> (y == x || s.contains(y)),
    decreases s.len(),
{
    let r = insert_event(s, x);
    if s.len() > 0 {
        let t = s.drop_first();
        lemma_insert_event_has(t, x, y);
        if event_order(x, s[0]) < 0 {
            assert(r =~= seq![x] + s);
            if s.contains(y) { let j = choose|j: int| 0 <= j < s.len() && s[j] == y; assert(r[j + 1] == y); }
            if r.contains(y) && y != x { let j = choose|j: int| 0 <= j < r.len() && r[j] == y; assert(s[j - 1] == y); }
        } else {
            let rt = insert_event(t, x);
            assert(r =~= seq![s[0]] + rt);
            if s.contains(y) {
                let j = choose|j: int| 0 <= j < s.len() && s[j] == y;
                if j > 0 { assert(t[j - 1] == y); let k = choose|k: int| 0 <= k < rt.len() && rt[k] == y; assert(r[k + 1] == y); }
                else { assert(r[0] == y); }
            }
            if y == x { let k = choose|k: int| 0 <= k < rt.len() && rt[k] == y; assert(r[k + 1] == y); }
            if r.contains(y) {
                let j = choose|j: int| 0 <= j < r.len() && r[j] == y;
                if j > 0 {
                    assert(rt[j - 1] == y);
                    if y != x { let k = choose|k: int| 0 <= k < t.len() && t[k] == y; assert(s[k + 1] == y); }
                }
            }
        }
    } else {
        assert(r == seq![x]);
    }
}

/// The events are in non-decreasing logical clock order.
pub open spec fn clocks_sorted(s: Seq<EventView>) -> bool {
    forall|i: int, j: int| 0 <= i < j < s.len() ==> (#[trigger] s[i]).logical_clock <= (#[trigger] s[j]).logical_clock
}

proof fn lemma_insert_event_clocks(s: Seq<EventView>, x: EventView)
    requires clocks_sorted(s),
    ensures clocks_sorted(insert_event(s, x)),
    decreases s.len(),
{
    let r = insert_event(s, x);
    if s.len() > 0 {
        let t = s.drop_first();
        assert(clocks_sorted(t)) by {
            assert forall|i: int, j: int| 0 <= i < j < t.len() implies (#[trigger] t[i]).logical_clock <= (#[trigger] t[j]).logical_clock by {
                assert(t[i] == s[i + 1] && t[j] == s[j + 1]);
            }
        }
        if event_order(x, s[0]) < 0 {
            assert(r =~= seq![x] + s);
            assert forall|i: int, j: int| 0 <= i < j < r.len() implies (#[trigger] r[i]).logical_clock <= (#[trigger] r[j]).logical_clock by {
                if i == 0 { assert(r[j] == s[j - 1]); if j > 1 { assert(s[0].logical_clock <= s[j - 1].logical_clock); } }
                else { assert(r[i] == s[i - 1] && r[j] == s[j - 1]); }
            }
        } else {
            lemma_insert_event_clocks(t, x);
            let rt = insert_event(t, x);
            assert(r =~= seq![s[0]] + rt);
            assert forall|i: int, j: int| 0 <= i < j < r.len() implies (#[trigger] r[i]).logical_clock <= (#[trigger] r[j]).logical_clock by {
                if i == 0 {
                    assert(r[j] == rt[j - 1]);
                    lemma_insert_event_has(t, x, rt[j - 1]);
                    assert(rt.contains(rt[j - 1]));
                    if rt[j - 1] != x {
                        let q = choose|q: int| 0 <= q < t.len() && t[q] == rt[j - 1];
                        assert(s[q + 1] == t[q]);
                    }
                } else { assert(r[i] == rt[i - 1] && r[j] == rt[j - 1]); }
            }
        }
    }
}

proof fn lemma_sorted_events_clocks(s: Seq<EventView>)
    ensures clocks_sorted(sorted_events(s)),
        forall|y: EventView| sorted_events(s).contains(y) <==> s.contains(y),
    decreases s.len(),
{
    if s.len() > 0 {
        let t = s.drop_last();
        lemma_sorted_events_clocks(t);
        lemma_insert_event_clocks(sorted_events(t), s.last());
        assert forall|y: EventView| sorted_events(s).contains(y) <==> s.contains(y) by {
            lemma_insert_event_has(sorted_events(t), s.last(), y);
            if s.contains(y) && y != s.last() {
                let j = choose|j: int| 0 <= j < s.len() && s[j] == y;
                assert(t[j] == y);
            }
            if t.contains(y) {
                let j = choose|j: int| 0 <= j < t.len() && t[j] == y;
                assert(s[j] == y);
            }
        }
    }
}

/// An event that orders after every listed one goes at the end.
proof fn lemma_insert_event_last(s: Seq<EventView>, x: EventView)
    requires forall|i: int| 0 <= i < s.len() ==> event_order(x, #[trigger] s[i]) > 0,
    ensures insert_event(s, x) == s.push(x),
    decreases s.len(),
{
    if s.len() > 0 {
        let t = s.drop_first();
        assert forall|i: int| 0 <= i < t.len() implies event_order(x, #[trigger] t[i]) > 0 by { assert(t[i] == s[i + 1]); }
        lemma_insert_event_last(t, x);
        assert(event_order(x, s[0]) > 0);
        assert(seq![s[0]] + t.push(x) =~= s.push(x));
    } else {
        assert(seq![x] =~= s.push(x));
    }
}

proof fn lemma_regions_prefix(s: Seq<EventView>, x: EventView, n: nat)
    requires n <= s.len(),
    ensures regions_from_events(s.push(x), n) == regions_from_events(s, n),
    decreases n,
{
    if n > 0 {
        lemma_regions_prefix(s, x, (n - 1) as nat);
        assert(s.push(x)[n - 1] == s[n - 1]);
    }
}

proof fn lemma_region_with_id(list: Seq<RegionView>, id: Seq<char>)
    ensures
        region_with_id(list, id) is None <==> forall|i: int| 0 <= i < list.len() ==> (#[trigger] list[i]).region_id != id,
        region_with_id(list, id) matches Some(x) ==> list.contains(x) && x.region_id == id,
    decreases list.len(),
{
    if list.len() > 0 {
        let t = list.drop_first();
        lemma_region_with_id(t, id);
        if list[0].region_id != id {
            if region_with_id(list, id) is None {
                assert forall|i: int| 0 <= i < list.len() implies (#[trigger] list[i]).region_id != id by {
                    if i > 0 { assert(list[i] == t[i - 1]); }
                }
            } else {
                let x = region_with_id(t, id)->0;
                let j = choose|j: int| 0 <= j < t.len() && t[j] == x;
                assert(list[j + 1] == x);
            }
        } else {
            assert(list[0] == list[0]);
        }
    }
}

/// The regions read from events are kept sorted by id, each under its own id.
proof fn lemma_regions_keyed(es: Seq<EventView>, n: nat)
    requires n <= es.len(), regions_from_events(es, n) is Ok,
    ensures
        entries_sorted(regions_from_events(es, n)->Ok_0),
        forall|i: int| 0 <= i < regions_from_events(es, n)->Ok_0.len() ==>
            (#[trigger] regions_from_events(es, n)->Ok_0[i]).0 == regions_from_events(es, n)->Ok_0[i].1.region_id,
    decreases n,
{
    if n > 0 {
        let m1 = (n - 1) as nat;
        assert(regions_from_events(es, m1) is Ok);
        lemma_regions_keyed(es, m1);
        let m = regions_from_events(es, m1)->Ok_0;
        if is_region_create(es[n - 1]) {
            let v = region_from_event(es[n - 1])->Ok_0;
            lemma_insert_sorted(m, v.region_id, v);
            lemma_insert_values(m, v.region_id, v);
            let m2 = sorted_insert(m, v.region_id, v);
            assert forall|i: int| 0 <= i < m2.len() implies (#[trigger] m2[i]).0 == m2[i].1.region_id by {
                if m2[i] != (v.region_id, v) {
                    let b = choose|b: int| 0 <= b < m.len() && m[b] == m2[i];
                }
            }
        }
    }
}

/// A region that `create_region` adds is the one lookups then find: when the stored events
/// list no region under a request's name and prefix, and the last stored event's clock can
/// still be advanced, appending the request's genesis event lists first under that name
/// and prefix, and first under its id, the region the event gives.
#[verifier::spinoff_prover]
#[verifier::rlimit(40)]
pub proof fn lemma_created_region_found(log: Seq<EventView>, r: RequestView, actor: Seq<char>, ts: u64, list: Seq<RegionView>)
    requires
        region_listing(sorted_events(log)) == Ok::<Seq<RegionView>, Seq<char>>(list),
        first_match(list, r.region_name, r.region_prefix) is None,
        region_from_event(genesis_event(r, actor, next_clock(log), ts, 1)) is Ok,
        sorted_events(log).len() == 0 || sorted_events(log).last().logical_clock < u64::MAX,
    ensures
        region_listing(sorted_events(log.push(genesis_event(r, actor, next_clock(log), ts, 1)))) matches Ok(list2)
            && first_match(list2, r.region_name, r.region_prefix)
                == Some(region_from_event(genesis_event(r, actor, next_clock(log), ts, 1))->Ok_0)
            && region_with_id(list2, region_from_event(genesis_event(r, actor, next_clock(log), ts, 1))->Ok_0.region_id)
                == Some(region_from_event(genesis_event(r, actor, next_clock(log), ts, 1))->Ok_0),
{
    let e = genesis_event(r, actor, next_clock(log), ts, 1);
    let v = region_from_event(e)->Ok_0;
    let s = sorted_events(log);
    lemma_genesis_region_key(r, actor, next_clock(log), ts, 1);
    assert(listed_under(v, r.region_name, r.region_prefix));
    lemma_sorted_events_clocks(log);
    assert forall|i: int| 0 <= i < s.len() implies event_order(e, #[trigger] s[i]) > 0 by {
        if i < s.len() - 1 { assert(s[i].logical_clock <= s[s.len() - 1].logical_clock); }
        assert(e.logical_clock == next_clock(log));
    }
    assert(log.push(e).drop_last() =~= log);
    lemma_insert_event_last(s, e);
    let s2 = sorted_events(log.push(e));
    assert(s2 == s.push(e));
    lemma_regions_prefix(s, e, s.len());
    assert(regions_from_events(s2, s.len()) == regions_from_events(s, s.len()));
    let m = regions_from_events(s, s.len())->Ok_0;
    assert(s2[s.len() as int] == e);
    assert(is_region_create(e));
    let m2 = sorted_insert(m, v.region_id, v);
    assert(regions_from_events(s2, s2.len()) == Ok::<Seq<(Seq<char>, RegionView)>, Seq<char>>(m2));
    let vals = m.map_values(|q: (Seq<char>, RegionView)| q.1);
    let vals2 = m2.map_values(|q: (Seq<char>, RegionView)| q.1);
    assert(list == listed_order(vals));
    let list2 = listed_order(vals2);
    lemma_insert_values(m, v.region_id, v);
    lemma_first_match(list, r.region_name, r.region_prefix);
    lemma_first_match(list2, r.region_name, r.region_prefix);
    // The new region is listed.
    let j = choose|j: int| 0 <= j < m2.len() && m2[j] == (v.region_id, v);
    assert(vals2[j] == v);
    lemma_listed_order_has(vals2, v);
    // Any region listed under the name and prefix is the new one.
    assert forall|i: int| 0 <= i < list2.len() && listed_under(#[trigger] list2[i], r.region_name, r.region_prefix)
        implies list2[i] == v by {
        let y = list2[i];
        lemma_listed_order_has(vals2, y);
        let a = choose|a: int| 0 <= a < vals2.len() && vals2[a] == y;
        if m2[a] != (v.region_id, v) {
            let b = choose|b: int| 0 <= b < m.len() && m[b] == m2[a];
            assert(vals[b] == y);
            lemma_listed_order_has(vals, y);
            let c = choose|c: int| 0 <= c < list.len() && list[c] == y;
            assert(!listed_under(list[c], r.region_name, r.region_prefix));
        }
    }
    let k = choose|k: int| 0 <= k < list2.len() && list2[k] == v;
    assert(listed_under(list2[k], r.region_name, r.region_prefix));
    let x = first_match(list2, r.region_name, r.region_prefix)->0;
    let q = choose|q: int| 0 <= q < list2.len() && list2[q] == x;
    assert(listed_under(list2[q], r.region_name, r.region_prefix));
    // The new region is the only listed one with its id.
    lemma_regions_keyed(s2, s2.len());
    lemma_region_with_id(list2, v.region_id);
    assert forall|i: int| 0 <= i < list2.len() && (#[trigger] list2[i]).region_id == v.region_id implies list2[i] == v by {
        let y = list2[i];
        lemma_listed_order_has(vals2, y);
        let a = choose|a: int| 0 <= a < vals2.len() && vals2[a] == y;
        assert(m2[a].0 == y.region_id && m2[j].0 == v.region_id);
        if a != j {
            if a < j { lemma_key_order_eq(m2[a].0, m2[j].0); } else { lemma_key_order_eq(m2[j].0, m2[a].0); }
        }
    }
    let w = region_with_id(list2, v.region_id)->0;
    let z = choose|z: int| 0 <= z < list2.len() && list2[z] == w;
    assert(list2[z].region_id == v.region_id);
}

} // verus!
