use vstd::prelude::*;
use vstd::string::StringSliceAdditionalSpecFns;
use crate::event::{VectorState, VectorStateView};
use crate::text::{bytes_order, compare_str, lemma_bytes_order_eq, lemma_bytes_order_antisym, lemma_bytes_order_range, lemma_bytes_order_trans, order_of, Order};

verus! {

/// Byte-wise key order of strings, the order of `String::cmp`.
pub open spec fn key_order(a: Seq<char>, b: Seq<char>) -> int {
    bytes_order(vstd::utf8::encode_utf8(a), vstd::utf8::encode_utf8(b))
}

/// The entries are strictly increasing by key.
pub open spec fn entries_sorted<V>(s: Seq<(Seq<char>, V)>) -> bool {
    forall|i: int, j: int| 0 <= i < j < s.len() ==> key_order(#[trigger] s[i].0, #[trigger] s[j].0) < 0
}

/// The value of the first entry with the given key.
pub open spec fn lookup<V>(s: Seq<(Seq<char>, V)>, k: Seq<char>) -> Option<V>
    decreases s.len(),
{
    if s.len() == 0 {
        None
    } else if s[0].0 == k {
        Some(s[0].1)
    } else {
        lookup(s.drop_first(), k)
    }
}

/// Inserts an entry before the first entry whose key is not smaller, replacing an equal key.
pub open spec fn sorted_insert<V>(s: Seq<(Seq<char>, V)>, k: Seq<char>, v: V) -> Seq<(Seq<char>, V)>
    decreases s.len(),
{
    if s.len() == 0 {
        seq![(k, v)]
    } else if key_order(s[0].0, k) < 0 {
        seq![s[0]] + sorted_insert(s.drop_first(), k, v)
    } else if s[0].0 == k {
        seq![(k, v)] + s.drop_first()
    } else {
        seq![(k, v)] + s
    }
}

/// What an insertion does to lookups.
pub proof fn lemma_lookup_insert<V>(s: Seq<(Seq<char>, V)>, k: Seq<char>, v: V, k2: Seq<char>)
    ensures lookup(sorted_insert(s, k, v), k2) == if k2 == k { Some(v) } else { lookup(s, k2) },
    decreases s.len(),
{
    if s.len() == 0 {
    } else if key_order(s[0].0, k) < 0 {
        lemma_key_order_eq(s[0].0, k);
        lemma_lookup_insert(s.drop_first(), k, v, k2);
        assert((seq![s[0]] + sorted_insert(s.drop_first(), k, v)).drop_first() =~= sorted_insert(s.drop_first(), k, v));
    } else if s[0].0 == k {
        assert((seq![(k, v)] + s.drop_first()).drop_first() =~= s.drop_first());
    } else {
        assert((seq![(k, v)] + s).drop_first() =~= s);
    }
}

/// Insertion keeps the entries sorted.
/// Inserting into sorted entries adds one entry for a new key and keeps the length for a
/// key already present.
pub proof fn lemma_insert_len<V>(s: Seq<(Seq<char>, V)>, k: Seq<char>, v: V)
    requires entries_sorted(s),
    ensures sorted_insert(s, k, v).len() == s.len() + if lookup(s, k) is Some { 0int } else { 1int },
    decreases s.len(),
{
    if s.len() > 0 {
        lemma_key_order_eq(s[0].0, k);
        if key_order(s[0].0, k) < 0 {
            let t = s.drop_first();
            assert(entries_sorted(t)) by {
                assert forall|i: int, j: int| 0 <= i < j < t.len() implies key_order(#[trigger] t[i].0, #[trigger] t[j].0) < 0 by {
                    assert(t[i] == s[i + 1] && t[j] == s[j + 1]);
                }
            }
            lemma_insert_len(t, k, v);
        } else if s[0].0 != k {
            lemma_lookup_at(s, k, 0);
        }
    }
}

pub proof fn lemma_insert_sorted<V>(s: Seq<(Seq<char>, V)>, k: Seq<char>, v: V)
    requires entries_sorted(s),
    ensures entries_sorted(sorted_insert(s, k, v)),
        forall|i: int| 0 <= i < sorted_insert(s, k, v).len() ==>
            (#[trigger] sorted_insert(s, k, v)[i]).0 == k || exists|j: int| 0 <= j < s.len() && s[j].0 == sorted_insert(s, k, v)[i].0,
    decreases s.len(),
{
    let r = sorted_insert(s, k, v);
    if s.len() == 0 {
    } else if key_order(s[0].0, k) < 0 {
        let t = s.drop_first();
        assert(entries_sorted(t)) by {
            assert forall|i: int, j: int| 0 <= i < j < t.len() implies key_order(#[trigger] t[i].0, #[trigger] t[j].0) < 0 by {
                assert(t[i] == s[i + 1]); assert(t[j] == s[j + 1]);
            }
        }
        lemma_insert_sorted(t, k, v);
        let rt = sorted_insert(t, k, v);
        assert(r =~= seq![s[0]] + rt);
        assert forall|i: int| 0 <= i < r.len() implies (#[trigger] r[i]).0 == k || exists|j: int| 0 <= j < s.len() && s[j].0 == r[i].0 by {
            if i == 0 { assert(s[0].0 == r[0].0); } else {
                assert(r[i] == rt[i - 1]);
                if rt[i - 1].0 != k {
                    let j = choose|j: int| 0 <= j < t.len() && t[j].0 == rt[i - 1].0;
                    assert(s[j + 1].0 == r[i].0);
                }
            }
        }
        assert forall|i: int, j: int| 0 <= i < j < r.len() implies key_order(#[trigger] r[i].0, #[trigger] r[j].0) < 0 by {
            if i == 0 {
                assert(r[j] == rt[j - 1]);
                if rt[j - 1].0 == k {
                } else {
                    let m = choose|m: int| 0 <= m < t.len() && t[m].0 == rt[j - 1].0;
                    assert(t[m] == s[m + 1]);
                }
            } else {
                assert(r[i] == rt[i - 1]); assert(r[j] == rt[j - 1]);
            }
        }
    } else if s[0].0 == k {
        assert(r =~= s.update(0, (k, v)));
        assert forall|i: int, j: int| 0 <= i < j < r.len() implies key_order(#[trigger] r[i].0, #[trigger] r[j].0) < 0 by {
            assert(r[i].0 == s[i].0); assert(r[j].0 == s[j].0);
        }
        assert forall|i: int| 0 <= i < r.len() implies (#[trigger] r[i]).0 == k || exists|j: int| 0 <= j < s.len() && s[j].0 == r[i].0 by {
            assert(r[i].0 == s[i].0);
        }
    } else {
        lemma_key_order_eq(s[0].0, k);
        lemma_key_order_props(s[0].0, k, k);
        assert(r =~= seq![(k, v)] + s);
        assert forall|i: int, j: int| 0 <= i < j < r.len() implies key_order(#[trigger] r[i].0, #[trigger] r[j].0) < 0 by {
            if i == 0 {
                assert(r[j] == s[j - 1]);
                if j - 1 > 0 {
                    assert(key_order(s[0].0, s[j - 1].0) < 0);
                    lemma_key_order_props(k, s[0].0, s[j - 1].0);
                }
            } else {
                assert(r[i] == s[i - 1]); assert(r[j] == s[j - 1]);
            }
        }
        assert forall|i: int| 0 <= i < r.len() implies (#[trigger] r[i]).0 == k || exists|j: int| 0 <= j < s.len() && s[j].0 == r[i].0 by {
            if i > 0 { assert(r[i] == s[i - 1]); }
        }
    }
}

/// The exact shape of an insertion at the first position whose key is not smaller.
pub proof fn lemma_insert_at<V>(s: Seq<(Seq<char>, V)>, k: Seq<char>, v: V, i: int)
    requires
        0 <= i <= s.len(),
        forall|j: int| 0 <= j < i ==> key_order(#[trigger] s[j].0, k) < 0,
        i < s.len() ==> key_order(s[i].0, k) >= 0,
    ensures
        sorted_insert(s, k, v) == if i < s.len() && s[i].0 == k {
            s.update(i, (k, v))
        } else {
            s.insert(i, (k, v))
        },
    decreases i,
{
    if i == 0 {
        if s.len() > 0 {
            if s[0].0 == k {
                assert(seq![(k, v)] + s.drop_first() =~= s.update(0, (k, v)));
            } else {
                assert(seq![(k, v)] + s =~= s.insert(0, (k, v)));
            }
        } else {
            assert(seq![(k, v)] =~= s.insert(0, (k, v)));
        }
    } else {
        let t = s.drop_first();
        assert forall|j: int| 0 <= j < i - 1 implies key_order(#[trigger] t[j].0, k) < 0 by {
            assert(t[j] == s[j + 1]);
        }
        lemma_insert_at(t, k, v, i - 1);
        assert(key_order(s[0].0, k) < 0);
        if i < s.len() && s[i].0 == k {
            assert(seq![s[0]] + t.update(i - 1, (k, v)) =~= s.update(i, (k, v)));
        } else {
            assert(seq![s[0]] + t.insert(i - 1, (k, v)) =~= s.insert(i, (k, v)));
        }
    }
}

pub proof fn lemma_key_order_eq(a: Seq<char>, b: Seq<char>)
    ensures (key_order(a, b) == 0) == (a == b),
{
    lemma_bytes_order_eq(vstd::utf8::encode_utf8(a), vstd::utf8::encode_utf8(b));
    vstd::utf8::encode_utf8_decode_utf8(a);
    vstd::utf8::encode_utf8_decode_utf8(b);
}

pub proof fn lemma_key_order_props(a: Seq<char>, b: Seq<char>, c: Seq<char>)
    ensures
        key_order(a, b) == -key_order(b, a),
        -1 <= key_order(a, b) <= 1,
        key_order(a, b) <= 0 && key_order(b, c) <= 0 ==> key_order(a, c) <= 0,
        key_order(a, b) < 0 && key_order(b, c) <= 0 ==> key_order(a, c) < 0,
        key_order(a, b) <= 0 && key_order(b, c) < 0 ==> key_order(a, c) < 0,
{
    let (ea, eb, ec) = (vstd::utf8::encode_utf8(a), vstd::utf8::encode_utf8(b), vstd::utf8::encode_utf8(c));
    lemma_bytes_order_antisym(ea, eb);
    lemma_bytes_order_range(ea, eb);
    if bytes_order(ea, eb) <= 0 && bytes_order(eb, ec) <= 0 {
        lemma_bytes_order_trans(ea, eb, ec);
    }
}

/// Compares two strings in key order.
pub fn compare_keys(a: &String, b: &String) -> (r: Order)
    ensures r == order_of(key_order(a@, b@)),
{
    compare_str(a.as_str(), b.as_str())
}

/// Whether two strings are equal.
pub fn str_eq(a: &str, b: &str) -> (r: bool)
    ensures r == (a@ == b@),
{
    let o = compare_str(a, b);
    proof { lemma_key_order_eq(a@, b@); }
    o == Order::Equal
}

/// An ordered string-keyed map: entries strictly increasing by key.
#[derive(Debug, Clone)]
pub struct StringMap {
    pub entries: Vec<(String, String)>,
}

impl View for StringMap {
    type V = Seq<(Seq<char>, Seq<char>)>;
    open spec fn view(&self) -> Seq<(Seq<char>, Seq<char>)> {
        self.entries@.map_values(|e: (String, String)| (e.0@, e.1@))
    }
}

impl StringMap {
    pub open spec fn wf(&self) -> bool {
        entries_sorted(self@)
    }

    pub fn new() -> (m: StringMap)
        ensures m.wf(), m@ == Seq::<(Seq<char>, Seq<char>)>::empty(),
    {
        let m = StringMap { entries: Vec::new() };
        assert(m@ =~= Seq::<(Seq<char>, Seq<char>)>::empty());
        m
    }

    pub fn len(&self) -> (n: usize)
        ensures n == self@.len(),
    {
        self.entries.len()
    }

    /// A copy with the same contents.
    pub fn duplicate(&self) -> (r: StringMap)
        ensures r@ == self@,
    {
        let mut out: Vec<(String, String)> = Vec::new();
        let mut i: usize = 0;
        while i < self.entries.len()
            invariant
                i <= self.entries.len(),
                out@.len() == i,
                forall|j: int| 0 <= j < i ==> (#[trigger] out@[j]).0@ == self.entries@[j].0@ && out@[j].1@ == self.entries@[j].1@,
            decreases self.entries.len() - i,
        {
            let k = self.entries[i].0.clone();
            let v = self.entries[i].1.clone();
            out.push((k, v));
            i += 1;
        }
        let r = StringMap { entries: out };
        assert(r@ =~= self@);
        r
    }

    /// Looks a key up: the value of the first entry with that key.
    pub fn get(&self, key: &str) -> (r: Option<&String>)
        ensures
            match r {
                Some(v) => lookup(self@, key@) == Some(v@),
                None => lookup(self@, key@) is None,
            },
    {
        let mut i: usize = 0;
        assert(self@.skip(0) =~= self@);
        while i < self.entries.len()
            invariant
                i <= self.entries.len(),
                lookup(self@, key@) == lookup(self@.skip(i as int), key@),
            decreases self.entries.len() - i,
        {
            proof {
                assert(self@.skip(i as int).drop_first() =~= self@.skip(i + 1));
                lemma_bytes_order_eq(vstd::utf8::encode_utf8(self@[i as int].0), key.spec_bytes());
                vstd::utf8::encode_utf8_decode_utf8(self@[i as int].0);
                vstd::utf8::encode_utf8_decode_utf8(key@);
            }
            let o = compare_str(self.entries[i].0.as_str(), key);
            if o == Order::Equal {
                return Some(&self.entries[i].1);
            }
            i += 1;
        }
        None
    }

    /// Inserts or replaces a key, keeping the entries in key order.
    pub fn insert(&mut self, key: String, value: String)
        ensures
            final(self)@ == sorted_insert(old(self)@, key@, value@),
            old(self).wf() ==> final(self).wf(),
    {
        let ghost old_view = self@;
        proof { if entries_sorted(old_view) { lemma_insert_sorted(old_view, key@, value@); } }
        let mut i: usize = 0;
        while i < self.entries.len()
            invariant
                i <= self.entries.len(),
                self@ == old_view,
                forall|j: int| 0 <= j < i ==> key_order(#[trigger] old_view[j].0, key@) < 0,
            ensures
                i <= self.entries.len(),
                self@ == old_view,
                forall|j: int| 0 <= j < i ==> key_order(#[trigger] old_view[j].0, key@) < 0,
                i < self.entries.len() ==> key_order(old_view[i as int].0, key@) >= 0,
            decreases self.entries.len() - i,
        {
            let o = compare_keys(&self.entries[i].0, &key);
            if o != Order::Less {
                break;
            }
            i += 1;
        }
        proof {
            lemma_insert_at(old_view, key@, value@, i as int);
            if i < old_view.len() { lemma_key_order_eq(old_view[i as int].0, key@); }
        }
        if i < self.entries.len() && compare_keys(&self.entries[i].0, &key) == Order::Equal {
            self.entries.set(i, (key, value));
            assert(self@ =~= old_view.update(i as int, (key@, value@)));
        } else {
            self.entries.insert(i, (key, value));
            assert(self@ =~= old_view.insert(i as int, (key@, value@)));
        }
    }
}

/// In sorted entries, the lookup of `k` is found at the first position whose key is not smaller.
pub proof fn lemma_lookup_at<V>(s: Seq<(Seq<char>, V)>, k: Seq<char>, pos: int)
    requires
        entries_sorted(s), 0 <= pos <= s.len(),
        forall|j: int| 0 <= j < pos ==> key_order(#[trigger] s[j].0, k) < 0,
        pos < s.len() ==> key_order(s[pos].0, k) >= 0,
    ensures lookup(s, k) == if pos < s.len() && s[pos].0 == k { Some(s[pos].1) } else { None },
    decreases s.len(),
{
    if s.len() == 0 {
    } else if pos == 0 {
        if s[0].0 != k {
            lemma_key_order_eq(s[0].0, k);
            assert forall|j: int| 0 <= j < s.len() implies (#[trigger] s[j]).0 != k by {
                if j > 0 {
                    assert(key_order(s[0].0, s[j].0) < 0);
                    lemma_key_order_props(k, s[0].0, s[j].0);
                    lemma_key_order_props(s[0].0, k, k);
                    lemma_key_order_eq(s[j].0, k);
                    lemma_key_order_eq(k, s[j].0);
                }
            }
            lemma_lookup_absent(s, k);
        }
    } else {
        lemma_key_order_eq(s[0].0, k);
        let t = s.drop_first();
        assert(entries_sorted(t)) by {
            assert forall|i: int, j: int| 0 <= i < j < t.len() implies key_order(#[trigger] t[i].0, #[trigger] t[j].0) < 0 by {
                assert(t[i] == s[i + 1]); assert(t[j] == s[j + 1]);
            }
        }
        assert forall|j: int| 0 <= j < pos - 1 implies key_order(#[trigger] t[j].0, k) < 0 by { assert(t[j] == s[j + 1]); }
        lemma_lookup_at(t, k, pos - 1);
    }
}

/// A key that no entry carries has no lookup.
pub proof fn lemma_lookup_absent<V>(s: Seq<(Seq<char>, V)>, k: Seq<char>)
    requires forall|j: int| 0 <= j < s.len() ==> (#[trigger] s[j]).0 != k,
    ensures lookup(s, k) is None,
    decreases s.len(),
{
    if s.len() > 0 {
        let t = s.drop_first();
        assert forall|j: int| 0 <= j < t.len() implies (#[trigger] t[j]).0 != k by { assert(t[j] == s[j + 1]); }
        lemma_lookup_absent(t, k);
    }
}

/// A key has a lookup exactly when some entry carries it.
pub proof fn lemma_lookup_some<V>(s: Seq<(Seq<char>, V)>, k: Seq<char>)
    ensures lookup(s, k) is Some <==> exists|j: int| 0 <= j < s.len() && (#[trigger] s[j]).0 == k,
    decreases s.len(),
{
    if s.len() > 0 {
        let t = s.drop_first();
        lemma_lookup_some(t, k);
        if s[0].0 != k {
            if exists|j: int| 0 <= j < s.len() && (#[trigger] s[j]).0 == k {
                let j = choose|j: int| 0 <= j < s.len() && (#[trigger] s[j]).0 == k;
                assert(t[j - 1] == s[j]);
            }
            if exists|j: int| 0 <= j < t.len() && (#[trigger] t[j]).0 == k {
                let j = choose|j: int| 0 <= j < t.len() && (#[trigger] t[j]).0 == k;
                assert(s[j + 1] == t[j]);
            }
        } else {
            assert(s[0].0 == k);
        }
    }
}

/// The first position of sorted entries whose key is not smaller than `key`.
pub fn key_position<V>(entries: &Vec<(String, V)>, key: &String) -> (p: usize)
    ensures
        p <= entries@.len(),
        forall|j: int| 0 <= j < p ==> key_order(#[trigger] entries@[j].0@, key@) < 0,
        p < entries@.len() ==> key_order(entries@[p as int].0@, key@) >= 0,
{
    let mut i: usize = 0;
    while i < entries.len()
        invariant
            i <= entries.len(),
            forall|j: int| 0 <= j < i ==> key_order(#[trigger] entries@[j].0@, key@) < 0,
        ensures
            i <= entries.len(),
            forall|j: int| 0 <= j < i ==> key_order(#[trigger] entries@[j].0@, key@) < 0,
            i < entries.len() ==> key_order(entries@[i as int].0@, key@) >= 0,
        decreases entries.len() - i,
    {
        let o = compare_keys(&entries[i].0, key);
        if o != Order::Less {
            break;
        }
        i += 1;
    }
    i
}

/// The view of keyed entries.
pub open spec fn keyed_view<V: View>(e: Seq<(String, V)>) -> Seq<(Seq<char>, V::V)> {
    e.map_values(|x: (String, V)| (x.0@, x.1@))
}

/// The lookup of a key is the value of the first entry that carries it.
pub proof fn lemma_lookup_first<V>(s: Seq<(Seq<char>, V)>, k: Seq<char>, i: int)
    requires 0 <= i < s.len(), s[i].0 == k, forall|j: int| 0 <= j < i ==> (#[trigger] s[j]).0 != k,
    ensures lookup(s, k) == Some(s[i].1),
    decreases i,
{
    if i > 0 {
        let t = s.drop_first();
        assert forall|j: int| 0 <= j < i - 1 implies (#[trigger] t[j]).0 != k by { assert(t[j] == s[j + 1]); }
        lemma_lookup_first(t, k, i - 1);
    }
}

/// The index of the first entry with the given key.
pub fn find_key<V: View>(entries: &Vec<(String, V)>, key: &str) -> (r: Option<usize>)
    ensures
        match r {
            Some(i) => i < entries@.len() && lookup(keyed_view(entries@), key@) == Some(entries@[i as int].1@)
                && entries@[i as int].0@ == key@,
            None => lookup(keyed_view(entries@), key@) is None,
        },
{
    let ghost kv = keyed_view(entries@);
    let mut i: usize = 0;
    while i < entries.len()
        invariant i <= entries.len(), kv == keyed_view(entries@), forall|j: int| 0 <= j < i ==> (#[trigger] kv[j]).0 != key@,
        decreases entries.len() - i,
    {
        if str_eq(entries[i].0.as_str(), key) {
            proof { lemma_lookup_first(kv, key@, i as int); }
            return Some(i);
        }
        i += 1;
    }
    proof { lemma_lookup_absent(kv, key@); }
    None
}

/// Inserts or replaces an entry, keeping the keys in order.
pub fn put_entry<V: View>(entries: &mut Vec<(String, V)>, key: String, value: V)
    ensures
        keyed_view(final(entries)@) == sorted_insert(keyed_view(old(entries)@), key@, value@),
        entries_sorted(keyed_view(old(entries)@)) ==> entries_sorted(keyed_view(final(entries)@)),
        forall|j: int| 0 <= j < final(entries)@.len() ==>
            (#[trigger] final(entries)@[j]) == (key, value) || exists|m: int| 0 <= m < old(entries)@.len() && old(entries)@[m] == final(entries)@[j],
{
    let ghost old_entries = entries@;
    let ghost old_view = keyed_view(entries@);
    proof { if entries_sorted(old_view) { lemma_insert_sorted(old_view, key@, value@); } }
    let i = key_position(entries, &key);
    proof {
        assert forall|j: int| 0 <= j < i implies key_order(#[trigger] old_view[j].0, key@) < 0 by {
            assert(old_view[j].0 == entries@[j].0@);
        }
        lemma_insert_at(old_view, key@, value@, i as int);
        if i < old_view.len() { lemma_key_order_eq(old_view[i as int].0, key@); }
    }
    let ghost kv = key@;
    let ghost vv = value@;
    let ghost pair = (key, value);
    if i < entries.len() && compare_keys(&entries[i].0, &key) == Order::Equal {
        entries.set(i, (key, value));
        assert(keyed_view(entries@) =~= old_view.update(i as int, (kv, vv)));
        assert forall|j: int| 0 <= j < entries@.len() implies
            (#[trigger] entries@[j]) == pair || exists|m: int| 0 <= m < old_entries.len() && old_entries[m] == entries@[j] by {
            if j != i as int { assert(old_entries[j] == entries@[j]); }
        }
    } else {
        entries.insert(i, (key, value));
        assert(keyed_view(entries@) =~= old_view.insert(i as int, (kv, vv)));
        assert forall|j: int| 0 <= j < entries@.len() implies
            (#[trigger] entries@[j]) == pair || exists|m: int| 0 <= m < old_entries.len() && old_entries[m] == entries@[j] by {
            if j < i as int { assert(old_entries[j] == entries@[j]); }
            else if j > i as int { assert(old_entries[j - 1] == entries@[j]); }
        }
    }
}

/// An ordered map from entity ids to vector snapshots: entries strictly increasing by key.
#[derive(Debug, Clone)]
pub struct StateMap {
    pub entries: Vec<(String, VectorState)>,
}

impl View for StateMap {
    type V = Seq<(Seq<char>, VectorStateView)>;
    open spec fn view(&self) -> Seq<(Seq<char>, VectorStateView)> {
        self.entries@.map_values(|e: (String, VectorState)| (e.0@, e.1@))
    }
}

impl StateMap {
    pub open spec fn wf(&self) -> bool {
        entries_sorted(self@)
    }

    pub fn new() -> (m: StateMap)
        ensures m.wf(), m@ == Seq::<(Seq<char>, VectorStateView)>::empty(),
    {
        let m = StateMap { entries: Vec::new() };
        assert(m@ =~= Seq::<(Seq<char>, VectorStateView)>::empty());
        m
    }

    pub fn len(&self) -> (n: usize)
        ensures n == self@.len(),
    {
        self.entries.len()
    }

    /// A copy with the same contents.
    pub fn duplicate(&self) -> (r: StateMap)
        ensures r@ == self@,
    {
        let mut out: Vec<(String, VectorState)> = Vec::new();
        let mut i: usize = 0;
        while i < self.entries.len()
            invariant
                i <= self.entries.len(),
                out@.len() == i,
                forall|j: int| 0 <= j < i ==> (#[trigger] out@[j]).0@ == self.entries@[j].0@ && out@[j].1@ == self.entries@[j].1@,
            decreases self.entries.len() - i,
        {
            let k = self.entries[i].0.clone();
            let v = self.entries[i].1.duplicate();
            out.push((k, v));
            i += 1;
        }
        let r = StateMap { entries: out };
        assert(r@ =~= self@);
        r
    }

    /// Looks a key up: the snapshot of the first entry with that key.
    pub fn get(&self, key: &str) -> (r: Option<&VectorState>)
        ensures
            match r {
                Some(v) => lookup(self@, key@) == Some(v@),
                None => lookup(self@, key@) is None,
            },
    {
        let mut i: usize = 0;
        assert(self@.skip(0) =~= self@);
        while i < self.entries.len()
            invariant
                i <= self.entries.len(),
                lookup(self@, key@) == lookup(self@.skip(i as int), key@),
            decreases self.entries.len() - i,
        {
            proof {
                assert(self@.skip(i as int).drop_first() =~= self@.skip(i + 1));
                lemma_bytes_order_eq(vstd::utf8::encode_utf8(self@[i as int].0), key.spec_bytes());
                vstd::utf8::encode_utf8_decode_utf8(self@[i as int].0);
                vstd::utf8::encode_utf8_decode_utf8(key@);
            }
            let o = compare_str(self.entries[i].0.as_str(), key);
            if o == Order::Equal {
                return Some(&self.entries[i].1);
            }
            i += 1;
        }
        None
    }

    /// Inserts or replaces a key, keeping the entries in key order.
    pub fn insert(&mut self, key: String, value: VectorState)
        ensures
            final(self)@ == sorted_insert(old(self)@, key@, value@),
            old(self).wf() ==> final(self).wf(),
    {
        let ghost old_view = self@;
        proof { if entries_sorted(old_view) { lemma_insert_sorted(old_view, key@, value@); } }
        let mut i: usize = 0;
        while i < self.entries.len()
            invariant
                i <= self.entries.len(),
                self@ == old_view,
                forall|j: int| 0 <= j < i ==> key_order(#[trigger] old_view[j].0, key@) < 0,
            ensures
                i <= self.entries.len(),
                self@ == old_view,
                forall|j: int| 0 <= j < i ==> key_order(#[trigger] old_view[j].0, key@) < 0,
                i < self.entries.len() ==> key_order(old_view[i as int].0, key@) >= 0,
            decreases self.entries.len() - i,
        {
            let o = compare_keys(&self.entries[i].0, &key);
            if o != Order::Less {
                break;
            }
            i += 1;
        }
        proof {
            lemma_insert_at(old_view, key@, value@, i as int);
            if i < old_view.len() { lemma_key_order_eq(old_view[i as int].0, key@); }
        }
        if i < self.entries.len() && compare_keys(&self.entries[i].0, &key) == Order::Equal {
            let ghost kv = key@;
            let ghost vv = value@;
            self.entries.set(i, (key, value));
            assert(self@ =~= old_view.update(i as int, (kv, vv)));
        } else {
            let ghost kv = key@;
            let ghost vv = value@;
            self.entries.insert(i, (key, value));
            assert(self@ =~= old_view.insert(i as int, (kv, vv)));
        }
    }
}

} // verus!
