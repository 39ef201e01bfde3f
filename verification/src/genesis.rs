use vstd::prelude::*;
use crate::acceptance::lemma_trimmed_nonblank;
use crate::encoding::hex_lower;
use crate::engine::{append_allowed, missing_parent};
use crate::event::{event_id_text, EventView, OperationTag};
use crate::hash::{hash_hex, sealed_event};
use crate::region::{
    genesis_base, genesis_event, genesis_metadata, is_region_create, meta_entries, ratio_field, region_from_event,
    core_from_events, core_insert, core_root_of, empty_core, RegionView,
    region_id_text, request_problem, lookup_text, nonblank, norm_name, norm_prefix, or_empty, visibility_field, visibility_name, RequestView, DEFAULT_REGION_AUTH_RATIO_BPS,
    FULL_AUTH_RATIO_BITS, REGION_CREATE_OPERATION_NAME, REGION_TYPE_TAG,
};
use crate::serialization::{event_bytes, event_bytes_bind_payload_hash, payload_bytes, payload_bytes_ignore_hashes_and_signature};
use crate::strmap::{entries_sorted, key_order, lemma_insert_len, lemma_insert_sorted, lemma_key_order_eq, lemma_lookup_insert, lookup, sorted_insert};
use crate::text::{ascii_lower, ascii_upper, lower_text, upper_text, decimal, digit_char, is_digit, is_whitespace, leading_ws, parse_digits, parse_u64_text, trailing_ws, trimmed, ParseProblem};
use crate::validation::event_check;

verus! {

proof fn lemma_leading_ws_below(s: Seq<char>, i: int)
    requires 0 <= i < s.len(), !is_whitespace(s[i]),
    ensures leading_ws(s) <= i,
    decreases s.len(),
{
    if s.len() > 0 && is_whitespace(s[0]) {
        assert(s.drop_first()[i - 1] == s[i]);
        lemma_leading_ws_below(s.drop_first(), i - 1);
    }
}

proof fn lemma_trailing_ws_above(a: Seq<char>, j: int)
    requires 0 <= j < a.len(), !is_whitespace(a[j]),
    ensures trailing_ws(a) <= a.len() - 1 - j,
    decreases a.len(),
{
    if a.len() > 0 && is_whitespace(a.last()) {
        assert(a.drop_last()[j] == a[j]);
        lemma_trailing_ws_above(a.drop_last(), j);
    }
}

/// A text with a character other than white space somewhere is not blank.
pub proof fn lemma_trimmed_nonblank_at(s: Seq<char>, i: int)
    requires 0 <= i < s.len(), !is_whitespace(s[i]),
    ensures trimmed(s).len() > 0,
{
    lemma_leading_ws_below(s, i);
    let l = leading_ws(s) as int;
    let a = s.skip(l);
    assert(a[i - l] == s[i]);
    lemma_trailing_ws_above(a, i - l);
}

proof fn lemma_parse_digits_push(d: Seq<char>, c: char, acc: nat)
    ensures
        parse_digits(d.push(c), acc) == match parse_digits(d, acc) {
            Ok(v) => if !is_digit(c) {
                Err(ParseProblem::InvalidDigit)
            } else if v * 10 + ((c as u32) - 48) > u64::MAX {
                Err(ParseProblem::PosOverflow)
            } else {
                Ok((v * 10 + ((c as u32) - 48)) as nat)
            },
            Err(p) => Err(p),
        },
    decreases d.len(),
{
    let e = d.push(c);
    reveal_with_fuel(parse_digits, 2);
    if d.len() == 0 {
        assert(e.drop_first() =~= Seq::<char>::empty());
        assert(e[0] == c);
    } else {
        assert(e[0] == d[0]);
        assert(e.drop_first() =~= d.drop_first().push(c));
        if is_digit(d[0]) && acc * 10 + ((d[0] as u32) - 48) <= u64::MAX {
            lemma_parse_digits_push(d.drop_first(), c, (acc * 10 + ((d[0] as u32) - 48)) as nat);
        }
    }
}

proof fn lemma_parse_decimal(n: nat)
    requires n <= u64::MAX,
    ensures
        parse_digits(decimal(n), 0) == Ok::<nat, ParseProblem>(n),
        decimal(n).len() > 0,
        is_digit(decimal(n)[0]),
    decreases n,
{
    if n < 10 {
        let d = digit_char(n);
        assert(decimal(n) == seq![d]);
        assert((d as u32) == 48 + n);
        assert(is_digit(d));
        lemma_parse_digits_push(Seq::<char>::empty(), d, 0);
        assert(Seq::<char>::empty().push(d) =~= seq![d]);
    } else {
        lemma_parse_decimal(n / 10);
        let d = digit_char(n % 10);
        assert((d as u32) == 48 + n % 10);
        assert(is_digit(d));
        lemma_parse_digits_push(decimal(n / 10), d, 0);
        assert(decimal(n) == decimal(n / 10).push(d));
        assert(decimal(n)[0] == decimal(n / 10)[0]);
        assert((n / 10) * 10 + n % 10 == n) by (nonlinear_arith);
    }
}

/// A number's decimal text parses back to the number.
pub proof fn lemma_parse_u64_decimal(n: u64)
    ensures parse_u64_text(decimal(n as nat)) == Ok::<u64, ParseProblem>(n),
{
    lemma_parse_decimal(n as nat);
    assert(decimal(n as nat)[0] != '+');
}

proof fn lemma_lookup_insert_all<V>(s: Seq<(Seq<char>, V)>, k: Seq<char>, v: V)
    ensures
        forall|k2: Seq<char>| #[trigger] lookup(sorted_insert(s, k, v), k2) == if k2 == k { Some(v) } else { lookup(s, k2) },
{
    assert forall|k2: Seq<char>| #[trigger] lookup(sorted_insert(s, k, v), k2) == if k2 == k { Some(v) } else { lookup(s, k2) } by {
        lemma_lookup_insert(s, k, v, k2);
    }
}

proof fn lemma_meta_lookup(base: Seq<(Seq<char>, Seq<char>)>, md: Seq<(Seq<char>, Seq<char>)>, n: nat, k: Seq<char>)
    requires n <= md.len(), k.len() > 0, k[0] != 'm',
    ensures lookup(meta_entries(base, md, n), k) == lookup(base, k),
    decreases n,
{
    if n > 0 {
        lemma_meta_lookup(base, md, (n - 1) as nat, k);
        reveal_strlit("meta:");
        let key = "meta:"@ + md[n - 1].0;
        assert(key[0] == 'm');
        lemma_lookup_insert(meta_entries(base, md, (n - 1) as nat), key, md[n - 1].1, k);
    }
}

/// The metadata of a genesis event carries the fields a region is read from.
pub proof fn lemma_genesis_lookups(r: RequestView, actor: Seq<char>)
    ensures ({
        let md = genesis_metadata(r, actor);
        &&& lookup(md, "region_name"@) == Some(r.region_name)
        &&& lookup(md, "region_prefix"@) == Some(crate::region::or_empty(crate::region::norm_prefix(r.region_prefix)))
        &&& lookup(md, "normalized_name"@) == Some(crate::region::norm_name(r.region_name))
        &&& lookup(md, "normalized_name"@) is Some
        &&& lookup(md, "section"@) == Some(decimal(r.section as nat))
        &&& lookup(md, "initial_auth_ratio_bps"@) == Some(decimal(DEFAULT_REGION_AUTH_RATIO_BPS as nat))
        &&& lookup(md, "visibility"@) == Some(visibility_name(r.visibility))
        &&& lookup(md, "creator_public_key"@) == Some(actor)
        &&& lookup(md, "trigger_event_hash"@) is Some
        &&& lookup(md, "creation_proof_hash"@) is Some
    }),
{
    reveal_strlit("region_kind");
    reveal_strlit("region_name");
    reveal_strlit("normalized_name");
    reveal_strlit("region_prefix");
    reveal_strlit("section");
    reveal_strlit("suggested_title");
    reveal_strlit("visibility");
    reveal_strlit("creator_public_key");
    reveal_strlit("trigger_event_hash");
    reveal_strlit("creation_proof_hash");
    reveal_strlit("access_key_hash");
    reveal_strlit("initial_auth_ratio_bps");
    reveal_strlit("core_registry");
    reveal_strlit("default_auth_ratio");
    let m0 = sorted_insert(Seq::empty(), "region_kind"@, REGION_TYPE_TAG@);
    let m1 = sorted_insert(m0, "region_name"@, r.region_name);
    let m2 = sorted_insert(m1, "normalized_name"@, crate::region::norm_name(r.region_name));
    let m3 = sorted_insert(m2, "region_prefix"@, crate::region::or_empty(crate::region::norm_prefix(r.region_prefix)));
    let m4 = sorted_insert(m3, "section"@, decimal(r.section as nat));
    let m5 = sorted_insert(m4, "suggested_title"@, crate::region::or_empty(r.suggested_title));
    let m6 = sorted_insert(m5, "visibility"@, visibility_name(r.visibility));
    let m7 = sorted_insert(m6, "creator_public_key"@, actor);
    let m8 = sorted_insert(m7, "trigger_event_hash"@, r.trigger_event_hash);
    let m9 = sorted_insert(m8, "creation_proof_hash"@, crate::region::text_hash(r.creation_proof));
    let m10 = sorted_insert(m9, "access_key_hash"@, crate::region::or_empty(crate::region::opt_hash(r.access_key)));
    let m11 = sorted_insert(m10, "initial_auth_ratio_bps"@, decimal(DEFAULT_REGION_AUTH_RATIO_BPS as nat));
    let m12 = sorted_insert(m11, "core_registry"@, "core"@);
    let m13 = sorted_insert(m12, "default_auth_ratio"@, "1.0"@);
    lemma_lookup_insert_all(Seq::empty(), "region_kind"@, REGION_TYPE_TAG@);
    lemma_lookup_insert_all(m0, "region_name"@, r.region_name);
    lemma_lookup_insert_all(m1, "normalized_name"@, crate::region::norm_name(r.region_name));
    lemma_lookup_insert_all(m2, "region_prefix"@, crate::region::or_empty(crate::region::norm_prefix(r.region_prefix)));
    lemma_lookup_insert_all(m3, "section"@, decimal(r.section as nat));
    lemma_lookup_insert_all(m4, "suggested_title"@, crate::region::or_empty(r.suggested_title));
    lemma_lookup_insert_all(m5, "visibility"@, visibility_name(r.visibility));
    lemma_lookup_insert_all(m6, "creator_public_key"@, actor);
    lemma_lookup_insert_all(m7, "trigger_event_hash"@, r.trigger_event_hash);
    lemma_lookup_insert_all(m8, "creation_proof_hash"@, crate::region::text_hash(r.creation_proof));
    lemma_lookup_insert_all(m9, "access_key_hash"@, crate::region::or_empty(crate::region::opt_hash(r.access_key)));
    lemma_lookup_insert_all(m10, "initial_auth_ratio_bps"@, decimal(DEFAULT_REGION_AUTH_RATIO_BPS as nat));
    lemma_lookup_insert_all(m11, "core_registry"@, "core"@);
    lemma_lookup_insert_all(m12, "default_auth_ratio"@, "1.0"@);
    assert(genesis_metadata(r, actor) == meta_entries(m13, r.metadata, r.metadata.len()));
    lemma_meta_lookup(m13, r.metadata, r.metadata.len(), "region_name"@);
    lemma_meta_lookup(m13, r.metadata, r.metadata.len(), "region_prefix"@);
    lemma_meta_lookup(m13, r.metadata, r.metadata.len(), "normalized_name"@);
    lemma_meta_lookup(m13, r.metadata, r.metadata.len(), "section"@);
    lemma_meta_lookup(m13, r.metadata, r.metadata.len(), "initial_auth_ratio_bps"@);
    lemma_meta_lookup(m13, r.metadata, r.metadata.len(), "visibility"@);
    lemma_meta_lookup(m13, r.metadata, r.metadata.len(), "creator_public_key"@);
    lemma_meta_lookup(m13, r.metadata, r.metadata.len(), "trigger_event_hash"@);
    lemma_meta_lookup(m13, r.metadata, r.metadata.len(), "creation_proof_hash"@);
}

/// A sealed event's hashes are the ones validation recomputes.
pub proof fn lemma_sealed_hashes(e0: EventView)
    ensures ({
        let e = sealed_event(e0);
        &&& e.payload_hash == hash_hex(payload_bytes(e))
        &&& e.event_hash == hash_hex(event_bytes(e))
    }),
{
    let e = sealed_event(e0);
    let wp = EventView { payload_hash: hash_hex(payload_bytes(e0)), ..e0 };
    payload_bytes_ignore_hashes_and_signature(e0, wp.payload_hash, e0.event_hash, e0.signature);
    assert(wp == EventView { payload_hash: wp.payload_hash, event_hash: e0.event_hash, signature: e0.signature, ..e0 });
    payload_bytes_ignore_hashes_and_signature(e0, wp.payload_hash, e.event_hash, e0.signature);
    assert(e == EventView { payload_hash: wp.payload_hash, event_hash: e.event_hash, signature: e0.signature, ..e0 });
    event_bytes_bind_payload_hash(wp, e.event_hash, wp.signature);
    assert(e == EventView { event_hash: e.event_hash, signature: wp.signature, ..wp });
}

/// The genesis event of a valid request from a named actor passes validation and names
/// no missing parent.
#[verifier::rlimit(50)]
pub proof fn lemma_genesis_accepted(es: Seq<EventView>, r: RequestView, actor: Seq<char>, clock: u64, ts: u64)
    requires
        request_problem(r) is None,
        trimmed(actor).len() > 0,
    ensures ({
        let e = genesis_event(r, actor, clock, ts, 1);
        &&& event_check(e) is Ok
        &&& append_allowed(es, e)
        &&& is_region_create(e)
    }),
{
    let rid = region_id_text(r, actor, 1);
    let e0 = genesis_base(r, actor, rid, clock, ts, 1);
    let e = genesis_event(r, actor, clock, ts, 1);
    lemma_sealed_hashes(e0);
    reveal_strlit("evt:");
    assert(e.event_id[0] == 'e');
    lemma_trimmed_nonblank(e.event_id);
    reveal_strlit("::rgn_");
    reveal_strlit("RGN");
    let prefix = match crate::region::norm_prefix(r.region_prefix) { Some(p) => p, None => "RGN"@ };
    assert(rid[prefix.len() as int] == ':');
    lemma_trimmed_nonblank_at(rid, prefix.len() as int);
    assert(e.vector_before.components.len() == 0 && e.vector_after.components.len() == 0);
    assert(e.operation == OperationTag::Other(REGION_CREATE_OPERATION_NAME@));
    assert(e.parent_hashes.len() == 0);
    assert(e.signature == r.request_signature);
    assert(event_check(e) is Ok);
    assert(missing_parent(es, e) is None);
}

/// The genesis event of a region, once its hash is a 64-digit hex text, gives a region.
#[verifier::rlimit(50)]
pub proof fn lemma_genesis_region(r: RequestView, actor: Seq<char>, clock: u64, ts: u64, sequence: u64)
    requires
        genesis_event(r, actor, clock, ts, sequence).event_hash.len() == 64,
    ensures region_from_event(genesis_event(r, actor, clock, ts, sequence)) is Ok,
{
    let rid = region_id_text(r, actor, sequence);
    let e0 = genesis_base(r, actor, rid, clock, ts, sequence);
    let e = genesis_event(r, actor, clock, ts, sequence);
    let h = e.event_hash;
    let wp = EventView { payload_hash: hash_hex(payload_bytes(e0)), ..e0 };
    let b = crate::crypto::blake3_digest(event_bytes(wp));
    assert(h == hex_lower(b));
    if b.len() == 0 {
        assert(hex_lower(b).len() == 0);
    }
    crate::signature::lemma_hex_lower_index(b, 0);
    let c = h[0] as u32;
    assert((48 <= c <= 57) || (97 <= c <= 102));
    lemma_trimmed_nonblank(h);
    lemma_genesis_lookups(r, actor);
    lemma_parse_u64_decimal(r.section);
    lemma_parse_u64_decimal(DEFAULT_REGION_AUTH_RATIO_BPS);
    reveal_strlit("public");
    reveal_strlit("private");
    assert(e.operation == OperationTag::Other(REGION_CREATE_OPERATION_NAME@));
    assert(e.vector_after.metadata == genesis_metadata(r, actor));
    assert(visibility_field(Some(visibility_name(r.visibility))) is Ok);
    assert(ratio_field(lookup(e.vector_after.metadata, "initial_auth_ratio_bps"@)) == Ok::<u64, Seq<char>>(1000));
}

proof fn lemma_leading_stop(s: Seq<char>)
    requires leading_ws(s) < s.len(),
    ensures !is_whitespace(s[leading_ws(s) as int]),
    decreases s.len(),
{
    if s.len() > 0 && is_whitespace(s[0]) {
        lemma_leading_stop(s.drop_first());
    }
}

proof fn lemma_trailing_stop(a: Seq<char>)
    requires trailing_ws(a) < a.len(),
    ensures !is_whitespace(a[a.len() - 1 - trailing_ws(a)]),
    decreases a.len(),
{
    if a.len() > 0 && is_whitespace(a.last()) {
        lemma_trailing_stop(a.drop_last());
    }
}

/// A trimmed text is empty or starts and ends with a character other than white space.
proof fn lemma_trimmed_ends(s: Seq<char>)
    ensures ({
        let t = trimmed(s);
        t.len() == 0 || (!is_whitespace(t[0]) && !is_whitespace(t.last()))
    }),
{
    crate::acceptance::lemma_trimmed_len(s);
    let l = leading_ws(s) as int;
    let a = s.skip(l);
    let t = trimmed(s);
    lemma_leading_le(s);
    lemma_trailing_le_here(a);
    assert(a.len() == s.len() - l);
    assert(t.len() == a.len() - trailing_ws(a));
    if t.len() > 0 {
        lemma_leading_stop(s);
        assert(t[0] == a[0]);
        lemma_trailing_stop(a);
        assert(t.last() == a[a.len() - 1 - trailing_ws(a)]);
    }
}

proof fn lemma_trailing_le_here(s: Seq<char>)
    ensures trailing_ws(s) <= s.len(),
    decreases s.len(),
{
    if s.len() > 0 && is_whitespace(s.last()) { lemma_trailing_le_here(s.drop_last()); }
}

proof fn lemma_leading_le(s: Seq<char>)
    ensures leading_ws(s) <= s.len(),
    decreases s.len(),
{
    if s.len() > 0 && is_whitespace(s[0]) { lemma_leading_le(s.drop_first()); }
}

/// A text that is empty or has no white space at either end is its own trim.
proof fn lemma_trimmed_fixed(t: Seq<char>)
    requires t.len() == 0 || (!is_whitespace(t[0]) && !is_whitespace(t.last())),
    ensures trimmed(t) == t,
{
    if t.len() > 0 {
        assert(leading_ws(t) == 0);
        assert(t.skip(0) =~= t);
        assert(trailing_ws(t) == 0);
        assert(t.take(t.len() as int) =~= t);
    } else {
        assert(t.skip(0) =~= t);
    }
}

proof fn lemma_ascii_case(c: char)
    ensures
        ascii_lower(ascii_lower(c)) == ascii_lower(c),
        ascii_upper(ascii_upper(c)) == ascii_upper(c),
        is_whitespace(ascii_lower(c)) == is_whitespace(c),
        is_whitespace(ascii_upper(c)) == is_whitespace(c),
{
}

/// Normalizing a normalized name changes nothing.
proof fn lemma_norm_name_idempotent(n: Seq<char>)
    ensures norm_name(norm_name(n)) == norm_name(n),
{
    let t = trimmed(n);
    let l = lower_text(t);
    lemma_trimmed_ends(n);
    if l.len() > 0 {
        lemma_ascii_case(t[0]);
        lemma_ascii_case(t.last());
        assert(l[0] == ascii_lower(t[0]) && l.last() == ascii_lower(t.last()));
    }
    lemma_trimmed_fixed(l);
    assert forall|i: int| 0 <= i < l.len() implies #[trigger] lower_text(l)[i] == l[i] by {
        lemma_ascii_case(t[i]);
    }
    assert(lower_text(l) =~= l);
}

/// Normalizing a normalized prefix, read back as a non-blank value, changes nothing.
proof fn lemma_norm_prefix_stored(p: Option<Seq<char>>)
    ensures norm_prefix(nonblank(Some(or_empty(norm_prefix(p))))) == norm_prefix(p),
{
    match p {
        None => {
            assert(trimmed(Seq::<char>::empty()) =~= Seq::<char>::empty()) by { lemma_trimmed_fixed(Seq::<char>::empty()); }
        },
        Some(v) => {
            let t = trimmed(v);
            let u = upper_text(t);
            lemma_trimmed_ends(v);
            if u.len() > 0 {
                lemma_ascii_case(t[0]);
                lemma_ascii_case(t.last());
                assert(u[0] == ascii_upper(t[0]) && u.last() == ascii_upper(t.last()));
            }
            lemma_trimmed_fixed(u);
            assert forall|i: int| 0 <= i < u.len() implies #[trigger] upper_text(u)[i] == u[i] by {
                lemma_ascii_case(t[i]);
            }
            assert(upper_text(u) =~= u);
            if u.len() == 0 {
                assert(trimmed(Seq::<char>::empty()) =~= Seq::<char>::empty()) by { lemma_trimmed_fixed(Seq::<char>::empty()); }
            }
        },
    }
}

/// The region a genesis event gives carries the request's normalized name and prefix.
#[verifier::rlimit(50)]
pub proof fn lemma_genesis_region_key(r: RequestView, actor: Seq<char>, clock: u64, ts: u64, sequence: u64)
    requires region_from_event(genesis_event(r, actor, clock, ts, sequence)) is Ok,
    ensures
        region_from_event(genesis_event(r, actor, clock, ts, sequence)) matches Ok(v)
            && v.normalized_name == norm_name(r.region_name)
            && norm_prefix(v.region_prefix) == norm_prefix(r.region_prefix),
{
    lemma_genesis_lookups(r, actor);
    lemma_norm_prefix_stored(r.region_prefix);
    let e = genesis_event(r, actor, clock, ts, sequence);
    let md = e.vector_after.metadata;
    assert(md == genesis_metadata(r, actor));
    let v = region_from_event(e)->Ok_0;
    assert(v.normalized_name == lookup(md, "normalized_name"@)->0);
    assert(v.region_prefix == nonblank(lookup(md, "region_prefix"@)));
    assert(v.normalized_name == norm_name(r.region_name));
    assert(v.region_prefix == nonblank(Some(or_empty(norm_prefix(r.region_prefix)))));
}

/// The region a genesis event gives has the lookup key of the request it was built from.
#[verifier::rlimit(50)]
pub proof fn lemma_genesis_region_lookup_key(r: RequestView, actor: Seq<char>, clock: u64, ts: u64, sequence: u64)
    requires genesis_event(r, actor, clock, ts, sequence).event_hash.len() == 64,
    ensures
        region_from_event(genesis_event(r, actor, clock, ts, sequence)) matches Ok(v)
            && lookup_text(v.region_prefix, v.normalized_name) == lookup_text(r.region_prefix, r.region_name),
{
    lemma_genesis_region(r, actor, clock, ts, sequence);
    lemma_genesis_lookups(r, actor);
    lemma_norm_name_idempotent(r.region_name);
    lemma_norm_prefix_stored(r.region_prefix);
    let e = genesis_event(r, actor, clock, ts, sequence);
    let md = e.vector_after.metadata;
    assert(md == genesis_metadata(r, actor));
    let v = region_from_event(e)->Ok_0;
    assert(v.normalized_name == lookup(md, "normalized_name"@)->0);
    assert(v.region_prefix == nonblank(lookup(md, "region_prefix"@)));
    assert(v.normalized_name == norm_name(r.region_name));
    assert(v.region_prefix == nonblank(Some(or_empty(norm_prefix(r.region_prefix)))));
}

/// The sum of the auth ratios of the regions in a registry.
pub open spec fn ratio_total(rs: Seq<(Seq<char>, RegionView)>) -> int
    decreases rs.len(),
{
    if rs.len() == 0 { 0 } else { rs[0].1.auth_ratio_bps + ratio_total(rs.drop_first()) }
}

/// The entity ids of the region-creation events among the first `n` events.
pub open spec fn region_create_ids(es: Seq<EventView>, n: nat) -> Set<Seq<char>>
    decreases n,
{
    if n == 0 {
        Set::empty()
    } else if is_region_create(es[n - 1]) {
        region_create_ids(es, (n - 1) as nat).insert(es[n - 1].entity_id)
    } else {
        region_create_ids(es, (n - 1) as nat)
    }
}

proof fn lemma_ratio_total_insert(s: Seq<(Seq<char>, RegionView)>, k: Seq<char>, v: RegionView)
    requires lookup(s, k) is None,
    ensures ratio_total(sorted_insert(s, k, v)) == ratio_total(s) + v.auth_ratio_bps,
    decreases s.len(),
{
    let r = sorted_insert(s, k, v);
    if s.len() == 0 {
        assert(r == seq![(k, v)]);
        assert(r.drop_first() =~= Seq::<(Seq<char>, RegionView)>::empty());
        assert(ratio_total(r) == v.auth_ratio_bps + ratio_total(r.drop_first()));
    } else {
        assert(s[0].0 != k);
        assert(lookup(s.drop_first(), k) is None);
        if key_order(s[0].0, k) < 0 {
            lemma_ratio_total_insert(s.drop_first(), k, v);
            assert(r == seq![s[0]] + sorted_insert(s.drop_first(), k, v));
            assert(r[0] == s[0]);
            assert(r.drop_first() =~= sorted_insert(s.drop_first(), k, v));
            assert(ratio_total(r) == r[0].1.auth_ratio_bps + ratio_total(r.drop_first()));
        } else {
            assert(r == seq![(k, v)] + s);
            assert(r[0] == (k, v));
            assert(r.drop_first() =~= s);
            assert(ratio_total(r) == r[0].1.auth_ratio_bps + ratio_total(r.drop_first()));
        }
    }
}

/// The registry built from region-creation events holds exactly the regions those events
/// create, keyed by their entity ids, kept in key order; its version is the number of
/// regions, its total is the sum of their auth ratios, and its root is computed from them.
pub proof fn lemma_core_from_events_shape(es: Seq<EventView>, n: nat)
    requires n <= es.len(),
    ensures
        core_from_events(es, n) matches Ok(c) ==> {
            &&& entries_sorted(c.regions)
            &&& c.version == c.regions.len()
            &&& c.total_auth_ratio_bps == ratio_total(c.regions)
            &&& c.core_root == core_root_of(c.regions, c.total_auth_ratio_bps, c.version)
            &&& forall|k: Seq<char>| #[trigger] lookup(c.regions, k) is Some <==> region_create_ids(es, n).contains(k)
        },
    decreases n,
{
    if n > 0 {
        lemma_core_from_events_shape(es, (n - 1) as nat);
        let e = es[n - 1];
        if core_from_events(es, (n - 1) as nat) is Ok && is_region_create(e) && region_from_event(e) is Ok {
            let c = core_from_events(es, (n - 1) as nat)->Ok_0;
            let v = region_from_event(e)->Ok_0;
            if core_insert(c, v).1 is None {
                assert(v.region_id == e.entity_id);
                assert(lookup(c.regions, v.region_id) is None);
                lemma_insert_len(c.regions, v.region_id, v);
                lemma_insert_sorted(c.regions, v.region_id, v);
                lemma_ratio_total_insert(c.regions, v.region_id, v);
                let c2 = core_insert(c, v).0;
                assert forall|k: Seq<char>| #[trigger] lookup(c2.regions, k) is Some <==> region_create_ids(es, n).contains(k) by {
                    lemma_lookup_insert(c.regions, v.region_id, v, k);
                }
            }
        }
    } else {
        assert(empty_core().regions.len() == 0);
        assert forall|k: Seq<char>| #[trigger] lookup(empty_core().regions, k) is Some <==> region_create_ids(es, 0).contains(k) by {}
    }
}

proof fn lemma_region_create_ids_has(es: Seq<EventView>, i: int, n: nat)
    requires 0 <= i < n, n <= es.len(), is_region_create(es[i]),
    ensures region_create_ids(es, n).contains(es[i].entity_id),
    decreases n,
{
    if i < n - 1 {
        lemma_region_create_ids_has(es, i, (n - 1) as nat);
    }
}

proof fn lemma_region_id_is_entity(e: EventView)
    requires region_from_event(e) is Ok,
    ensures region_from_event(e)->Ok_0.region_id == e.entity_id,
{
}

proof fn lemma_core_err_stays(es: Seq<EventView>, t: nat, n: nat)
    requires t <= n, core_from_events(es, t) is Err,
    ensures core_from_events(es, n) is Err,
    decreases n,
{
    if n > t { lemma_core_err_stays(es, t, (n - 1) as nat); }
}

/// Two region-creation events for the same entity cannot both enter the registry: the
/// registry built from the events is refused.
#[verifier::spinoff_prover]
#[verifier::rlimit(50)]
pub proof fn lemma_core_refuses_duplicate_ids(es: Seq<EventView>, i: int, j: int)
    requires
        0 <= i < j < es.len(),
        is_region_create(es[i]), is_region_create(es[j]),
        es[i].entity_id == es[j].entity_id,
    ensures core_from_events(es, es.len()) is Err,
{
    lemma_core_from_events_shape(es, j as nat);
    lemma_region_create_ids_has(es, i, j as nat);
    let n1 = (j + 1) as nat;
    assert((n1 - 1) as nat == j as nat);
    if core_from_events(es, j as nat) is Ok && region_from_event(es[j]) is Ok {
        let c = core_from_events(es, j as nat)->Ok_0;
        let v = region_from_event(es[j])->Ok_0;
        lemma_region_id_is_entity(es[j]);
        assert(lookup(c.regions, v.region_id) is Some);
        assert(core_insert(c, v).1 is Some);
    }
    assert(core_from_events(es, n1) is Err);
    lemma_core_err_stays(es, (j + 1) as nat, es.len());
}

} // verus!
