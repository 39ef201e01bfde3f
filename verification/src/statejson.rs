use vstd::prelude::*;
use crate::json::{json_map, json_map_text, json_str, json_str_text};
use crate::state::{opt_str_view, CertificationState, CertificationView, OriginState, OriginView, ProjectionState, ProjectionView,
    VectorStateV1, VectorStatus, VectorType, VectorView};
use crate::text::{decimal, push_decimal, push_str, string_from_chars};

verus! {

/// A JSON array of numbers, for the first `n` numbers.
pub open spec fn numbers_body(v: Seq<u128>, n: nat) -> Seq<char>
    decreases n,
{
    if n == 0 {
        Seq::empty()
    } else if n == 1 {
        decimal(v[0] as nat)
    } else {
        numbers_body(v, (n - 1) as nat) + ","@ + decimal(v[n - 1] as nat)
    }
}

pub open spec fn json_numbers(v: Seq<u128>) -> Seq<char> {
    "["@ + numbers_body(v, v.len()) + "]"@
}

pub open spec fn json_opt_str(o: Option<Seq<char>>) -> Seq<char> {
    match o { Some(s) => json_str_text(s), None => "null"@ }
}

pub open spec fn json_vector_type(t: VectorType) -> Seq<char> {
    match t {
        VectorType::Standard => "\"Standard\""@,
        VectorType::Origin => "\"Origin\""@,
        VectorType::Projected => "\"Projected\""@,
        VectorType::Escrow => "\"Escrow\""@,
        VectorType::Settlement => "\"Settlement\""@,
        VectorType::Locked => "\"Locked\""@,
    }
}

pub open spec fn json_vector_status(s: VectorStatus) -> Seq<char> {
    match s {
        VectorStatus::Active => "\"Active\""@,
        VectorStatus::Projected => "\"Projected\""@,
        VectorStatus::Escrowed => "\"Escrowed\""@,
        VectorStatus::Settled => "\"Settled\""@,
        VectorStatus::Archived => "\"Archived\""@,
    }
}

/// The JSON object of a certification state, fields in declaration order.
pub open spec fn certification_json(c: CertificationView) -> Seq<char> {
    "{\"certified\":"@ + (if c.certified { "true"@ } else { "false"@ })
        + ",\"auth_ratio\":"@ + decimal(c.auth_ratio as nat)
        + ",\"threshold\":"@ + decimal(c.threshold as nat)
        + ",\"last_checked_at_ms\":"@ + decimal(c.last_checked_at_ms as nat)
        + ",\"reason\":"@ + json_opt_str(c.reason)
        + "}"@
}

pub open spec fn projection_json(p: ProjectionView) -> Seq<char> {
    "{\"escrow_id\":"@ + json_str_text(p.escrow_id)
        + ",\"projected_components\":"@ + json_numbers(p.projected_components)
        + ",\"settled_components\":"@ + json_numbers(p.settled_components)
        + ",\"started_at_ms\":"@ + decimal(p.started_at_ms as nat)
        + ",\"settlement_at_ms\":"@ + (match p.settlement_at_ms { Some(t) => decimal(t as nat), None => "null"@ })
        + ",\"outcome_tag\":"@ + json_opt_str(p.outcome_tag)
        + "}"@
}

pub open spec fn origin_json(o: OriginView) -> Seq<char> {
    "{\"seed\":"@ + json_str_text(o.seed)
        + ",\"nonce\":"@ + decimal(o.nonce as nat)
        + ",\"difficulty\":"@ + decimal(o.difficulty as nat)
        + ",\"proof_hash\":"@ + json_str_text(o.proof_hash)
        + "}"@
}

/// The JSON object of a vector state, fields in declaration order.
pub open spec fn state_json(v: VectorView) -> Seq<char> {
    "{\"schema\":"@ + json_str_text(v.schema)
        + ",\"vector_id\":"@ + json_str_text(v.vector_id)
        + ",\"owner_pubkey\":"@ + json_str_text(v.owner_pubkey)
        + ",\"space_id\":"@ + json_str_text(v.space_id)
        + ",\"vector_type\":"@ + json_vector_type(v.vector_type)
        + ",\"status\":"@ + json_vector_status(v.status)
        + ",\"components\":"@ + json_numbers(v.components)
        + ",\"type_metadata\":"@ + json_map_text(v.type_metadata)
        + ",\"certification\":"@ + certification_json(v.certification)
        + ",\"projection\":"@ + (match v.projection { Some(p) => projection_json(p), None => "null"@ })
        + ",\"origin\":"@ + (match v.origin { Some(o) => origin_json(o), None => "null"@ })
        + ",\"version\":"@ + decimal(v.version as nat)
        + ",\"created_at_ms\":"@ + decimal(v.created_at_ms as nat)
        + ",\"updated_at_ms\":"@ + decimal(v.updated_at_ms as nat)
        + "}"@
}

fn push_numbers(out: &mut Vec<char>, v: &Vec<u128>)
    ensures final(out)@ == old(out)@ + json_numbers(v@),
{
    push_str(out, "[");
    let ghost start = out@;
    let mut i: usize = 0;
    while i < v.len()
        invariant i <= v.len(), out@ == start + numbers_body(v@, i as nat),
        decreases v.len() - i,
    {
        if i > 0 {
            push_str(out, ",");
        }
        push_decimal(out, v[i]);
        i += 1;
        assert(out@ =~= start + numbers_body(v@, i as nat));
    }
    push_str(out, "]");
    assert(out@ =~= old(out)@ + json_numbers(v@));
}

fn push_json_string(out: &mut Vec<char>, s: &String)
    ensures final(out)@ == old(out)@ + json_str_text(s@),
{
    let j = json_str(s.as_str());
    push_str(out, j.as_str());
}

fn push_json_opt_str(out: &mut Vec<char>, o: &Option<String>)
    ensures final(out)@ == old(out)@ + json_opt_str(opt_str_view(*o)),
{
    match o {
        Some(s) => push_json_string(out, s),
        None => push_str(out, "null"),
    }
}

fn push_certification(out: &mut Vec<char>, c: &CertificationState)
    ensures final(out)@ == old(out)@ + certification_json(c@),
{
    push_str(out, "{\"certified\":");
    push_str(out, if c.certified { "true" } else { "false" });
    push_str(out, ",\"auth_ratio\":");
    push_decimal(out, c.auth_ratio as u128);
    push_str(out, ",\"threshold\":");
    push_decimal(out, c.threshold as u128);
    push_str(out, ",\"last_checked_at_ms\":");
    push_decimal(out, c.last_checked_at_ms as u128);
    push_str(out, ",\"reason\":");
    push_json_opt_str(out, &c.reason);
    push_str(out, "}");
    assert(out@ =~= old(out)@ + certification_json(c@));
}

fn push_projection(out: &mut Vec<char>, p: &ProjectionState)
    ensures final(out)@ == old(out)@ + projection_json(p@),
{
    push_str(out, "{\"escrow_id\":");
    push_json_string(out, &p.escrow_id);
    push_str(out, ",\"projected_components\":");
    push_numbers(out, &p.projected_components);
    push_str(out, ",\"settled_components\":");
    push_numbers(out, &p.settled_components);
    push_str(out, ",\"started_at_ms\":");
    push_decimal(out, p.started_at_ms as u128);
    push_str(out, ",\"settlement_at_ms\":");
    match p.settlement_at_ms {
        Some(t) => push_decimal(out, t as u128),
        None => push_str(out, "null"),
    }
    push_str(out, ",\"outcome_tag\":");
    push_json_opt_str(out, &p.outcome_tag);
    push_str(out, "}");
    assert(out@ =~= old(out)@ + projection_json(p@));
}

fn push_origin(out: &mut Vec<char>, o: &OriginState)
    ensures final(out)@ == old(out)@ + origin_json(o@),
{
    push_str(out, "{\"seed\":");
    push_json_string(out, &o.seed);
    push_str(out, ",\"nonce\":");
    push_decimal(out, o.nonce as u128);
    push_str(out, ",\"difficulty\":");
    push_decimal(out, o.difficulty as u128);
    push_str(out, ",\"proof_hash\":");
    push_json_string(out, &o.proof_hash);
    push_str(out, "}");
    assert(out@ =~= old(out)@ + origin_json(o@));
}

/// The JSON text of a certification state.
pub fn certification_to_json(c: &CertificationState) -> (r: String)
    ensures r@ == certification_json(c@),
{
    let mut out: Vec<char> = Vec::new();
    push_certification(&mut out, c);
    assert(out@ =~= certification_json(c@));
    string_from_chars(out.as_slice())
}

/// The JSON text of a vector state.
pub fn state_to_json(v: &VectorStateV1) -> (r: String)
    requires v.type_metadata.wf(),
    ensures r@ == state_json(v@),
{
    let mut out: Vec<char> = Vec::new();
    push_str(&mut out, "{\"schema\":");
    push_json_string(&mut out, &v.schema);
    push_str(&mut out, ",\"vector_id\":");
    push_json_string(&mut out, &v.vector_id);
    push_str(&mut out, ",\"owner_pubkey\":");
    push_json_string(&mut out, &v.owner_pubkey);
    push_str(&mut out, ",\"space_id\":");
    push_json_string(&mut out, &v.space_id);
    push_str(&mut out, ",\"vector_type\":");
    match v.vector_type {
        VectorType::Standard => push_str(&mut out, "\"Standard\""),
        VectorType::Origin => push_str(&mut out, "\"Origin\""),
        VectorType::Projected => push_str(&mut out, "\"Projected\""),
        VectorType::Escrow => push_str(&mut out, "\"Escrow\""),
        VectorType::Settlement => push_str(&mut out, "\"Settlement\""),
        VectorType::Locked => push_str(&mut out, "\"Locked\""),
    }
    push_str(&mut out, ",\"status\":");
    match v.status {
        VectorStatus::Active => push_str(&mut out, "\"Active\""),
        VectorStatus::Projected => push_str(&mut out, "\"Projected\""),
        VectorStatus::Escrowed => push_str(&mut out, "\"Escrowed\""),
        VectorStatus::Settled => push_str(&mut out, "\"Settled\""),
        VectorStatus::Archived => push_str(&mut out, "\"Archived\""),
    }
    push_str(&mut out, ",\"components\":");
    push_numbers(&mut out, &v.components);
    push_str(&mut out, ",\"type_metadata\":");
    let m = json_map(&v.type_metadata);
    push_str(&mut out, m.as_str());
    push_str(&mut out, ",\"certification\":");
    push_certification(&mut out, &v.certification);
    push_str(&mut out, ",\"projection\":");
    match &v.projection {
        Some(p) => push_projection(&mut out, p),
        None => push_str(&mut out, "null"),
    }
    push_str(&mut out, ",\"origin\":");
    match &v.origin {
        Some(o) => push_origin(&mut out, o),
        None => push_str(&mut out, "null"),
    }
    push_str(&mut out, ",\"version\":");
    push_decimal(&mut out, v.version as u128);
    push_str(&mut out, ",\"created_at_ms\":");
    push_decimal(&mut out, v.created_at_ms as u128);
    push_str(&mut out, ",\"updated_at_ms\":");
    push_decimal(&mut out, v.updated_at_ms as u128);
    push_str(&mut out, "}");
    assert(out@ =~= state_json(v@));
    string_from_chars(out.as_slice())
}

} // verus!
