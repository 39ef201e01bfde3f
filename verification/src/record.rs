use vstd::prelude::*;
use vstd::string::StringExecFns;
use crate::encoding::{be_bytes, push_bytes};
use crate::hash::{blake3_hex, hash_hex};
use crate::json::{json_str, json_str_text};
use crate::serialization::{ser_str, utf8, write_str, write_u64, write_u8};
use crate::state::{now_ms, CertificationState, CertificationView, VectorStateV1, VectorView};
use crate::statejson::{certification_json, certification_to_json, state_json, state_to_json};
use crate::strmap::{entries_sorted, key_order, key_position, lemma_insert_at, lemma_insert_sorted, lemma_key_order_eq, sorted_insert, compare_keys};
use crate::text::{decimal, decimal_string, push_decimal, push_str, string_from_chars, Order};

verus! {

/// The operation a record documents.
#[derive(Clone, Debug)]
pub enum OperationKind {
    OriginCreate,
    Transfer,
    Drain,
    Project,
    Reconstruct,
    Certify,
    Query,
    Custom(String),
}

pub enum OperationKindView {
    OriginCreate,
    Transfer,
    Drain,
    Project,
    Reconstruct,
    Certify,
    Query,
    Custom(Seq<char>),
}

impl View for OperationKind {
    type V = OperationKindView;
    open spec fn view(&self) -> OperationKindView {
        match self {
            OperationKind::OriginCreate => OperationKindView::OriginCreate,
            OperationKind::Transfer => OperationKindView::Transfer,
            OperationKind::Drain => OperationKindView::Drain,
            OperationKind::Project => OperationKindView::Project,
            OperationKind::Reconstruct => OperationKindView::Reconstruct,
            OperationKind::Certify => OperationKindView::Certify,
            OperationKind::Query => OperationKindView::Query,
            OperationKind::Custom(s) => OperationKindView::Custom(s@),
        }
    }
}

/// The tag a record's canonical bytes carry for its operation.
pub open spec fn kind_tag(k: OperationKindView) -> Seq<char> {
    match k {
        OperationKindView::OriginCreate => "ORIGIN_CREATE"@,
        OperationKindView::Transfer => "TRANSFER"@,
        OperationKindView::Drain => "DRAIN"@,
        OperationKindView::Project => "PROJECT"@,
        OperationKindView::Reconstruct => "RECONSTRUCT"@,
        OperationKindView::Certify => "CERTIFY"@,
        OperationKindView::Query => "QUERY"@,
        OperationKindView::Custom(name) => name,
    }
}

impl OperationKind {
    /// A copy of the operation.
    pub fn duplicate(&self) -> (r: Self)
        ensures r@ == self@,
    {
        match self {
            OperationKind::OriginCreate => OperationKind::OriginCreate,
            OperationKind::Transfer => OperationKind::Transfer,
            OperationKind::Drain => OperationKind::Drain,
            OperationKind::Project => OperationKind::Project,
            OperationKind::Reconstruct => OperationKind::Reconstruct,
            OperationKind::Certify => OperationKind::Certify,
            OperationKind::Query => OperationKind::Query,
            OperationKind::Custom(s) => OperationKind::Custom(s.clone()),
        }
    }

    fn tag(&self) -> (r: String)
        ensures r@ == kind_tag(self@),
    {
        match self {
            OperationKind::OriginCreate => String::from_str("ORIGIN_CREATE"),
            OperationKind::Transfer => String::from_str("TRANSFER"),
            OperationKind::Drain => String::from_str("DRAIN"),
            OperationKind::Project => String::from_str("PROJECT"),
            OperationKind::Reconstruct => String::from_str("RECONSTRUCT"),
            OperationKind::Certify => String::from_str("CERTIFY"),
            OperationKind::Query => String::from_str("QUERY"),
            OperationKind::Custom(s) => s.clone(),
        }
    }
}

/// A value of a record parameter.
#[derive(Clone, Debug)]
pub enum ParamValue {
    Number(u64),
    Text(String),
    Numbers(Vec<u64>),
}

pub enum ParamView {
    Number(u64),
    Text(Seq<char>),
    Numbers(Seq<u64>),
}

impl View for ParamValue {
    type V = ParamView;
    open spec fn view(&self) -> ParamView {
        match self {
            ParamValue::Number(n) => ParamView::Number(*n),
            ParamValue::Text(s) => ParamView::Text(s@),
            ParamValue::Numbers(v) => ParamView::Numbers(v@),
        }
    }
}

impl ParamValue {
    pub fn duplicate(&self) -> (r: Self)
        ensures r@ == self@,
    {
        match self {
            ParamValue::Number(n) => ParamValue::Number(*n),
            ParamValue::Text(s) => ParamValue::Text(s.clone()),
            ParamValue::Numbers(v) => {
                let mut out: Vec<u64> = Vec::new();
                let mut i: usize = 0;
                while i < v.len()
                    invariant i <= v.len(), out@ == v@.take(i as int),
                    decreases v.len() - i,
                {
                    out.push(v[i]);
                    i += 1;
                    assert(out@ =~= v@.take(i as int));
                }
                assert(v@.take(v.len() as int) =~= v@);
                ParamValue::Numbers(out)
            }
        }
    }
}

/// The parameters of a record: a JSON object, entries strictly increasing by key.
#[derive(Clone, Debug)]
pub struct RecordParams {
    pub entries: Vec<(String, ParamValue)>,
}

impl View for RecordParams {
    type V = Seq<(Seq<char>, ParamView)>;
    open spec fn view(&self) -> Seq<(Seq<char>, ParamView)> {
        self.entries@.map_values(|e: (String, ParamValue)| (e.0@, e.1@))
    }
}

impl RecordParams {
    pub open spec fn wf(&self) -> bool {
        entries_sorted(self@)
    }

    /// The empty object.
    pub fn new() -> (r: Self)
        ensures r.wf(), r@ == Seq::<(Seq<char>, ParamView)>::empty(),
    {
        let r = RecordParams { entries: Vec::new() };
        assert(r@ =~= Seq::<(Seq<char>, ParamView)>::empty());
        r
    }

    /// Sets a parameter, keeping the keys in order.
    pub fn insert(&mut self, key: String, value: ParamValue)
        ensures
            final(self)@ == sorted_insert(old(self)@, key@, value@),
            old(self).wf() ==> final(self).wf(),
    {
        let ghost old_view = self@;
        proof { if entries_sorted(old_view) { lemma_insert_sorted(old_view, key@, value@); } }
        let i = key_position(&self.entries, &key);
        proof {
            assert forall|j: int| 0 <= j < i implies key_order(#[trigger] old_view[j].0, key@) < 0 by {
                assert(old_view[j].0 == self.entries@[j].0@);
            }
            lemma_insert_at(old_view, key@, value@, i as int);
            if i < old_view.len() { lemma_key_order_eq(old_view[i as int].0, key@); }
        }
        let ghost kv = key@;
        let ghost vv = value@;
        if i < self.entries.len() && compare_keys(&self.entries[i].0, &key) == Order::Equal {
            self.entries.set(i, (key, value));
            assert(self@ =~= old_view.update(i as int, (kv, vv)));
        } else {
            self.entries.insert(i, (key, value));
            assert(self@ =~= old_view.insert(i as int, (kv, vv)));
        }
    }

    pub fn duplicate(&self) -> (r: Self)
        ensures r@ == self@,
    {
        let mut out: Vec<(String, ParamValue)> = Vec::new();
        let mut i: usize = 0;
        while i < self.entries.len()
            invariant
                i <= self.entries.len(), out@.len() == i,
                forall|j: int| 0 <= j < i ==> (#[trigger] out@[j]).0@ == self.entries@[j].0@ && out@[j].1@ == self.entries@[j].1@,
            decreases self.entries.len() - i,
        {
            out.push((self.entries[i].0.clone(), self.entries[i].1.duplicate()));
            i += 1;
        }
        let r = RecordParams { entries: out };
        assert(r@ =~= self@);
        r
    }
}

pub open spec fn numbers_bytes(v: Seq<u64>, n: nat) -> Seq<u8>
    decreases n,
{
    if n == 0 { Seq::empty() } else { numbers_bytes(v, (n - 1) as nat) + seq![2u8] + ser_str(decimal(v[n - 1] as nat)) }
}

/// The canonical bytes of a parameter value: a type tag, then the value.
pub open spec fn param_value_bytes(v: ParamView) -> Seq<u8> {
    match v {
        ParamView::Number(n) => seq![2u8] + ser_str(decimal(n as nat)),
        ParamView::Text(s) => seq![3u8] + ser_str(s),
        ParamView::Numbers(xs) => seq![4u8] + be_bytes(xs.len(), 8) + numbers_bytes(xs, xs.len()),
    }
}

pub open spec fn params_body(p: Seq<(Seq<char>, ParamView)>, n: nat) -> Seq<u8>
    decreases n,
{
    if n == 0 { Seq::empty() } else { params_body(p, (n - 1) as nat) + ser_str(p[n - 1].0) + param_value_bytes(p[n - 1].1) }
}

/// The canonical bytes of the parameters: the object tag, the key count, then each key
/// and value in key order.
pub open spec fn params_bytes(p: Seq<(Seq<char>, ParamView)>) -> Seq<u8> {
    seq![5u8] + be_bytes(p.len(), 8) + params_body(p, p.len())
}

fn write_param_value(buf: &mut Vec<u8>, v: &ParamValue)
    ensures final(buf)@ == old(buf)@ + param_value_bytes(v@),
{
    match v {
        ParamValue::Number(n) => {
            write_u8(buf, 2);
            let t = decimal_string(*n as u128);
            write_str(buf, t.as_str());
        }
        ParamValue::Text(s) => {
            write_u8(buf, 3);
            write_str(buf, s.as_str());
        }
        ParamValue::Numbers(xs) => {
            write_u8(buf, 4);
            write_u64(buf, xs.len() as u64);
            let ghost start = buf@;
            let mut i: usize = 0;
            while i < xs.len()
                invariant i <= xs.len(), buf@ == start + numbers_bytes(xs@, i as nat),
                decreases xs.len() - i,
            {
                write_u8(buf, 2);
                let t = decimal_string(xs[i] as u128);
                write_str(buf, t.as_str());
                i += 1;
                assert(buf@ =~= start + numbers_bytes(xs@, i as nat));
            }
        }
    }
    assert(buf@ =~= old(buf)@ + param_value_bytes(v@));
}

/// The canonical bytes of record parameters.
pub fn canonical_params_bytes(p: &RecordParams) -> (r: Vec<u8>)
    ensures r@ == params_bytes(p@),
{
    let mut buf: Vec<u8> = Vec::new();
    write_u8(&mut buf, 5);
    write_u64(&mut buf, p.entries.len() as u64);
    let ghost start = buf@;
    let mut i: usize = 0;
    while i < p.entries.len()
        invariant i <= p.entries.len(), buf@ == start + params_body(p@, i as nat),
        decreases p.entries.len() - i,
    {
        write_str(&mut buf, p.entries[i].0.as_str());
        write_param_value(&mut buf, &p.entries[i].1);
        i += 1;
        assert(buf@ =~= start + params_body(p@, i as nat));
    }
    assert(buf@ =~= params_bytes(p@));
    buf
}

pub open spec fn numbers_text(v: Seq<u64>, n: nat) -> Seq<char>
    decreases n,
{
    if n == 0 { Seq::empty() } else if n == 1 { decimal(v[0] as nat) } else { numbers_text(v, (n - 1) as nat) + ","@ + decimal(v[n - 1] as nat) }
}

pub open spec fn param_value_text(v: ParamView) -> Seq<char> {
    match v {
        ParamView::Number(n) => decimal(n as nat),
        ParamView::Text(s) => json_str_text(s),
        ParamView::Numbers(xs) => "["@ + numbers_text(xs, xs.len()) + "]"@,
    }
}

pub open spec fn params_text_body(p: Seq<(Seq<char>, ParamView)>, n: nat) -> Seq<char>
    decreases n,
{
    if n == 0 {
        Seq::empty()
    } else {
        let entry = json_str_text(p[n - 1].0) + ":"@ + param_value_text(p[n - 1].1);
        if n == 1 { entry } else { params_text_body(p, (n - 1) as nat) + ","@ + entry }
    }
}

/// The compact JSON text of record parameters.
pub open spec fn params_text(p: Seq<(Seq<char>, ParamView)>) -> Seq<char> {
    "{"@ + params_text_body(p, p.len()) + "}"@
}

/// The compact JSON text of record parameters.
pub fn params_to_json(p: &RecordParams) -> (r: String)
    ensures r@ == params_text(p@),
{
    let mut out: Vec<char> = Vec::new();
    push_str(&mut out, "{");
    let ghost start = out@;
    let mut i: usize = 0;
    while i < p.entries.len()
        invariant i <= p.entries.len(), out@ == start + params_text_body(p@, i as nat),
        decreases p.entries.len() - i,
    {
        if i > 0 {
            push_str(&mut out, ",");
        }
        let k = json_str(p.entries[i].0.as_str());
        push_str(&mut out, k.as_str());
        push_str(&mut out, ":");
        match &p.entries[i].1 {
            ParamValue::Number(n) => push_decimal(&mut out, *n as u128),
            ParamValue::Text(s) => {
                let j = json_str(s.as_str());
                push_str(&mut out, j.as_str());
            }
            ParamValue::Numbers(xs) => {
                push_str(&mut out, "[");
                let ghost mid = out@;
                let mut t: usize = 0;
                while t < xs.len()
                    invariant t <= xs.len(), out@ == mid + numbers_text(xs@, t as nat),
                    decreases xs.len() - t,
                {
                    if t > 0 {
                        push_str(&mut out, ",");
                    }
                    push_decimal(&mut out, xs[t] as u128);
                    t += 1;
                    assert(out@ =~= mid + numbers_text(xs@, t as nat));
                }
                push_str(&mut out, "]");
            }
        }
        i += 1;
        assert(out@ =~= start + params_text_body(p@, i as nat));
    }
    push_str(&mut out, "}");
    assert(out@ =~= params_text(p@));
    string_from_chars(out.as_slice())
}

pub const RECORD_SCHEMA_V1: &'static str = "v.kernelx/VectorRecordV1";

/// A ledger record of one state mutation.
#[derive(Clone, Debug)]
pub struct VectorRecordV1 {
    pub schema: String,
    pub record_id: String,
    pub vector_id: String,
    pub before: Option<VectorStateV1>,
    pub after: VectorStateV1,
    pub operation: OperationKind,
    pub parameters: RecordParams,
    pub certification: CertificationState,
    pub timestamp_ms: u64,
    pub proof: String,
}

pub struct RecordView {
    pub schema: Seq<char>,
    pub record_id: Seq<char>,
    pub vector_id: Seq<char>,
    pub before: Option<VectorView>,
    pub after: VectorView,
    pub operation: OperationKindView,
    pub parameters: Seq<(Seq<char>, ParamView)>,
    pub certification: CertificationView,
    pub timestamp_ms: u64,
    pub proof: Seq<char>,
}

impl View for VectorRecordV1 {
    type V = RecordView;
    open spec fn view(&self) -> RecordView {
        RecordView {
            schema: self.schema@,
            record_id: self.record_id@,
            vector_id: self.vector_id@,
            before: match self.before { Some(b) => Some(b@), None => None },
            after: self.after@,
            operation: self.operation@,
            parameters: self.parameters@,
            certification: self.certification@,
            timestamp_ms: self.timestamp_ms,
            proof: self.proof@,
        }
    }
}

/// A length-prefixed blob.
pub open spec fn framed(b: Seq<u8>) -> Seq<u8> {
    be_bytes(b.len(), 8) + b
}

/// The canonical bytes of a record: every field but the proof, with states and the
/// certification as JSON.
pub open spec fn record_bytes(r: RecordView) -> Seq<u8> {
    ser_str(r.schema) + ser_str(r.record_id) + ser_str(r.vector_id)
        + match r.before { Some(b) => seq![1u8] + framed(utf8(state_json(b))), None => seq![0u8] }
        + framed(utf8(state_json(r.after)))
        + ser_str(kind_tag(r.operation))
        + framed(params_bytes(r.parameters))
        + framed(utf8(certification_json(r.certification)))
        + be_bytes(r.timestamp_ms as nat, 8)
}

/// A record's state metadata and parameters are well formed.
pub open spec fn record_wf(r: &VectorRecordV1) -> bool {
    &&& r.after.type_metadata.wf()
    &&& r.parameters.wf()
    &&& match r.before { Some(b) => b.type_metadata.wf(), None => true }
}

fn push_framed(buf: &mut Vec<u8>, b: &Vec<u8>)
    ensures final(buf)@ == old(buf)@ + framed(b@),
{
    write_u64(buf, b.len() as u64);
    push_bytes(buf, b.as_slice());
    assert(buf@ =~= old(buf)@ + framed(b@));
}

fn text_bytes(s: &String) -> (r: Vec<u8>)
    ensures r@ == utf8(s@),
{
    let mut out: Vec<u8> = Vec::new();
    push_bytes(&mut out, s.as_str().as_bytes());
    assert(out@ =~= utf8(s@));
    out
}

fn canonical_record_bytes(record: &VectorRecordV1) -> (r: Vec<u8>)
    requires record_wf(record),
    ensures r@ == record_bytes(record@),
{
    let mut buf: Vec<u8> = Vec::new();
    write_str(&mut buf, record.schema.as_str());
    write_str(&mut buf, record.record_id.as_str());
    write_str(&mut buf, record.vector_id.as_str());
    match &record.before {
        Some(b) => {
            write_u8(&mut buf, 1);
            let j = state_to_json(b);
            push_framed(&mut buf, &text_bytes(&j));
        }
        None => write_u8(&mut buf, 0),
    }
    let a = state_to_json(&record.after);
    push_framed(&mut buf, &text_bytes(&a));
    let tag = record.operation.tag();
    write_str(&mut buf, tag.as_str());
    push_framed(&mut buf, &canonical_params_bytes(&record.parameters));
    let c = certification_to_json(&record.certification);
    push_framed(&mut buf, &text_bytes(&c));
    write_u64(&mut buf, record.timestamp_ms);
    assert(buf@ =~= record_bytes(record@));
    buf
}

impl VectorRecordV1 {
    /// A record of a mutation, stamped with the current time, certified as the new state
    /// is, and proved by its content hash.
    pub fn new(record_id: String, vector_id: String, before: Option<VectorStateV1>, after: VectorStateV1,
        operation: OperationKind, parameters: RecordParams) -> (r: Self)
        requires
            after.type_metadata.wf(), parameters.wf(),
            match before { Some(b) => b.type_metadata.wf(), None => true },
        ensures
            record_wf(&r),
            r.schema@ == RECORD_SCHEMA_V1@,
            r.record_id@ == record_id@, r.vector_id@ == vector_id@,
            r@.before == (match before { Some(b) => Some(b@), None => None::<VectorView> }),
            r.after@ == after@, r.operation@ == operation@, r.parameters@ == parameters@,
            r.certification@ == after.certification@,
            r.proof@ == hash_hex(record_bytes(r@)),
    {
        let certification = after.certification.duplicate();
        let timestamp_ms = now_ms();
        let mut record = VectorRecordV1 {
            schema: String::from_str(RECORD_SCHEMA_V1),
            record_id,
            vector_id,
            before,
            after,
            operation,
            parameters,
            certification,
            timestamp_ms,
            proof: String::new(),
        };
        record.proof = record.hash();
        record
    }

    /// A copy with the same contents.
    pub fn duplicate(&self) -> (r: Self)
        ensures r@ == self@,
    {
        VectorRecordV1 {
            schema: self.schema.clone(),
            record_id: self.record_id.clone(),
            vector_id: self.vector_id.clone(),
            before: match &self.before { Some(b) => Some(b.duplicate()), None => None },
            after: self.after.duplicate(),
            operation: self.operation.duplicate(),
            parameters: self.parameters.duplicate(),
            certification: self.certification.duplicate(),
            timestamp_ms: self.timestamp_ms,
            proof: self.proof.clone(),
        }
    }

    /// The content hash of the record's canonical bytes.
    pub fn hash(&self) -> (r: String)
        requires record_wf(self),
        ensures r@ == hash_hex(record_bytes(self@)),
    {
        let bytes = canonical_record_bytes(self);
        blake3_hex(bytes.as_slice())
    }
}

/// The bytes a record id is hashed from.
pub open spec fn record_id_material(prefix: Seq<char>, vector_id: Seq<char>, discriminator: Seq<char>) -> Seq<u8> {
    utf8(prefix) + utf8(":"@) + utf8(vector_id) + utf8(":"@) + utf8(discriminator)
}

/// A record id: the hash of `prefix:vector_id:discriminator`.
pub fn make_record_id(prefix: &str, vector_id: &str, discriminator: &str) -> (r: String)
    ensures r@ == hash_hex(record_id_material(prefix@, vector_id@, discriminator@)),
{
    let mut bytes: Vec<u8> = Vec::new();
    push_bytes(&mut bytes, prefix.as_bytes());
    push_bytes(&mut bytes, ":".as_bytes());
    push_bytes(&mut bytes, vector_id.as_bytes());
    push_bytes(&mut bytes, ":".as_bytes());
    push_bytes(&mut bytes, discriminator.as_bytes());
    assert(bytes@ =~= record_id_material(prefix@, vector_id@, discriminator@));
    blake3_hex(bytes.as_slice())
}

} // verus!
