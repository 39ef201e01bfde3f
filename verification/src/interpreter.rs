use vstd::prelude::*;
use vstd::string::StringExecFns;
use crate::error::KernelXError;
use crate::strmap::{find_key, keyed_view, lookup, str_eq};
use crate::text::{chars_of, concat2, decimal, push_decimal, push_str, string_from_chars, trimmed, trim_chars};
use crate::checked::{checked_certify, checked_drain, checked_origin_create, checked_project, checked_reconstruct,
    checked_sum, checked_transfer, overflow_error, stored_state};
use crate::checked::{origin_ready, reconstruct_ready, stored_ready, transfer_ready};
use crate::acceptance::log_has_room;
use crate::storage::EventStore;
use crate::checked::{certify_refusal, drain_refusal, origin_refusal, project_refusal, reconstruct_refusal, transfer_refusal};
use crate::error::error_text;
use crate::engine::{components_fit, KernelEngine};
use crate::reconstruction::SettlementOutcome;
use crate::state::{sum_u128, VectorView};
use crate::certification::{auth_ratio_of, certification_of};
use crate::engine::{certified_state, drained_state, origin_state, transferred};
use crate::projection::projected_view;
use crate::reconstruction::reconstructed_view;
use crate::strmap::sorted_insert;
use crate::storage::StateStore;
use crate::transfer::{credited, debited};
use crate::statejson::{state_json, state_to_json};

verus! {

/// The operations a script line can name.
#[derive(Clone, Copy, Debug, PartialEq, Eq, Structural)]
pub enum Opcode {
    OriginCreate,
    Transfer,
    Drain,
    Project,
    Reconstruct,
    Certify,
    Query,
}

/// What a script reads of one member of a line's JSON parameters.
#[derive(Clone, Debug)]
pub enum ScriptValue {
    Text(String),
    /// A number, with its value when it is an unsigned 64-bit integer.
    Number(Option<u64>),
    /// An array, with the value of each item that is an unsigned 64-bit integer.
    List(Vec<Option<u64>>),
    Other,
}

pub enum ScriptValueView {
    Text(Seq<char>),
    Number(Option<u64>),
    List(Seq<Option<u64>>),
    Other,
}

impl View for ScriptValue {
    type V = ScriptValueView;

    open spec fn view(&self) -> ScriptValueView {
        match self {
            ScriptValue::Text(s) => ScriptValueView::Text(s@),
            ScriptValue::Number(n) => ScriptValueView::Number(*n),
            ScriptValue::List(v) => ScriptValueView::List(v@),
            ScriptValue::Other => ScriptValueView::Other,
        }
    }
}

/// One parsed script line: an operation and the members of its JSON parameters.
#[derive(Clone, Debug)]
pub struct Instruction {
    pub opcode: Opcode,
    pub params: Vec<(String, ScriptValue)>,
}

pub struct InstructionView {
    pub opcode: Opcode,
    pub params: Seq<(Seq<char>, ScriptValueView)>,
}

impl View for Instruction {
    type V = InstructionView;

    open spec fn view(&self) -> InstructionView {
        InstructionView { opcode: self.opcode, params: keyed_view(self.params@) }
    }
}

/// The members of a JSON text's top-level object (none when it is another value), or
/// the parser's error text.
pub uninterp spec fn json_object_fields(text: Seq<char>) -> Result<Seq<(Seq<char>, ScriptValueView)>, Seq<char>>;

/// Unicode upper case of a text (`str::to_uppercase`).
pub uninterp spec fn uppercase_of(text: Seq<char>) -> Seq<char>;

/// Calls `serde_json::from_str` into a `serde_json::Value` and lists the members of a
/// top-level object, each as a string, a number (with `as_u64`), an array (with `as_u64`
/// of each item) or something else. The contract claims only that the result, or the
/// error's display text, is the named function of the text.
#[verifier::external_body]
fn parse_json_fields(text: &str) -> (r: Result<Vec<(String, ScriptValue)>, String>)
    ensures
        r is Ok == json_object_fields(text@) is Ok,
        r matches Ok(v) ==> keyed_view(v@) == json_object_fields(text@)->Ok_0,
        r matches Err(e) ==> e@ == json_object_fields(text@)->Err_0,
{
    match serde_json::from_str::<serde_json::Value>(text) {
        Ok(serde_json::Value::Object(map)) => Ok(map.into_iter().map(|(k, v)| (k, match v {
            serde_json::Value::String(s) => ScriptValue::Text(s),
            serde_json::Value::Number(n) => ScriptValue::Number(n.as_u64()),
            serde_json::Value::Array(a) => ScriptValue::List(a.iter().map(|x| x.as_u64()).collect()),
            _ => ScriptValue::Other,
        })).collect()),
        Ok(_) => Ok(Vec::new()),
        Err(e) => Err(format!("{e}")),
    }
}

/// Calls `str::to_uppercase`; the contract claims the result is the named upper case.
#[verifier::external_body]
fn uppercase_text(text: &str) -> (r: String)
    ensures r@ == uppercase_of(text@),
{
    text.to_uppercase()
}

/// The lines of a text, split at each newline.
pub open spec fn split_lines(s: Seq<char>) -> Seq<Seq<char>>
    decreases s.len(),
{
    if s.len() == 0 {
        seq![Seq::<char>::empty()]
    } else {
        let p = split_lines(s.drop_last());
        if s.last() == '\n' {
            p.push(Seq::<char>::empty())
        } else {
            p.update(p.len() - 1, p.last().push(s.last()))
        }
    }
}

proof fn lemma_split_lines_len(s: Seq<char>)
    ensures split_lines(s).len() >= 1,
    decreases s.len(),
{
    if s.len() > 0 {
        lemma_split_lines_len(s.drop_last());
    }
}

/// The position of the first space, or the length when there is none.
pub open spec fn space_index(t: Seq<char>) -> nat
    decreases t.len(),
{
    if t.len() == 0 || t[0] == ' ' { 0 } else { 1 + space_index(t.drop_first()) }
}

proof fn lemma_space_index_le(t: Seq<char>)
    ensures space_index(t) <= t.len(),
    decreases t.len(),
{
    if t.len() > 0 && t[0] != ' ' {
        lemma_space_index_le(t.drop_first());
    }
}

/// The operation an upper-cased word names.
pub open spec fn opcode_named(word: Seq<char>) -> Option<Opcode> {
    if word == "ORIGIN"@ || word == "ORIGIN_CREATE"@ { Some(Opcode::OriginCreate) }
    else if word == "TRANSFER"@ { Some(Opcode::Transfer) }
    else if word == "DRAIN"@ { Some(Opcode::Drain) }
    else if word == "PROJECT"@ { Some(Opcode::Project) }
    else if word == "RECONSTRUCT"@ { Some(Opcode::Reconstruct) }
    else if word == "CERTIFY"@ { Some(Opcode::Certify) }
    else if word == "QUERY"@ { Some(Opcode::Query) }
    else { None }
}

/// What one line gives: nothing for a blank or `#` comment line, else the instruction or
/// the error text. The opcode is the upper-cased text before the first space; the
/// parameters are the JSON text after it, `{}` when there is none.
pub open spec fn line_instruction(line: Seq<char>) -> Option<Result<InstructionView, Seq<char>>> {
    let t = trimmed(line);
    if t.len() == 0 || t[0] == '#' {
        None
    } else {
        let k = space_index(t);
        let word = uppercase_of(t.take(k as int));
        let params = if k < t.len() { t.skip(k as int + 1) } else { "{}"@ };
        match opcode_named(word) {
            None => Some(Err("unknown opcode: "@ + word)),
            Some(op) => match json_object_fields(params) {
                Err(m) => Some(Err("invalid params json: "@ + m)),
                Ok(f) => Some(Ok(InstructionView { opcode: op, params: f })),
            },
        }
    }
}

/// The instructions of a list of lines, stopping at the first bad line.
pub open spec fn parse_lines(lines: Seq<Seq<char>>) -> Result<Seq<InstructionView>, Seq<char>>
    decreases lines.len(),
{
    if lines.len() == 0 {
        Ok(Seq::empty())
    } else {
        match line_instruction(lines[0]) {
            None => parse_lines(lines.skip(1)),
            Some(Err(m)) => Err(m),
            Some(Ok(i)) => match parse_lines(lines.skip(1)) {
                Ok(rest) => Ok(seq![i] + rest),
                Err(m) => Err(m),
            },
        }
    }
}

/// The instructions of a script.
pub open spec fn script_instructions(script: Seq<char>) -> Result<Seq<InstructionView>, Seq<char>> {
    parse_lines(split_lines(script))
}

pub open spec fn prepend_instructions(p: Seq<InstructionView>, r: Result<Seq<InstructionView>, Seq<char>>)
    -> Result<Seq<InstructionView>, Seq<char>>
{
    match r {
        Ok(x) => Ok(p + x),
        Err(m) => Err(m),
    }
}

pub open spec fn instruction_views(v: Seq<Instruction>) -> Seq<InstructionView> {
    v.map_values(|i: Instruction| i@)
}

pub open spec fn line_views(v: Seq<Vec<char>>) -> Seq<Seq<char>> {
    v.map_values(|l: Vec<char>| l@)
}

/// Splits a text into its lines.
fn text_lines(text: &str) -> (r: Vec<Vec<char>>)
    ensures line_views(r@) == split_lines(text@),
{
    let cs = chars_of(text);
    let mut lines: Vec<Vec<char>> = Vec::new();
    let mut cur: Vec<char> = Vec::new();
    let mut i: usize = 0;
    assert(cs@.take(0) =~= Seq::<char>::empty());
    assert(line_views(lines@).push(cur@) =~= split_lines(cs@.take(0)));
    while i < cs.len()
        invariant
            i <= cs.len(), cs@ == text@,
            line_views(lines@).push(cur@) == split_lines(cs@.take(i as int)),
        decreases cs.len() - i,
    {
        let c = cs[i];
        let ghost before = line_views(lines@).push(cur@);
        assert(cs@.take(i + 1).drop_last() =~= cs@.take(i as int));
        if c == '\n' {
            lines.push(cur);
            cur = Vec::new();
            assert(line_views(lines@).push(cur@) =~= before.push(Seq::<char>::empty()));
        } else {
            cur.push(c);
            assert(line_views(lines@).push(cur@) =~= before.update(before.len() - 1, before.last().push(c)));
        }
        i += 1;
    }
    assert(cs@.take(cs.len() as int) =~= cs@);
    lines.push(cur);
    lines
}

/// The operation a word names, after upper-casing.
fn opcode_of(word: &str) -> (r: Option<Opcode>)
    ensures r == opcode_named(word@),
{
    if str_eq(word, "ORIGIN") || str_eq(word, "ORIGIN_CREATE") { Some(Opcode::OriginCreate) }
    else if str_eq(word, "TRANSFER") { Some(Opcode::Transfer) }
    else if str_eq(word, "DRAIN") { Some(Opcode::Drain) }
    else if str_eq(word, "PROJECT") { Some(Opcode::Project) }
    else if str_eq(word, "RECONSTRUCT") { Some(Opcode::Reconstruct) }
    else if str_eq(word, "CERTIFY") { Some(Opcode::Certify) }
    else if str_eq(word, "QUERY") { Some(Opcode::Query) }
    else { None }
}

/// Parses one line into an instruction, or nothing for a blank or comment line.
fn parse_line(line: &Vec<char>) -> (r: Result<Option<Instruction>, KernelXError>)
    ensures
        match line_instruction(line@) {
            None => r matches Ok(None),
            Some(Ok(i)) => r matches Ok(Some(x)) && x@ == i,
            Some(Err(m)) => r matches Err(KernelXError::Rejected(e)) && e@ == m,
        },
{
    let text = string_from_chars(line.as_slice());
    let t = trim_chars(text.as_str());
    if t.len() == 0 || t[0] == '#' {
        return Ok(None);
    }
    let mut k: usize = 0;
    proof { assert(t@.skip(0) =~= t@); lemma_space_index_le(t@); }
    while k < t.len() && t[k] != ' '
        invariant k <= t.len(), space_index(t@) == k + space_index(t@.skip(k as int)),
        decreases t.len() - k,
    {
        assert(t@.skip(k as int).drop_first() =~= t@.skip(k + 1));
        k += 1;
    }
    let mut word_chars: Vec<char> = Vec::new();
    let mut j: usize = 0;
    while j < k
        invariant j <= k, k <= t.len(), word_chars@ =~= t@.take(j as int),
        decreases k - j,
    {
        word_chars.push(t[j]);
        j += 1;
    }
    let word = uppercase_text(string_from_chars(word_chars.as_slice()).as_str());
    let params_text = if k < t.len() {
        let mut rest: Vec<char> = Vec::new();
        let mut m: usize = k + 1;
        while m < t.len()
            invariant k < m <= t.len(), rest@ =~= t@.subrange(k + 1, m as int),
            decreases t.len() - m,
        {
            rest.push(t[m]);
            m += 1;
        }
        assert(rest@ =~= t@.skip(k + 1));
        string_from_chars(rest.as_slice())
    } else {
        String::from_str("{}")
    };
    match opcode_of(word.as_str()) {
        None => Err(KernelXError::Rejected(concat2("unknown opcode: ", word.as_str()))),
        Some(opcode) => match parse_json_fields(params_text.as_str()) {
            Err(e) => Err(KernelXError::Rejected(concat2("invalid params json: ", e.as_str()))),
            Ok(params) => Ok(Some(Instruction { opcode, params })),
        },
    }
}

/// Parses a script: one instruction per non-blank line that does not start with `#`,
/// written as an opcode, a space and a JSON object of parameters.
pub fn parse_script(script: &str) -> (r: Result<Vec<Instruction>, KernelXError>)
    ensures
        match script_instructions(script@) {
            Ok(is) => r matches Ok(v) && instruction_views(v@) == is,
            Err(m) => r matches Err(KernelXError::Rejected(e)) && e@ == m,
        },
{
    let lines = text_lines(script);
    let ghost all = line_views(lines@);
    let mut out: Vec<Instruction> = Vec::new();
    let mut i: usize = 0;
    assert(all.skip(0) =~= all);
    assert(instruction_views(out@) + Seq::<InstructionView>::empty() =~= instruction_views(out@));
    while i < lines.len()
        invariant
            i <= lines.len(), all == line_views(lines@), all == split_lines(script@),
            parse_lines(all) == prepend_instructions(instruction_views(out@), parse_lines(all.skip(i as int))),
        decreases lines.len() - i,
    {
        let ghost rest = all.skip(i as int);
        assert(rest[0] == lines@[i as int]@);
        assert(rest.skip(1) =~= all.skip(i + 1));
        let ghost before = instruction_views(out@);
        match parse_line(&lines[i]) {
            Err(e) => { return Err(e); }
            Ok(None) => {}
            Ok(Some(ins)) => {
                out.push(ins);
                proof {
                    assert(instruction_views(out@) =~= before.push(ins@));
                    match parse_lines(all.skip(i + 1)) {
                        Ok(x) => { assert(before + (seq![ins@] + x) =~= instruction_views(out@) + x); }
                        Err(_) => {}
                    }
                }
            }
        }
        i += 1;
    }
    assert(all.skip(i as int) =~= Seq::<Seq<char>>::empty());
    assert(instruction_views(out@) + Seq::<InstructionView>::empty() =~= instruction_views(out@));
    Ok(out)
}


/// The text member `key`, or the default when it is absent or not a string.
pub open spec fn param_text(f: Seq<(Seq<char>, ScriptValueView)>, key: Seq<char>, default: Seq<char>) -> Seq<char> {
    match lookup(f, key) {
        Some(ScriptValueView::Text(s)) => s,
        _ => default,
    }
}

/// The unsigned member `key`, or the default when it is absent or not an unsigned integer.
pub open spec fn param_number(f: Seq<(Seq<char>, ScriptValueView)>, key: Seq<char>, default: u64) -> u64 {
    match lookup(f, key) {
        Some(ScriptValueView::Number(Some(n))) => n,
        _ => default,
    }
}

/// An array item's value: its unsigned value, or zero.
pub open spec fn item_value(x: Option<u64>) -> u128 {
    match x {
        Some(n) => n as u128,
        None => 0,
    }
}

/// The array member `key`, items read as unsigned values (zero otherwise); empty when absent.
pub open spec fn param_list(f: Seq<(Seq<char>, ScriptValueView)>, key: Seq<char>) -> Seq<u128> {
    match lookup(f, key) {
        Some(ScriptValueView::List(items)) => items.map_values(|x: Option<u64>| item_value(x)),
        _ => Seq::empty(),
    }
}

fn param_str(params: &Vec<(String, ScriptValue)>, key: &str, default: &str) -> (r: String)
    ensures r@ == param_text(keyed_view(params@), key@, default@),
{
    match find_key(params, key) {
        Some(i) => match &params[i].1 {
            ScriptValue::Text(s) => s.clone(),
            _ => String::from_str(default),
        },
        None => String::from_str(default),
    }
}

fn param_u64(params: &Vec<(String, ScriptValue)>, key: &str, default: u64) -> (r: u64)
    ensures r == param_number(keyed_view(params@), key@, default),
{
    match find_key(params, key) {
        Some(i) => match &params[i].1 {
            ScriptValue::Number(Some(n)) => *n,
            _ => default,
        },
        None => default,
    }
}

fn param_values(params: &Vec<(String, ScriptValue)>, key: &str) -> (r: Vec<u128>)
    ensures r@ == param_list(keyed_view(params@), key@), components_fit(r@),
{
    match find_key(params, key) {
        Some(i) => match &params[i].1 {
            ScriptValue::List(items) => {
                let mut out: Vec<u128> = Vec::new();
                let mut j: usize = 0;
                while j < items.len()
                    invariant
                        j <= items.len(),
                        out@ =~= items@.take(j as int).map_values(|x: Option<u64>| item_value(x)),
                        components_fit(out@),
                    decreases items.len() - j,
                {
                    let v: u128 = match items[j] {
                        Some(n) => n as u128,
                        None => 0,
                    };
                    out.push(v);
                    j += 1;
                    assert(out@ =~= items@.take(j as int).map_values(|x: Option<u64>| item_value(x)));
                }
                assert(items@.take(items.len() as int) =~= items@);
                out
            }
            _ => Vec::new(),
        },
        None => Vec::new(),
    }
}

/// The text an executed instruction reports.
pub open spec fn script_output_fits(i: InstructionView, out: Seq<char>) -> bool {
    let f = i.params;
    let id = param_text(f, "vector_id"@, ""@);
    match i.opcode {
        Opcode::OriginCreate => out == "origin:"@ + param_text(f, "vector_id"@, "vector"@),
        Opcode::Transfer => exists|ma: nat, mb: nat| #![trigger decimal(ma), decimal(mb)]
            out == "transfer:"@ + param_text(f, "from"@, ""@) + "->"@ + param_text(f, "to"@, ""@)
                + ":"@ + decimal(ma) + "|"@ + decimal(mb),
        Opcode::Drain => out == "drain:"@ + id,
        Opcode::Project => out == "project:"@ + id,
        Opcode::Reconstruct => out == "reconstruct:"@ + id,
        Opcode::Certify => exists|ratio: nat| #![trigger decimal(ratio)]
            ratio <= u16::MAX && out == "certify:"@ + id + ":"@ + decimal(ratio),
        Opcode::Query => out == "null"@ || exists|v: VectorView| #![trigger state_json(v)] out == state_json(v),
    }
}


/// The text an instruction reports, given the stored states it runs against.
pub open spec fn instruction_output(st: Seq<(Seq<char>, VectorView)>, i: InstructionView, out: Seq<char>) -> bool {
    let f = i.params;
    let id = param_text(f, "vector_id"@, ""@);
    match i.opcode {
        Opcode::Transfer => {
            let from = param_text(f, "from"@, ""@);
            let to = param_text(f, "to"@, ""@);
            let amount = param_list(f, "amount"@);
            &&& lookup(st, from) matches Some(a)
            &&& lookup(st, to) matches Some(b)
            &&& out == "transfer:"@ + from + "->"@ + to + ":"@ + decimal(sum_u128(debited(a.components, amount)) as nat)
                + "|"@ + decimal(sum_u128(credited(b.components, amount)) as nat)
        },
        Opcode::Certify => lookup(st, id) matches Some(s)
            && out == "certify:"@ + id + ":"@ + decimal(auth_ratio_of(s.components, true, true) as nat),
        Opcode::Query => match lookup(st, id) {
            None => out == "null"@,
            Some(v) => out == state_json(v),
        },
        _ => script_output_fits(i, out),
    }
}

/// How an instruction that succeeds changes the stored states `st` into `after`: the
/// state it writes is the operation's result for the parameters it read, up to the clock
/// readings the operation takes.
pub open spec fn instruction_step(st: Seq<(Seq<char>, VectorView)>, i: InstructionView, after: Seq<(Seq<char>, VectorView)>) -> bool {
    let f = i.params;
    let id = param_text(f, "vector_id"@, ""@);
    match i.opcode {
        Opcode::OriginCreate => {
            let vid = param_text(f, "vector_id"@, "vector"@);
            exists|u: VectorView| #![trigger sorted_insert(st, vid, u)]
                u == origin_state(vid, param_text(f, "owner_pubkey"@, ""@), param_text(f, "space_id"@, "default"@),
                    param_list(f, "components"@), param_text(f, "seed"@, ""@), param_number(f, "nonce"@, 0),
                    param_number(f, "difficulty"@, 1) as u32, u.created_at_ms, u.certification.last_checked_at_ms)
                && after == sorted_insert(st, vid, u)
        },
        Opcode::Transfer => {
            let from = param_text(f, "from"@, ""@);
            let to = param_text(f, "to"@, ""@);
            let amount = param_list(f, "amount"@);
            &&& lookup(st, from) matches Some(a0)
            &&& lookup(st, to) matches Some(b0)
            &&& exists|a: VectorView, b: VectorView| #![trigger crate::checked::transfer_stored(st, from, to, a, b)]
                a == transferred(a0, debited(a0.components, amount), a.certification.last_checked_at_ms)
                && b == transferred(b0, credited(b0.components, amount), b.certification.last_checked_at_ms)
                && after == crate::checked::transfer_stored(st, from, to, a, b)
        },
        Opcode::Drain => {
            let bp = param_number(f, "basis_points"@, 0) as u16;
            &&& lookup(st, id) matches Some(s0)
            &&& exists|u: VectorView| #![trigger sorted_insert(st, id, u)]
                u == drained_state(s0, bp, u.certification.last_checked_at_ms, u.updated_at_ms)
                && after == sorted_insert(st, id, u)
        },
        Opcode::Project => {
            let projected = param_list(f, "projected_components"@);
            let escrow = param_text(f, "escrow_id"@, "escrow"@);
            &&& lookup(st, id) matches Some(s0)
            &&& exists|u: VectorView| #![trigger sorted_insert(st, id, u)]
                u == (VectorView {
                    certification: certification_of(u.components, s0.certification.threshold, true, true,
                        u.certification.last_checked_at_ms),
                    ..projected_view(s0, projected, escrow, u.updated_at_ms)
                })
                && after == sorted_insert(st, id, u)
        },
        Opcode::Reconstruct => {
            let tag = param_text(f, "outcome_tag"@, "settled"@);
            let gains = param_list(f, "gains"@);
            let losses = param_list(f, "losses"@);
            &&& lookup(st, id) matches Some(s0)
            &&& s0.projection matches Some(p)
            &&& exists|u: VectorView, at: u64| #![trigger sorted_insert(st, id, u), reconstructed_view(s0, p, tag, gains, losses, at, u.updated_at_ms)]
                u == (VectorView {
                    certification: certification_of(u.components, s0.certification.threshold, true, true,
                        u.certification.last_checked_at_ms),
                    ..reconstructed_view(s0, p, tag, gains, losses, at, u.updated_at_ms)
                })
                && after == sorted_insert(st, id, u)
        },
        Opcode::Certify => {
            &&& lookup(st, id) matches Some(s0)
            &&& exists|u: VectorView| #![trigger sorted_insert(st, id, u)]
                u == certified_state(s0, u.certification.last_checked_at_ms, u.updated_at_ms)
                && after == sorted_insert(st, id, u)
        },
        Opcode::Query => after == st,
    }
}

/// The refusal an instruction meets, as its error text, where the stored states `st` and
/// its parameters decide one.
pub open spec fn instruction_refusal(st: Seq<(Seq<char>, VectorView)>, i: InstructionView) -> Option<Seq<char>> {
    let f = i.params;
    let id = param_text(f, "vector_id"@, ""@);
    match i.opcode {
        Opcode::OriginCreate => origin_refusal(param_list(f, "components"@), param_text(f, "seed"@, ""@),
            param_number(f, "nonce"@, 0), param_number(f, "difficulty"@, 1) as u32),
        Opcode::Transfer => transfer_refusal(st, param_text(f, "from"@, ""@), param_text(f, "to"@, ""@), param_list(f, "amount"@)),
        Opcode::Drain => drain_refusal(st, id, param_number(f, "basis_points"@, 0) as u16),
        Opcode::Project => project_refusal(st, id, param_list(f, "projected_components"@)),
        Opcode::Reconstruct => reconstruct_refusal(st, id, param_list(f, "gains"@), param_list(f, "losses"@)),
        Opcode::Certify => certify_refusal(st, id),
        Opcode::Query => None,
    }
}

/// The stored states `st` and an instruction's parameters let its events be recorded.
pub open spec fn instruction_ready(st: Seq<(Seq<char>, VectorView)>, i: InstructionView) -> bool {
    let f = i.params;
    let id = param_text(f, "vector_id"@, ""@);
    match i.opcode {
        Opcode::OriginCreate => origin_ready(param_text(f, "vector_id"@, "vector"@), param_text(f, "owner_pubkey"@, ""@),
            param_text(f, "space_id"@, "default"@), param_list(f, "components"@)),
        Opcode::Transfer => transfer_ready(st, param_text(f, "from"@, ""@), param_text(f, "to"@, ""@), param_list(f, "amount"@)),
        Opcode::Drain | Opcode::Project | Opcode::Certify => stored_ready(st, id),
        Opcode::Reconstruct => reconstruct_ready(st, id, param_list(f, "gains"@), param_list(f, "losses"@)),
        Opcode::Query => true,
    }
}

/// Runs one instruction against the engine and reports it as text. Where a sum of
/// components, a component left by a drain or a state version would overflow, the
/// instruction is refused with "arithmetic overflow" before the engine is touched.
pub fn execute_instruction(engine: &mut KernelEngine, ins: &Instruction) -> (r: Result<String, KernelXError>)
    requires old(engine).wf(),
    ensures
        final(engine).wf(),
        final(engine).consensus == old(engine).consensus,
        r matches Ok(out) ==> script_output_fits(ins@, out@),
        r matches Ok(out) ==> instruction_output(old(engine).store.state_entries(), ins@, out@),
        r is Ok ==> instruction_step(old(engine).store.state_entries(), ins@, final(engine).store.state_entries()),
        instruction_refusal(old(engine).store.state_entries(), ins@) matches Some(m) ==>
            (r matches Err(e) && error_text(e) == m && final(engine).store == old(engine).store),
        ins@.opcode is Query ==> r is Ok && *final(engine) == *old(engine),
        instruction_refusal(old(engine).store.state_entries(), ins@) is None
            && instruction_ready(old(engine).store.state_entries(), ins@)
            && log_has_room(old(engine).store.event_log()) ==> r is Ok,
        r is Ok ==> final(engine).store.event_log().len() <= old(engine).store.event_log().len() + 2,
{
    let ghost f = ins@.params;
    match ins.opcode {
        Opcode::OriginCreate => {
            let vector_id = param_str(&ins.params, "vector_id", "vector");
            let owner_pubkey = param_str(&ins.params, "owner_pubkey", "");
            let space_id = param_str(&ins.params, "space_id", "default");
            let components = param_values(&ins.params, "components");
            let seed = param_str(&ins.params, "seed", "");
            let nonce = param_u64(&ins.params, "nonce", 0);
            let difficulty = param_u64(&ins.params, "difficulty", 1) as u32;
            let ghost vid = vector_id@;
            let state = checked_origin_create(engine, vector_id, owner_pubkey, space_id, components, seed, nonce, difficulty)?;
            assert(state.vector_id@ == vid);
            Ok(concat2("origin:", state.vector_id.as_str()))
        }
        Opcode::Transfer => {
            let from_id = param_str(&ins.params, "from", "");
            let to_id = param_str(&ins.params, "to", "");
            let amount = param_values(&ins.params, "amount");
            let ghost st0 = engine.store.state_entries();
            let ghost av = amount@;
            let (a, b) = checked_transfer(engine, from_id.as_str(), to_id.as_str(), amount)?;
            proof {
                if crate::checked::transfer_refusal(st0, from_id@, to_id@, av) is None {
                    let fc = lookup(st0, from_id@)->0.components;
                    assert forall|i: int| 0 <= i < a@.components.len() implies a@.components[i] <= fc[i] by {
                        assert(!(av[i] > fc[i]));
                    }
                    crate::state::lemma_sum_le(a@.components, fc);
                }
            }
            let ma = match checked_sum(&a.components) {
                Some(m) => m,
                None => { return Err(overflow_error()); }
            };
            let mb = match checked_sum(&b.components) {
                Some(m) => m,
                None => { return Err(overflow_error()); }
            };
            let mut out: Vec<char> = Vec::new();
            push_str(&mut out, "transfer:");
            push_str(&mut out, from_id.as_str());
            push_str(&mut out, "->");
            push_str(&mut out, to_id.as_str());
            push_str(&mut out, ":");
            push_decimal(&mut out, ma);
            push_str(&mut out, "|");
            push_decimal(&mut out, mb);
            let text = string_from_chars(out.as_slice());
            assert(text@ == "transfer:"@ + param_text(f, "from"@, ""@) + "->"@ + param_text(f, "to"@, ""@)
                + ":"@ + decimal(ma as nat) + "|"@ + decimal(mb as nat));
            Ok(text)
        }
        Opcode::Drain => {
            let vector_id = param_str(&ins.params, "vector_id", "");
            let basis_points = param_u64(&ins.params, "basis_points", 0) as u16;
            let state = checked_drain(engine, vector_id.as_str(), basis_points)?;
            Ok(concat2("drain:", state.vector_id.as_str()))
        }
        Opcode::Project => {
            let vector_id = param_str(&ins.params, "vector_id", "");
            let projected = param_values(&ins.params, "projected_components");
            let escrow_id = param_str(&ins.params, "escrow_id", "escrow");
            let state = checked_project(engine, vector_id.as_str(), projected, escrow_id)?;
            Ok(concat2("project:", state.vector_id.as_str()))
        }
        Opcode::Reconstruct => {
            let vector_id = param_str(&ins.params, "vector_id", "");
            let gains = param_values(&ins.params, "gains");
            let losses = param_values(&ins.params, "losses");
            let outcome = SettlementOutcome {
                outcome_tag: param_str(&ins.params, "outcome_tag", "settled"),
                gains,
                losses,
            };
            let state = checked_reconstruct(engine, vector_id.as_str(), outcome)?;
            Ok(concat2("reconstruct:", state.vector_id.as_str()))
        }
        Opcode::Certify => {
            let vector_id = param_str(&ins.params, "vector_id", "");
            let state = checked_certify(engine, vector_id.as_str())?;
            let mut out: Vec<char> = Vec::new();
            push_str(&mut out, "certify:");
            push_str(&mut out, state.vector_id.as_str());
            push_str(&mut out, ":");
            push_decimal(&mut out, state.certification.auth_ratio as u128);
            let text = string_from_chars(out.as_slice());
            assert(text@ == "certify:"@ + vector_id@ + ":"@ + decimal(state.certification.auth_ratio as nat));
            Ok(text)
        }
        Opcode::Query => {
            let vector_id = param_str(&ins.params, "vector_id", "");
            match stored_state(engine, vector_id.as_str()) {
                None => Ok(String::from_str("null")),
                Some(s) => Ok(state_to_json(&s)),
            }
        }
    }
}

/// One instruction's report and change of the stored states.
pub open spec fn run_step(st: Seq<(Seq<char>, VectorView)>, i: InstructionView, out: Seq<char>,
    after: Seq<(Seq<char>, VectorView)>) -> bool
{
    instruction_output(st, i, out) && instruction_step(st, i, after)
}

/// A run of instructions from `start` to `end`: each instruction reports and changes the
/// states it finds, in order.
pub open spec fn script_run(start: Seq<(Seq<char>, VectorView)>, is: Seq<InstructionView>, outs: Seq<String>,
    end: Seq<(Seq<char>, VectorView)>) -> bool
{
    exists|trace: Seq<Seq<(Seq<char>, VectorView)>>| #![trigger trace.len()]
        trace.len() == is.len() + 1 && outs.len() == is.len() && trace[0] == start && trace[is.len() as int] == end
        && forall|i: int| 0 <= i < is.len() ==> #[trigger] run_step(trace[i], is[i], outs[i]@, trace[i + 1])
}

/// Every instruction of `is`, run in order from the stored states `st` with an event log of
/// at most `n` events, is accepted where it runs: none is refused, each can be recorded and
/// the log has room, whatever states and reports the earlier instructions left.
pub open spec fn script_accepted(st: Seq<(Seq<char>, VectorView)>, n: nat, is: Seq<InstructionView>) -> bool
    decreases is.len(),
{
    is.len() == 0 || {
        &&& instruction_refusal(st, is[0]) is None
        &&& instruction_ready(st, is[0])
        &&& n + 2 < usize::MAX
        &&& forall|out: Seq<char>, after: Seq<(Seq<char>, VectorView)>| #[trigger] run_step(st, is[0], out, after)
            ==> script_accepted(after, n + 2, is.drop_first())
    }
}

proof fn lemma_script_accepted_shorter_log(st: Seq<(Seq<char>, VectorView)>, n: nat, m: nat, is: Seq<InstructionView>)
    requires script_accepted(st, n, is), m <= n,
    ensures script_accepted(st, m, is),
    decreases is.len(),
{
    if is.len() > 0 {
        assert forall|out: Seq<char>, after: Seq<(Seq<char>, VectorView)>| #[trigger] run_step(st, is[0], out, after)
            implies script_accepted(after, m + 2, is.drop_first()) by {
            lemma_script_accepted_shorter_log(after, n + 2, m + 2, is.drop_first());
        }
    }
}

/// Parses a script and runs its instructions in order, one report per instruction; the
/// first error stops the run.
pub fn execute_script(engine: &mut KernelEngine, script: &str) -> (r: Result<Vec<String>, KernelXError>)
    requires old(engine).wf(),
    ensures
        final(engine).wf(),
        final(engine).consensus == old(engine).consensus,
        script_instructions(script@) matches Err(m) ==>
            (r matches Err(KernelXError::Rejected(e)) && e@ == m && *final(engine) == *old(engine)),
        r matches Ok(outs) ==> script_instructions(script@) matches Ok(is) && outs@.len() == is.len()
            && forall|i: int| 0 <= i < is.len() ==> script_output_fits(is[i], #[trigger] outs@[i]@),
        r matches Ok(outs) ==> script_instructions(script@) matches Ok(is)
            && script_run(old(engine).store.state_entries(), is, outs@, final(engine).store.state_entries()),
        script_instructions(script@) matches Ok(is) ==> (is.len() > 0 ==>
            (instruction_refusal(old(engine).store.state_entries(), is[0]) matches Some(m) ==>
                (r matches Err(e) && error_text(e) == m && final(engine).store == old(engine).store))),
        script_instructions(script@) matches Ok(is) && (forall|i: int| 0 <= i < is.len() ==> (#[trigger] is[i]).opcode is Query)
            ==> r is Ok && *final(engine) == *old(engine),
        script_instructions(script@) matches Ok(is) ==>
            (script_accepted(old(engine).store.state_entries(), old(engine).store.event_log().len(), is) ==> r is Ok),
{
    let instructions = parse_script(script)?;
    let ghost is = instruction_views(instructions@);
    let mut results: Vec<String> = Vec::new();
    let mut k: usize = 0;
    let ghost mut trace: Seq<Seq<(Seq<char>, VectorView)>> = seq![engine.store.state_entries()];
    let ghost n0: nat = engine.store.event_log().len();
    let ghost acc = script_accepted(engine.store.state_entries(), n0, is);
    assert(is.skip(0) =~= is);
    while k < instructions.len()
        invariant
            k <= instructions.len(), engine.wf(), engine.consensus == old(engine).consensus,
            is == instruction_views(instructions@), script_instructions(script@) == Ok::<Seq<InstructionView>, Seq<char>>(is),
            results@.len() == k,
            forall|i: int| 0 <= i < k ==> script_output_fits(is[i], #[trigger] results@[i]@),
            trace.len() == k + 1, trace[0] == old(engine).store.state_entries(),
            trace[k as int] == engine.store.state_entries(),
            forall|i: int| 0 <= i < k ==> #[trigger] run_step(trace[i], is[i], results@[i]@, trace[i + 1]),
            k > 0 ==> instruction_refusal(old(engine).store.state_entries(), is[0]) is None,
            k == 0 ==> *engine == *old(engine),
            (forall|i: int| 0 <= i < is.len() ==> (#[trigger] is[i]).opcode is Query) ==> *engine == *old(engine),
            n0 == old(engine).store.event_log().len(),
            acc == script_accepted(old(engine).store.state_entries(), n0, is),
            engine.store.event_log().len() <= n0 + 2 * k,
            acc ==> script_accepted(engine.store.state_entries(), (n0 + 2 * k) as nat, is.skip(k as int)),
        decreases instructions.len() - k,
    {
        let ghost before = engine.store.state_entries();
        assert(is[k as int] == instructions@[k as int]@);
        proof {
            if acc {
                assert(is.skip(k as int)[0] == is[k as int]);
                lemma_script_accepted_shorter_log(before, (n0 + 2 * k) as nat, engine.store.event_log().len(), is.skip(k as int));
            }
        }
        let out = match execute_instruction(engine, &instructions[k]) {
            Ok(o) => o,
            Err(e) => { return Err(e); }
        };
        proof {
            assert(is[k as int] == instructions@[k as int]@);
            assert(run_step(before, is[k as int], out@, engine.store.state_entries()));
            if acc {
                assert(is.skip(k as int).drop_first() =~= is.skip(k + 1));
                assert(run_step(before, is.skip(k as int)[0], out@, engine.store.state_entries()));
            }
            trace = trace.push(engine.store.state_entries());
        }
        results.push(out);
        k += 1;
    }
    assert(trace.len() == is.len() + 1);
    Ok(results)
}

/// The word a script writes for an operation.
pub open spec fn opcode_word(op: Opcode) -> Seq<char> {
    match op {
        Opcode::OriginCreate => "ORIGIN_CREATE"@,
        Opcode::Transfer => "TRANSFER"@,
        Opcode::Drain => "DRAIN"@,
        Opcode::Project => "PROJECT"@,
        Opcode::Reconstruct => "RECONSTRUCT"@,
        Opcode::Certify => "CERTIFY"@,
        Opcode::Query => "QUERY"@,
    }
}

/// Each operation's word names that operation (and `ORIGIN` names an origin creation too),
/// and a word that names an operation is one of these.
pub proof fn lemma_opcode_words(op: Opcode, word: Seq<char>)
    ensures
        opcode_named(opcode_word(op)) == Some(op),
        opcode_named("ORIGIN"@) == Some(Opcode::OriginCreate),
        opcode_named(word) == Some(op) ==> word == opcode_word(op) || (op == Opcode::OriginCreate && word == "ORIGIN"@),
{
    reveal_strlit("ORIGIN");
    reveal_strlit("ORIGIN_CREATE");
    reveal_strlit("TRANSFER");
    reveal_strlit("DRAIN");
    reveal_strlit("PROJECT");
    reveal_strlit("RECONSTRUCT");
    reveal_strlit("CERTIFY");
    reveal_strlit("QUERY");
    let words = seq!["ORIGIN"@, "ORIGIN_CREATE"@, "TRANSFER"@, "DRAIN"@, "PROJECT"@, "RECONSTRUCT"@, "CERTIFY"@, "QUERY"@];
    assert forall|a: int, b: int| 0 <= a < b < 8 implies #[trigger] words[a] != #[trigger] words[b] by {
        if words[a].len() == words[b].len() {
            assert(words[a][0] != words[b][0]);
        }
    }
    assert(words[0] == "ORIGIN"@ && words[1] == "ORIGIN_CREATE"@ && words[2] == "TRANSFER"@ && words[3] == "DRAIN"@);
    assert(words[4] == "PROJECT"@ && words[5] == "RECONSTRUCT"@ && words[6] == "CERTIFY"@ && words[7] == "QUERY"@);
}

} // verus!
