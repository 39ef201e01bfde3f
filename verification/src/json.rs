use vstd::prelude::*;
use crate::strmap::StringMap;
use crate::encoding::hex_digit;

verus! {

/// How JSON text writes one character of a string: the quote and the backslash behind a
/// backslash, backspace, tab, line feed, form feed and carriage return as `\b` `\t` `\n`
/// `\f` `\r`, the other ASCII control characters as `\u00` and two lowercase hex digits,
/// and every other character as it is.
pub open spec fn json_char_escape(c: char) -> Seq<char> {
    let u = c as u32;
    if c == '"' {
        seq!['\\', '"']
    } else if c == '\\' {
        seq!['\\', '\\']
    } else if u == 8 {
        seq!['\\', 'b']
    } else if u == 9 {
        seq!['\\', 't']
    } else if u == 10 {
        seq!['\\', 'n']
    } else if u == 12 {
        seq!['\\', 'f']
    } else if u == 13 {
        seq!['\\', 'r']
    } else if u < 32 {
        seq!['\\', 'u', '0', '0', hex_digit((u / 16) as nat), hex_digit((u % 16) as nat)]
    } else {
        seq![c]
    }
}

/// The characters of a string, each written as JSON text writes it.
pub open spec fn json_escaped(s: Seq<char>) -> Seq<char>
    decreases s.len(),
{
    if s.len() == 0 { Seq::empty() } else { json_escaped(s.drop_last()) + json_char_escape(s.last()) }
}

/// The JSON text of a string: the escaped string between quotes.
pub open spec fn json_str_text(s: Seq<char>) -> Seq<char> {
    seq!['"'] + json_escaped(s) + seq!['"']
}

/// The first `n` entries of a map as JSON members, separated by commas.
pub open spec fn json_members(m: Seq<(Seq<char>, Seq<char>)>, n: nat) -> Seq<char>
    decreases n,
{
    if n == 0 {
        Seq::empty()
    } else {
        json_members(m, (n - 1) as nat) + (if n > 1 { seq![','] } else { Seq::empty() })
            + json_str_text(m[n - 1].0) + seq![':'] + json_str_text(m[n - 1].1)
    }
}

/// The compact JSON text of a map of strings to strings, its entries in order.
pub open spec fn json_map_text(m: Seq<(Seq<char>, Seq<char>)>) -> Seq<char> {
    seq!['{'] + json_members(m, m.len()) + seq!['}']
}

#[verifier::external_type_specification]
#[verifier::external_body]
pub struct ExJsonError(serde_json::Error);

/// Calls `serde_json::to_string` on the map's entries (keys and values as strings, in
/// key order, as the map keeps them). The contract claims success, as serde_json documents
/// that serialization fails only for a failing `Serialize` impl or a map with non-string
/// keys, and claims the compact text: `{`, the members `"key":"value"` separated by commas,
/// `}`, each string escaped as serde_json's escape table does.
#[verifier::external_body]
pub(crate) fn json_of_map(m: &StringMap) -> (r: Result<String, serde_json::Error>)
    requires m.wf(),
    ensures r is Ok, r->Ok_0@ == json_map_text(m@),
{
    let map: std::collections::BTreeMap<&str, &str> = m.entries.iter().map(|e| (e.0.as_str(), e.1.as_str())).collect();
    serde_json::to_string(&map)
}

/// Calls `serde_json::to_string` on a string. The contract claims success (a string
/// has an infallible `Serialize` impl) and that the text is the quoted string, escaped as
/// serde_json's escape table does.
#[verifier::external_body]
pub(crate) fn json_of_str(s: &str) -> (r: Result<String, serde_json::Error>)
    ensures r is Ok, r->Ok_0@ == json_str_text(s@),
{
    serde_json::to_string(s)
}

/// The JSON text of a string.
pub fn json_str(s: &str) -> (r: String)
    ensures r@ == json_str_text(s@),
{
    match json_of_str(s) {
        Ok(t) => t,
        Err(_) => String::new(),
    }
}

/// The JSON text of a map of strings.
pub fn json_map(m: &StringMap) -> (r: String)
    requires m.wf(),
    ensures r@ == json_map_text(m@),
{
    match json_of_map(m) {
        Ok(t) => t,
        Err(_) => String::new(),
    }
}

} // verus!
