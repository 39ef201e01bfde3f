use vstd::prelude::*;
use vstd::string::StringSliceAdditionalSpecFns;

verus! {

/// Result of a three-way comparison.
#[derive(Debug, Clone, Copy, PartialEq, Eq, Structural)]
pub enum Order {
    Less,
    Equal,
    Greater,
}

/// Lexicographic three-way comparison of byte strings: -1, 0 or 1.
pub open spec fn bytes_order(a: Seq<u8>, b: Seq<u8>) -> int
    decreases a.len(),
{
    if a.len() == 0 {
        if b.len() == 0 { 0 } else { -1 }
    } else if b.len() == 0 {
        1
    } else if a[0] < b[0] {
        -1
    } else if a[0] > b[0] {
        1
    } else {
        bytes_order(a.drop_first(), b.drop_first())
    }
}

pub open spec fn order_of(c: int) -> Order {
    if c < 0 { Order::Less } else if c == 0 { Order::Equal } else { Order::Greater }
}

pub proof fn lemma_bytes_order_range(a: Seq<u8>, b: Seq<u8>)
    ensures -1 <= bytes_order(a, b) <= 1,
    decreases a.len(),
{
    if a.len() > 0 && b.len() > 0 && a[0] == b[0] {
        lemma_bytes_order_range(a.drop_first(), b.drop_first());
    }
}

pub proof fn lemma_bytes_order_eq(a: Seq<u8>, b: Seq<u8>)
    ensures (bytes_order(a, b) == 0) == (a == b),
    decreases a.len(),
{
    if a.len() > 0 && b.len() > 0 && a[0] == b[0] {
        lemma_bytes_order_eq(a.drop_first(), b.drop_first());
        if a.drop_first() == b.drop_first() {
            assert(a =~= seq![a[0]] + a.drop_first());
            assert(b =~= seq![b[0]] + b.drop_first());
        }
        if a == b {
            assert(a.drop_first() =~= b.drop_first());
        }
    } else if a.len() == 0 && b.len() == 0 {
        assert(a =~= b);
    }
}

pub proof fn lemma_bytes_order_antisym(a: Seq<u8>, b: Seq<u8>)
    ensures bytes_order(a, b) == -bytes_order(b, a),
    decreases a.len(),
{
    if a.len() > 0 && b.len() > 0 && a[0] == b[0] {
        lemma_bytes_order_antisym(a.drop_first(), b.drop_first());
    }
}

pub proof fn lemma_bytes_order_trans(a: Seq<u8>, b: Seq<u8>, c: Seq<u8>)
    requires bytes_order(a, b) <= 0, bytes_order(b, c) <= 0,
    ensures bytes_order(a, c) <= 0, (bytes_order(a, b) < 0 || bytes_order(b, c) < 0) ==> bytes_order(a, c) < 0,
    decreases a.len(),
{
    if a.len() > 0 && b.len() > 0 && c.len() > 0 && a[0] == b[0] && b[0] == c[0] {
        lemma_bytes_order_trans(a.drop_first(), b.drop_first(), c.drop_first());
    }
}

/// Compares two byte slices lexicographically.
pub fn compare_bytes(a: &[u8], b: &[u8]) -> (r: Order)
    ensures r == order_of(bytes_order(a@, b@)),
{
    let mut i: usize = 0;
    assert(a@.skip(0) =~= a@);
    assert(b@.skip(0) =~= b@);
    while i < a.len() && i < b.len()
        invariant
            i <= a.len(), i <= b.len(),
            bytes_order(a@, b@) == bytes_order(a@.skip(i as int), b@.skip(i as int)),
        decreases a.len() - i,
    {
        assert(a@.skip(i as int).drop_first() =~= a@.skip(i + 1));
        assert(b@.skip(i as int).drop_first() =~= b@.skip(i + 1));
        if a[i] < b[i] {
            return Order::Less;
        } else if a[i] > b[i] {
            return Order::Greater;
        }
        i += 1;
    }
    if i == a.len() {
        if i == b.len() { Order::Equal } else { Order::Less }
    } else {
        Order::Greater
    }
}

/// Compares two strings by their UTF-8 bytes (the order of `str::cmp`).
pub fn compare_str(a: &str, b: &str) -> (r: Order)
    ensures r == order_of(bytes_order(a.spec_bytes(), b.spec_bytes())),
{
    compare_bytes(a.as_bytes(), b.as_bytes())
}


/// The ASCII digit of a value below ten.
pub open spec fn digit_char(d: nat) -> char {
    (48 + d) as char
}

/// Decimal representation of a natural number, as `to_string` writes it.
pub open spec fn decimal(n: nat) -> Seq<char>
    decreases n,
{
    if n < 10 {
        seq![digit_char(n)]
    } else {
        decimal(n / 10).push(digit_char(n % 10))
    }
}

/// Builds a `String` from characters (std `FromIterator<char>`).
#[verifier::external_body]
pub(crate) fn string_from_chars(chars: &[char]) -> (s: String)
    ensures s@ == chars@,
{
    chars.iter().collect()
}

/// The characters of a string (std `str::chars`).
#[verifier::external_body]
pub(crate) fn chars_of(s: &str) -> (v: Vec<char>)
    ensures v@ == s@,
{
    s.chars().collect()
}

/// Appends the decimal digits of `n`.
pub fn push_decimal(out: &mut Vec<char>, n: u128)
    ensures final(out)@ == old(out)@ + decimal(n as nat),
    decreases n,
{
    if n >= 10 {
        push_decimal(out, n / 10);
    }
    let d = n % 10;
    let c: char = if d == 0 { '0' } else if d == 1 { '1' } else if d == 2 { '2' } else if d == 3 { '3' }
        else if d == 4 { '4' } else if d == 5 { '5' } else if d == 6 { '6' } else if d == 7 { '7' }
        else if d == 8 { '8' } else { '9' };
    proof {
        if n >= 10 {
            assert(old(out)@ + decimal(n as nat) =~= old(out)@ + decimal((n / 10) as nat) + seq![c]);
        } else {
            assert(old(out)@ + decimal(n as nat) =~= old(out)@ + seq![c]);
        }
    }
    out.push(c);
}

/// Appends the characters of a string.
pub fn push_str(out: &mut Vec<char>, s: &str)
    ensures final(out)@ == old(out)@ + s@,
{
    let cs = chars_of(s);
    let mut i: usize = 0;
    let ghost start = out@;
    while i < cs.len()
        invariant i <= cs.len(), out@ == start + cs@.take(i as int),
        decreases cs.len() - i,
    {
        out.push(cs[i]);
        i += 1;
        assert(out@ =~= start + cs@.take(i as int));
    }
    assert(cs@.take(cs.len() as int) =~= cs@);
}

/// The decimal representation of a number as a `String`.
pub fn decimal_string(n: u128) -> (s: String)
    ensures s@ == decimal(n as nat),
{
    let mut v: Vec<char> = Vec::new();
    push_decimal(&mut v, n);
    assert(v@ =~= decimal(n as nat));
    string_from_chars(v.as_slice())
}


/// Unicode `White_Space`, the set `char::is_whitespace` and `str::trim` use.
pub open spec fn is_whitespace(c: char) -> bool {
    let u = c as u32;
    (0x09 <= u <= 0x0d) || u == 0x20 || u == 0x85 || u == 0xa0 || u == 0x1680
        || (0x2000 <= u <= 0x200a) || u == 0x2028 || u == 0x2029 || u == 0x202f || u == 0x205f || u == 0x3000
}

/// Whether a character is Unicode white space.
pub fn is_whitespace_char(c: char) -> (r: bool)
    ensures r == is_whitespace(c),
{
    let u = c as u32;
    (0x09 <= u && u <= 0x0d) || u == 0x20 || u == 0x85 || u == 0xa0 || u == 0x1680
        || (0x2000 <= u && u <= 0x200a) || u == 0x2028 || u == 0x2029 || u == 0x202f || u == 0x205f || u == 0x3000
}

/// Number of leading white-space characters.
pub open spec fn leading_ws(s: Seq<char>) -> nat
    decreases s.len(),
{
    if s.len() == 0 || !is_whitespace(s[0]) { 0 } else { 1 + leading_ws(s.drop_first()) }
}

/// Number of trailing white-space characters.
pub open spec fn trailing_ws(s: Seq<char>) -> nat
    decreases s.len(),
{
    if s.len() == 0 || !is_whitespace(s.last()) { 0 } else { 1 + trailing_ws(s.drop_last()) }
}

/// A string with leading and trailing white space removed (`str::trim`).
pub open spec fn trimmed(s: Seq<char>) -> Seq<char> {
    let a = s.skip(leading_ws(s) as int);
    a.take(a.len() - trailing_ws(a))
}

proof fn lemma_leading_ws_le(s: Seq<char>)
    ensures leading_ws(s) <= s.len(),
    decreases s.len(),
{
    if s.len() > 0 && is_whitespace(s[0]) { lemma_leading_ws_le(s.drop_first()); }
}

proof fn lemma_trailing_ws_le(s: Seq<char>)
    ensures trailing_ws(s) <= s.len(),
    decreases s.len(),
{
    if s.len() > 0 && is_whitespace(s.last()) { lemma_trailing_ws_le(s.drop_last()); }
}

/// The characters of a string with leading and trailing white space removed.
pub fn trim_chars(s: &str) -> (r: Vec<char>)
    ensures r@ == trimmed(s@),
{
    let cs = chars_of(s);
    let mut start: usize = 0;
    proof { assert(cs@.skip(0) =~= cs@); lemma_leading_ws_le(cs@); }
    while start < cs.len() && is_whitespace_char(cs[start])
        invariant start <= cs.len(), leading_ws(cs@) == start + leading_ws(cs@.skip(start as int)),
        decreases cs.len() - start,
    {
        assert(cs@.skip(start as int).drop_first() =~= cs@.skip(start + 1));
        start += 1;
    }
    let ghost a = cs@.skip(start as int);
    let mut end: usize = cs.len();
    proof { assert(a.take(a.len() as int) =~= a); lemma_trailing_ws_le(a); }
    while end > start && is_whitespace_char(cs[end - 1])
        invariant start <= end <= cs.len(), a == cs@.skip(start as int),
            trailing_ws(a) == (cs.len() - end) + trailing_ws(a.take(end - start)),
        decreases end - start,
    {
        assert(a.take(end - start).drop_last() =~= a.take(end - start - 1));
        end -= 1;
    }
    let mut out: Vec<char> = Vec::new();
    let mut i: usize = start;
    while i < end
        invariant start <= i <= end, end <= cs.len(), out@ =~= cs@.subrange(start as int, i as int),
        decreases end - i,
    {
        out.push(cs[i]);
        i += 1;
    }
    assert(out@ =~= trimmed(s@));
    out
}

/// Whether a string is empty or white space only (`s.trim().is_empty()`).
pub fn is_blank(s: &str) -> (r: bool)
    ensures r == (trimmed(s@).len() == 0),
{
    let t = trim_chars(s);
    t.len() == 0
}

/// The concatenation of two strings.
pub fn concat2(a: &str, b: &str) -> (r: String)
    ensures r@ == a@ + b@,
{
    let mut v: Vec<char> = Vec::new();
    push_str(&mut v, a);
    push_str(&mut v, b);
    assert(v@ =~= a@ + b@);
    string_from_chars(v.as_slice())
}

/// The concatenation of four strings.
pub fn concat4(a: &str, b: &str, c: &str, d: &str) -> (r: String)
    ensures r@ == a@ + b@ + c@ + d@,
{
    let mut v: Vec<char> = Vec::new();
    push_str(&mut v, a);
    push_str(&mut v, b);
    push_str(&mut v, c);
    push_str(&mut v, d);
    assert(v@ =~= a@ + b@ + c@ + d@);
    string_from_chars(v.as_slice())
}

/// ASCII lower case of one character (`char::to_ascii_lowercase`).
pub open spec fn ascii_lower(c: char) -> char {
    if 'A' <= c && c <= 'Z' { ((c as u8) + 32) as char } else { c }
}

/// ASCII upper case of one character (`char::to_ascii_uppercase`).
pub open spec fn ascii_upper(c: char) -> char {
    if 'a' <= c && c <= 'z' { ((c as u8) - 32) as char } else { c }
}

pub open spec fn lower_text(s: Seq<char>) -> Seq<char> {
    s.map_values(|c: char| ascii_lower(c))
}

pub open spec fn upper_text(s: Seq<char>) -> Seq<char> {
    s.map_values(|c: char| ascii_upper(c))
}

/// `s.trim().to_ascii_lowercase()`.
pub fn trim_lower(s: &str) -> (r: String)
    ensures r@ == lower_text(trimmed(s@)),
{
    let t = trim_chars(s);
    let mut out: Vec<char> = Vec::new();
    let mut i: usize = 0;
    while i < t.len()
        invariant i <= t.len(), out@ =~= lower_text(t@.take(i as int)),
        decreases t.len() - i,
    {
        let c = t[i];
        let l = if 'A' <= c && c <= 'Z' { ((c as u8) + 32) as char } else { c };
        out.push(l);
        i += 1;
        assert(out@ =~= lower_text(t@.take(i as int)));
    }
    assert(t@.take(t.len() as int) =~= t@);
    string_from_chars(out.as_slice())
}

/// `s.trim().to_ascii_uppercase()`.
pub fn trim_upper(s: &str) -> (r: String)
    ensures r@ == upper_text(trimmed(s@)),
{
    let t = trim_chars(s);
    let mut out: Vec<char> = Vec::new();
    let mut i: usize = 0;
    while i < t.len()
        invariant i <= t.len(), out@ =~= upper_text(t@.take(i as int)),
        decreases t.len() - i,
    {
        let c = t[i];
        let u = if 'a' <= c && c <= 'z' { ((c as u8) - 32) as char } else { c };
        out.push(u);
        i += 1;
        assert(out@ =~= upper_text(t@.take(i as int)));
    }
    assert(t@.take(t.len() as int) =~= t@);
    string_from_chars(out.as_slice())
}

/// The text after `prefix`, when `s` starts with it (`str::strip_prefix`).
pub open spec fn strip_text(s: Seq<char>, prefix: Seq<char>) -> Option<Seq<char>> {
    if prefix.len() <= s.len() && s.take(prefix.len() as int) == prefix { Some(s.skip(prefix.len() as int)) } else { None }
}

/// Removes a prefix from a string, when it is there.
pub fn strip_prefix_text(s: &str, prefix: &str) -> (r: Option<String>)
    ensures match r { Some(t) => strip_text(s@, prefix@) == Some(t@), None => strip_text(s@, prefix@) is None },
{
    let cs = chars_of(s);
    let ps = chars_of(prefix);
    if ps.len() > cs.len() {
        return None;
    }
    let mut i: usize = 0;
    while i < ps.len()
        invariant i <= ps.len(), ps.len() <= cs.len(), cs@ == s@, ps@ == prefix@, forall|j: int| 0 <= j < i ==> cs@[j] == ps@[j],
        decreases ps.len() - i,
    {
        if cs[i] != ps[i] {
            assert(cs@.take(ps.len() as int)[i as int] != ps@[i as int]);
            return None;
        }
        i += 1;
    }
    assert(cs@.take(ps.len() as int) =~= ps@);
    let mut out: Vec<char> = Vec::new();
    let mut k: usize = ps.len();
    while k < cs.len()
        invariant ps.len() <= k <= cs.len(), out@ =~= cs@.subrange(ps.len() as int, k as int),
        decreases cs.len() - k,
    {
        out.push(cs[k]);
        k += 1;
    }
    assert(out@ =~= cs@.skip(ps.len() as int));
    Some(string_from_chars(out.as_slice()))
}

/// Why `str::parse::<u64>` rejected a text.
#[derive(Debug, Clone, Copy, PartialEq, Eq, Structural)]
pub enum ParseProblem {
    Empty,
    InvalidDigit,
    PosOverflow,
}

/// The message std prints for a rejected integer text.
pub open spec fn parse_problem_text(p: ParseProblem) -> Seq<char> {
    match p {
        ParseProblem::Empty => "cannot parse integer from empty string"@,
        ParseProblem::InvalidDigit => "invalid digit found in string"@,
        ParseProblem::PosOverflow => "number too large to fit in target type"@,
    }
}

pub open spec fn is_digit(c: char) -> bool {
    '0' <= c && c <= '9'
}

/// Reads decimal digits left to right from value `acc`: the first non-digit is an
/// invalid digit, the first step past `u64::MAX` an overflow.
pub open spec fn parse_digits(d: Seq<char>, acc: nat) -> Result<nat, ParseProblem>
    decreases d.len(),
{
    if d.len() == 0 {
        Ok(acc)
    } else if !is_digit(d[0]) {
        Err(ParseProblem::InvalidDigit)
    } else if acc * 10 + ((d[0] as u32) - 48) > u64::MAX {
        Err(ParseProblem::PosOverflow)
    } else {
        parse_digits(d.drop_first(), (acc * 10 + ((d[0] as u32) - 48)) as nat)
    }
}

/// `str::parse::<u64>`: optional `+`, then at least one decimal digit, within range.
pub open spec fn parse_u64_text(s: Seq<char>) -> Result<u64, ParseProblem> {
    if s.len() == 0 {
        Err(ParseProblem::Empty)
    } else {
        let d = if s[0] == '+' { s.drop_first() } else { s };
        if d.len() == 0 {
            Err(ParseProblem::InvalidDigit)
        } else {
            match parse_digits(d, 0) {
                Ok(n) => Ok(n as u64),
                Err(p) => Err(p),
            }
        }
    }
}

proof fn lemma_parse_digits_bound(d: Seq<char>, acc: nat)
    ensures parse_digits(d, acc) matches Ok(n) ==> n <= u64::MAX || (d.len() == 0 && n == acc),
    decreases d.len(),
{
    if d.len() > 0 && is_digit(d[0]) && acc * 10 + ((d[0] as u32) - 48) <= u64::MAX {
        lemma_parse_digits_bound(d.drop_first(), (acc * 10 + ((d[0] as u32) - 48)) as nat);
    }
}

/// Parses a decimal `u64` as `str::parse::<u64>` does.
pub fn parse_u64(s: &str) -> (r: Result<u64, ParseProblem>)
    ensures r == parse_u64_text(s@),
{
    let cs = chars_of(s);
    if cs.len() == 0 {
        return Err(ParseProblem::Empty);
    }
    let start: usize = if cs[0] == '+' { 1 } else { 0 };
    let ghost d = if cs@[0] == '+' { cs@.drop_first() } else { cs@ };
    assert(d =~= cs@.skip(start as int));
    if start == cs.len() {
        return Err(ParseProblem::InvalidDigit);
    }
    let mut acc: u64 = 0;
    let mut i: usize = start;
    assert(cs@.skip(i as int) =~= d);
    while i < cs.len()
        invariant
            start <= i <= cs.len(), d == cs@.skip(start as int), cs@ == s@, cs@.len() > 0, start < cs@.len(),
            d == (if cs@[0] == '+' { cs@.drop_first() } else { cs@ }),
            parse_digits(d, 0) == parse_digits(cs@.skip(i as int), acc as nat),
        decreases cs.len() - i,
    {
        let c = cs[i];
        assert(cs@.skip(i as int)[0] == c);
        assert(cs@.skip(i as int).drop_first() =~= cs@.skip(i + 1));
        if !('0' <= c && c <= '9') {
            return Err(ParseProblem::InvalidDigit);
        }
        let digit = (c as u32 - 48) as u64;
        if acc > 1844674407370955161 || (acc == 1844674407370955161 && digit > 5) {
            assert(acc * 10 + digit > u64::MAX) by (nonlinear_arith)
                requires acc > 1844674407370955161 || (acc == 1844674407370955161 && digit > 5);
            return Err(ParseProblem::PosOverflow);
        }
        assert(acc * 10 + digit <= u64::MAX) by (nonlinear_arith)
            requires !(acc > 1844674407370955161 || (acc == 1844674407370955161 && digit > 5)), digit <= 9;
        acc = acc * 10 + digit;
        i += 1;
    }
    proof { lemma_parse_digits_bound(cs@.skip(i as int), acc as nat); }
    Ok(acc)
}

} // verus!
