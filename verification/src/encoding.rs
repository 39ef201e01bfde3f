use vstd::prelude::*;

verus! {

/// The `width` lowest bytes of `n`, most significant first.
pub open spec fn be_bytes(n: nat, width: nat) -> Seq<u8>
    decreases width,
{
    if width == 0 {
        Seq::empty()
    } else {
        be_bytes(n / 256, (width - 1) as nat).push((n % 256) as u8)
    }
}

/// The `width` lowest bytes of `n`, least significant first.
pub open spec fn le_bytes(n: nat, width: nat) -> Seq<u8>
    decreases width,
{
    if width == 0 {
        Seq::empty()
    } else {
        seq![(n % 256) as u8] + le_bytes(n / 256, (width - 1) as nat)
    }
}

proof fn lemma_be_len(n: nat, width: nat)
    ensures be_bytes(n, width).len() == width,
    decreases width,
{
    if width > 0 { lemma_be_len(n / 256, (width - 1) as nat); }
}

/// Appends the big-endian bytes of a `u128` truncated to `width` bytes.
fn push_be(buf: &mut Vec<u8>, v: u128, width: usize)
    requires width <= 16,
    ensures final(buf)@ == old(buf)@ + be_bytes(v as nat, width as nat),
    decreases width,
{
    if width > 0 {
        push_be(buf, v / 256, width - 1);
        buf.push((v % 256) as u8);
        assert(final(buf)@ =~= old(buf)@ + be_bytes(v as nat, width as nat));
    } else {
        assert(buf@ =~= old(buf)@ + be_bytes(v as nat, 0));
    }
}

/// Appends a `u64` as 8 big-endian bytes (`u64::to_be_bytes`).
pub fn push_u64_be(buf: &mut Vec<u8>, v: u64)
    ensures final(buf)@ == old(buf)@ + be_bytes(v as nat, 8),
{
    push_be(buf, v as u128, 8);
}

/// Appends a `u128` as 16 big-endian bytes (`u128::to_be_bytes`).
pub fn push_u128_be(buf: &mut Vec<u8>, v: u128)
    ensures final(buf)@ == old(buf)@ + be_bytes(v as nat, 16),
{
    push_be(buf, v, 16);
}

/// Appends a `u64` as 8 little-endian bytes (`u64::to_le_bytes`).
pub fn push_u64_le(buf: &mut Vec<u8>, v: u64)
    ensures final(buf)@ == old(buf)@ + le_bytes(v as nat, 8),
{
    let mut x: u64 = v;
    let mut i: usize = 0;
    let ghost start = buf@;
    while i < 8
        invariant
            i <= 8,
            start + le_bytes(v as nat, 8) == buf@ + le_bytes(x as nat, (8 - i) as nat),
        decreases 8 - i,
    {
        proof {
            assert(le_bytes(x as nat, (8 - i) as nat) =~= seq![(x % 256) as u8] + le_bytes((x / 256) as nat, (8 - i - 1) as nat));
        }
        buf.push((x % 256) as u8);
        x = x / 256;
        i += 1;
        assert(start + le_bytes(v as nat, 8) =~= buf@ + le_bytes(x as nat, (8 - i) as nat));
    }
    assert(le_bytes(x as nat, 0) =~= Seq::<u8>::empty());
    assert(buf@ =~= start + le_bytes(v as nat, 8));
}

/// Appends all bytes of a slice.
pub fn push_bytes(buf: &mut Vec<u8>, bytes: &[u8])
    ensures final(buf)@ == old(buf)@ + bytes@,
{
    let mut i: usize = 0;
    let ghost start = buf@;
    while i < bytes.len()
        invariant i <= bytes.len(), buf@ == start + bytes@.take(i as int),
        decreases bytes.len() - i,
    {
        buf.push(bytes[i]);
        i += 1;
        assert(buf@ =~= start + bytes@.take(i as int));
    }
    assert(bytes@.take(bytes@.len() as int) =~= bytes@);
}

/// The lowercase hex digit of a value below sixteen.
pub open spec fn hex_digit(n: nat) -> char {
    if n < 10 { (48 + n) as char } else { (87 + n) as char }
}

/// Every character is a lowercase hexadecimal digit.
pub open spec fn is_lower_hex(s: Seq<char>) -> bool {
    forall|i: int| 0 <= i < s.len() ==> {
        let c = #[trigger] s[i] as u32;
        (48 <= c <= 57) || (97 <= c <= 102)
    }
}

/// Lowercase hexadecimal encoding, two digits per byte.
pub open spec fn hex_lower(b: Seq<u8>) -> Seq<char>
    decreases b.len(),
{
    if b.len() == 0 {
        Seq::empty()
    } else {
        hex_lower(b.drop_last()) + seq![hex_digit((b.last() / 16) as nat), hex_digit((b.last() % 16) as nat)]
    }
}

pub proof fn lemma_hex_lower_len(b: Seq<u8>)
    ensures hex_lower(b).len() == 2 * b.len(),
    decreases b.len(),
{
    if b.len() > 0 { lemma_hex_lower_len(b.drop_last()); }
}

/// The lowercase hex digit of a value below sixteen.
pub fn hex_digit_char(n: u8) -> (c: char)
    requires n < 16,
    ensures c == hex_digit(n as nat),
{
    if n < 10 { (48 + n) as char } else { (87 + n) as char }
}

/// Appends the lowercase hex encoding of the bytes (as `hex::encode` writes it).
pub fn push_hex(out: &mut Vec<char>, bytes: &[u8])
    ensures final(out)@ == old(out)@ + hex_lower(bytes@),
{
    let mut i: usize = 0;
    let ghost start = out@;
    assert(bytes@.take(0) =~= Seq::<u8>::empty());
    while i < bytes.len()
        invariant i <= bytes.len(), out@ == start + hex_lower(bytes@.take(i as int)),
        decreases bytes.len() - i,
    {
        let b = bytes[i];
        out.push(hex_digit_char(b / 16));
        out.push(hex_digit_char(b % 16));
        i += 1;
        assert(bytes@.take(i as int).drop_last() =~= bytes@.take(i - 1));
        assert(out@ =~= start + hex_lower(bytes@.take(i as int)));
    }
    assert(bytes@.take(bytes@.len() as int) =~= bytes@);
}

} // verus!
