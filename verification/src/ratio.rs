use vstd::prelude::*;

verus! {

pub open spec fn two_pow(k: nat) -> nat
    decreases k,
{
    if k == 0 { 1 } else { 2 * two_pow((k - 1) as nat) }
}

/// `2^52 * 1000`: the scaled ratio of a normal binary64 significand starts here.
pub open spec fn scale_floor() -> nat {
    4503599627370496000
}

/// `n * 2^k` lies in `[2^52 * 1000, 2^53 * 1000)`: at scale `k` the quotient by 1000 is a
/// 53-bit significand.
pub open spec fn is_scale(n: nat, k: nat) -> bool {
    scale_floor() <= n * two_pow(k) < 2 * scale_floor()
}

/// The significand `n * 2^k / 1000` rounded to nearest, ties to even.
pub open spec fn rounded(n: nat, k: nat) -> nat {
    let q = n * two_pow(k) / 1000;
    let r = n * two_pow(k) % 1000;
    if 2 * r > 1000 || (2 * r == 1000 && q % 2 == 1) { q + 1 } else { q }
}

/// The bit pattern of the binary64 nearest to `n / 1000` (ties to even): what
/// `(n as f64 / 1000.0).to_bits()` gives.
pub open spec fn ratio_bits(n: u16) -> u64 {
    if n == 0 {
        0
    } else {
        let k = choose|k: nat| is_scale(n as nat, k);
        let m = rounded(n as nat, k);
        if m == 9007199254740992 {
            ((1076 - k) * 4503599627370496) as u64
        } else {
            ((1075 - k) * 4503599627370496 + (m - 4503599627370496)) as u64
        }
    }
}

proof fn lemma_two_pow_grows(a: nat, b: nat)
    requires a < b,
    ensures two_pow(b) >= 2 * two_pow(a),
    decreases b,
{
    if b > a + 1 { lemma_two_pow_grows(a, (b - 1) as nat); }
}

proof fn lemma_two_pow_ge(k: nat)
    ensures two_pow(k) >= k + 1,
    decreases k,
{
    if k > 0 { lemma_two_pow_ge((k - 1) as nat); }
}

proof fn lemma_scale_unique(n: nat, a: nat, b: nat)
    requires is_scale(n, a), is_scale(n, b),
    ensures a == b,
{
    if a < b {
        lemma_two_pow_grows(a, b);
        assert(n * two_pow(b) >= 2 * (n * two_pow(a))) by (nonlinear_arith)
            requires two_pow(b) >= 2 * two_pow(a);
    } else if b < a {
        lemma_two_pow_grows(b, a);
        assert(n * two_pow(a) >= 2 * (n * two_pow(b))) by (nonlinear_arith)
            requires two_pow(a) >= 2 * two_pow(b);
    }
}

/// The bit pattern of `n / 1000` as a binary64, computed with integers.
pub fn ratio_to_bits(n: u16) -> (r: u64)
    ensures r == ratio_bits(n),
{
    if n == 0 {
        return 0;
    }
    let mut num: u128 = n as u128;
    let mut k: u64 = 0;
    assert(two_pow(0) == 1);
    assert((n as nat) * two_pow(0) == n as nat);
    while num < 4503599627370496000
        invariant
            num == (n as nat) * two_pow(k as nat), num >= 1, num >= two_pow(k as nat),
            num < 2 * scale_floor(), (k as nat) < num,
        decreases 9007199254740992000 - num,
    {
        proof {
            assert((n as nat) * two_pow((k + 1) as nat) == 2 * ((n as nat) * two_pow(k as nat))) by (nonlinear_arith)
                requires two_pow((k + 1) as nat) == 2 * two_pow(k as nat);
        }
        num = num * 2;
        k = k + 1;
    }
    proof {
        assert(is_scale(n as nat, k as nat));
        let c = choose|c: nat| is_scale(n as nat, c);
        lemma_scale_unique(n as nat, c, k as nat);
        lemma_two_pow_ge(k as nat);
    }
    let q = num / 1000;
    let rem = num % 1000;
    let m: u128 = if 2 * rem > 1000 || (2 * rem == 1000 && q % 2 == 1) { q + 1 } else { q };
    assert(m == rounded(n as nat, k as nat));
    assert(4503599627370496 <= q < 9007199254740992);
    assert(k <= 62) by {
        if k > 62 {
            lemma_two_pow_grows(62, k as nat);
            reveal_with_fuel(two_pow, 63);
            assert(two_pow(62) == 4611686018427387904);
        }
    }
    if m == 9007199254740992 {
        ((1076 - k) as u64) * 4503599627370496
    } else {
        ((1075 - k) as u64) * 4503599627370496 + ((m - 4503599627370496) as u64)
    }
}

} // verus!
