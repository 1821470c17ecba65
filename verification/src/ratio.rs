//! Shares of one as whole numbers.
//!
//! Confidences, thresholds and similarities are shares between nothing and
//! everything. They are held as millionths, so that `1_000_000` stands for
//! one, and arrive from the outside as IEEE 754 doubles given by their bits.

use vstd::prelude::*;

verus! {

/// One, in millionths.
pub const ONE: u32 = 1_000_000;

/// Two to the power `n`.
pub open spec fn pow2(n: nat) -> nat
    decreases n,
{
    if n == 0 {
        1
    } else {
        2 * pow2((n - 1) as nat)
    }
}

/// The sign bit of a double.
pub open spec fn double_sign(bits: u64) -> int {
    bits as int / 0x8000_0000_0000_0000
}

/// The biased exponent of a double.
pub open spec fn double_exponent(bits: u64) -> int {
    (bits as int / 0x10_0000_0000_0000) % 0x800
}

/// The fraction field of a double.
pub open spec fn double_fraction(bits: u64) -> int {
    bits as int % 0x10_0000_0000_0000
}

/// The double is not a number.
pub open spec fn double_is_nan(bits: u64) -> bool {
    double_exponent(bits) == 0x7ff && double_fraction(bits) != 0
}

/// The significand of a double below one: with the shift `k`, the magnitude
/// of the double is the significand divided by two to the power `k`.
pub open spec fn double_significand(bits: u64) -> int {
    if double_exponent(bits) == 0 {
        double_fraction(bits)
    } else {
        0x10_0000_0000_0000 + double_fraction(bits)
    }
}

/// The shift of a double below one.
pub open spec fn double_shift(bits: u64) -> int {
    if double_exponent(bits) == 0 {
        1074
    } else {
        1075 - double_exponent(bits)
    }
}

/// The double with these bits as millionths: clamped to the range from nothing
/// to one, rounded to the nearest millionth, a half going up. What is not a
/// number counts as nothing.
pub open spec fn millionths_of_double(bits: u64) -> int {
    if double_is_nan(bits) || double_sign(bits) == 1 {
        0
    } else if double_exponent(bits) >= 1023 {
        1_000_000
    } else {
        (2 * double_significand(bits) * 1_000_000 + pow2(double_shift(bits) as nat)) / (pow2(
            (double_shift(bits) + 1) as nat,
        ) as int)
    }
}

/// `x`, or one where `x` is more than one.
pub open spec fn clamp_unit(x: int) -> int {
    if x > 1_000_000 {
        1_000_000
    } else {
        x
    }
}

proof fn lemma_pow2_positive(n: nat)
    ensures
        pow2(n) > 0,
    decreases n,
{
    if n > 0 {
        lemma_pow2_positive((n - 1) as nat);
    }
}

proof fn lemma_pow2_monotone(a: nat, b: nat)
    requires
        a <= b,
    ensures
        pow2(a) <= pow2(b),
    decreases b,
{
    if a < b {
        lemma_pow2_monotone(a, (b - 1) as nat);
    }
}

proof fn lemma_pow2_values()
    ensures
        pow2(10) == 1024,
        pow2(20) == 0x10_0000,
        pow2(53) == 0x20_0000_0000_0000,
        pow2(74) == 0x400_0000_0000_0000_0000,
{
    reveal_with_fuel(pow2, 11);
    assert(pow2(10) == 1024);
    assert(pow2(20) == 1024 * pow2(10));
    assert(pow2(30) == 1024 * pow2(20));
    assert(pow2(40) == 1024 * pow2(30));
    assert(pow2(50) == 1024 * pow2(40));
    assert(pow2(53) == 8 * pow2(50));
    assert(pow2(60) == 1024 * pow2(50));
    assert(pow2(70) == 1024 * pow2(60));
    assert(pow2(74) == 16 * pow2(70));
}

/// A rounded share never passes one.
pub proof fn lemma_millionths_in_range(bits: u64)
    ensures
        0 <= millionths_of_double(bits) <= 1_000_000,
{
    if double_is_nan(bits) || double_sign(bits) == 1 {
    } else if double_exponent(bits) >= 1023 {
    } else {
        let m = double_significand(bits);
        let k = double_shift(bits) as nat;
        lemma_pow2_values();
        lemma_pow2_monotone(53, k);
        lemma_pow2_positive(k);
        let p = pow2(k) as int;
        assert(pow2(k + 1) == 2 * p);
        assert(0 <= m < 0x20_0000_0000_0000);
        assert(m <= p);
        assert(2 * m * 1_000_000 + p <= 2 * p * 1_000_000 + p) by (nonlinear_arith)
            requires
                m <= p,
        ;
        assert((2 * m * 1_000_000 + p) / (2 * p) <= 1_000_000) by (nonlinear_arith)
            requires
                0 <= 2 * m * 1_000_000 + p <= 2 * p * 1_000_000 + p,
                p > 0,
        ;
        assert((2 * m * 1_000_000 + p) / (2 * p) >= 0) by (nonlinear_arith)
            requires
                0 <= 2 * m * 1_000_000 + p,
                p > 0,
        ;
    }
}

/// Two to the power `n`, for `n` up to 75.
fn power_of_two(n: u32) -> (p: u128)
    requires
        n <= 75,
    ensures
        p == pow2(n as nat),
        p <= 0x800_0000_0000_0000_0000,
{
    let mut p: u128 = 1;
    let mut i: u32 = 0;
    proof {
        lemma_pow2_values();
    }
    while i < n
        invariant
            i <= n <= 75,
            p == pow2(i as nat),
            pow2(74) == 0x400_0000_0000_0000_0000,
        decreases n - i,
    {
        proof {
            lemma_pow2_monotone((i + 1) as nat, 75);
            assert(pow2(75) == 2 * pow2(74));
        }
        p = p * 2;
        i += 1;
    }
    proof {
        lemma_pow2_monotone(n as nat, 75);
        assert(pow2(75) == 2 * pow2(74));
    }
    p
}

/// The double with these bits, as millionths.
pub fn millionths_from_double_bits(bits: u64) -> (r: u32)
    ensures
        r == millionths_of_double(bits),
        r <= ONE,
{
    proof {
        lemma_millionths_in_range(bits);
    }
    let sign: u64 = bits / 0x8000_0000_0000_0000;
    let exponent: u64 = (bits / 0x10_0000_0000_0000) % 0x800;
    let fraction: u64 = bits % 0x10_0000_0000_0000;
    if (exponent == 0x7ff && fraction != 0) || sign == 1 {
        return 0;
    }
    if exponent >= 1023 {
        return 1_000_000;
    }
    let m: u64 = if exponent == 0 {
        fraction
    } else {
        0x10_0000_0000_0000 + fraction
    };
    let k: u64 = if exponent == 0 {
        1074
    } else {
        1075 - exponent
    };
    if k > 74 {
        proof {
            lemma_pow2_values();
            lemma_pow2_monotone(74, k as nat);
            lemma_pow2_positive(k as nat);
            let p = pow2(k as nat) as int;
            assert(pow2((k + 1) as nat) == 2 * p);
            assert(2 * (m as int) * 1_000_000 < 0x400_0000_0000_0000_0000) by (nonlinear_arith)
                requires
                    0 <= m < 0x20_0000_0000_0000,
            ;
            assert((2 * (m as int) * 1_000_000 + p) / (2 * p) == 0) by (nonlinear_arith)
                requires
                    0 <= 2 * (m as int) * 1_000_000 < p,
                    p > 0,
            ;
        }
        return 0;
    }
    let p: u128 = power_of_two(k as u32);
    proof {
        lemma_pow2_positive(k as nat);
        assert(pow2((k + 1) as nat) == 2 * pow2(k as nat));
        assert(2 * (m as int) * 1_000_000 < 0x400_0000_0000_0000_0000) by (nonlinear_arith)
            requires
                0 <= m < 0x20_0000_0000_0000,
        ;
    }
    let top: u128 = 2 * (m as u128) * 1_000_000 + p;
    let q: u128 = top / (2 * p);
    q as u32
}

/// `x`, or one where `x` is more than one.
pub fn clamped(x: u32) -> (r: u32)
    ensures
        r == clamp_unit(x as int),
        r <= ONE,
{
    if x > ONE {
        ONE
    } else {
        x
    }
}

/// The digit `d` as a character.
pub open spec fn digit_char(d: int) -> char {
    ((48 + d) as u8) as char
}

/// The number `n` in decimal digits.
pub open spec fn decimal(n: nat) -> Seq<char>
    decreases n,
{
    if n < 10 {
        seq![digit_char(n as int)]
    } else {
        decimal(n / 10).push(digit_char((n % 10) as int))
    }
}

/// The number `n` in decimal digits.
pub fn decimal_digits(n: u32) -> (out: Vec<char>)
    ensures
        out@ == decimal(n as nat),
    decreases n,
{
    if n < 10 {
        let mut out: Vec<char> = Vec::new();
        out.push((48 + n as u8) as char);
        proof {
            assert(out@ =~= decimal(n as nat));
        }
        out
    } else {
        let mut out = decimal_digits(n / 10);
        out.push((48 + (n % 10) as u8) as char);
        out
    }
}

/// A share written with two decimals, rounded to the nearest hundredth, a
/// half going up: `0.40`, `1.00`.
pub open spec fn two_decimals(x: int) -> Seq<char> {
    let h = (x + 5_000) / 10_000;
    decimal((h / 100) as nat) + seq!['.', digit_char((h / 10) % 10), digit_char(h % 10)]
}

/// A share written with two decimals.
pub fn format_two_decimals(x: u32) -> (out: String)
    ensures
        out@ == two_decimals(x as int),
{
    let h: u64 = (x as u64 + 5_000) / 10_000;
    let mut out = crate::text::string_of(&decimal_digits((h / 100) as u32));
    out.push('.');
    out.push((48 + ((h / 10) % 10) as u8) as char);
    out.push((48 + (h % 10) as u8) as char);
    proof {
        assert(out@ =~= two_decimals(x as int));
    }
    out
}

} // verus!
