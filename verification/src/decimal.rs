//! Decimal numbers for cost and quota estimates. A value is held by its
//! integer mantissa and decimal scale (`mantissa / 10^scale`); the arithmetic
//! is rust_decimal's.
use vstd::prelude::*;
use crate::auth::nat_text;
use rust_decimal::Decimal;
use rust_decimal::prelude::ToPrimitive;

verus! {

/// A decimal number `mantissa / 10^scale`, as rust_decimal stores one.
#[derive(Debug, Clone, Copy, PartialEq, Eq, Structural)]
pub struct Dec {
    pub mantissa: i128,
    pub scale: u32,
}

/// The largest mantissa that rust_decimal can hold, `2^96 - 1`.
pub open spec fn max_mantissa() -> int {
    0xFFFF_FFFF_FFFF_FFFF_FFFF_FFFF
}

/// A mantissa and scale that rust_decimal can hold.
pub open spec fn dec_ok(d: Dec) -> bool {
    -max_mantissa() <= d.mantissa <= max_mantissa() && d.scale <= 28
}

/// `10^n`.
pub open spec fn pow10(n: nat) -> int
    decreases n,
{
    if n == 0 {
        1
    } else {
        10 * pow10((n - 1) as nat)
    }
}

/// What `Decimal::from_str` reads from a text: the number, or the text of the
/// error where the text is not a decimal number in range.
pub uninterp spec fn dec_from_str(text: Seq<char>) -> Result<Dec, Seq<char>>;

/// What `Decimal::checked_mul` gives for two numbers.
pub uninterp spec fn dec_mul(a: Dec, b: Dec) -> Option<Dec>;

/// What `Decimal::checked_add` gives for two numbers.
pub uninterp spec fn dec_add(a: Dec, b: Dec) -> Option<Dec>;

/// What `Decimal::checked_sub` gives for two numbers.
pub uninterp spec fn dec_sub(a: Dec, b: Dec) -> Option<Dec>;

/// What `Decimal::checked_div` gives for two numbers.
pub uninterp spec fn dec_div(a: Dec, b: Dec) -> Option<Dec>;

/// The absolute value of an integer.
pub open spec fn abs_int(i: int) -> int {
    if i < 0 {
        -i
    } else {
        i
    }
}

/// `n / d` rounded to the nearest integer, ties to the even one
/// (`n >= 0`, `d > 0`).
pub open spec fn round_half_even(n: int, d: int) -> int {
    let q = n / d;
    let r = n % d;
    if 2 * r > d || (2 * r == d && q % 2 == 1) {
        q + 1
    } else {
        q
    }
}

/// What `Decimal::round` gives: a number of scale 0 already is an integer;
/// otherwise the magnitude is rounded half to even and the sign kept.
pub open spec fn dec_round(a: Dec) -> Dec {
    if a.scale == 0 {
        a
    } else {
        let r = round_half_even(abs_int(a.mantissa as int), pow10(a.scale as nat));
        Dec {
            mantissa: (if a.mantissa < 0 {
                -r
            } else {
                r
            }) as i128,
            scale: 0,
        }
    }
}

/// What `ToPrimitive::to_u64` gives for a Decimal: `None` for a negative
/// number, else its integer part (truncated) where that is below `2^64`.
pub open spec fn dec_to_u64(a: Dec) -> Option<u64> {
    if a.mantissa < 0 {
        None
    } else {
        let t = (a.mantissa as int) / pow10(a.scale as nat);
        if t < 0x1_0000_0000_0000_0000 {
            Some(t as u64)
        } else {
            None
        }
    }
}

/// Six decimal digits of `n < 10^6`, with leading zeros.
pub open spec fn six_digits(n: nat) -> Seq<char> {
    nat_text(n + 1_000_000).drop_first()
}

/// The number's integer part has at most 25 digits, which is what
/// rust_decimal's fixed-size text buffer holds beside `.` and six digits.
pub open spec fn fits_fixed6(a: Dec) -> bool {
    abs_int(a.mantissa as int) < pow10((a.scale + 25) as nat)
}

/// What `format!("{:.6}", d)` writes for a Decimal: the sign of a negative
/// number, the integer part, `.` and the first six fractional digits
/// (truncated, padded with zeros).
pub open spec fn dec_fixed6(a: Dec) -> Seq<char> {
    let m = abs_int(a.mantissa as int);
    let p = pow10(a.scale as nat);
    let sign = if a.mantissa < 0 {
        seq!['-']
    } else {
        Seq::empty()
    };
    sign + nat_text((m / p) as nat) + seq!['.'] + six_digits(((m * 1_000_000 / p) % 1_000_000) as nat)
}

/// `Decimal::from_str`, with the error shown as text; its result is named
/// `dec_from_str`.
#[verifier::external_body]
pub(crate) fn parse_decimal(text: &str) -> (r: Result<Dec, String>)
    ensures
        match r {
            Ok(d) => dec_from_str(text@) == Ok::<Dec, Seq<char>>(d) && dec_ok(d),
            Err(e) => dec_from_str(text@) == Err::<Dec, Seq<char>>(e@),
        },
{
    match <Decimal as core::str::FromStr>::from_str(text) {
        Ok(d) => Ok(Dec { mantissa: d.mantissa(), scale: d.scale() }),
        Err(e) => Err(e.to_string()),
    }
}

/// `Decimal::checked_mul`; its result is named `dec_mul`.
#[verifier::external_body]
pub(crate) fn checked_mul(a: Dec, b: Dec) -> (r: Option<Dec>)
    requires
        dec_ok(a),
        dec_ok(b),
    ensures
        r == dec_mul(a, b),
        r matches Some(d) ==> dec_ok(d),
{
    let x = Decimal::from_i128_with_scale(a.mantissa, a.scale);
    let y = Decimal::from_i128_with_scale(b.mantissa, b.scale);
    x.checked_mul(y).map(|d| Dec { mantissa: d.mantissa(), scale: d.scale() })
}

/// `Decimal::checked_add`; its result is named `dec_add`.
#[verifier::external_body]
pub(crate) fn checked_add(a: Dec, b: Dec) -> (r: Option<Dec>)
    requires
        dec_ok(a),
        dec_ok(b),
    ensures
        r == dec_add(a, b),
        r matches Some(d) ==> dec_ok(d),
{
    let x = Decimal::from_i128_with_scale(a.mantissa, a.scale);
    let y = Decimal::from_i128_with_scale(b.mantissa, b.scale);
    x.checked_add(y).map(|d| Dec { mantissa: d.mantissa(), scale: d.scale() })
}

/// `Decimal::checked_sub`; its result is named `dec_sub`.
#[verifier::external_body]
pub(crate) fn checked_sub(a: Dec, b: Dec) -> (r: Option<Dec>)
    requires
        dec_ok(a),
        dec_ok(b),
    ensures
        r == dec_sub(a, b),
        r matches Some(d) ==> dec_ok(d),
{
    let x = Decimal::from_i128_with_scale(a.mantissa, a.scale);
    let y = Decimal::from_i128_with_scale(b.mantissa, b.scale);
    x.checked_sub(y).map(|d| Dec { mantissa: d.mantissa(), scale: d.scale() })
}

/// `Decimal::checked_div`; its result is named `dec_div`.
#[verifier::external_body]
pub(crate) fn checked_div(a: Dec, b: Dec) -> (r: Option<Dec>)
    requires
        dec_ok(a),
        dec_ok(b),
    ensures
        r == dec_div(a, b),
        r matches Some(d) ==> dec_ok(d),
{
    let x = Decimal::from_i128_with_scale(a.mantissa, a.scale);
    let y = Decimal::from_i128_with_scale(b.mantissa, b.scale);
    x.checked_div(y).map(|d| Dec { mantissa: d.mantissa(), scale: d.scale() })
}

/// `Decimal::round` (banker's rounding to scale 0), as `dec_round` states it.
#[verifier::external_body]
pub(crate) fn round(a: Dec) -> (r: Dec)
    requires
        dec_ok(a),
    ensures
        r == dec_round(a),
        dec_ok(r),
{
    let d = Decimal::from_i128_with_scale(a.mantissa, a.scale).round();
    Dec { mantissa: d.mantissa(), scale: d.scale() }
}

/// `ToPrimitive::to_u64` on a Decimal, as `dec_to_u64` states it.
#[verifier::external_body]
pub(crate) fn to_u64(a: Dec) -> (r: Option<u64>)
    requires
        dec_ok(a),
    ensures
        r == dec_to_u64(a),
{
    Decimal::from_i128_with_scale(a.mantissa, a.scale).to_u64()
}

/// `format!("{:.6}", d)` on a Decimal, as `dec_fixed6` states it. rust_decimal
/// writes the text into a buffer of 32 characters and panics when it does not
/// fit, so the integer part must have at most 25 digits (`fits_fixed6`).
#[verifier::external_body]
pub(crate) fn format_fixed6(a: Dec) -> (r: String)
    requires
        dec_ok(a),
        fits_fixed6(a),
    ensures
        r@ == dec_fixed6(a),
{
    format!("{:.6}", Decimal::from_i128_with_scale(a.mantissa, a.scale))
}

/// `a` is greater than `b` as numbers.
pub open spec fn dec_gt(a: Dec, b: Dec) -> bool {
    a.mantissa * pow10(b.scale as nat) > b.mantissa * pow10(a.scale as nat)
}

/// `>` on two Decimals, which compares them as numbers.
#[verifier::external_body]
pub(crate) fn greater(a: Dec, b: Dec) -> (r: bool)
    requires
        dec_ok(a),
        dec_ok(b),
    ensures
        r == dec_gt(a, b),
{
    Decimal::from_i128_with_scale(a.mantissa, a.scale) > Decimal::from_i128_with_scale(b.mantissa, b.scale)
}

/// The Decimal of an unsigned integer (`Decimal::from`).
pub fn from_u64(u: u64) -> (r: Dec)
    ensures
        r == (Dec { mantissa: u as i128, scale: 0 }),
        dec_ok(r),
{
    Dec { mantissa: u as i128, scale: 0 }
}

/// The Decimal of a signed integer (`Decimal::from`).
pub fn from_i64(i: i64) -> (r: Dec)
    ensures
        r == (Dec { mantissa: i as i128, scale: 0 }),
        dec_ok(r),
{
    Dec { mantissa: i as i128, scale: 0 }
}

/// Zero.
pub open spec fn zero() -> Dec {
    Dec { mantissa: 0, scale: 0 }
}

/// One.
pub open spec fn one() -> Dec {
    Dec { mantissa: 1, scale: 0 }
}

/// Whether the number is below zero.
pub fn is_negative(a: Dec) -> (r: bool)
    ensures
        r == (a.mantissa < 0),
{
    a.mantissa < 0
}

/// Whether the number is above zero.
pub fn is_positive(a: Dec) -> (r: bool)
    ensures
        r == (a.mantissa > 0),
{
    a.mantissa > 0
}

/// Whether the number is below one.
pub fn is_below_one(a: Dec) -> (r: bool)
    requires
        dec_ok(a),
    ensures
        r == (a.mantissa < pow10(a.scale as nat)),
{
    let p = pow10_of(a.scale);
    a.mantissa < p
}

/// `10^s` for a scale that rust_decimal allows.
fn pow10_of(s: u32) -> (p: i128)
    requires
        s <= 28,
    ensures
        p == pow10(s as nat),
        1 <= p <= pow10(28),
{
    let mut p: i128 = 1;
    let mut k: u32 = 0;
    proof {
        lemma_pow10_mono(0, 28);
        lemma_pow10_28();
    }
    while k < s
        invariant
            k <= s <= 28,
            p == pow10(k as nat),
            1 <= p <= pow10(28),
            pow10(28) == 10_000_000_000_000_000_000_000_000_000int,
        decreases s - k,
    {
        proof {
            lemma_pow10_mono(k as nat + 1, 28);
            assert(pow10(k as nat + 1) == 10 * pow10(k as nat));
        }
        p = p * 10;
        k = k + 1;
    }
    p
}

proof fn lemma_pow10_add(a: nat, b: nat)
    ensures
        pow10(a + b) == pow10(a) * pow10(b),
    decreases b,
{
    if b > 0 {
        lemma_pow10_add(a, (b - 1) as nat);
        assert(pow10(a + b) == 10 * pow10((a + b - 1) as nat));
        assert(pow10(a) * pow10(b) == pow10(a) * (10 * pow10((b - 1) as nat)));
        assert(pow10(a) * (10 * pow10((b - 1) as nat)) == 10 * (pow10(a) * pow10((b - 1) as nat))) by (nonlinear_arith);
    }
}

/// Whether `format!("{:.6}", d)` can write the number: its integer part has
/// at most 25 digits.
pub fn fits_fixed6_exec(a: Dec) -> (r: bool)
    requires
        dec_ok(a),
    ensures
        r == fits_fixed6(a),
{
    let p = pow10_of(a.scale);
    let m: i128 = if a.mantissa < 0 {
        -a.mantissa
    } else {
        a.mantissa
    };
    let whole = m / p;
    let k: i128 = 10_000_000_000_000_000_000_000_000;
    proof {
        reveal_with_fuel(pow10, 26);
        assert(pow10(25) == k);
        lemma_pow10_add(a.scale as nat, 25);
        assert((a.scale + 25) as nat == a.scale as nat + 25);
        let mi = m as int;
        let pi = p as int;
        assert(mi >= 0 && pi >= 1);
        assert(mi / pi < k <==> mi < k * pi) by (nonlinear_arith)
            requires
                mi >= 0,
                pi >= 1,
                k > 0,
        {
            assert(mi == pi * (mi / pi) + mi % pi);
            assert(0 <= mi % pi < pi);
        }
    }
    whole < k
}

proof fn lemma_pow10_28()
    ensures
        pow10(28) == 10_000_000_000_000_000_000_000_000_000int,
{
    reveal_with_fuel(pow10, 29);
}

proof fn lemma_pow10_mono(a: nat, b: nat)
    requires
        a <= b,
    ensures
        pow10(a) <= pow10(b),
        pow10(a) >= 1,
    decreases b,
{
    if b > a {
        lemma_pow10_mono(a, (b - 1) as nat);
    } else if a > 0 {
        lemma_pow10_mono((a - 1) as nat, (a - 1) as nat);
    }
}

} // verus!
