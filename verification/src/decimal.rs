//! Exact decimal numbers: the runtime representation of the language's
//! floating-point literals.
//!
//! A `Decimal` holds a sign, a 64-bit decimal mantissa and a power-of-ten
//! exponent, denoting `(-1)^neg * mant * 10^exp`. Arithmetic is exact: an
//! operation whose exact result does not fit this shape reports failure
//! (`None`) instead of rounding, and division truncates to nineteen
//! significant digits below the dividend's scale.

use vstd::prelude::*;

verus! {

use crate::text::{push_u64_dec, spec_u64_dec};

/// A signed decimal number `(-1)^neg * mant * 10^exp`.
#[derive(Debug, Clone, Copy, PartialEq, Eq, Structural)]
pub struct Decimal {
    pub neg: bool,
    pub mant: u64,
    pub exp: i32,
}

/// Ten to the power `n`.
pub open spec fn spec_pow10(n: nat) -> int
    decreases n,
{
    if n == 0 {
        1
    } else {
        10 * spec_pow10((n - 1) as nat)
    }
}

pub proof fn lemma_pow10_pos(n: nat)
    ensures
        spec_pow10(n) >= 1,
    decreases n,
{
    if n > 0 {
        lemma_pow10_pos((n - 1) as nat);
    }
}

pub proof fn lemma_pow10_le(a: nat, b: nat)
    requires
        a <= b,
    ensures
        spec_pow10(a) <= spec_pow10(b),
    decreases b,
{
    if a < b {
        lemma_pow10_le(a, (b - 1) as nat);
        lemma_pow10_pos((b - 1) as nat);
    }
}

/// Unfolded values of small powers of ten.
pub proof fn lemma_pow10_values()
    ensures
        spec_pow10(19) == 0x8ac7230489e80000,
        spec_pow10(20) == 0x56bc75e2d63100000,
        spec_pow10(37) == 0x785ee10d5da46d900f436a000000000,
{
    reveal_with_fuel(spec_pow10, 40);
    assert(spec_pow10(19) == 0x8ac7230489e80000);
    assert(spec_pow10(20) == 10 * spec_pow10(19));
    assert(spec_pow10(37) == 0x785ee10d5da46d900f436a000000000);
}

/// `10^20` exceeds every 64-bit mantissa.
pub proof fn lemma_pow10_20_exceeds_u64(n: nat)
    requires
        n >= 20,
    ensures
        spec_pow10(n) > u64::MAX,
{
    lemma_pow10_values();
    lemma_pow10_le(20, n);
}

/// The magnitude of a decimal at a common scale `m` (where `m <= d.exp`):
/// its mantissa shifted up by `d.exp - m` decimal places.
pub open spec fn spec_mag_at(d: Decimal, m: int) -> int {
    d.mant * spec_pow10((d.exp - m) as nat)
}

/// The common scale used to relate two decimals.
pub open spec fn spec_common_exp(a: Decimal, b: Decimal) -> int {
    if a.exp <= b.exp {
        a.exp as int
    } else {
        b.exp as int
    }
}

/// The signed integer value of `d` at the common scale of `a` and `b`.
pub open spec fn spec_val_at(d: Decimal, m: int) -> int {
    if d.neg {
        -spec_mag_at(d, m)
    } else {
        spec_mag_at(d, m)
    }
}

/// Numeric equality of two decimals.
pub open spec fn spec_dec_eq(a: Decimal, b: Decimal) -> bool {
    spec_val_at(a, spec_common_exp(a, b)) == spec_val_at(b, spec_common_exp(a, b))
}

/// Numeric "strictly below" of two decimals.
pub open spec fn spec_dec_lt(a: Decimal, b: Decimal) -> bool {
    spec_val_at(a, spec_common_exp(a, b)) < spec_val_at(b, spec_common_exp(a, b))
}

fn pow10_u128(e: u32) -> (r: u128)
    requires
        e <= 38,
    ensures
        r == spec_pow10(e as nat),
    decreases e,
{
    if e == 0 {
        1
    } else {
        let p = pow10_u128(e - 1);
        proof {
            lemma_pow10_le((e - 1) as nat, 37);
            lemma_pow10_values();
        }
        10 * p
    }
}

/// The magnitude of `d` shifted to scale `m`, computed in 128 bits.
/// Fails (`None`) when the shift exceeds nineteen places for a nonzero
/// mantissa, which cannot be aligned exactly in 128 bits.
fn mag_at(d: &Decimal, m: i64) -> (r: Option<u128>)
    requires
        m <= d.exp,
        d.exp - m <= u32::MAX,
    ensures
        match r {
            Some(v) => v == spec_mag_at(*d, m as int) && (d.mant == 0 || d.exp - m <= 19),
            None => d.mant != 0 && d.exp - m > 19,
        },
{
    if d.mant == 0 {
        proof {
            lemma_pow10_pos((d.exp - m) as nat);
        }
        return Some(0);
    }
    let shift = d.exp as i64 - m;
    if shift > 19 {
        return None;
    }
    let p = pow10_u128(shift as u32);
    proof {
        lemma_pow10_le((d.exp - m) as nat, 19);
        lemma_pow10_values();
        assert(d.mant * spec_pow10((d.exp - m) as nat) <= d.mant * spec_pow10(19))
            by (nonlinear_arith)
            requires
                spec_pow10((d.exp - m) as nat) <= spec_pow10(19),
                d.mant >= 0,
        ;
        assert(d.mant * spec_pow10(19) < 0x1_0000_0000_0000_0000_0000_0000_0000_0000)
            by (nonlinear_arith)
            requires
                d.mant <= u64::MAX,
                spec_pow10(19) == 0x8ac7230489e80000,
        ;
    }
    Some(d.mant as u128 * p)
}

/// Compare two decimals numerically. Returns `-1`, `0` or `1`.
pub fn dec_cmp(a: &Decimal, b: &Decimal) -> (r: i8)
    ensures
        r == -1 || r == 0 || r == 1,
        (r == 0) == spec_dec_eq(*a, *b),
        (r == -1) == spec_dec_lt(*a, *b),
        (r == 1) == spec_dec_lt(*b, *a),
{
    proof {
        lemma_dec_cmp_cases(*a, *b);
    }
    if a.mant == 0 && b.mant == 0 {
        return 0;
    }
    if a.mant == 0 {
        return if b.neg { 1 } else { -1 };
    }
    if b.mant == 0 {
        return if a.neg { -1 } else { 1 };
    }
    if a.neg != b.neg {
        return if a.neg { -1 } else { 1 };
    }
    // same sign, both nonzero: compare magnitudes at the common scale
    let m: i64 = if a.exp <= b.exp { a.exp as i64 } else { b.exp as i64 };
    let am = mag_at(a, m);
    let bm = mag_at(b, m);
    let mag: i8 = match (am, bm) {
        (Some(av), Some(bv)) => {
            if av < bv {
                -1
            } else if av == bv {
                0
            } else {
                1
            }
        }
        (None, _) => {
            // `a` needs a shift beyond nineteen places; `b` then sits at the
            // common scale unshifted, so `a`'s magnitude dominates
            proof {
                lemma_huge_shift_dominates(*a, *b, m as int);
            }
            1
        }
        (_, None) => {
            proof {
                lemma_huge_shift_dominates(*b, *a, m as int);
            }
            -1
        }
    };
    if a.neg {
        // both negative: the larger magnitude is the smaller number
        if mag == -1 {
            1
        } else if mag == 1 {
            -1
        } else {
            0
        }
    } else {
        mag
    }
}

proof fn lemma_dec_cmp_cases(a: Decimal, b: Decimal)
    ensures
        spec_dec_eq(a, b) == (spec_val_at(a, spec_common_exp(a, b)) == spec_val_at(
            b,
            spec_common_exp(a, b),
        )),
        a.mant == 0 ==> spec_mag_at(a, spec_common_exp(a, b)) == 0,
        b.mant == 0 ==> spec_mag_at(b, spec_common_exp(a, b)) == 0,
        a.mant != 0 ==> spec_mag_at(a, spec_common_exp(a, b)) >= 1,
        b.mant != 0 ==> spec_mag_at(b, spec_common_exp(a, b)) >= 1,
{
    let m = spec_common_exp(a, b);
    lemma_pow10_pos((a.exp - m) as nat);
    lemma_pow10_pos((b.exp - m) as nat);
    assert(a.mant != 0 ==> a.mant * spec_pow10((a.exp - m) as nat) >= 1) by (nonlinear_arith)
        requires
            spec_pow10((a.exp - m) as nat) >= 1,
    ;
    assert(b.mant != 0 ==> b.mant * spec_pow10((b.exp - m) as nat) >= 1) by (nonlinear_arith)
        requires
            spec_pow10((b.exp - m) as nat) >= 1,
    ;
    assert(a.mant == 0 ==> a.mant * spec_pow10((a.exp - m) as nat) == 0) by (nonlinear_arith);
    assert(b.mant == 0 ==> b.mant * spec_pow10((b.exp - m) as nat) == 0) by (nonlinear_arith);
}

/// When one operand must be shifted by more than nineteen places to reach
/// the common scale, the other sits at that scale unshifted, and the shifted
/// operand's magnitude dominates.
proof fn lemma_huge_shift_dominates(a: Decimal, b: Decimal, m: int)
    requires
        m <= a.exp,
        m == b.exp,
        a.mant != 0,
        a.exp - m > 19,
    ensures
        spec_mag_at(a, m) > spec_mag_at(b, m),
{
    lemma_pow10_20_exceeds_u64((a.exp - m) as nat);
    assert(a.mant * spec_pow10((a.exp - m) as nat) >= spec_pow10((a.exp - m) as nat))
        by (nonlinear_arith)
        requires
            a.mant >= 1,
            spec_pow10((a.exp - m) as nat) >= 0,
    ;
    assert(spec_mag_at(b, m) == b.mant * spec_pow10(0));
    assert(b.mant * spec_pow10(0) == b.mant) by (nonlinear_arith)
        requires
            spec_pow10(0) == 1,
    ;
}

/// Reduce an oversized magnitude by stripping trailing decimal zeros,
/// raising the exponent accordingly, for at most `fuel` steps.
pub open spec fn spec_dec_fit(mag: int, exp: int, fuel: nat) -> (int, int)
    decreases fuel,
{
    if fuel > 0 && mag > u64::MAX && mag % 10 == 0 {
        spec_dec_fit(mag / 10, exp + 1, (fuel - 1) as nat)
    } else {
        (mag, exp)
    }
}

fn dec_fit(mag: u128, exp: i64, fuel: u8) -> (r: (u128, i64))
    requires
        exp + fuel <= i64::MAX,
    ensures
        r.0 as int == spec_dec_fit(mag as int, exp as int, fuel as nat).0,
        r.1 as int == spec_dec_fit(mag as int, exp as int, fuel as nat).1,
    decreases fuel,
{
    if fuel > 0 && mag > u64::MAX as u128 && mag % 10 == 0 {
        dec_fit(mag / 10, exp + 1, fuel - 1)
    } else {
        (mag, exp)
    }
}

/// Package a magnitude, an exponent and a sign as a `Decimal`, stripping
/// trailing zeros where the magnitude overflows 64 bits; fails when it
/// still does not fit, or the exponent leaves the 32-bit range.
pub open spec fn spec_dec_pack(neg: bool, mag: int, exp: int) -> Option<Decimal> {
    let fitted = spec_dec_fit(mag, exp, 40);
    let m = fitted.0;
    let e = fitted.1;
    if m > u64::MAX || e < i32::MIN || e > i32::MAX {
        None
    } else {
        Some(Decimal { neg: neg && m != 0, mant: m as u64, exp: e as i32 })
    }
}

fn dec_pack(neg: bool, mag: u128, exp: i64) -> (r: Option<Decimal>)
    requires
        exp + 40 <= i64::MAX,
    ensures
        r == spec_dec_pack(neg, mag as int, exp as int),
{
    let fitted = dec_fit(mag, exp, 40);
    let m = fitted.0;
    let e = fitted.1;
    if m > u64::MAX as u128 || e < i32::MIN as i64 || e > i32::MAX as i64 {
        None
    } else {
        Some(Decimal { neg: neg && m != 0, mant: m as u64, exp: e as i32 })
    }
}

/// The negation of a decimal.
pub open spec fn spec_dec_neg(d: Decimal) -> Decimal {
    Decimal { neg: !d.neg, mant: d.mant, exp: d.exp }
}

/// Negate a decimal.
pub fn dec_neg(d: &Decimal) -> (r: Decimal)
    ensures
        r == spec_dec_neg(*d),
{
    Decimal { neg: !d.neg, mant: d.mant, exp: d.exp }
}

/// The exact sum of two decimals: both are brought to their common scale
/// (failing when that takes more than nineteen places) and added; the
/// result must fit a 64-bit mantissa.
pub open spec fn spec_dec_add(a: Decimal, b: Decimal) -> Option<Decimal> {
    if a.mant == 0 {
        Some(b)
    } else if b.mant == 0 {
        Some(a)
    } else {
        let m = spec_common_exp(a, b);
        if a.exp - m > 19 || b.exp - m > 19 {
            None
        } else {
            let s = spec_val_at(a, m) + spec_val_at(b, m);
            let mag = if s < 0 { -s } else { s };
            if mag > u128::MAX {
                None
            } else {
                spec_dec_pack(s < 0, mag, m)
            }
        }
    }
}

/// Add two decimals exactly; `None` when the exact sum has no
/// representation.
pub fn dec_add(a: &Decimal, b: &Decimal) -> (r: Option<Decimal>)
    ensures
        r == spec_dec_add(*a, *b),
{
    if a.mant == 0 {
        return Some(*b);
    }
    if b.mant == 0 {
        return Some(*a);
    }
    let m: i64 = if a.exp <= b.exp { a.exp as i64 } else { b.exp as i64 };
    let am = mag_at(a, m);
    let bm = mag_at(b, m);
    proof {
        lemma_pow10_pos((a.exp - m) as nat);
        lemma_pow10_pos((b.exp - m) as nat);
        assert(a.mant * spec_pow10((a.exp - m) as nat) >= 1) by (nonlinear_arith)
            requires
                a.mant >= 1,
                spec_pow10((a.exp - m) as nat) >= 1,
        ;
        assert(b.mant * spec_pow10((b.exp - m) as nat) >= 1) by (nonlinear_arith)
            requires
                b.mant >= 1,
                spec_pow10((b.exp - m) as nat) >= 1,
        ;
    }
    match (am, bm) {
        (Some(av), Some(bv)) => {
            proof {
                assert(av == spec_mag_at(*a, m as int));
                assert(bv == spec_mag_at(*b, m as int));
            }
            let ghost s_spec: int = spec_val_at(*a, m as int) + spec_val_at(*b, m as int);
            if a.neg == b.neg {
                proof {
                    if a.neg {
                        assert(s_spec == -(av + bv));
                    } else {
                        assert(s_spec == av + bv);
                    }
                    assert(av + bv >= 2);
                }
                match av.checked_add(bv) {
                    Some(s) => {
                        proof {
                            assert(a.neg == (s_spec < 0));
                            assert(s == if s_spec < 0 { -s_spec } else { s_spec });
                        }
                        dec_pack(a.neg, s, m)
                    }
                    None => {
                        proof {
                            assert((if s_spec < 0 { -s_spec } else { s_spec }) > u128::MAX);
                        }
                        None
                    }
                }
            } else if av >= bv {
                proof {
                    if a.neg {
                        assert(s_spec == bv - av);
                    } else {
                        assert(s_spec == av - bv);
                    }
                    if av == bv {
                        lemma_pack_sign_of_zero(m as int);
                    }
                }
                dec_pack(a.neg, av - bv, m)
            } else {
                proof {
                    if b.neg {
                        assert(s_spec == av - bv);
                    } else {
                        assert(s_spec == bv - av);
                    }
                }
                dec_pack(b.neg, bv - av, m)
            }
        }
        _ => None,
    }
}

/// Packing a zero magnitude yields an unsigned zero whatever sign is asked.
proof fn lemma_pack_sign_of_zero(exp: int)
    ensures
        spec_dec_pack(true, 0, exp) == spec_dec_pack(false, 0, exp),
{
}

/// The exact difference of two decimals.
pub open spec fn spec_dec_sub(a: Decimal, b: Decimal) -> Option<Decimal> {
    spec_dec_add(a, spec_dec_neg(b))
}

/// Subtract two decimals exactly.
pub fn dec_sub(a: &Decimal, b: &Decimal) -> (r: Option<Decimal>)
    ensures
        r == spec_dec_sub(*a, *b),
{
    let nb = dec_neg(b);
    dec_add(a, &nb)
}

/// The exact product of two decimals: mantissas multiply, exponents add;
/// the result must fit a 64-bit mantissa after stripping trailing zeros.
pub open spec fn spec_dec_mul(a: Decimal, b: Decimal) -> Option<Decimal> {
    spec_dec_pack(a.neg != b.neg, a.mant * b.mant, a.exp + b.exp)
}

/// Multiply two decimals exactly.
pub fn dec_mul(a: &Decimal, b: &Decimal) -> (r: Option<Decimal>)
    ensures
        r == spec_dec_mul(*a, *b),
{
    proof {
        assert(a.mant * b.mant <= u64::MAX * u64::MAX) by (nonlinear_arith)
            requires
                0 <= a.mant <= u64::MAX,
                0 <= b.mant <= u64::MAX,
        ;
    }
    let p = a.mant as u128 * b.mant as u128;
    dec_pack(a.neg != b.neg, p, a.exp as i64 + b.exp as i64)
}

/// The quotient of two decimals: the dividend's mantissa is scaled up by
/// nineteen decimal places and divided by the divisor's mantissa,
/// truncating any remainder; division by zero fails.
pub open spec fn spec_dec_div(a: Decimal, b: Decimal) -> Option<Decimal> {
    if b.mant == 0 {
        None
    } else {
        spec_dec_pack(
            a.neg != b.neg,
            (a.mant * spec_pow10(19)) / (b.mant as int),
            a.exp - b.exp - 19,
        )
    }
}

/// Divide two decimals, truncating to nineteen places below the
/// dividend's scale; `None` on division by zero or an unrepresentable
/// quotient.
pub fn dec_div(a: &Decimal, b: &Decimal) -> (r: Option<Decimal>)
    ensures
        r == spec_dec_div(*a, *b),
{
    if b.mant == 0 {
        return None;
    }
    let p19 = pow10_u128(19);
    proof {
        lemma_pow10_values();
        assert(a.mant * spec_pow10(19) < 0x1_0000_0000_0000_0000_0000_0000_0000_0000)
            by (nonlinear_arith)
            requires
                a.mant <= u64::MAX,
                spec_pow10(19) == 0x8ac7230489e80000,
        ;
    }
    let scaled = a.mant as u128 * p19;
    let q = scaled / b.mant as u128;
    dec_pack(a.neg != b.neg, q, a.exp as i64 - b.exp as i64 - 19)
}

/// Strip all trailing zeros from a positive magnitude, for at most
/// `fuel` steps.
pub open spec fn spec_strip_zeros(m: int, e: int, fuel: nat) -> (int, int)
    decreases fuel,
{
    if fuel > 0 && m > 0 && m % 10 == 0 {
        spec_strip_zeros(m / 10, e + 1, (fuel - 1) as nat)
    } else {
        (m, e)
    }
}

fn strip_zeros(m: u64, e: i64, fuel: u8) -> (r: (u64, i64))
    requires
        e + fuel <= i64::MAX,
    ensures
        r.0 as int == spec_strip_zeros(m as int, e as int, fuel as nat).0,
        r.1 as int == spec_strip_zeros(m as int, e as int, fuel as nat).1,
    decreases fuel,
{
    if fuel > 0 && m > 0 && m % 10 == 0 {
        strip_zeros(m / 10, e + 1, fuel - 1)
    } else {
        (m, e)
    }
}

/// A sequence of `n` zero characters.
pub open spec fn spec_zero_chars(n: int) -> Seq<char> {
    Seq::new(if n >= 0 { n as nat } else { 0 }, |i: int| '0')
}

/// The textual form of a decimal: its significant digits with the decimal
/// point placed according to the exponent, and a leading minus sign for
/// negative numbers. Zero prints as "0".
pub open spec fn spec_dec_display(d: Decimal) -> Seq<char> {
    if d.mant == 0 {
        seq!['0']
    } else {
        let stripped = spec_strip_zeros(d.mant as int, d.exp as int, 20);
        let m = stripped.0;
        let e = stripped.1;
        let digits = spec_u64_dec(m);
        let body = if e >= 0 {
            digits + spec_zero_chars(e)
        } else if -e < digits.len() {
            digits.take(digits.len() + e) + seq!['.'] + digits.skip(digits.len() + e)
        } else {
            seq!['0', '.'] + spec_zero_chars(-e - digits.len()) + digits
        };
        if d.neg {
            seq!['-'] + body
        } else {
            body
        }
    }
}

fn push_zero_chars(v: &mut Vec<char>, n: u64)
    ensures
        final(v)@ == old(v)@ + spec_zero_chars(n as int),
{
    let mut i: u64 = 0;
    while i < n
        invariant
            i <= n,
            v@ == old(v)@ + spec_zero_chars(i as int),
        decreases n - i,
    {
        v.push('0');
        proof {
            assert(v@ =~= old(v)@ + spec_zero_chars(i + 1));
        }
        i = i + 1;
    }
}

/// Render a decimal as text.
pub fn dec_to_chars(d: &Decimal) -> (v: Vec<char>)
    ensures
        v@ == spec_dec_display(*d),
{
    let mut v: Vec<char> = Vec::new();
    if d.mant == 0 {
        v.push('0');
        proof {
            assert(v@ =~= spec_dec_display(*d));
        }
        return v;
    }
    let stripped = strip_zeros(d.mant, d.exp as i64, 20);
    let m = stripped.0;
    let e = stripped.1;
    proof {
        lemma_strip_zeros_pos(d.mant as int, d.exp as int, 20);
    }
    if d.neg {
        v.push('-');
    }
    let mut digits: Vec<char> = Vec::new();
    push_u64_dec(m, &mut digits);
    let n = digits.len();
    if e >= 0 {
        let mut i: usize = 0;
        while i < n
            invariant
                i <= n,
                n == digits@.len(),
                digits@ == spec_u64_dec(m as int),
                v@ == (if d.neg { seq!['-'] } else { Seq::<char>::empty() }) + digits@.take(
                    i as int,
                ),
            decreases n - i,
        {
            v.push(digits[i]);
            proof {
                assert(v@ =~= (if d.neg { seq!['-'] } else { Seq::<char>::empty() })
                    + digits@.take(i + 1));
            }
            i = i + 1;
        }
        proof {
            assert(digits@.take(n as int) =~= digits@);
        }
        push_zero_chars(&mut v, e as u64);
        proof {
            assert(v@ =~= spec_dec_display(*d));
        }
        v
    } else {
        let k = (-e) as usize;
        if k < n {
            let mut i: usize = 0;
            while i < n
                invariant
                    i <= n,
                    k < n,
                    n == digits@.len(),
                    digits@ == spec_u64_dec(m as int),
                    v@ == (if d.neg { seq!['-'] } else { Seq::<char>::empty() }) + (if i <= n - k {
                        digits@.take(i as int)
                    } else {
                        digits@.take((n - k) as int) + seq!['.'] + digits@.subrange(
                            (n - k) as int,
                            i as int,
                        )
                    }),
                decreases n - i,
            {
                if i == n - k {
                    v.push('.');
                }
                v.push(digits[i]);
                proof {
                    if i + 1 <= n - k {
                        assert(v@ =~= (if d.neg { seq!['-'] } else { Seq::<char>::empty() })
                            + digits@.take(i + 1));
                    } else {
                        assert(v@ =~= (if d.neg { seq!['-'] } else { Seq::<char>::empty() })
                            + (digits@.take((n - k) as int) + seq!['.'] + digits@.subrange(
                            (n - k) as int,
                            i + 1,
                        )));
                    }
                }
                i = i + 1;
            }
            proof {
                assert(digits@.subrange((n - k) as int, n as int) =~= digits@.skip((n - k) as int));
                assert(digits@.take(digits@.len() + e) == digits@.take((n - k) as int));
                assert(v@ =~= spec_dec_display(*d));
            }
            v
        } else {
            v.push('0');
            v.push('.');
            push_zero_chars(&mut v, (k - n) as u64);
            let mut i: usize = 0;
            while i < n
                invariant
                    i <= n,
                    n == digits@.len(),
                    digits@ == spec_u64_dec(m as int),
                    v@ == (if d.neg { seq!['-'] } else { Seq::<char>::empty() }) + seq!['0', '.']
                        + spec_zero_chars(k - n) + digits@.take(i as int),
                decreases n - i,
            {
                v.push(digits[i]);
                proof {
                    assert(v@ =~= (if d.neg { seq!['-'] } else { Seq::<char>::empty() }) + seq![
                        '0',
                        '.',
                    ] + spec_zero_chars(k - n) + digits@.take(i + 1));
                }
                i = i + 1;
            }
            proof {
                assert(digits@.take(n as int) =~= digits@);
                assert(v@ =~= spec_dec_display(*d));
            }
            v
        }
    }
}

proof fn lemma_strip_zeros_pos(m: int, e: int, fuel: nat)
    requires
        m > 0,
    ensures
        spec_strip_zeros(m, e, fuel).0 > 0,
        spec_strip_zeros(m, e, fuel).1 >= e,
        spec_strip_zeros(m, e, fuel).1 <= e + fuel,
    decreases fuel,
{
    if fuel > 0 && m > 0 && m % 10 == 0 {
        lemma_strip_zeros_pos(m / 10, e + 1, (fuel - 1) as nat);
    }
}

} // verus!
