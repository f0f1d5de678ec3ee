//! Parsing of numeric literal text: decimal integers, hexadecimal
//! integers, and decimal floating-point literals with an optional
//! exponent. Each parser is pinned to a checked left-to-right fold.

use vstd::prelude::*;

verus! {

use crate::decimal::Decimal;

/// The value of a decimal digit character, if it is one.
pub open spec fn spec_dec_digit(c: char) -> Option<u64> {
    if '0' <= c && c <= '9' {
        Some((c as u32 - '0' as u32) as u64)
    } else {
        None
    }
}

/// The value of a hexadecimal digit character, if it is one.
pub open spec fn spec_hex_digit(c: char) -> Option<u64> {
    if '0' <= c && c <= '9' {
        Some((c as u32 - '0' as u32) as u64)
    } else if 'a' <= c && c <= 'f' {
        Some((c as u32 - 'a' as u32 + 10) as u64)
    } else if 'A' <= c && c <= 'F' {
        Some((c as u32 - 'A' as u32 + 10) as u64)
    } else {
        None
    }
}

/// The checked left-to-right fold of decimal digits: `None` on an empty
/// or non-digit sequence, or when the value leaves 64 bits.
pub open spec fn spec_parse_u64(s: Seq<char>) -> Option<u64>
    decreases s.len(),
{
    if s.len() == 0 {
        None
    } else if s.len() == 1 {
        spec_dec_digit(s[0])
    } else {
        match spec_parse_u64(s.drop_last()) {
            None => None,
            Some(acc) => match spec_dec_digit(s.last()) {
                None => None,
                Some(d) => if acc <= (u64::MAX - d) / 10 {
                    Some((acc * 10 + d) as u64)
                } else {
                    None
                },
            },
        }
    }
}

/// The checked left-to-right fold of hexadecimal digits.
pub open spec fn spec_parse_hex(s: Seq<char>) -> Option<u64>
    decreases s.len(),
{
    if s.len() == 0 {
        None
    } else if s.len() == 1 {
        spec_hex_digit(s[0])
    } else {
        match spec_parse_hex(s.drop_last()) {
            None => None,
            Some(acc) => match spec_hex_digit(s.last()) {
                None => None,
                Some(d) => if acc <= (u64::MAX - d) / 16 {
                    Some((acc * 16 + d) as u64)
                } else {
                    None
                },
            },
        }
    }
}

fn dec_digit(c: char) -> (r: Option<u64>)
    ensures
        r == spec_dec_digit(c),
{
    if '0' <= c && c <= '9' {
        Some((c as u32 - '0' as u32) as u64)
    } else {
        None
    }
}

fn hex_digit(c: char) -> (r: Option<u64>)
    ensures
        r == spec_hex_digit(c),
{
    if '0' <= c && c <= '9' {
        Some((c as u32 - '0' as u32) as u64)
    } else if 'a' <= c && c <= 'f' {
        Some((c as u32 - 'a' as u32 + 10) as u64)
    } else if 'A' <= c && c <= 'F' {
        Some((c as u32 - 'A' as u32 + 10) as u64)
    } else {
        None
    }
}

/// Parse a run of decimal digits within `s`, from `from` up to `to`.
#[verifier::loop_isolation(false)]
pub fn parse_u64_range(s: &Vec<char>, from: usize, to: usize) -> (r: Option<u64>)
    requires
        from <= to <= s@.len(),
    ensures
        r == spec_parse_u64(s@.subrange(from as int, to as int)),
{
    let mut acc: Option<u64> = None;
    let mut i: usize = from;
    proof {
        assert(s@.subrange(from as int, from as int) =~= Seq::<char>::empty());
    }
    while i < to
        invariant
            from <= i <= to,
            acc == spec_parse_u64(s@.subrange(from as int, i as int)),
        decreases to - i,
    {
        let d = dec_digit(s[i]);
        acc = match (acc, d) {
            (_, None) => None,
            (None, Some(dv)) => if i == from {
                Some(dv)
            } else {
                None
            },
            (Some(a), Some(dv)) => if a <= (u64::MAX - dv) / 10 {
                Some(a * 10 + dv)
            } else {
                None
            },
        };
        proof {
            let sub = s@.subrange(from as int, i + 1);
            assert(sub.drop_last() =~= s@.subrange(from as int, i as int));
            assert(sub.last() == s@[i as int]);
        }
        i = i + 1;
    }
    acc
}

/// Parse a whole character vector as decimal digits.
pub fn parse_u64_chars(s: &Vec<char>) -> (r: Option<u64>)
    ensures
        r == spec_parse_u64(s@),
{
    let r = parse_u64_range(s, 0, s.len());
    proof {
        assert(s@.subrange(0, s@.len() as int) =~= s@);
    }
    r
}

/// Parse a run of hexadecimal digits within `s`, from `from` up to `to`.
#[verifier::loop_isolation(false)]
pub fn parse_hex_range(s: &Vec<char>, from: usize, to: usize) -> (r: Option<u64>)
    requires
        from <= to <= s@.len(),
    ensures
        r == spec_parse_hex(s@.subrange(from as int, to as int)),
{
    let mut acc: Option<u64> = None;
    let mut i: usize = from;
    proof {
        assert(s@.subrange(from as int, from as int) =~= Seq::<char>::empty());
    }
    while i < to
        invariant
            from <= i <= to,
            acc == spec_parse_hex(s@.subrange(from as int, i as int)),
        decreases to - i,
    {
        let d = hex_digit(s[i]);
        acc = match (acc, d) {
            (_, None) => None,
            (None, Some(dv)) => if i == from {
                Some(dv)
            } else {
                None
            },
            (Some(a), Some(dv)) => if a <= (u64::MAX - dv) / 16 {
                Some(a * 16 + dv)
            } else {
                None
            },
        };
        proof {
            let sub = s@.subrange(from as int, i + 1);
            assert(sub.drop_last() =~= s@.subrange(from as int, i as int));
            assert(sub.last() == s@[i as int]);
        }
        i = i + 1;
    }
    acc
}

/// The first position of `c` in `s`, if any.
pub open spec fn spec_find_char(s: Seq<char>, c: char) -> Option<int>
    decreases s.len(),
{
    if s.len() == 0 {
        None
    } else if s[0] == c {
        Some(0)
    } else {
        match spec_find_char(s.drop_first(), c) {
            None => None,
            Some(i) => Some(i + 1),
        }
    }
}

fn find_char_from(s: &Vec<char>, c: char, i: usize) -> (r: Option<usize>)
    requires
        i <= s@.len(),
    ensures
        match r {
            Some(k) => i <= k < s@.len() && spec_find_char(s@.skip(i as int), c) == Some(
                k - i,
            ),
            None => spec_find_char(s@.skip(i as int), c) is None,
        },
    decreases s@.len() - i,
{
    proof {
        assert(s@.skip(i as int).len() == s@.len() - i);
    }
    if i == s.len() {
        return None;
    }
    proof {
        assert(s@.skip(i as int)[0] == s@[i as int]);
    }
    if s[i] == c {
        return Some(i);
    }
    let r = find_char_from(s, c, i + 1);
    proof {
        assert(s@.skip(i as int).drop_first() =~= s@.skip(i + 1));
    }
    match r {
        Some(k) => Some(k),
        None => None,
    }
}

fn find_char(s: &Vec<char>, c: char) -> (r: Option<usize>)
    ensures
        match r {
            Some(k) => k < s@.len() && spec_find_char(s@, c) == Some(k as int),
            None => spec_find_char(s@, c) is None,
        },
{
    let r = find_char_from(s, c, 0);
    proof {
        assert(s@.skip(0) =~= s@);
    }
    r
}

/// The parsed shape of a floating-point literal: the digits around an
/// optional point and an optional exponent, combined into an exact
/// decimal. The exponent of the result is capped at four digits' worth
/// in either direction.
pub open spec fn spec_float_of_parts(
    int_val: u64,
    frac_digits: int,
    frac_val: u64,
    exp_val: u64,
) -> Option<Decimal> {
    if frac_digits > 18 || int_val > (u64::MAX - frac_val) as int / spec_pow10_u64(
        frac_digits,
    ) as int {
        None
    } else {
        let mant = int_val * spec_pow10_u64(frac_digits) + frac_val;
        let e = exp_val - frac_digits;
        if exp_val > 9999 || e < -9999 {
            None
        } else {
            Some(Decimal { neg: false, mant: mant as u64, exp: e as i32 })
        }
    }
}

/// Ten to a small power, saturating at the top of 64 bits beyond `19`.
pub open spec fn spec_pow10_u64(n: int) -> u64
    decreases n,
{
    if n <= 0 {
        1
    } else if n > 19 {
        u64::MAX
    } else {
        let p = spec_pow10_u64(n - 1);
        if p <= u64::MAX / 10 {
            (p * 10) as u64
        } else {
            u64::MAX
        }
    }
}

proof fn lemma_pow10_u64_pos(n: int)
    ensures
        spec_pow10_u64(n) >= 1,
    decreases n,
{
    if 0 < n <= 19 {
        lemma_pow10_u64_pos(n - 1);
    }
}

fn pow10_u64(n: usize) -> (r: u64)
    ensures
        r == spec_pow10_u64(n as int),
    decreases n,
{
    if n == 0 {
        1
    } else if n > 19 {
        u64::MAX
    } else {
        let p = pow10_u64(n - 1);
        if p <= u64::MAX / 10 {
            p * 10
        } else {
            u64::MAX
        }
    }
}

/// The exact decimal denoted by a floating-point literal: the digits
/// before and after an optional point, scaled by an optional unsigned
/// exponent after `e` or `E`. Fails on malformed digits, a mantissa
/// beyond 64 bits, or an exponent beyond four digits.
pub open spec fn spec_parse_float(s: Seq<char>) -> Option<Decimal> {
    let epos = if spec_find_char(s, 'e') is Some {
        spec_find_char(s, 'e')
    } else {
        spec_find_char(s, 'E')
    };
    let base = match epos {
        Some(i) => s.take(i),
        None => s,
    };
    let expv = match epos {
        Some(i) => spec_parse_u64(s.skip(i + 1)),
        None => Some(0u64),
    };
    match expv {
        None => None,
        Some(e) => match spec_find_char(base, '.') {
            None => match spec_parse_u64(base) {
                None => None,
                Some(iv) => spec_float_of_parts(iv, 0, 0, e),
            },
            Some(j) => match (spec_parse_u64(base.take(j)), spec_parse_u64(
                base.skip(j + 1),
            )) {
                (Some(iv), Some(fv)) => spec_float_of_parts(iv, base.len() - j - 1, fv, e),
                _ => None,
            },
        },
    }
}

/// Parse a floating-point literal.
pub fn parse_float_chars(s: &Vec<char>) -> (r: Option<Decimal>)
    ensures
        r == spec_parse_float(s@),
{
    let epos = match find_char(s, 'e') {
        Some(i) => Some(i),
        None => find_char(s, 'E'),
    };
    let base_end: usize = match epos {
        Some(i) => i,
        None => s.len(),
    };
    let expv: Option<u64> = match epos {
        Some(i) => {
            let n = s.len();
            let r = parse_u64_range(s, i + 1, n);
            proof {
                assert(s@.subrange(i + 1, s@.len() as int) =~= s@.skip(i + 1));
            }
            r
        }
        None => Some(0u64),
    };
    proof {
        if epos is Some {
            assert(s@.take(base_end as int) =~= s@.subrange(0, base_end as int));
        } else {
            assert(s@.subrange(0, base_end as int) =~= s@);
        }
    }
    let e: u64 = match expv {
        None => {
            return None;
        }
        Some(e) => e,
    };
    let ghost base: Seq<char> = match epos {
        Some(i) => s@.take(i as int),
        None => s@,
    };
    proof {
        assert(base =~= s@.subrange(0, base_end as int));
    }
    let dot = find_char_range(s, '.', 0, base_end);
    match dot {
        None => {
            let iv = parse_u64_range(s, 0, base_end);
            match iv {
                None => None,
                Some(iv) => float_of_parts(iv, 0, 0, e),
            }
        }
        Some(j) => {
            let iv = parse_u64_range(s, 0, j);
            let fv = parse_u64_range(s, j + 1, base_end);
            proof {
                assert(base.take(j as int) =~= s@.subrange(0, j as int));
                assert(base.skip(j + 1) =~= s@.subrange(j + 1, base_end as int));
            }
            match (iv, fv) {
                (Some(iv), Some(fv)) => float_of_parts(
                    iv,
                    base_end - j - 1,
                    fv,
                    e,
                ),
                _ => None,
            }
        }
    }
}

fn find_char_range(s: &Vec<char>, c: char, from: usize, to: usize) -> (r: Option<usize>)
    requires
        from <= to <= s@.len(),
    ensures
        match r {
            Some(k) => from <= k < to && spec_find_char(
                s@.subrange(from as int, to as int),
                c,
            ) == Some(k - from),
            None => spec_find_char(s@.subrange(from as int, to as int), c) is None,
        },
    decreases to - from,
{
    proof {
        assert(s@.subrange(from as int, to as int).len() == to - from);
    }
    if from == to {
        return None;
    }
    proof {
        assert(s@.subrange(from as int, to as int)[0] == s@[from as int]);
    }
    if s[from] == c {
        return Some(from);
    }
    let r = find_char_range(s, c, from + 1, to);
    proof {
        assert(s@.subrange(from as int, to as int).drop_first() =~= s@.subrange(
            from + 1,
            to as int,
        ));
    }
    match r {
        Some(k) => Some(k),
        None => None,
    }
}

fn float_of_parts(int_val: u64, frac_digits: usize, frac_val: u64, exp_val: u64) -> (r: Option<
    Decimal,
>)
    ensures
        r == spec_float_of_parts(int_val, frac_digits as int, frac_val, exp_val),
{
    if frac_digits > 18 {
        return None;
    }
    let p = pow10_u64(frac_digits);
    proof {
        lemma_pow10_u64_pos(frac_digits as int);
    }
    if int_val > (u64::MAX - frac_val) / p {
        return None;
    }
    proof {
        vstd::arithmetic::div_mod::lemma_fundamental_div_mod((u64::MAX - frac_val) as int, p as int);
        assert(int_val * p <= ((u64::MAX - frac_val) as int / p as int) * p) by (nonlinear_arith)
            requires
                0 <= int_val <= (u64::MAX - frac_val) as int / p as int,
                p >= 1,
        ;
        assert(((u64::MAX - frac_val) as int / p as int) * p <= (u64::MAX - frac_val) as int) by {
            vstd::arithmetic::div_mod::lemma_fundamental_div_mod(
                (u64::MAX - frac_val) as int,
                p as int,
            );
            assert(0 <= (u64::MAX - frac_val) as int % (p as int) < p as int) by {
                vstd::arithmetic::div_mod::lemma_mod_bound((u64::MAX - frac_val) as int, p as int);
            }
        }
    }
    let mant: u64 = int_val * p + frac_val;
    if exp_val > 9999 {
        return None;
    }
    let e: i64 = exp_val as i64 - frac_digits as i64;
    proof {
        assert(e >= -9999);
    }
    Some(Decimal { neg: false, mant, exp: e as i32 })
}

} // verus!
