//! The binary and unary operators of the value model, each with an exact
//! specification: integer arithmetic wraps at its width, division is
//! checked, shifts demand an in-range count, a list absorbs what is added
//! to it, and adding to a string stringifies the other operand.

use vstd::prelude::*;

verus! {

use crate::decimal::{
    dec_add, dec_div, dec_mul, dec_neg, dec_sub, spec_dec_add, spec_dec_div, spec_dec_mul,
    spec_dec_neg, spec_dec_sub, Decimal,
};
use crate::errors::ValueError;
use crate::text::{chars_of, string_from_chars};
use crate::value::{
    lemma_list_view, lemma_list_view_push, list_view, Value, ValueV,
};
use crate::value_text::{
    debug_chars, display_chars, spec_value_debug, spec_value_display,
};

/// The shape of an operator's outcome.
pub open spec fn spec_result_view(r: Result<Value, ValueError>) -> Result<ValueV, ValueError> {
    match r {
        Ok(v) => Ok(crate::value::value_view(v)),
        Err(e) => Err(e),
    }
}

/// Truncating signed division, as the machine divides.
pub open spec fn spec_trunc_div(x: int, y: int) -> int {
    let q = (if x < 0 {
        -x
    } else {
        x
    }) / (if y < 0 {
        -y
    } else {
        y
    });
    if (x < 0) != (y < 0) {
        -q
    } else {
        q
    }
}

/// Negation: defined on the signed integer and decimal variants.
pub open spec fn spec_value_neg(v: ValueV) -> Result<ValueV, ValueError> {
    match v {
        ValueV::I32(x) => Ok(ValueV::I32((0i32).wrapping_sub(x))),
        ValueV::I64(x) => Ok(ValueV::I64((0i64).wrapping_sub(x))),
        ValueV::F32(d) => Ok(ValueV::F32(spec_dec_neg(d))),
        ValueV::F64(d) => Ok(ValueV::F64(spec_dec_neg(d))),
        _ => Err(ValueError::CannotNegate),
    }
}

/// Negate a value.
pub fn value_neg(v: &Value) -> (r: Result<Value, ValueError>)
    ensures
        spec_result_view(r) == spec_value_neg(v@),
{
    match v {
        Value::I32(x) => Ok(Value::I32((0i32).wrapping_sub(*x))),
        Value::I64(x) => Ok(Value::I64((0i64).wrapping_sub(*x))),
        Value::F32(d) => Ok(Value::F32(dec_neg(d))),
        Value::F64(d) => Ok(Value::F64(dec_neg(d))),
        _ => Err(ValueError::CannotNegate),
    }
}

/// Whether a value's display form may be appended to a string by `+`.
pub open spec fn spec_string_appendable(v: ValueV) -> bool {
    match v {
        ValueV::I32(_) | ValueV::I64(_) | ValueV::U32(_) | ValueV::U64(_) | ValueV::F32(_)
            | ValueV::F64(_) | ValueV::Bool(_) | ValueV::Char(_) | ValueV::Str(_) => true,
        _ => false,
    }
}

/// Addition. A list operand absorbs the other side; integer pairs of one
/// width wrap; decimal pairs add exactly or fail; a string operand on
/// either side concatenates, stringifying the other operand.
pub open spec fn spec_value_add(a: ValueV, b: ValueV) -> Result<ValueV, ValueError> {
    if a is List {
        Ok(ValueV::List(a->List_0.push(b)))
    } else if b is List {
        Ok(ValueV::List(b->List_0.push(a)))
    } else {
        match (a, b) {
            (ValueV::I32(x), ValueV::I32(y)) => Ok(ValueV::I32(x.wrapping_add(y))),
            (ValueV::I64(x), ValueV::I64(y)) => Ok(ValueV::I64(x.wrapping_add(y))),
            (ValueV::U32(x), ValueV::U32(y)) => Ok(ValueV::U32(x.wrapping_add(y))),
            (ValueV::U64(x), ValueV::U64(y)) => Ok(ValueV::U64(x.wrapping_add(y))),
            (ValueV::F32(x), ValueV::F32(y)) => match spec_dec_add(x, y) {
                Some(d) => Ok(ValueV::F32(d)),
                None => Err(ValueError::CannotAdd),
            },
            (ValueV::F64(x), ValueV::F64(y)) => match spec_dec_add(x, y) {
                Some(d) => Ok(ValueV::F64(d)),
                None => Err(ValueError::CannotAdd),
            },
            (ValueV::Str(s), ValueV::Mapping(es)) => Ok(
                ValueV::Str(s + spec_value_debug(ValueV::Mapping(es))),
            ),
            (ValueV::Mapping(es), ValueV::Str(s)) => Ok(
                ValueV::Str(spec_value_debug(ValueV::Mapping(es)) + s),
            ),
            (ValueV::Str(s), other) => if spec_string_appendable(other) {
                Ok(ValueV::Str(s + spec_value_display(other)))
            } else {
                Err(ValueError::CannotAdd)
            },
            (other, ValueV::Str(s)) => if spec_string_appendable(other) {
                Ok(ValueV::Str(spec_value_display(other) + s))
            } else {
                Err(ValueError::CannotAdd)
            },
            _ => Err(ValueError::CannotAdd),
        }
    }
}

/// Add two values.
#[verifier::loop_isolation(false)]
pub fn value_add(a: &Value, b: &Value) -> (r: Result<Value, ValueError>)
    ensures
        spec_result_view(r) == spec_value_add(a@, b@),
{
    broadcast use lemma_list_view, lemma_list_view_push;

    if let Value::List(x) = a {
        let mut out = crate::value::clone_values(x);
        out.push(b.clone());
        proof {
            assert(a@ == ValueV::List(list_view(x@)));
            assert(list_view(out@) == list_view(x@).push(b@));
        }
        return Ok(Value::List(out));
    }
    if let Value::List(y) = b {
        let mut out = crate::value::clone_values(y);
        out.push(a.clone());
        proof {
            assert(b@ == ValueV::List(list_view(y@)));
            assert(list_view(out@) == list_view(y@).push(a@));
        }
        return Ok(Value::List(out));
    }
    match (a, b) {
        (Value::I32(x), Value::I32(y)) => Ok(Value::I32(x.wrapping_add(*y))),
        (Value::I64(x), Value::I64(y)) => Ok(Value::I64(x.wrapping_add(*y))),
        (Value::U32(x), Value::U32(y)) => Ok(Value::U32(x.wrapping_add(*y))),
        (Value::U64(x), Value::U64(y)) => Ok(Value::U64(x.wrapping_add(*y))),
        (Value::F32(x), Value::F32(y)) => match dec_add(x, y) {
            Some(d) => Ok(Value::F32(d)),
            None => Err(ValueError::CannotAdd),
        },
        (Value::F64(x), Value::F64(y)) => match dec_add(x, y) {
            Some(d) => Ok(Value::F64(d)),
            None => Err(ValueError::CannotAdd),
        },
        (Value::String(s), _) => {
            let appended: Option<Vec<char>> = match b {
                Value::I32(_) | Value::I64(_) | Value::U32(_) | Value::U64(_) | Value::F32(_)
                    | Value::F64(_) | Value::Bool(_) | Value::Char(_) | Value::String(_) => Some(
                    display_chars(b),
                ),
                Value::Mapping(_) => Some(debug_chars(b)),
                _ => None,
            };
            match appended {
                Some(tail) => {
                    let cs = chars_of(s.as_str());
                    let joined = concat_chars(&cs, &tail);
                    Ok(Value::String(string_from_chars(&joined)))
                }
                None => Err(ValueError::CannotAdd),
            }
        }
        (_, Value::String(s)) => {
            let prefixed: Option<Vec<char>> = match a {
                Value::I32(_) | Value::I64(_) | Value::U32(_) | Value::U64(_) | Value::F32(_)
                    | Value::F64(_) | Value::Bool(_) | Value::Char(_) => Some(display_chars(a)),
                Value::Mapping(_) => Some(debug_chars(a)),
                _ => None,
            };
            match prefixed {
                Some(head) => {
                    let cs = chars_of(s.as_str());
                    let joined = concat_chars(&head, &cs);
                    Ok(Value::String(string_from_chars(&joined)))
                }
                None => Err(ValueError::CannotAdd),
            }
        }
        _ => Err(ValueError::CannotAdd),
    }
}

/// Join two character vectors.
fn concat_chars(head: &Vec<char>, tail: &Vec<char>) -> (r: Vec<char>)
    ensures
        r@ == head@ + tail@,
{
    let mut out: Vec<char> = Vec::new();
    let mut i: usize = 0;
    let n = head.len();
    while i < n
        invariant
            n == head@.len(),
            i <= n,
            out@ == head@.take(i as int),
        decreases n - i,
    {
        out.push(head[i]);
        proof {
            assert(out@ =~= head@.take(i + 1));
        }
        i = i + 1;
    }
    proof {
        assert(head@.take(n as int) =~= head@);
    }
    let mut k: usize = 0;
    let m = tail.len();
    while k < m
        invariant
            m == tail@.len(),
            k <= m,
            out@ == head@ + tail@.take(k as int),
        decreases m - k,
    {
        out.push(tail[k]);
        proof {
            assert(out@ =~= head@ + tail@.take(k + 1));
        }
        k = k + 1;
    }
    proof {
        assert(head@ + tail@.take(m as int) =~= head@ + tail@);
    }
    out
}

/// Subtraction: integer pairs of one width wrap; decimal pairs subtract
/// exactly or fail.
pub open spec fn spec_value_sub(a: ValueV, b: ValueV) -> Result<ValueV, ValueError> {
    match (a, b) {
        (ValueV::I32(x), ValueV::I32(y)) => Ok(ValueV::I32(x.wrapping_sub(y))),
        (ValueV::I64(x), ValueV::I64(y)) => Ok(ValueV::I64(x.wrapping_sub(y))),
        (ValueV::U32(x), ValueV::U32(y)) => Ok(ValueV::U32(x.wrapping_sub(y))),
        (ValueV::U64(x), ValueV::U64(y)) => Ok(ValueV::U64(x.wrapping_sub(y))),
        (ValueV::F32(x), ValueV::F32(y)) => match spec_dec_sub(x, y) {
            Some(d) => Ok(ValueV::F32(d)),
            None => Err(ValueError::CannotSubtract),
        },
        (ValueV::F64(x), ValueV::F64(y)) => match spec_dec_sub(x, y) {
            Some(d) => Ok(ValueV::F64(d)),
            None => Err(ValueError::CannotSubtract),
        },
        _ => Err(ValueError::CannotSubtract),
    }
}

/// Subtract two values.
pub fn value_sub(a: &Value, b: &Value) -> (r: Result<Value, ValueError>)
    ensures
        spec_result_view(r) == spec_value_sub(a@, b@),
{
    match (a, b) {
        (Value::I32(x), Value::I32(y)) => Ok(Value::I32(x.wrapping_sub(*y))),
        (Value::I64(x), Value::I64(y)) => Ok(Value::I64(x.wrapping_sub(*y))),
        (Value::U32(x), Value::U32(y)) => Ok(Value::U32(x.wrapping_sub(*y))),
        (Value::U64(x), Value::U64(y)) => Ok(Value::U64(x.wrapping_sub(*y))),
        (Value::F32(x), Value::F32(y)) => match dec_sub(x, y) {
            Some(d) => Ok(Value::F32(d)),
            None => Err(ValueError::CannotSubtract),
        },
        (Value::F64(x), Value::F64(y)) => match dec_sub(x, y) {
            Some(d) => Ok(Value::F64(d)),
            None => Err(ValueError::CannotSubtract),
        },
        _ => Err(ValueError::CannotSubtract),
    }
}

/// Multiplication: integer pairs of one width wrap; decimal pairs
/// multiply exactly or fail.
pub open spec fn spec_value_mul(a: ValueV, b: ValueV) -> Result<ValueV, ValueError> {
    match (a, b) {
        (ValueV::I32(x), ValueV::I32(y)) => Ok(ValueV::I32(x.wrapping_mul(y))),
        (ValueV::I64(x), ValueV::I64(y)) => Ok(ValueV::I64(x.wrapping_mul(y))),
        (ValueV::U32(x), ValueV::U32(y)) => Ok(ValueV::U32(x.wrapping_mul(y))),
        (ValueV::U64(x), ValueV::U64(y)) => Ok(ValueV::U64(x.wrapping_mul(y))),
        (ValueV::F32(x), ValueV::F32(y)) => match spec_dec_mul(x, y) {
            Some(d) => Ok(ValueV::F32(d)),
            None => Err(ValueError::CannotMultiply),
        },
        (ValueV::F64(x), ValueV::F64(y)) => match spec_dec_mul(x, y) {
            Some(d) => Ok(ValueV::F64(d)),
            None => Err(ValueError::CannotMultiply),
        },
        _ => Err(ValueError::CannotMultiply),
    }
}

/// Multiply two values.
pub fn value_mul(a: &Value, b: &Value) -> (r: Result<Value, ValueError>)
    ensures
        spec_result_view(r) == spec_value_mul(a@, b@),
{
    match (a, b) {
        (Value::I32(x), Value::I32(y)) => Ok(Value::I32(x.wrapping_mul(*y))),
        (Value::I64(x), Value::I64(y)) => Ok(Value::I64(x.wrapping_mul(*y))),
        (Value::U32(x), Value::U32(y)) => Ok(Value::U32(x.wrapping_mul(*y))),
        (Value::U64(x), Value::U64(y)) => Ok(Value::U64(x.wrapping_mul(*y))),
        (Value::F32(x), Value::F32(y)) => match dec_mul(x, y) {
            Some(d) => Ok(Value::F32(d)),
            None => Err(ValueError::CannotMultiply),
        },
        (Value::F64(x), Value::F64(y)) => match dec_mul(x, y) {
            Some(d) => Ok(Value::F64(d)),
            None => Err(ValueError::CannotMultiply),
        },
        _ => Err(ValueError::CannotMultiply),
    }
}

/// Division: checked on integers (division by zero and the one signed
/// overflow fail), truncating nineteen places down on decimals.
pub open spec fn spec_value_div(a: ValueV, b: ValueV) -> Result<ValueV, ValueError> {
    match (a, b) {
        (ValueV::I32(x), ValueV::I32(y)) => if y == 0 || (x == i32::MIN && y == -1) {
            Err(ValueError::CannotDivide)
        } else {
            Ok(ValueV::I32(spec_trunc_div(x as int, y as int) as i32))
        },
        (ValueV::I64(x), ValueV::I64(y)) => if y == 0 || (x == i64::MIN && y == -1) {
            Err(ValueError::CannotDivide)
        } else {
            Ok(ValueV::I64(spec_trunc_div(x as int, y as int) as i64))
        },
        (ValueV::U32(x), ValueV::U32(y)) => if y == 0 {
            Err(ValueError::CannotDivide)
        } else {
            Ok(ValueV::U32((x as int / y as int) as u32))
        },
        (ValueV::U64(x), ValueV::U64(y)) => if y == 0 {
            Err(ValueError::CannotDivide)
        } else {
            Ok(ValueV::U64((x as int / y as int) as u64))
        },
        (ValueV::F32(x), ValueV::F32(y)) => match spec_dec_div(x, y) {
            Some(d) => Ok(ValueV::F32(d)),
            None => Err(ValueError::CannotDivide),
        },
        (ValueV::F64(x), ValueV::F64(y)) => match spec_dec_div(x, y) {
            Some(d) => Ok(ValueV::F64(d)),
            None => Err(ValueError::CannotDivide),
        },
        _ => Err(ValueError::CannotDivide),
    }
}

fn div_i64(x: i64, y: i64) -> (q: i64)
    requires
        y != 0,
        !(x == i64::MIN && y == -1),
    ensures
        q as int == spec_trunc_div(x as int, y as int),
{
    let xm: u64 = if x < 0 {
        ((-(x as i128)) as u64)
    } else {
        x as u64
    };
    let ym: u64 = if y < 0 {
        ((-(y as i128)) as u64)
    } else {
        y as u64
    };
    let qm: u64 = xm / ym;
    proof {
        vstd::arithmetic::div_mod::lemma_div_nonincreasing(xm as int, ym as int);
        assert(xm as int == if x < 0 { -(x as int) } else { x as int });
        assert(ym as int == if y < 0 { -(y as int) } else { y as int });
        if x < 0 && y < 0 && x != i64::MIN {
            assert(qm <= xm < 0x8000_0000_0000_0000);
        }
        if x == i64::MIN && y < 0 {
            assert(ym >= 2);
            vstd::arithmetic::div_mod::lemma_div_is_ordered_by_denominator(
                xm as int,
                2,
                ym as int,
            );
            assert(qm as int <= xm as int / 2);
        }
    }
    if (x < 0) != (y < 0) {
        (-(qm as i128)) as i64
    } else {
        qm as i64
    }
}

/// Divide two values.
pub fn value_div(a: &Value, b: &Value) -> (r: Result<Value, ValueError>)
    ensures
        spec_result_view(r) == spec_value_div(a@, b@),
{
    match (a, b) {
        (Value::I32(x), Value::I32(y)) => {
            if *y == 0 || (*x == i32::MIN && *y == -1) {
                Err(ValueError::CannotDivide)
            } else {
                let q = div_i64(*x as i64, *y as i64);
                Ok(Value::I32(q as i32))
            }
        }
        (Value::I64(x), Value::I64(y)) => {
            if *y == 0 || (*x == i64::MIN && *y == -1) {
                Err(ValueError::CannotDivide)
            } else {
                Ok(Value::I64(div_i64(*x, *y)))
            }
        }
        (Value::U32(x), Value::U32(y)) => {
            if *y == 0 {
                Err(ValueError::CannotDivide)
            } else {
                Ok(Value::U32(*x / *y))
            }
        }
        (Value::U64(x), Value::U64(y)) => {
            if *y == 0 {
                Err(ValueError::CannotDivide)
            } else {
                Ok(Value::U64(*x / *y))
            }
        }
        (Value::F32(x), Value::F32(y)) => match dec_div(x, y) {
            Some(d) => Ok(Value::F32(d)),
            None => Err(ValueError::CannotDivide),
        },
        (Value::F64(x), Value::F64(y)) => match dec_div(x, y) {
            Some(d) => Ok(Value::F64(d)),
            None => Err(ValueError::CannotDivide),
        },
        _ => Err(ValueError::CannotDivide),
    }
}

/// Bitwise conjunction on the integer variants.
pub open spec fn spec_value_bitand(a: ValueV, b: ValueV) -> Result<ValueV, ValueError> {
    match (a, b) {
        (ValueV::I32(x), ValueV::I32(y)) => Ok(ValueV::I32(x & y)),
        (ValueV::I64(x), ValueV::I64(y)) => Ok(ValueV::I64(x & y)),
        (ValueV::U32(x), ValueV::U32(y)) => Ok(ValueV::U32(x & y)),
        (ValueV::U64(x), ValueV::U64(y)) => Ok(ValueV::U64(x & y)),
        _ => Err(ValueError::CannotBitAnd),
    }
}

/// Bitwise conjunction.
pub fn value_bitand(a: &Value, b: &Value) -> (r: Result<Value, ValueError>)
    ensures
        spec_result_view(r) == spec_value_bitand(a@, b@),
{
    match (a, b) {
        (Value::I32(x), Value::I32(y)) => Ok(Value::I32(*x & *y)),
        (Value::I64(x), Value::I64(y)) => Ok(Value::I64(*x & *y)),
        (Value::U32(x), Value::U32(y)) => Ok(Value::U32(*x & *y)),
        (Value::U64(x), Value::U64(y)) => Ok(Value::U64(*x & *y)),
        _ => Err(ValueError::CannotBitAnd),
    }
}

/// Bitwise disjunction on the integer variants.
pub open spec fn spec_value_bitor(a: ValueV, b: ValueV) -> Result<ValueV, ValueError> {
    match (a, b) {
        (ValueV::I32(x), ValueV::I32(y)) => Ok(ValueV::I32(x | y)),
        (ValueV::I64(x), ValueV::I64(y)) => Ok(ValueV::I64(x | y)),
        (ValueV::U32(x), ValueV::U32(y)) => Ok(ValueV::U32(x | y)),
        (ValueV::U64(x), ValueV::U64(y)) => Ok(ValueV::U64(x | y)),
        _ => Err(ValueError::CannotBitOr),
    }
}

/// Bitwise disjunction.
pub fn value_bitor(a: &Value, b: &Value) -> (r: Result<Value, ValueError>)
    ensures
        spec_result_view(r) == spec_value_bitor(a@, b@),
{
    match (a, b) {
        (Value::I32(x), Value::I32(y)) => Ok(Value::I32(*x | *y)),
        (Value::I64(x), Value::I64(y)) => Ok(Value::I64(*x | *y)),
        (Value::U32(x), Value::U32(y)) => Ok(Value::U32(*x | *y)),
        (Value::U64(x), Value::U64(y)) => Ok(Value::U64(*x | *y)),
        _ => Err(ValueError::CannotBitOr),
    }
}

/// Bitwise exclusive disjunction on the integer variants.
pub open spec fn spec_value_bitxor(a: ValueV, b: ValueV) -> Result<ValueV, ValueError> {
    match (a, b) {
        (ValueV::I32(x), ValueV::I32(y)) => Ok(ValueV::I32(x ^ y)),
        (ValueV::I64(x), ValueV::I64(y)) => Ok(ValueV::I64(x ^ y)),
        (ValueV::U32(x), ValueV::U32(y)) => Ok(ValueV::U32(x ^ y)),
        (ValueV::U64(x), ValueV::U64(y)) => Ok(ValueV::U64(x ^ y)),
        _ => Err(ValueError::CannotBitXor),
    }
}

/// Bitwise exclusive disjunction.
pub fn value_bitxor(a: &Value, b: &Value) -> (r: Result<Value, ValueError>)
    ensures
        spec_result_view(r) == spec_value_bitxor(a@, b@),
{
    match (a, b) {
        (Value::I32(x), Value::I32(y)) => Ok(Value::I32(*x ^ *y)),
        (Value::I64(x), Value::I64(y)) => Ok(Value::I64(*x ^ *y)),
        (Value::U32(x), Value::U32(y)) => Ok(Value::U32(*x ^ *y)),
        (Value::U64(x), Value::U64(y)) => Ok(Value::U64(*x ^ *y)),
        _ => Err(ValueError::CannotBitXor),
    }
}

/// Logical or bitwise complement: booleans negate, integers flip bits.
pub open spec fn spec_value_not(v: ValueV) -> Result<ValueV, ValueError> {
    match v {
        ValueV::Bool(b) => Ok(ValueV::Bool(!b)),
        ValueV::I32(x) => Ok(ValueV::I32(x ^ -1i32)),
        ValueV::I64(x) => Ok(ValueV::I64(x ^ -1i64)),
        ValueV::U32(x) => Ok(ValueV::U32(x ^ u32::MAX)),
        ValueV::U64(x) => Ok(ValueV::U64(x ^ u64::MAX)),
        _ => Err(ValueError::CannotNot),
    }
}

/// Complement a value.
pub fn value_not(v: &Value) -> (r: Result<Value, ValueError>)
    ensures
        spec_result_view(r) == spec_value_not(v@),
{
    match v {
        Value::Bool(b) => Ok(Value::Bool(!*b)),
        Value::I32(x) => Ok(Value::I32(*x ^ -1i32)),
        Value::I64(x) => Ok(Value::I64(*x ^ -1i64)),
        Value::U32(x) => Ok(Value::U32(*x ^ u32::MAX)),
        Value::U64(x) => Ok(Value::U64(*x ^ u64::MAX)),
        _ => Err(ValueError::CannotNot),
    }
}

/// Left shift: defined on same-width integer pairs with a shift count
/// inside the width.
pub open spec fn spec_value_shl(a: ValueV, b: ValueV) -> Result<ValueV, ValueError> {
    match (a, b) {
        (ValueV::I32(x), ValueV::I32(y)) => if 0 <= y < 32 {
            Ok(ValueV::I32(x << y))
        } else {
            Err(ValueError::CannotShiftLeft)
        },
        (ValueV::I64(x), ValueV::I64(y)) => if 0 <= y < 64 {
            Ok(ValueV::I64(x << y))
        } else {
            Err(ValueError::CannotShiftLeft)
        },
        (ValueV::U32(x), ValueV::U32(y)) => if y < 32 {
            Ok(ValueV::U32(x << y))
        } else {
            Err(ValueError::CannotShiftLeft)
        },
        (ValueV::U64(x), ValueV::U64(y)) => if y < 64 {
            Ok(ValueV::U64(x << y))
        } else {
            Err(ValueError::CannotShiftLeft)
        },
        _ => Err(ValueError::CannotShiftLeft),
    }
}

/// Shift a value left.
pub fn value_shl(a: &Value, b: &Value) -> (r: Result<Value, ValueError>)
    ensures
        spec_result_view(r) == spec_value_shl(a@, b@),
{
    match (a, b) {
        (Value::I32(x), Value::I32(y)) => if 0 <= *y && *y < 32 {
            Ok(Value::I32(*x << *y))
        } else {
            Err(ValueError::CannotShiftLeft)
        },
        (Value::I64(x), Value::I64(y)) => if 0 <= *y && *y < 64 {
            Ok(Value::I64(*x << *y))
        } else {
            Err(ValueError::CannotShiftLeft)
        },
        (Value::U32(x), Value::U32(y)) => if *y < 32 {
            Ok(Value::U32(*x << *y))
        } else {
            Err(ValueError::CannotShiftLeft)
        },
        (Value::U64(x), Value::U64(y)) => if *y < 64 {
            Ok(Value::U64(*x << *y))
        } else {
            Err(ValueError::CannotShiftLeft)
        },
        _ => Err(ValueError::CannotShiftLeft),
    }
}

/// Right shift: defined on same-width integer pairs with a shift count
/// inside the width.
pub open spec fn spec_value_shr(a: ValueV, b: ValueV) -> Result<ValueV, ValueError> {
    match (a, b) {
        (ValueV::I32(x), ValueV::I32(y)) => if 0 <= y < 32 {
            Ok(ValueV::I32(x >> y))
        } else {
            Err(ValueError::CannotShiftRight)
        },
        (ValueV::I64(x), ValueV::I64(y)) => if 0 <= y < 64 {
            Ok(ValueV::I64(x >> y))
        } else {
            Err(ValueError::CannotShiftRight)
        },
        (ValueV::U32(x), ValueV::U32(y)) => if y < 32 {
            Ok(ValueV::U32(x >> y))
        } else {
            Err(ValueError::CannotShiftRight)
        },
        (ValueV::U64(x), ValueV::U64(y)) => if y < 64 {
            Ok(ValueV::U64(x >> y))
        } else {
            Err(ValueError::CannotShiftRight)
        },
        _ => Err(ValueError::CannotShiftRight),
    }
}

/// Shift a value right.
pub fn value_shr(a: &Value, b: &Value) -> (r: Result<Value, ValueError>)
    ensures
        spec_result_view(r) == spec_value_shr(a@, b@),
{
    match (a, b) {
        (Value::I32(x), Value::I32(y)) => if 0 <= *y && *y < 32 {
            Ok(Value::I32(*x >> *y))
        } else {
            Err(ValueError::CannotShiftRight)
        },
        (Value::I64(x), Value::I64(y)) => if 0 <= *y && *y < 64 {
            Ok(Value::I64(*x >> *y))
        } else {
            Err(ValueError::CannotShiftRight)
        },
        (Value::U32(x), Value::U32(y)) => if *y < 32 {
            Ok(Value::U32(*x >> *y))
        } else {
            Err(ValueError::CannotShiftRight)
        },
        (Value::U64(x), Value::U64(y)) => if *y < 64 {
            Ok(Value::U64(*x >> *y))
        } else {
            Err(ValueError::CannotShiftRight)
        },
        _ => Err(ValueError::CannotShiftRight),
    }
}

/// Logical conjunction on boolean pairs.
pub open spec fn spec_value_and(a: ValueV, b: ValueV) -> Result<ValueV, ValueError> {
    match (a, b) {
        (ValueV::Bool(x), ValueV::Bool(y)) => Ok(ValueV::Bool(x && y)),
        _ => Err(ValueError::CannotAnd),
    }
}

/// Logical conjunction.
pub fn value_and(a: &Value, b: &Value) -> (r: Result<Value, ValueError>)
    ensures
        spec_result_view(r) == spec_value_and(a@, b@),
{
    match (a, b) {
        (Value::Bool(x), Value::Bool(y)) => Ok(Value::Bool(*x && *y)),
        _ => Err(ValueError::CannotAnd),
    }
}

/// Logical disjunction on boolean pairs.
pub open spec fn spec_value_or(a: ValueV, b: ValueV) -> Result<ValueV, ValueError> {
    match (a, b) {
        (ValueV::Bool(x), ValueV::Bool(y)) => Ok(ValueV::Bool(x || y)),
        _ => Err(ValueError::CannotCompare),
    }
}

/// Logical disjunction.
pub fn value_or(a: &Value, b: &Value) -> (r: Result<Value, ValueError>)
    ensures
        spec_result_view(r) == spec_value_or(a@, b@),
{
    match (a, b) {
        (Value::Bool(x), Value::Bool(y)) => Ok(Value::Bool(*x || *y)),
        _ => Err(ValueError::CannotCompare),
    }
}

} // verus!
