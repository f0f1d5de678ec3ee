//! The virtual machine: executes one chunk against an operand stack and a
//! name-keyed local-variable store, resolving calls against the registry
//! and the builtins table. Execution is pinned to a step specification:
//! a run that returns a value returns exactly the value the specification
//! names, and it fails exactly where the specification has no value.

use std::io::Write;
use vstd::prelude::*;

verus! {

use crate::builtins::{call_builtin_owned, spec_call_builtin};
use crate::chunk::{Chunk, ChunkV};
use crate::errors::{RuntimeError, RuntimeErrorV, ValueError};
use crate::registry::{spec_assoc, Registry};
use crate::value::{
    fields_view, lemma_fields_view, lemma_fields_view_push, lemma_list_view, lemma_list_view_push,
    list_view, spec_value_cmp, spec_value_eq, value_cmp, value_eq, StructValue, Value, ValueOrder,
    ValueV,
};
use crate::value_ops::{
    spec_value_add, spec_value_and, spec_value_bitand, spec_value_bitor,
    spec_value_bitxor, spec_value_div, spec_value_mul, spec_value_neg, spec_value_not,
    spec_value_or, spec_value_shl, spec_value_shr, spec_value_sub, value_add, value_and,
    value_bitand, value_bitor, value_bitxor, value_div, value_mul, value_neg, value_not, value_or,
    value_shl, value_shr, value_sub,
};
use crate::value_text::display_string;

pub const OP_CONSTANT: u16 = 1;

pub const OP_ADD: u16 = 2;

pub const OP_SUBTRACT: u16 = 3;

pub const OP_MULTIPLY: u16 = 4;

pub const OP_DIVIDE: u16 = 5;

pub const OP_NEGATE: u16 = 6;

pub const OP_PRINT: u16 = 7;

pub const OP_RETURN: u16 = 8;

pub const OP_CALL: u16 = 9;

pub const OP_AND: u16 = 11;

pub const OP_OR: u16 = 12;

pub const OP_NOT: u16 = 13;

pub const OP_EQUAL: u16 = 14;

pub const OP_GREATER: u16 = 15;

pub const OP_LESS: u16 = 16;

pub const OP_NOT_EQUAL: u16 = 17;

pub const OP_GREATER_EQUAL: u16 = 18;

pub const OP_LESS_EQUAL: u16 = 19;

pub const OP_BITAND: u16 = 20;

pub const OP_BITOR: u16 = 21;

pub const OP_BITXOR: u16 = 22;

pub const OP_SHR: u16 = 23;

pub const OP_SHL: u16 = 24;

pub const OP_GET: u16 = 27;

pub const OP_DEF_LIST: u16 = 36;

pub const OP_DEF_MAP: u16 = 37;

pub const OP_ASSIGN: u16 = 41;

pub const OP_LIST_GET: u16 = 42;

pub const OP_CALL_BUILTIN: u16 = 43;

/// The call depth budget of one run: deeper recursion reports a runtime
/// error instead of exhausting the host's stack.
pub const MAX_CALL_DEPTH: u64 = 64;

/// Whether an opcode is a two-operand arithmetic, bitwise, logical or
/// comparison instruction.
pub open spec fn spec_is_binop(op: u16) -> bool {
    op == OP_ADD || op == OP_SUBTRACT || op == OP_MULTIPLY || op == OP_DIVIDE || op == OP_AND || op
        == OP_OR || op == OP_BITAND || op == OP_BITOR || op == OP_BITXOR || op == OP_SHL || op
        == OP_SHR || op == OP_EQUAL || op == OP_NOT_EQUAL || op == OP_GREATER || op
        == OP_GREATER_EQUAL || op == OP_LESS || op == OP_LESS_EQUAL
}

/// What a two-operand instruction yields on two values, or the exact
/// operator failure where it is not defined on them.
pub open spec fn spec_binop(op: u16, a: ValueV, b: ValueV) -> Result<ValueV, ValueError> {
    if op == OP_EQUAL {
        Ok(ValueV::Bool(spec_value_eq(a, b)))
    } else if op == OP_NOT_EQUAL {
        Ok(ValueV::Bool(!spec_value_eq(a, b)))
    } else if op == OP_GREATER {
        Ok(ValueV::Bool(spec_value_cmp(a, b) == ValueOrder::Greater))
    } else if op == OP_GREATER_EQUAL {
        Ok(
            ValueV::Bool(
                spec_value_cmp(a, b) == ValueOrder::Greater || spec_value_cmp(a, b)
                    == ValueOrder::Equal,
            ),
        )
    } else if op == OP_LESS {
        Ok(ValueV::Bool(spec_value_cmp(a, b) == ValueOrder::Less))
    } else if op == OP_LESS_EQUAL {
        Ok(
            ValueV::Bool(
                spec_value_cmp(a, b) == ValueOrder::Less || spec_value_cmp(a, b)
                    == ValueOrder::Equal,
            ),
        )
    } else {
        let r = if op == OP_ADD {
            spec_value_add(a, b)
        } else if op == OP_SUBTRACT {
            spec_value_sub(a, b)
        } else if op == OP_MULTIPLY {
            spec_value_mul(a, b)
        } else if op == OP_DIVIDE {
            spec_value_div(a, b)
        } else if op == OP_AND {
            spec_value_and(a, b)
        } else if op == OP_OR {
            spec_value_or(a, b)
        } else if op == OP_BITAND {
            spec_value_bitand(a, b)
        } else if op == OP_BITOR {
            spec_value_bitor(a, b)
        } else if op == OP_BITXOR {
            spec_value_bitxor(a, b)
        } else if op == OP_SHL {
            spec_value_shl(a, b)
        } else {
            spec_value_shr(a, b)
        };
        r
    }
}

fn binop(op: u16, a: &Value, b: &Value) -> (r: Result<Value, ValueError>)
    requires
        spec_is_binop(op),
    ensures
        match r {
            Ok(v) => spec_binop(op, a@, b@) == Ok::<ValueV, ValueError>(v@),
            Err(e) => spec_binop(op, a@, b@) == Err::<ValueV, ValueError>(e),
        },
{
    if op == OP_EQUAL {
        Ok(Value::Bool(value_eq(a, b)))
    } else if op == OP_NOT_EQUAL {
        Ok(Value::Bool(!value_eq(a, b)))
    } else if op == OP_GREATER {
        Ok(Value::Bool(value_cmp(a, b) == ValueOrder::Greater))
    } else if op == OP_GREATER_EQUAL {
        let c = value_cmp(a, b);
        Ok(Value::Bool(c == ValueOrder::Greater || c == ValueOrder::Equal))
    } else if op == OP_LESS {
        Ok(Value::Bool(value_cmp(a, b) == ValueOrder::Less))
    } else if op == OP_LESS_EQUAL {
        let c = value_cmp(a, b);
        Ok(Value::Bool(c == ValueOrder::Less || c == ValueOrder::Equal))
    } else {
        let r = if op == OP_ADD {
            value_add(a, b)
        } else if op == OP_SUBTRACT {
            value_sub(a, b)
        } else if op == OP_MULTIPLY {
            value_mul(a, b)
        } else if op == OP_DIVIDE {
            value_div(a, b)
        } else if op == OP_AND {
            value_and(a, b)
        } else if op == OP_OR {
            value_or(a, b)
        } else if op == OP_BITAND {
            value_bitand(a, b)
        } else if op == OP_BITOR {
            value_bitor(a, b)
        } else if op == OP_BITXOR {
            value_bitxor(a, b)
        } else if op == OP_SHL {
            value_shl(a, b)
        } else {
            value_shr(a, b)
        };
        r
    }
}

/// The value filed under a key in the local-variable store.
pub open spec fn spec_locals_get(locals: Seq<(Seq<char>, ValueV)>, name: Seq<char>) -> Option<
    ValueV,
> {
    spec_assoc(locals, name)
}

/// The store with `name` bound to `value`.
pub open spec fn spec_locals_put(
    locals: Seq<(Seq<char>, ValueV)>,
    name: Seq<char>,
    value: ValueV,
) -> Seq<(Seq<char>, ValueV)> {
    crate::registry::spec_assoc_put(locals, name, value)
}

#[verifier::loop_isolation(false)]
fn locals_get(locals: &Vec<(String, Value)>, name: &str) -> (r: Option<Value>)
    ensures
        match r {
            Some(v) => spec_locals_get(fields_view(locals@), name@) == Some(v@),
            None => spec_locals_get(fields_view(locals@), name@) is None,
        },
{
    broadcast use lemma_fields_view;

    proof {
        crate::registry::lemma_assoc_first_match(fields_view(locals@), name@);
    }
    let n = locals.len();
    let mut i: usize = 0;
    while i < n
        invariant
            n == locals@.len(),
            i <= n,
            forall|j: int| 0 <= j < i ==> fields_view(locals@)[j].0 != name@,
        decreases n - i,
    {
        if crate::text::str_eq(locals[i].0.as_str(), name) {
            proof {
                assert(fields_view(locals@)[i as int].0 == name@);
                assert(spec_assoc(fields_view(locals@), name@) == Some(
                    fields_view(locals@)[i as int].1,
                ));
            }
            return Some(locals[i].1.clone());
        }
        i = i + 1;
    }
    None
}

#[verifier::loop_isolation(false)]
fn locals_put(locals: &mut Vec<(String, Value)>, name: &str, value: Value)
    ensures
        fields_view(final(locals)@) == spec_locals_put(fields_view(old(locals)@), name@, value@),
    decreases old(locals)@.len(),
{
    broadcast use lemma_fields_view;

    let n = locals.len();
    let mut i: usize = 0;
    while i < n
        invariant
            locals == old(locals),
            n == locals@.len(),
            i <= n,
            forall|j: int| 0 <= j < i ==> fields_view(locals@)[j].0 != name@,
        decreases n - i,
    {
        if crate::text::str_eq(locals[i].0.as_str(), name) {
            let ghost vv = value@;
            locals.set(i, (name.to_owned(), value));
            proof {
                crate::registry::lemma_assoc_put_at(
                    fields_view(old(locals)@),
                    name@,
                    vv,
                    i as int,
                );
                assert(fields_view(locals@) =~= fields_view(old(locals)@).update(
                    i as int,
                    (name@, vv),
                ));
            }
            return ;
        }
        i = i + 1;
    }
    let ghost vv = value@;
    locals.push((name.to_owned(), value));
    proof {
        crate::registry::lemma_assoc_put_missing(fields_view(old(locals)@), name@, vv);
        assert(fields_view(locals@) =~= fields_view(old(locals)@).push((name@, vv)));
    }
}

/// The value filed under a structurally equal key in a map value.
pub open spec fn spec_map_get(entries: Seq<(ValueV, ValueV)>, key: ValueV) -> Option<ValueV>
    decreases entries.len(),
{
    if entries.len() == 0 {
        None
    } else if spec_value_eq(entries[0].0, key) {
        Some(entries[0].1)
    } else {
        spec_map_get(entries.drop_first(), key)
    }
}

/// A map with `key` now bound to `value`: the first structurally equal
/// key is rebound in place, or a new entry appended.
pub open spec fn spec_map_put(
    entries: Seq<(ValueV, ValueV)>,
    key: ValueV,
    value: ValueV,
) -> Seq<(ValueV, ValueV)>
    decreases entries.len(),
{
    if entries.len() == 0 {
        seq![(key, value)]
    } else if spec_value_eq(entries[0].0, key) {
        seq![(entries[0].0, value)] + entries.drop_first()
    } else {
        seq![entries[0]] + spec_map_put(entries.drop_first(), key, value)
    }
}

/// The map built from key-value pairs in order, later pairs rebinding
/// earlier keys: keys stay unique up to structural equality.
pub open spec fn spec_map_from(pairs: Seq<(ValueV, ValueV)>, k: nat) -> Seq<(ValueV, ValueV)>
    decreases k,
{
    if k == 0 {
        Seq::empty()
    } else {
        spec_map_put(spec_map_from(pairs, (k - 1) as nat), pairs[k - 1].0, pairs[k - 1].1)
    }
}

proof fn lemma_map_put_at(s: Seq<(ValueV, ValueV)>, key: ValueV, value: ValueV, i: int)
    requires
        0 <= i < s.len(),
        spec_value_eq(s[i].0, key),
        forall|j: int| 0 <= j < i ==> !spec_value_eq(s[j].0, key),
    ensures
        spec_map_put(s, key, value) == s.update(i, (s[i].0, value)),
    decreases s.len(),
{
    if i == 0 {
        assert(spec_map_put(s, key, value) =~= s.update(0, (s[0].0, value)));
    } else {
        lemma_map_put_at(s.drop_first(), key, value, i - 1);
        assert(forall|j: int| 1 <= j < s.len() ==> s.drop_first()[j - 1] == s[j]);
        assert(spec_map_put(s, key, value) =~= s.update(i, (s[i].0, value)));
    }
}

proof fn lemma_map_put_missing(s: Seq<(ValueV, ValueV)>, key: ValueV, value: ValueV)
    requires
        forall|j: int| 0 <= j < s.len() ==> !spec_value_eq(s[j].0, key),
    ensures
        spec_map_put(s, key, value) == s.push((key, value)),
    decreases s.len(),
{
    if s.len() == 0 {
        assert(spec_map_put(s, key, value) =~= s.push((key, value)));
    } else {
        lemma_map_put_missing(s.drop_first(), key, value);
        assert(forall|j: int| 1 <= j < s.len() ==> s.drop_first()[j - 1] == s[j]);
        assert(spec_map_put(s, key, value) =~= s.push((key, value)));
    }
}

/// Bind a key in a map, replacing a structurally equal key in place.
#[verifier::loop_isolation(false)]
fn map_put(entries: &mut Vec<(Value, Value)>, key: Value, value: Value)
    ensures
        crate::value::entries_view(final(entries)@) == spec_map_put(
            crate::value::entries_view(old(entries)@),
            key@,
            value@,
        ),
{
    broadcast use crate::value::lemma_entries_view;

    let ghost kv = key@;
    let ghost vv = value@;
    let n = entries.len();
    let mut i: usize = 0;
    while i < n
        invariant
            entries == old(entries),
            n == entries@.len(),
            i <= n,
            forall|j: int|
                0 <= j < i ==> !spec_value_eq(
                    crate::value::entries_view(entries@)[j].0,
                    kv,
                ),
        decreases n - i,
    {
        if value_eq(&entries[i].0, &key) {
            let existing_key = entries[i].0.clone();
            entries.set(i, (existing_key, value));
            proof {
                lemma_map_put_at(crate::value::entries_view(old(entries)@), kv, vv, i as int);
                assert(crate::value::entries_view(entries@) =~= crate::value::entries_view(
                    old(entries)@,
                ).update(i as int, (crate::value::entries_view(old(entries)@)[i as int].0, vv)));
            }
            return ;
        }
        i = i + 1;
    }
    entries.push((key, value));
    proof {
        lemma_map_put_missing(crate::value::entries_view(old(entries)@), kv, vv);
        assert(crate::value::entries_view(entries@) =~= crate::value::entries_view(
            old(entries)@,
        ).push((kv, vv)));
    }
}

fn map_get_from(entries: &Vec<(Value, Value)>, key: &Value, i: usize) -> (r: Option<Value>)
    requires
        i <= entries@.len(),
    ensures
        match r {
            Some(v) => spec_map_get(
                crate::value::entries_view(entries@).skip(i as int),
                key@,
            ) == Some(v@),
            None => spec_map_get(crate::value::entries_view(entries@).skip(i as int), key@)
                is None,
        },
    decreases entries@.len() - i,
{
    broadcast use crate::value::lemma_entries_view;

    let ghost ev = crate::value::entries_view(entries@);
    proof {
        assert(ev.skip(i as int).len() == ev.len() - i);
    }
    if i == entries.len() {
        return None;
    }
    proof {
        assert(ev.skip(i as int)[0] == ev[i as int]);
    }
    if value_eq(&entries[i].0, key) {
        return Some(entries[i].1.clone());
    }
    let r = map_get_from(entries, key, i + 1);
    proof {
        assert(ev.skip(i as int).drop_first() =~= ev.skip(i + 1));
    }
    r
}

/// Relies on std's standard output handle and `writeln`: prints one line.
#[verifier::external_body]
fn print_line(text: &str) {
    let mut out = std::io::stdout();
    let _ = writeln!(&mut out, "{}", text);
}

/// The position of the last path separator in a qualified name, or a
/// negative position when there is none.
pub open spec fn spec_last_slash(s: Seq<char>) -> int
    decreases s.len(),
{
    if s.len() == 0 {
        -1
    } else if s.last() == '/' {
        s.len() - 1
    } else {
        spec_last_slash(s.drop_last())
    }
}

/// A qualified name with its last segment removed; empty when it has a
/// single segment.
pub open spec fn spec_strip_segment(s: Seq<char>) -> Seq<char> {
    if spec_last_slash(s) < 0 {
        Seq::empty()
    } else {
        s.take(spec_last_slash(s))
    }
}

/// The enclosing namespace a run resolves plain callee names against:
/// a name without separators stands alone; otherwise its last two
/// segments are dropped.
pub open spec fn spec_get_context(s: Seq<char>) -> Seq<char> {
    if spec_last_slash(s) < 0 {
        s
    } else {
        spec_strip_segment(spec_strip_segment(s))
    }
}

fn last_slash(s: &Vec<char>) -> (r: Option<usize>)
    ensures
        match r {
            Some(i) => i < s@.len() && spec_last_slash(s@) == i,
            None => spec_last_slash(s@) < 0,
        },
    decreases s@.len(),
{
    if s.len() == 0 {
        return None;
    }
    if s[s.len() - 1] == '/' {
        return Some(s.len() - 1);
    }
    let mut copy: Vec<char> = Vec::new();
    let n = s.len() - 1;
    let mut i: usize = 0;
    while i < n
        invariant
            n == s@.len() - 1,
            i <= n,
            copy@ == s@.take(i as int),
        decreases n - i,
    {
        copy.push(s[i]);
        proof {
            assert(copy@ =~= s@.take(i + 1));
        }
        i = i + 1;
    }
    proof {
        assert(copy@ =~= s@.drop_last());
    }
    last_slash(&copy)
}

/// The enclosing namespace of a qualified name.
pub fn get_context(path: &str) -> (r: String)
    ensures
        r@ == spec_get_context(path@),
{
    let cs = crate::text::chars_of(path);
    match last_slash(&cs) {
        None => path.to_owned(),
        Some(_) => {
            let s1 = strip_segment(&cs);
            let s2 = strip_segment(&s1);
            crate::text::string_from_chars(&s2)
        }
    }
}

fn strip_segment(s: &Vec<char>) -> (r: Vec<char>)
    ensures
        r@ == spec_strip_segment(s@),
{
    match last_slash(s) {
        None => {
            let r: Vec<char> = Vec::new();
            proof {
                assert(r@ =~= Seq::<char>::empty());
            }
            r
        }
        Some(k) => {
            let mut out: Vec<char> = Vec::new();
            let mut i: usize = 0;
            while i < k
                invariant
                    k < s@.len(),
                    i <= k,
                    out@ == s@.take(i as int),
                decreases k - i,
            {
                out.push(s[i]);
                proof {
                    assert(out@ =~= s@.take(i + 1));
                }
                i = i + 1;
            }
            out
        }
    }
}

/// The namespace a callee's body resolves plain names against: its own
/// qualified name with the last segment removed.
pub fn parent_namespace(path: &str) -> (r: String)
    ensures
        r@ == spec_strip_segment(path@),
{
    let cs = crate::text::chars_of(path);
    let s1 = strip_segment(&cs);
    crate::text::string_from_chars(&s1)
}

/// How an assignment coerces a value into a slot of a declared type:
/// fixed-width numeric targets are bounds-checked, all other declared
/// types store the value unchanged.
pub open spec fn spec_assign_cast(t: crate::tokens::TokenType, v: ValueV) -> Result<
    ValueV,
    ValueError,
> {
    match t {
        crate::tokens::TokenType::U32 => crate::value::spec_cast_u32(v),
        crate::tokens::TokenType::U64 => crate::value::spec_cast_u64(v),
        crate::tokens::TokenType::I32 => crate::value::spec_cast_i32(v),
        crate::tokens::TokenType::F32 => crate::value::spec_cast_f32(v),
        _ => Ok(v),
    }
}

fn assign_cast(t: crate::tokens::TokenType, v: Value) -> (r: Result<Value, ValueError>)
    ensures
        match r {
            Ok(out) => spec_assign_cast(t, v@) == Ok::<ValueV, ValueError>(out@),
            Err(e) => spec_assign_cast(t, v@) == Err::<ValueV, ValueError>(e),
        },
{
    match t {
        crate::tokens::TokenType::U32 => v.cast_u32(),
        crate::tokens::TokenType::U64 => v.cast_u64(),
        crate::tokens::TokenType::I32 => v.cast_i32(),
        crate::tokens::TokenType::F32 => v.cast_f32(),
        _ => Ok(v),
    }
}

/// Indexing a composite value: the element, or the exact runtime error
/// the machine reports — out-of-bounds list positions name the index and
/// the length.
pub open spec fn spec_list_get(coll: ValueV, index: ValueV) -> Result<ValueV, RuntimeErrorV> {
    match coll {
        ValueV::List(vs) => match crate::value::spec_cast_index(index) {
            Some(i) => if i < vs.len() {
                Ok(vs[i])
            } else {
                Err(RuntimeErrorV::IndexOutOfBounds(i, vs.len() as int))
            },
            None => Err(RuntimeErrorV::ValueError(ValueError::IllegalCast)),
        },
        ValueV::Mapping(es) => match spec_map_get(es, index) {
            Some(v) => Ok(v),
            None => Err(RuntimeErrorV::IllegalArgument("key not found"@)),
        },
        _ => Err(RuntimeErrorV::ValueError(ValueError::IllegalCast)),
    }
}

/// A callee's local store: its variable names bound positionally to the
/// first arguments, in order.
pub open spec fn spec_bind_args(
    vars: Seq<(crate::tokens::TokenType, Seq<char>)>,
    args: Seq<ValueV>,
    k: nat,
) -> Seq<(Seq<char>, ValueV)>
    decreases k,
{
    if k == 0 {
        Seq::empty()
    } else {
        let prev = spec_bind_args(vars, args, (k - 1) as nat);
        if k - 1 < vars.len() && k - 1 < args.len() {
            spec_locals_put(prev, vars[k - 1].1, args[k - 1])
        } else {
            prev
        }
    }
}

/// One run of the machine over a chunk, from an instruction position,
/// with an operand stack and a local store, and a remaining call-depth
/// budget: the run's value, or the exact runtime error it reports. A
/// malformed chunk — an instruction pointer or operand off its tables, a
/// missing operand, an exhausted call budget — reports the unspecific
/// execution error.
pub open spec fn spec_run(
    reg: Seq<(Seq<char>, ChunkV)>,
    ctx: Seq<char>,
    chunk: ChunkV,
    ip: int,
    stack: Seq<ValueV>,
    locals: Seq<(Seq<char>, ValueV)>,
    depth: nat,
) -> Result<ValueV, RuntimeErrorV>
    decreases depth, chunk.code.len() - ip,
{
    if !(0 <= ip < chunk.code.len()) {
        Err(RuntimeErrorV::Something)
    } else {
        let op = chunk.code[ip];
        if op == OP_RETURN {
            if stack.len() == 0 {
                Ok(ValueV::Void)
            } else {
                Ok(stack.last())
            }
        } else if op == OP_CONSTANT {
            if ip + 1 < chunk.code.len() && chunk.code[ip + 1] < chunk.constants.len() {
                spec_run(
                    reg,
                    ctx,
                    chunk,
                    ip + 2,
                    stack.push(chunk.constants[chunk.code[ip + 1] as int]),
                    locals,
                    depth,
                )
            } else {
                Err(RuntimeErrorV::Something)
            }
        } else if spec_is_binop(op) {
            if stack.len() >= 2 {
                match spec_binop(op, stack[stack.len() - 2], stack.last()) {
                    Ok(v) => spec_run(
                        reg,
                        ctx,
                        chunk,
                        ip + 1,
                        stack.drop_last().drop_last().push(v),
                        locals,
                        depth,
                    ),
                    Err(e) => Err(RuntimeErrorV::ValueError(e)),
                }
            } else {
                Err(RuntimeErrorV::Something)
            }
        } else if op == OP_NEGATE {
            if stack.len() >= 1 {
                match spec_value_neg(stack.last()) {
                    Ok(v) => spec_run(
                        reg,
                        ctx,
                        chunk,
                        ip + 1,
                        stack.drop_last().push(v),
                        locals,
                        depth,
                    ),
                    Err(e) => Err(RuntimeErrorV::ValueError(e)),
                }
            } else {
                Err(RuntimeErrorV::Something)
            }
        } else if op == OP_NOT {
            if stack.len() >= 1 {
                match spec_value_not(stack.last()) {
                    Ok(v) => spec_run(
                        reg,
                        ctx,
                        chunk,
                        ip + 1,
                        stack.drop_last().push(v),
                        locals,
                        depth,
                    ),
                    Err(e) => Err(RuntimeErrorV::ValueError(e)),
                }
            } else {
                Err(RuntimeErrorV::Something)
            }
        } else if op == OP_PRINT {
            if stack.len() >= 1 {
                spec_run(reg, ctx, chunk, ip + 1, stack.drop_last(), locals, depth)
            } else {
                Err(RuntimeErrorV::Something)
            }
        } else if op == OP_GET {
            if ip + 1 < chunk.code.len() && chunk.code[ip + 1] < chunk.vars.len() {
                match spec_locals_get(locals, chunk.vars[chunk.code[ip + 1] as int].1) {
                    Some(v) => spec_run(reg, ctx, chunk, ip + 2, stack.push(v), locals, depth),
                    None => Err(RuntimeErrorV::Something),
                }
            } else {
                Err(RuntimeErrorV::Something)
            }
        } else if op == OP_ASSIGN {
            if ip + 1 < chunk.code.len() && chunk.code[ip + 1] < chunk.vars.len() && stack.len()
                >= 1 {
                let slot = chunk.vars[chunk.code[ip + 1] as int];
                match spec_assign_cast(slot.0, stack.last()) {
                    Ok(v) => spec_run(
                        reg,
                        ctx,
                        chunk,
                        ip + 2,
                        stack.drop_last(),
                        spec_locals_put(locals, slot.1, v),
                        depth,
                    ),
                    Err(e) => Err(RuntimeErrorV::ValueError(e)),
                }
            } else {
                Err(RuntimeErrorV::Something)
            }
        } else if op == OP_DEF_LIST {
            if ip + 1 < chunk.code.len() && chunk.code[ip + 1] <= stack.len() {
                let n = chunk.code[ip + 1] as int;
                spec_run(
                    reg,
                    ctx,
                    chunk,
                    ip + 2,
                    stack.take(stack.len() - n).push(ValueV::List(stack.skip(stack.len() - n))),
                    locals,
                    depth,
                )
            } else {
                Err(RuntimeErrorV::Something)
            }
        } else if op == OP_DEF_MAP {
            if ip + 1 < chunk.code.len() && 2 * chunk.code[ip + 1] <= stack.len() {
                let n = chunk.code[ip + 1] as int;
                let base = stack.len() - 2 * n;
                let pairs = Seq::new(n as nat, |i: int| (stack[base + 2 * i], stack[base + 2 * i + 1]));
                spec_run(
                    reg,
                    ctx,
                    chunk,
                    ip + 2,
                    stack.take(base).push(ValueV::Mapping(spec_map_from(pairs, n as nat))),
                    locals,
                    depth,
                )
            } else {
                Err(RuntimeErrorV::Something)
            }
        } else if op == OP_LIST_GET {
            if stack.len() >= 2 {
                match spec_list_get(stack[stack.len() - 2], stack.last()) {
                    Ok(v) => spec_run(
                        reg,
                        ctx,
                        chunk,
                        ip + 1,
                        stack.drop_last().drop_last().push(v),
                        locals,
                        depth,
                    ),
                    Err(e) => Err(e),
                }
            } else {
                Err(RuntimeErrorV::Something)
            }
        } else if op == OP_CALL_BUILTIN {
            if ip + 3 < chunk.code.len() && chunk.code[ip + 1] < chunk.constants.len()
                && chunk.code[ip + 2] < chunk.constants.len() && chunk.code[ip + 3] + 1
                <= stack.len() && chunk.constants[chunk.code[ip + 1] as int] is Str
                && chunk.constants[chunk.code[ip + 2] as int] is Str {
                let method = chunk.constants[chunk.code[ip + 1] as int]->Str_0;
                let tname = chunk.constants[chunk.code[ip + 2] as int]->Str_0;
                let argc = chunk.code[ip + 3] as int;
                let args = stack.skip(stack.len() - argc);
                let receiver = stack[stack.len() - argc - 1];
                match spec_call_builtin(tname, method, receiver, args) {
                    Ok(v) => spec_run(
                        reg,
                        ctx,
                        chunk,
                        ip + 4,
                        stack.take(stack.len() - argc - 1).push(v),
                        locals,
                        depth,
                    ),
                    Err(e) => Err(e),
                }
            } else {
                Err(RuntimeErrorV::Something)
            }
        } else if op == OP_CALL {
            if ip + 2 < chunk.code.len() && chunk.code[ip + 1] < chunk.constants.len()
                && chunk.constants[chunk.code[ip + 1] as int] is Str && chunk.code[ip + 2]
                <= stack.len() {
                let name = chunk.constants[chunk.code[ip + 1] as int]->Str_0;
                let argc = chunk.code[ip + 2] as int;
                let args = stack.skip(stack.len() - argc);
                let key = if spec_assoc(reg, name) is Some {
                    name
                } else {
                    ctx + seq!['/'] + name
                };
                match spec_assoc(reg, key) {
                    Some(target) => if depth == 0 {
                        Err(RuntimeErrorV::Something)
                    } else {
                        match spec_run(
                            reg,
                            spec_strip_segment(key),
                            target,
                            0,
                            Seq::empty(),
                            spec_bind_args(target.vars, args, target.vars.len() as nat),
                            (depth - 1) as nat,
                        ) {
                            Ok(v) => spec_run(
                                reg,
                                ctx,
                                chunk,
                                ip + 3,
                                stack.take(stack.len() - argc).push(v),
                                locals,
                                depth,
                            ),
                            Err(e) => Err(e),
                        }
                    },
                    None => match spec_assoc(chunk.object_defs, name) {
                        Some(field_names) => if field_names.len() == argc {
                            let instance = ValueV::Struct {
                                definition: name,
                                fields: Seq::new(
                                    argc as nat,
                                    |i: int| (field_names[i], args[i]),
                                ),
                            };
                            spec_run(
                                reg,
                                ctx,
                                chunk,
                                ip + 3,
                                stack.take(stack.len() - argc).push(instance),
                                locals,
                                depth,
                            )
                        } else {
                            Err(
                                RuntimeErrorV::IllegalArguments(
                                    name,
                                    field_names.len() as int,
                                    argc,
                                ),
                            )
                        },
                        None => Err(RuntimeErrorV::FunctionNotFound(name)),
                    },
                }
            } else {
                Err(RuntimeErrorV::Something)
            }
        } else {
            Err(RuntimeErrorV::Something)
        }
    }
}
/// Take the top `n` values off the stack, returning them in the order
/// they were pushed.
#[verifier::loop_isolation(false)]
fn pop_n(stack: &mut Vec<Value>, n: usize) -> (r: Vec<Value>)
    requires
        n <= old(stack)@.len(),
    ensures
        final(stack)@ == old(stack)@.take(old(stack)@.len() - n),
        r@ == old(stack)@.skip(old(stack)@.len() - n),
{
    let ghost full = old(stack)@;
    let len = stack.len();
    let mut tmp: Vec<Value> = Vec::new();
    let mut i: usize = 0;
    while i < n
        invariant
            n <= len == full.len(),
            i <= n,
            stack@ == full.take(len - i),
            tmp@.len() == i,
            forall|j: int| 0 <= j < i ==> tmp@[j] == full[len - 1 - j],
        decreases n - i,
    {
        match stack.pop() {
            Some(v) => {
                proof {
                    assert(full.take(len - i).last() == full[len - i - 1]);
                    assert(stack@ =~= full.take(len - i - 1));
                }
                tmp.push(v);
            }
            None => {
                proof {
                    assert(false);
                }
            }
        }
        i = i + 1;
    }
    let mut out: Vec<Value> = Vec::new();
    let mut k: usize = 0;
    while k < n
        invariant
            n <= len == full.len(),
            k <= n,
            out@.len() == k,
            forall|j: int| 0 <= j < k ==> out@[j] == full[len - n + j],
            tmp@.len() == n - k,
            forall|j: int| 0 <= j < n - k ==> tmp@[j] == full[len - 1 - j],
        decreases n - k,
    {
        match tmp.pop() {
            Some(v) => {
                proof {
                    assert(v == full[len - 1 - (n - k - 1)]);
                }
                out.push(v);
            }
            None => {
                proof {
                    assert(false);
                }
            }
        }
        k = k + 1;
    }
    proof {
        assert(out@ =~= full.skip(len - n));
    }
    out
}

/// One simple instruction step: every opcode that neither calls nor
/// returns. On success gives the next instruction position; the step
/// relates the entry state to the new state under the run specification,
/// whatever the registry, context and depth, since these opcodes use none
/// of them.
#[verifier::loop_isolation(false)]
#[verifier::rlimit(100)]
fn step_simple(chunk: &Chunk, ip: usize, stack: &mut Vec<Value>, locals: &mut Vec<(String, Value)>)
    -> (r: Result<usize, RuntimeError>)
    requires
        ip < chunk@.code.len(),
        chunk@.code[ip as int] != OP_RETURN,
        chunk@.code[ip as int] != OP_CALL,
    ensures
        match r {
            Ok(ip2) => ip < ip2 <= chunk@.code.len() && (forall|
                reg: Seq<(Seq<char>, ChunkV)>,
                c: Seq<char>,
                depth: nat,
            |
                #[trigger] spec_run(
                    reg,
                    c,
                    chunk@,
                    ip as int,
                    list_view(old(stack)@),
                    fields_view(old(locals)@),
                    depth,
                ) == spec_run(
                    reg,
                    c,
                    chunk@,
                    ip2 as int,
                    list_view(final(stack)@),
                    fields_view(final(locals)@),
                    depth,
                )),
            Err(e) => forall|reg: Seq<(Seq<char>, ChunkV)>, c: Seq<char>, depth: nat|
                #[trigger] spec_run(
                    reg,
                    c,
                    chunk@,
                    ip as int,
                    list_view(old(stack)@),
                    fields_view(old(locals)@),
                    depth,
                ) == Err::<ValueV, RuntimeErrorV>(e@),
        },
{
    broadcast use
        lemma_list_view,
        lemma_list_view_push,
        lemma_fields_view,
        lemma_fields_view_push,
    ;

    let ghost stack0 = list_view(stack@);
    let ghost locals0 = fields_view(locals@);
    let op = chunk.code[ip];
    let len = chunk.code.len();
    if op == OP_CONSTANT {
        if len - ip > 1 && (chunk.code[ip + 1] as usize) < chunk.constants.len() {
            let idx = chunk.code[ip + 1] as usize;
            stack.push(chunk.constants[idx].clone());
            proof {
                assert(list_view(stack@) =~= stack0.push(chunk@.constants[idx as int]));
            }
            Ok(ip + 2)
        } else {
            Err(RuntimeError::Something)
        }
    } else if op == OP_ADD || op == OP_SUBTRACT || op == OP_MULTIPLY || op == OP_DIVIDE || op
        == OP_AND || op == OP_OR || op == OP_BITAND || op == OP_BITOR || op == OP_BITXOR || op
        == OP_SHL || op == OP_SHR || op == OP_EQUAL || op == OP_NOT_EQUAL || op == OP_GREATER || op
        == OP_GREATER_EQUAL || op == OP_LESS || op == OP_LESS_EQUAL {
        if stack.len() >= 2 {
            let b = match stack.pop() {
                Some(v) => v,
                None => {
                    return Err(RuntimeError::Something);
                }
            };
            let a = match stack.pop() {
                Some(v) => v,
                None => {
                    return Err(RuntimeError::Something);
                }
            };
            proof {
                assert(a@ == stack0[stack0.len() - 2]);
                assert(b@ == stack0.last());
                assert(list_view(stack@) =~= stack0.drop_last().drop_last());
            }
            match binop(op, &a, &b) {
                Ok(v) => {
                    stack.push(v);
                    proof {
                        assert(list_view(stack@) =~= stack0.drop_last().drop_last().push(
                            spec_binop(op, stack0[stack0.len() - 2], stack0.last())->Ok_0,
                        ));
                    }
                    Ok(ip + 1)
                }
                Err(e) => Err(RuntimeError::ValueError(e)),
            }
        } else {
            Err(RuntimeError::Something)
        }
    } else if op == OP_NEGATE || op == OP_NOT {
        if stack.len() >= 1 {
            let a = match stack.pop() {
                Some(v) => v,
                None => {
                    return Err(RuntimeError::Something);
                }
            };
            proof {
                assert(a@ == stack0.last());
                assert(list_view(stack@) =~= stack0.drop_last());
            }
            let applied = if op == OP_NEGATE {
                value_neg(&a)
            } else {
                value_not(&a)
            };
            match applied {
                Ok(v) => {
                    stack.push(v);
                    proof {
                        if op == OP_NEGATE {
                            assert(list_view(stack@) =~= stack0.drop_last().push(
                                spec_value_neg(stack0.last())->Ok_0,
                            ));
                        } else {
                            assert(list_view(stack@) =~= stack0.drop_last().push(
                                spec_value_not(stack0.last())->Ok_0,
                            ));
                        }
                    }
                    Ok(ip + 1)
                }
                Err(e) => Err(RuntimeError::ValueError(e)),
            }
        } else {
            Err(RuntimeError::Something)
        }
    } else if op == OP_PRINT {
        if stack.len() >= 1 {
            let a = match stack.pop() {
                Some(v) => v,
                None => {
                    return Err(RuntimeError::Something);
                }
            };
            let text = display_string(&a);
            print_line(text.as_str());
            proof {
                assert(list_view(stack@) =~= stack0.drop_last());
            }
            Ok(ip + 1)
        } else {
            Err(RuntimeError::Something)
        }
    } else if op == OP_GET {
        if len - ip > 1 && (chunk.code[ip + 1] as usize) < chunk.vars.len() {
            let idx = chunk.code[ip + 1] as usize;
            proof {
                assert(chunk@.vars[idx as int].1 == chunk.vars@[idx as int].1@);
            }
            match locals_get(locals, chunk.vars[idx].1.as_str()) {
                Some(v) => {
                    stack.push(v);
                    proof {
                        assert(list_view(stack@) =~= stack0.push(
                            spec_locals_get(locals0, chunk@.vars[idx as int].1)->0,
                        ));
                    }
                    Ok(ip + 2)
                }
                None => Err(RuntimeError::Something),
            }
        } else {
            Err(RuntimeError::Something)
        }
    } else if op == OP_ASSIGN {
        if len - ip > 1 && (chunk.code[ip + 1] as usize) < chunk.vars.len() && stack.len() >= 1 {
            let idx = chunk.code[ip + 1] as usize;
            let v = match stack.pop() {
                Some(v) => v,
                None => {
                    return Err(RuntimeError::Something);
                }
            };
            let slot_type = chunk.vars[idx].0;
            proof {
                assert(v@ == stack0.last());
                assert(chunk@.vars[idx as int].0 == slot_type);
                assert(chunk@.vars[idx as int].1 == chunk.vars@[idx as int].1@);
                assert(list_view(stack@) =~= stack0.drop_last());
            }
            match assign_cast(slot_type, v) {
                Ok(cast) => {
                    locals_put(locals, chunk.vars[idx].1.as_str(), cast);
                    Ok(ip + 2)
                }
                Err(e) => Err(RuntimeError::ValueError(e)),
            }
        } else {
            Err(RuntimeError::Something)
        }
    } else {
        step_build(chunk, ip, stack)
    }
}

/// One list, map or builtin-call instruction step: opcodes that read and
/// build values but touch no local variable. The step relation holds for
/// every registry, context, local store and depth.
#[verifier::loop_isolation(false)]
#[verifier::rlimit(100)]
fn step_build(chunk: &Chunk, ip: usize, stack: &mut Vec<Value>) -> (r: Result<
    usize,
    RuntimeError,
>)
    requires
        ip < chunk@.code.len(),
        chunk@.code[ip as int] != OP_RETURN,
        chunk@.code[ip as int] != OP_CALL,
        chunk@.code[ip as int] != OP_CONSTANT,
        !spec_is_binop(chunk@.code[ip as int]),
        chunk@.code[ip as int] != OP_NEGATE,
        chunk@.code[ip as int] != OP_NOT,
        chunk@.code[ip as int] != OP_PRINT,
        chunk@.code[ip as int] != OP_GET,
        chunk@.code[ip as int] != OP_ASSIGN,
    ensures
        match r {
            Ok(ip2) => ip < ip2 <= chunk@.code.len() && (forall|
                reg: Seq<(Seq<char>, ChunkV)>,
                c: Seq<char>,
                loc: Seq<(Seq<char>, ValueV)>,
                depth: nat,
            |
                #[trigger] spec_run(
                    reg,
                    c,
                    chunk@,
                    ip as int,
                    list_view(old(stack)@),
                    loc,
                    depth,
                ) == spec_run(
                    reg,
                    c,
                    chunk@,
                    ip2 as int,
                    list_view(final(stack)@),
                    loc,
                    depth,
                )),
            Err(e) => forall|
                reg: Seq<(Seq<char>, ChunkV)>,
                c: Seq<char>,
                loc: Seq<(Seq<char>, ValueV)>,
                depth: nat,
            |
                #[trigger] spec_run(
                    reg,
                    c,
                    chunk@,
                    ip as int,
                    list_view(old(stack)@),
                    loc,
                    depth,
                ) == Err::<ValueV, RuntimeErrorV>(e@),
        },
{
    broadcast use lemma_list_view, lemma_list_view_push;

    let ghost stack0 = list_view(stack@);
    let op = chunk.code[ip];
    let len = chunk.code.len();
    if op == OP_DEF_LIST {
        if len - ip > 1 && (chunk.code[ip + 1] as usize) <= stack.len() {
            let n = chunk.code[ip + 1] as usize;
            let items = pop_n(stack, n);
            proof {
                assert(list_view(items@) =~= stack0.skip(stack0.len() - n));
                assert(list_view(stack@) =~= stack0.take(stack0.len() - n));
            }
            stack.push(Value::List(items));
            proof {
                assert(list_view(stack@) =~= stack0.take(stack0.len() - n).push(
                    ValueV::List(stack0.skip(stack0.len() - n)),
                ));
            }
            Ok(ip + 2)
        } else {
            Err(RuntimeError::Something)
        }
    } else if op == OP_DEF_MAP {
        if len - ip > 1 && 2 * (chunk.code[ip + 1] as usize) <= stack.len() {
            let n = chunk.code[ip + 1] as usize;
            let flat = pop_n(stack, 2 * n);
            let ghost base = stack0.len() - 2 * n;
            let ghost pairs = Seq::new(
                n as nat,
                |i: int| (stack0[base + 2 * i], stack0[base + 2 * i + 1]),
            );
            let mut entries: Vec<(Value, Value)> = Vec::new();
            let mut i: usize = 0;
            proof {
                broadcast use crate::value::lemma_entries_view;

                assert(crate::value::entries_view(entries@) =~= spec_map_from(pairs, 0));
            }
            while i < n
                invariant
                    flat@.len() == 2 * n,
                    i <= n,
                    crate::value::entries_view(entries@) == spec_map_from(pairs, i as nat),
                decreases n - i,
            {
                broadcast use crate::value::lemma_entries_view;

                let k = flat[2 * i].clone();
                let v = flat[2 * i + 1].clone();
                proof {
                    assert(k@ == pairs[i as int].0);
                    assert(v@ == pairs[i as int].1);
                }
                map_put(&mut entries, k, v);
                i = i + 1;
            }
            proof {
                assert(list_view(stack@) =~= stack0.take(base));
            }
            stack.push(Value::Mapping(entries));
            proof {
                assert(list_view(stack@) =~= stack0.take(base).push(
                    ValueV::Mapping(spec_map_from(pairs, n as nat)),
                ));
            }
            Ok(ip + 2)
        } else {
            Err(RuntimeError::Something)
        }
    } else if op == OP_LIST_GET {
        if stack.len() >= 2 {
            let index = match stack.pop() {
                Some(v) => v,
                None => {
                    return Err(RuntimeError::Something);
                }
            };
            let coll = match stack.pop() {
                Some(v) => v,
                None => {
                    return Err(RuntimeError::Something);
                }
            };
            proof {
                assert(coll@ == stack0[stack0.len() - 2]);
                assert(index@ == stack0.last());
                assert(list_view(stack@) =~= stack0.drop_last().drop_last());
            }
            match list_get_value(&coll, &index) {
                Ok(v) => {
                    stack.push(v);
                    proof {
                        assert(list_view(stack@) =~= stack0.drop_last().drop_last().push(
                            spec_list_get(stack0[stack0.len() - 2], stack0.last())->Ok_0,
                        ));
                    }
                    Ok(ip + 1)
                }
                Err(e) => Err(e),
            }
        } else {
            Err(RuntimeError::Something)
        }
    } else if op == OP_CALL_BUILTIN {
        if len - ip > 3 && (chunk.code[ip + 1] as usize) < chunk.constants.len() && (chunk.code[ip
            + 2] as usize) < chunk.constants.len() && (chunk.code[ip + 3] as usize) + 1
            <= stack.len() {
            let name_idx = chunk.code[ip + 1] as usize;
            let tname_idx = chunk.code[ip + 2] as usize;
            let argc = chunk.code[ip + 3] as usize;
            let method = match &chunk.constants[name_idx] {
                Value::String(s) => s.clone(),
                _ => {
                    proof {
                        assert(!(chunk@.constants[name_idx as int] is Str));
                    }
                    return Err(RuntimeError::Something);
                }
            };
            let tname = match &chunk.constants[tname_idx] {
                Value::String(s) => s.clone(),
                _ => {
                    proof {
                        assert(!(chunk@.constants[tname_idx as int] is Str));
                    }
                    return Err(RuntimeError::Something);
                }
            };
            proof {
                assert(chunk@.constants[name_idx as int] == ValueV::Str(method@));
                assert(chunk@.constants[tname_idx as int] == ValueV::Str(tname@));
            }
            let args = pop_n(stack, argc);
            let receiver = match stack.pop() {
                Some(v) => v,
                None => {
                    return Err(RuntimeError::Something);
                }
            };
            proof {
                assert(list_view(args@) =~= stack0.skip(stack0.len() - argc));
                assert(receiver@ == stack0[stack0.len() - argc - 1]);
                assert(list_view(stack@) =~= stack0.take(stack0.len() - argc - 1));
            }
            match call_builtin_owned(&tname, &method, receiver, args) {
                Ok(v) => {
                    stack.push(v);
                    proof {
                        assert(list_view(stack@) =~= stack0.take(stack0.len() - argc - 1).push(
                            spec_call_builtin(
                                tname@,
                                method@,
                                stack0[stack0.len() - argc - 1],
                                stack0.skip(stack0.len() - argc),
                            )->Ok_0,
                        ));
                    }
                    Ok(ip + 4)
                }
                Err(e) => Err(e),
            }
        } else {
            Err(RuntimeError::Something)
        }
    } else {
        Err(RuntimeError::Something)
    }
}

/// Execute a chunk from an instruction position against a stack and a
/// local store. Returns exactly what the step specification names for
/// the entry state, and an error exactly where it names nothing.
#[verifier::loop_isolation(false)]
#[verifier::rlimit(100)]
pub(crate) fn run_at(
    registry: &Registry,
    ctx: &String,
    chunk: &Chunk,
    ip: usize,
    stack: &mut Vec<Value>,
    locals: &mut Vec<(String, Value)>,
    depth: u64,
) -> (r: Result<Value, RuntimeError>)
    ensures
        match r {
            Ok(v) => spec_run(
                registry@,
                ctx@,
                chunk@,
                ip as int,
                list_view(old(stack)@),
                fields_view(old(locals)@),
                depth as nat,
            ) == Ok::<ValueV, RuntimeErrorV>(v@),
            Err(e) => spec_run(
                registry@,
                ctx@,
                chunk@,
                ip as int,
                list_view(old(stack)@),
                fields_view(old(locals)@),
                depth as nat,
            ) == Err::<ValueV, RuntimeErrorV>(e@),
        },
    decreases depth, chunk@.code.len() - ip,
{
    broadcast use
        lemma_list_view,
        lemma_list_view_push,
        lemma_fields_view,
        lemma_fields_view_push,
    ;

    let ghost stack0 = list_view(stack@);
    let ghost locals0 = fields_view(locals@);
    if ip >= chunk.code.len() {
        return Err(RuntimeError::Something);
    }
    let op = chunk.code[ip];
    let len = chunk.code.len();
    if op == OP_RETURN {
        if stack.len() == 0 {
            Ok(Value::Void)
        } else {
            proof {
                assert(stack0.last() == list_view(stack@)[stack@.len() - 1]);
            }
            Ok(stack[stack.len() - 1].clone())
        }
    } else if op == OP_CALL {
        if len - ip > 2 && (chunk.code[ip + 1] as usize) < chunk.constants.len() && (chunk.code[ip
            + 2] as usize) <= stack.len() {
            let name_idx = chunk.code[ip + 1] as usize;
            let argc = chunk.code[ip + 2] as usize;
            let name = match &chunk.constants[name_idx] {
                Value::String(s) => s.clone(),
                _ => {
                    proof {
                        assert(!(chunk@.constants[name_idx as int] is Str));
                    }
                    return Err(RuntimeError::Something);
                }
            };
            proof {
                assert(chunk@.constants[name_idx as int] == ValueV::Str(name@));
            }
            let callee = match registry.get_cloned(name.as_str()) {
                Some(c) => Some((c, name.clone())),
                None => {
                    let mut qualified = ctx.clone();
                    qualified.append("/");
                    qualified.append(name.as_str());
                    proof {
                        assert(qualified@ == ctx@ + seq!['/'] + name@) by {
                            assert(qualified@ =~= ctx@ + "/"@ + name@);
                            assert(ctx@ + "/"@ + name@ =~= ctx@ + seq!['/'] + name@) by {
                                reveal_strlit("/");
                            }
                        }
                    }
                    match registry.get_cloned(qualified.as_str()) {
                        Some(c) => Some((c, qualified)),
                        None => None,
                    }
                }
            };
            match callee {
                Some((target, key)) => {
                    if depth == 0 {
                        return Err(RuntimeError::Something);
                    }
                    let args = pop_n(stack, argc);
                    proof {
                        assert(list_view(args@) =~= stack0.skip(stack0.len() - argc));
                        assert(list_view(stack@) =~= stack0.take(stack0.len() - argc));
                    }
                    let mut callee_locals: Vec<(String, Value)> = Vec::new();
                    let mut callee_stack: Vec<Value> = Vec::new();
                    bind_args(&target, &args, &mut callee_locals);
                    let callee_ctx = parent_namespace(key.as_str());
                    proof {
                        assert(list_view(callee_stack@) =~= Seq::<ValueV>::empty());
                    }
                    let result = run_at(
                        registry,
                        &callee_ctx,
                        &target,
                        0,
                        &mut callee_stack,
                        &mut callee_locals,
                        depth - 1,
                    );
                    match result {
                        Ok(v) => {
                            stack.push(v);
                            proof {
                                assert(list_view(stack@) =~= stack0.take(stack0.len() - argc).push(
                                    spec_run(
                                        registry@,
                                        spec_strip_segment(key@),
                                        target@,
                                        0,
                                        Seq::empty(),
                                        spec_bind_args(
                                            target@.vars,
                                            stack0.skip(stack0.len() - argc),
                                            target@.vars.len() as nat,
                                        ),
                                        (depth - 1) as nat,
                                    )->Ok_0,
                                ));
                            }
                            run_at(registry, ctx, chunk, ip + 3, stack, locals, depth)
                        }
                        Err(e) => Err(e),
                    }
                }
                None => {
                    let fields = match find_object_def(chunk, name.as_str()) {
                        Some(f) => f,
                        None => {
                            return Err(RuntimeError::FunctionNotFound(name));
                        }
                    };
                    if fields.len() != argc {
                        return Err(
                            RuntimeError::IllegalArgumentsException(name, fields.len(), argc),
                        );
                    }
                    let args = pop_n(stack, argc);
                    proof {
                        assert(list_view(args@) =~= stack0.skip(stack0.len() - argc));
                        assert(list_view(stack@) =~= stack0.take(stack0.len() - argc));
                    }
                    let mut paired: Vec<(String, Value)> = Vec::new();
                    let mut i: usize = 0;
                    while i < argc
                        invariant
                            argc == fields@.len(),
                            argc == args@.len(),
                            i <= argc,
                            paired@.len() == i,
                            forall|j: int|
                                0 <= j < i ==> #[trigger] fields_view(paired@)[j] == (
                                    crate::chunk::names_view(fields@)[j],
                                    list_view(args@)[j],
                                ),
                        decreases argc - i,
                    {
                        let name_j = fields[i].clone();
                        let value_j = args[i].clone();
                        paired.push((name_j, value_j));
                        i = i + 1;
                    }
                    let instance = Value::Struct(
                        StructValue { definition: name, fields: paired },
                    );
                    proof {
                        assert(fields_view(paired@) =~= Seq::new(
                            argc as nat,
                            |j: int| (
                                crate::chunk::names_view(fields@)[j],
                                stack0.skip(stack0.len() - argc)[j],
                            ),
                        ));
                        assert(list_view(stack@).push(instance@) =~= stack0.take(
                            stack0.len() - argc,
                        ).push(
                            ValueV::Struct {
                                definition: name@,
                                fields: Seq::new(
                                    argc as nat,
                                    |j: int| (
                                        crate::chunk::names_view(fields@)[j],
                                        stack0.skip(stack0.len() - argc)[j],
                                    ),
                                ),
                            },
                        ));
                    }
                    stack.push(instance);
                    run_at(registry, ctx, chunk, ip + 3, stack, locals, depth)
                }
            }
        } else {
            Err(RuntimeError::Something)
        }
    } else {
        match step_simple(chunk, ip, stack, locals) {
            Ok(ip2) => run_at(registry, ctx, chunk, ip2, stack, locals, depth),
            Err(e) => Err(e),
        }
    }
}

/// Bind a callee's variable names to the arguments, in order.
#[verifier::loop_isolation(false)]
fn bind_args(target: &Chunk, args: &Vec<Value>, locals: &mut Vec<(String, Value)>)
    requires
        old(locals)@.len() == 0,
    ensures
        fields_view(final(locals)@) == spec_bind_args(
            target@.vars,
            list_view(args@),
            target@.vars.len() as nat,
        ),
{
    broadcast use lemma_list_view, lemma_fields_view;

    let nv = target.vars.len();
    let mut i: usize = 0;
    proof {
        assert(fields_view(locals@) =~= Seq::<(Seq<char>, ValueV)>::empty());
        assert(fields_view(locals@) =~= spec_bind_args(target@.vars, list_view(args@), 0));
    }
    while i < nv
        invariant
            i <= nv,
            nv == target@.vars.len(),
            fields_view(locals@) == spec_bind_args(target@.vars, list_view(args@), i as nat),
        decreases nv - i,
    {
        proof {
            assert(target@.vars[i as int].1 == target.vars@[i as int].1@);
        }
        if i < args.len() {
            locals_put(locals, target.vars[i].1.as_str(), args[i].clone());
        }
        i = i + 1;
    }
}

/// Look an object definition up on a chunk, returning its field names.
#[verifier::loop_isolation(false)]
fn find_object_def(chunk: &Chunk, name: &str) -> (r: Option<Vec<String>>)
    ensures
        match r {
            Some(fields) => spec_assoc(chunk@.object_defs, name@) == Some(
                crate::chunk::names_view(fields@),
            ),
            None => spec_assoc(chunk@.object_defs, name@) is None,
        },
{
    proof {
        crate::registry::lemma_assoc_first_match(chunk@.object_defs, name@);
    }
    let n = chunk.object_defs.len();
    let mut i: usize = 0;
    while i < n
        invariant
            n == chunk.object_defs@.len(),
            i <= n,
            forall|j: int| 0 <= j < i ==> chunk@.object_defs[j].0 != name@,
        decreases n - i,
    {
        if crate::text::str_eq(chunk.object_defs[i].0.as_str(), name) {
            proof {
                assert(chunk@.object_defs[i as int].0 == name@);
                assert(spec_assoc(chunk@.object_defs, name@) == Some(
                    chunk@.object_defs[i as int].1,
                ));
            }
            let mut out: Vec<String> = Vec::new();
            let m = chunk.object_defs[i].1.len();
            let mut k: usize = 0;
            while k < m
                invariant
                    i < chunk.object_defs@.len(),
                    m == chunk.object_defs@[i as int].1@.len(),
                    k <= m,
                    crate::chunk::names_view(out@) =~= crate::chunk::names_view(
                        chunk.object_defs@[i as int].1@,
                    ).take(k as int),
                decreases m - k,
            {
                out.push(chunk.object_defs[i].1[k].clone());
                proof {
                    assert(crate::chunk::names_view(out@) =~= crate::chunk::names_view(
                        chunk.object_defs@[i as int].1@,
                    ).take(k + 1));
                }
                k = k + 1;
            }
            proof {
                assert(crate::chunk::names_view(out@) =~= crate::chunk::names_view(
                    chunk.object_defs@[i as int].1@,
                ));
            }
            return Some(out);
        }
        i = i + 1;
    }
    None
}

/// Index into a composite value, as the machine does: a list by
/// position, bounds-checked, the failure naming the attempted index and
/// the list's length; a map by structurally equal key.
pub fn list_get_value(coll: &Value, index: &Value) -> (r: Result<Value, RuntimeError>)
    ensures
        match r {
            Ok(v) => spec_list_get(coll@, index@) == Ok::<ValueV, RuntimeErrorV>(v@),
            Err(e) => spec_list_get(coll@, index@) == Err::<ValueV, RuntimeErrorV>(e@),
        },
        coll@ matches ValueV::List(vs) ==> (match crate::value::spec_cast_index(index@) {
            Some(i) => if i < vs.len() {
                r is Ok && vs[i] == r->Ok_0@
            } else {
                r == Err::<Value, RuntimeError>(
                    RuntimeError::IndexOutOfBounds(i as usize, vs.len() as usize),
                )
            },
            None => r is Err,
        }),
{
    broadcast use lemma_list_view;

    match coll {
        Value::List(vs) => {
            proof {
                assert(coll@ == ValueV::List(list_view(vs@)));
            }
            let i = match index.cast_usize() {
                Ok(i) => i,
                Err(e) => {
                    proof {
                        assert(spec_list_get(coll@, index@) == Err::<ValueV, RuntimeErrorV>(
                            RuntimeErrorV::ValueError(e),
                        ));
                    }
                    return Err(RuntimeError::ValueError(e));
                }
            };
            if i < vs.len() {
                let out = vs[i].clone();
                proof {
                    assert(spec_list_get(coll@, index@) == Ok::<ValueV, RuntimeErrorV>(out@));
                }
                Ok(out)
            } else {
                proof {
                    assert(spec_list_get(coll@, index@) == Err::<ValueV, RuntimeErrorV>(
                        RuntimeErrorV::IndexOutOfBounds(i as int, vs@.len() as int),
                    ));
                }
                Err(RuntimeError::IndexOutOfBounds(i, vs.len()))
            }
        }
        Value::Mapping(es) => {
            proof {
                assert(coll@ == ValueV::Mapping(crate::value::entries_view(es@)));
                assert(crate::value::entries_view(es@).skip(0) =~= crate::value::entries_view(
                    es@,
                ));
            }
            match map_get_from(es, index, 0) {
                Some(v) => {
                    proof {
                        assert(spec_list_get(coll@, index@) == Ok::<ValueV, RuntimeErrorV>(v@));
                    }
                    Ok(v)
                }
                None => {
                    let text = "key not found".to_owned();
                    proof {
                        assert(spec_list_get(coll@, index@) == Err::<ValueV, RuntimeErrorV>(
                            RuntimeErrorV::IllegalArgument(text@),
                        ));
                    }
                    Err(RuntimeError::IllegalArgumentException(text))
                }
            }
        }
        _ => {
            proof {
                assert(!(coll@ is List) && !(coll@ is Mapping));
            }
            Err(RuntimeError::ValueError(ValueError::IllegalCast))
        }
    }
}

/// One synchronous run: the chunk filed under the qualified name,
/// executed from its first instruction with an empty stack and store,
/// resolving plain callee names against the name's enclosing namespace.
pub open spec fn spec_interpret(reg: Seq<(Seq<char>, ChunkV)>, name: Seq<char>) -> Result<
    ValueV,
    RuntimeErrorV,
> {
    match spec_assoc(reg, name) {
        Some(chunk) => spec_run(
            reg,
            spec_get_context(name),
            chunk,
            0,
            Seq::empty(),
            Seq::empty(),
            MAX_CALL_DEPTH as nat,
        ),
        None => Err(RuntimeErrorV::FunctionNotFound(name)),
    }
}

/// Run the function filed under a qualified name against a registry
/// snapshot. The result is a function of the snapshot and the name alone:
/// a snapshot published later cannot reach a run already started.
pub fn interpret(registry: &Registry, function: &str) -> (r: Result<Value, RuntimeError>)
    ensures
        match r {
            Ok(v) => spec_interpret(registry@, function@) == Ok::<ValueV, RuntimeErrorV>(v@),
            Err(e) => spec_interpret(registry@, function@) == Err::<ValueV, RuntimeErrorV>(e@),
        },
{
    let chunk = match registry.get_cloned(function) {
        Some(c) => c,
        None => {
            return Err(RuntimeError::FunctionNotFound(function.to_owned()));
        }
    };
    let ctx = get_context(function);
    let mut stack: Vec<Value> = Vec::new();
    let mut locals: Vec<(String, Value)> = Vec::new();
    proof {
        assert(list_view(stack@) =~= Seq::<ValueV>::empty());
        assert(fields_view(locals@) =~= Seq::<(Seq<char>, ValueV)>::empty());
    }
    run_at(registry, &ctx, &chunk, 0, &mut stack, &mut locals, MAX_CALL_DEPTH)
}

/// Run one chunk on its own, its variables bound positionally to the
/// given arguments, against an empty registry.
pub fn interpret_function(chunk: &Chunk, args: Vec<Value>) -> (r: Result<Value, RuntimeError>)
    ensures
        match r {
            Ok(v) => spec_run(
                Seq::empty(),
                Seq::empty(),
                chunk@,
                0,
                Seq::empty(),
                spec_bind_args(chunk@.vars, list_view(args@), chunk@.vars.len() as nat),
                MAX_CALL_DEPTH as nat,
            ) == Ok::<ValueV, RuntimeErrorV>(v@),
            Err(e) => spec_run(
                Seq::empty(),
                Seq::empty(),
                chunk@,
                0,
                Seq::empty(),
                spec_bind_args(chunk@.vars, list_view(args@), chunk@.vars.len() as nat),
                MAX_CALL_DEPTH as nat,
            ) == Err::<ValueV, RuntimeErrorV>(e@),
        },
{
    let registry = Registry::new();
    let mut stack: Vec<Value> = Vec::new();
    let mut locals: Vec<(String, Value)> = Vec::new();
    bind_args(chunk, &args, &mut locals);
    let ctx = String::new();
    proof {
        assert(list_view(stack@) =~= Seq::<ValueV>::empty());
        assert(registry@ =~= Seq::<(Seq<char>, ChunkV)>::empty());
    }
    run_at(&registry, &ctx, chunk, 0, &mut stack, &mut locals, MAX_CALL_DEPTH)
}

/// A local store seeded from the given bindings, in order.
pub open spec fn spec_seed(bindings: Seq<(Seq<char>, ValueV)>, k: nat) -> Seq<
    (Seq<char>, ValueV),
>
    decreases k,
{
    if k == 0 {
        Seq::empty()
    } else {
        spec_locals_put(
            spec_seed(bindings, (k - 1) as nat),
            bindings[k - 1].0,
            bindings[k - 1].1,
        )
    }
}

/// One run whose local store is first seeded with caller-supplied
/// bindings, the seam a request-handling front end uses to pass the
/// request's path, query and headers to a compiled handler.
pub open spec fn spec_interpret_with(
    reg: Seq<(Seq<char>, ChunkV)>,
    name: Seq<char>,
    bindings: Seq<(Seq<char>, ValueV)>,
) -> Result<ValueV, RuntimeErrorV> {
    match spec_assoc(reg, name) {
        Some(chunk) => spec_run(
            reg,
            spec_get_context(name),
            chunk,
            0,
            Seq::empty(),
            spec_seed(bindings, bindings.len() as nat),
            MAX_CALL_DEPTH as nat,
        ),
        None => Err(RuntimeErrorV::FunctionNotFound(name)),
    }
}

/// Run the function filed under a qualified name, its local store seeded
/// with the given bindings.
#[verifier::loop_isolation(false)]
pub fn interpret_with_bindings(
    registry: &Registry,
    function: &str,
    bindings: Vec<(String, Value)>,
) -> (r: Result<Value, RuntimeError>)
    ensures
        match r {
            Ok(v) => spec_interpret_with(registry@, function@, fields_view(bindings@)) == Ok::<
                ValueV,
                RuntimeErrorV,
            >(v@),
            Err(e) => spec_interpret_with(registry@, function@, fields_view(bindings@)) == Err::<
                ValueV,
                RuntimeErrorV,
            >(e@),
        },
{
    broadcast use lemma_fields_view;

    let chunk = match registry.get_cloned(function) {
        Some(c) => c,
        None => {
            return Err(RuntimeError::FunctionNotFound(function.to_owned()));
        }
    };
    let ctx = get_context(function);
    let mut stack: Vec<Value> = Vec::new();
    let mut locals: Vec<(String, Value)> = Vec::new();
    let n = bindings.len();
    let mut i: usize = 0;
    proof {
        assert(fields_view(locals@) =~= spec_seed(fields_view(bindings@), 0));
    }
    while i < n
        invariant
            i <= n,
            n == bindings@.len(),
            fields_view(locals@) == spec_seed(fields_view(bindings@), i as nat),
        decreases n - i,
    {
        proof {
            assert(fields_view(bindings@)[i as int] == (
                bindings@[i as int].0@,
                bindings@[i as int].1@,
            ));
        }
        locals_put(&mut locals, bindings[i].0.as_str(), bindings[i].1.clone());
        i = i + 1;
    }
    proof {
        assert(list_view(stack@) =~= Seq::<ValueV>::empty());
    }
    run_at(registry, &ctx, &chunk, 0, &mut stack, &mut locals, MAX_CALL_DEPTH)
}

/// Take the snapshot the shared handle currently publishes and run the
/// named function against it. Whatever snapshot the load returned, the
/// whole run reads that one snapshot: there is a single registry value
/// that explains the outcome.
pub fn interpret_latest(shared: &crate::registry::SharedRegistry, function: &str) -> (r: Result<
    Value,
    RuntimeError,
>)
    ensures
        exists|snapshot: Seq<(Seq<char>, ChunkV)>|
            match r {
                Ok(v) => #[trigger] spec_interpret(snapshot, function@) == Ok::<
                    ValueV,
                    RuntimeErrorV,
                >(v@),
                Err(e) => #[trigger] spec_interpret(snapshot, function@) == Err::<
                    ValueV,
                    RuntimeErrorV,
                >(e@),
            },
{
    let snapshot = shared.load();
    let r = interpret(&snapshot, function);
    proof {
        assert(match r {
            Ok(v) => spec_interpret(snapshot@, function@) == Ok::<ValueV, RuntimeErrorV>(v@),
            Err(e) => spec_interpret(snapshot@, function@) == Err::<ValueV, RuntimeErrorV>(e@),
        });
    }
    r
}

} // verus!
