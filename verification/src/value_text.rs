//! The textual forms of runtime values: the display form that `print` and
//! string concatenation use, and the parenthesised debug form that composite
//! values embed. Both are pinned exactly by specification functions.

use vstd::prelude::*;

verus! {

use crate::decimal::{dec_to_chars, spec_dec_display, Decimal};
use crate::text::{
    chars_of, push_u64_dec, spec_i64_dec, spec_u64_dec, string_from_chars,
};
use crate::value::{Value, ValueV};

/// The textual form of a boolean.
pub open spec fn spec_bool_chars(b: bool) -> Seq<char> {
    if b {
        "true"@
    } else {
        "false"@
    }
}

/// What chrono renders for a date-time value held as milliseconds since
/// the Unix epoch.
pub uninterp spec fn datetime_display_of(ms: i64) -> Seq<char>;

/// Relies on chrono's `DateTime::<Utc>::from_timestamp_millis` and its
/// `Display` impl: the rendering depends on the milliseconds alone.
#[verifier::external_body]
fn date_display(ms: i64) -> (s: String)
    ensures
        s@ == datetime_display_of(ms),
{
    match chrono::DateTime::<chrono::Utc>::from_timestamp_millis(ms) {
        Some(d) => d.to_string(),
        None => "invalid date".to_string(),
    }
}

/// The debug form of a decimal number, as its fields read.
pub open spec fn spec_dec_debug(d: Decimal) -> Seq<char> {
    "Decimal { neg: "@ + spec_bool_chars(d.neg) + ", mant: "@ + spec_u64_dec(d.mant as int)
        + ", exp: "@ + spec_i64_dec(d.exp as int) + " }"@
}

/// The debug form of a value: the variant name around the debug forms of
/// its contents, the shape composite values embed. Text is quoted but not
/// escaped.
pub open spec fn spec_value_debug(v: ValueV) -> Seq<char>
    decreases v, 0int,
{
    match v {
        ValueV::U32(x) => "U32("@ + spec_u64_dec(x as int) + ")"@,
        ValueV::I32(x) => "I32("@ + spec_i64_dec(x as int) + ")"@,
        ValueV::U64(x) => "U64("@ + spec_u64_dec(x as int) + ")"@,
        ValueV::I64(x) => "I64("@ + spec_i64_dec(x as int) + ")"@,
        ValueV::F32(d) => "F32("@ + spec_dec_debug(d) + ")"@,
        ValueV::F64(d) => "F64("@ + spec_dec_debug(d) + ")"@,
        ValueV::Str(s) => "String(\""@ + s + "\")"@,
        ValueV::Char(c) => "Char('"@ + seq![c] + "')"@,
        ValueV::Bool(b) => "Bool("@ + spec_bool_chars(b) + ")"@,
        ValueV::Date(ms) => "Date("@ + spec_i64_dec(ms as int) + ")"@,
        ValueV::List(vs) => "List(["@ + spec_debug_items(vs) + "])"@,
        ValueV::Mapping(es) => "Mapping(["@ + spec_debug_entries(es) + "])"@,
        ValueV::Struct { definition, fields } => "Struct(StructValue { definition: \""@
            + definition + "\", fields: ["@ + spec_debug_fields(fields) + "] })"@,
        ValueV::Error(s) => "Error(\""@ + s + "\")"@,
        ValueV::Void => "Void"@,
    }
}

/// The comma-joined debug forms of a sequence of values.
pub open spec fn spec_debug_items(vs: Seq<ValueV>) -> Seq<char>
    decreases vs, vs.len(),
{
    if vs.len() == 0 {
        Seq::empty()
    } else if vs.len() == 1 {
        spec_value_debug(vs[0])
    } else {
        spec_value_debug(vs[0]) + ", "@ + spec_debug_items(vs.drop_first())
    }
}

/// The comma-joined debug forms of a sequence of key-value pairs.
pub open spec fn spec_debug_entries(es: Seq<(ValueV, ValueV)>) -> Seq<char>
    decreases es, es.len(),
{
    if es.len() == 0 {
        Seq::empty()
    } else {
        let head = seq!['('] + spec_value_debug(es[0].0) + ", "@ + spec_value_debug(es[0].1)
            + seq![')'];
        if es.len() == 1 {
            head
        } else {
            head + ", "@ + spec_debug_entries(es.drop_first())
        }
    }
}

/// The comma-joined debug forms of a sequence of named fields, each a
/// quoted name paired with a value.
pub open spec fn spec_debug_fields(fs: Seq<(Seq<char>, ValueV)>) -> Seq<char>
    decreases fs, fs.len(),
{
    if fs.len() == 0 {
        Seq::empty()
    } else {
        let head = seq!['(', '"'] + fs[0].0 + "\", "@ + spec_value_debug(fs[0].1) + seq![')'];
        if fs.len() == 1 {
            head
        } else {
            head + ", "@ + spec_debug_fields(fs.drop_first())
        }
    }
}

/// The display form of a value: what `print` writes and what
/// stringification appends. Lists show their elements' debug forms in
/// brackets; an object shows its declaration name and its fields' debug
/// forms; a map shows as "map".
pub open spec fn spec_value_display(v: ValueV) -> Seq<char> {
    match v {
        ValueV::U32(x) => spec_u64_dec(x as int),
        ValueV::I32(x) => spec_i64_dec(x as int),
        ValueV::U64(x) => spec_u64_dec(x as int),
        ValueV::I64(x) => spec_i64_dec(x as int),
        ValueV::F32(d) => spec_dec_display(d),
        ValueV::F64(d) => spec_dec_display(d),
        ValueV::Str(s) => s,
        ValueV::Char(c) => seq![c],
        ValueV::Bool(b) => spec_bool_chars(b),
        ValueV::Date(ms) => datetime_display_of(ms),
        ValueV::List(vs) => seq!['['] + spec_debug_items(vs) + seq![']'],
        ValueV::Mapping(es) => "map"@,
        ValueV::Struct { definition, fields } => definition + ": ["@ + spec_debug_fields(fields)
            + seq![']'],
        ValueV::Error(s) => s,
        ValueV::Void => "()"@,
    }
}

fn push_str_chars(out: &mut Vec<char>, s: &str)
    ensures
        final(out)@ == old(out)@ + s@,
{
    let v = chars_of(s);
    push_char_vec(out, &v);
}

fn push_char_vec(out: &mut Vec<char>, v: &Vec<char>)
    ensures
        final(out)@ == old(out)@ + v@,
{
    let n = v.len();
    let mut i: usize = 0;
    while i < n
        invariant
            n == v@.len(),
            i <= n,
            out@ == old(out)@ + v@.take(i as int),
        decreases n - i,
    {
        out.push(v[i]);
        proof {
            assert(out@ =~= old(out)@ + v@.take(i + 1));
        }
        i = i + 1;
    }
    proof {
        assert(old(out)@ + v@.take(n as int) =~= old(out)@ + v@);
    }
}

fn push_i64_dec(out: &mut Vec<char>, n: i64)
    ensures
        final(out)@ == old(out)@ + spec_i64_dec(n as int),
{
    if n < 0 {
        out.push('-');
        let m: u64 = ((-(n as i128)) as u64);
        push_u64_dec(m, out);
        proof {
            assert(out@ =~= old(out)@ + spec_i64_dec(n as int));
        }
    } else {
        push_u64_dec(n as u64, out);
    }
}

fn push_dec_debug(out: &mut Vec<char>, d: &Decimal)
    ensures
        final(out)@ == old(out)@ + spec_dec_debug(*d),
{
    push_str_chars(out, "Decimal { neg: ");
    push_str_chars(out, if d.neg { "true" } else { "false" });
    push_str_chars(out, ", mant: ");
    push_u64_dec(d.mant, out);
    push_str_chars(out, ", exp: ");
    push_i64_dec(out, d.exp as i64);
    push_str_chars(out, " }");
    proof {
        assert(out@ =~= old(out)@ + spec_dec_debug(*d));
    }
}

fn push_value_debug(out: &mut Vec<char>, v: &Value)
    ensures
        final(out)@ == old(out)@ + spec_value_debug(v@),
    decreases *v, 0int, 0int,
{
    match v {
        Value::U32(x) => {
            push_str_chars(out, "U32(");
            push_u64_dec(*x as u64, out);
            push_str_chars(out, ")");
        }
        Value::I32(x) => {
            push_str_chars(out, "I32(");
            push_i64_dec(out, *x as i64);
            push_str_chars(out, ")");
        }
        Value::U64(x) => {
            push_str_chars(out, "U64(");
            push_u64_dec(*x, out);
            push_str_chars(out, ")");
        }
        Value::I64(x) => {
            push_str_chars(out, "I64(");
            push_i64_dec(out, *x);
            push_str_chars(out, ")");
        }
        Value::F32(d) => {
            push_str_chars(out, "F32(");
            push_dec_debug(out, d);
            push_str_chars(out, ")");
        }
        Value::F64(d) => {
            push_str_chars(out, "F64(");
            push_dec_debug(out, d);
            push_str_chars(out, ")");
        }
        Value::String(s) => {
            push_str_chars(out, "String(\"");
            push_str_chars(out, s.as_str());
            push_str_chars(out, "\")");
        }
        Value::Char(c) => {
            push_str_chars(out, "Char('");
            out.push(*c);
            push_str_chars(out, "')");
        }
        Value::Bool(b) => {
            push_str_chars(out, "Bool(");
            push_str_chars(out, if *b { "true" } else { "false" });
            push_str_chars(out, ")");
        }
        Value::Date(ms) => {
            push_str_chars(out, "Date(");
            push_i64_dec(out, *ms);
            push_str_chars(out, ")");
        }
        Value::List(vs) => {
            push_str_chars(out, "List([");
            proof {
                assert(decreases_to!(*v => vs@));
            }
            push_debug_items(out, vs, 0);
            push_str_chars(out, "])");
            proof {
                assert(crate::value::list_view(vs@).skip(0) =~= crate::value::list_view(vs@));
            }
        }
        Value::Mapping(es) => {
            push_str_chars(out, "Mapping([");
            proof {
                assert(decreases_to!(*v => es@));
            }
            push_debug_entries(out, es, 0);
            push_str_chars(out, "])");
            proof {
                assert(crate::value::entries_view(es@).skip(0) =~= crate::value::entries_view(
                    es@,
                ));
            }
        }
        Value::Struct(sv) => {
            push_str_chars(out, "Struct(StructValue { definition: \"");
            push_str_chars(out, sv.definition.as_str());
            push_str_chars(out, "\", fields: [");
            proof {
                assert(decreases_to!(*v => sv.fields@));
            }
            push_debug_fields(out, &sv.fields, 0);
            push_str_chars(out, "] })");
            proof {
                assert(crate::value::fields_view(sv.fields@).skip(0)
                    =~= crate::value::fields_view(sv.fields@));
            }
        }
        Value::Error(s) => {
            push_str_chars(out, "Error(\"");
            push_str_chars(out, s.as_str());
            push_str_chars(out, "\")");
        }
        Value::Void => {
            push_str_chars(out, "Void");
        }
    }
    proof {
        assert(out@ =~= old(out)@ + spec_value_debug(v@));
    }
}

fn push_debug_items(out: &mut Vec<char>, vs: &Vec<Value>, i: usize)
    requires
        i <= vs@.len(),
    ensures
        final(out)@ == old(out)@ + spec_debug_items(crate::value::list_view(vs@).skip(i as int)),
    decreases vs@, vs@.len() - i, 1int,
{
    broadcast use crate::value::lemma_list_view;

    let n = vs.len();
    if i < n {
        proof {
            assert(decreases_to!(vs@ => vs@[i as int]));
        }
        push_value_debug(out, &vs[i]);
        if i + 1 < n {
            push_str_chars(out, ", ");
            push_debug_items(out, vs, i + 1);
        }
    }
    proof {
        let lv = crate::value::list_view(vs@);
        assert(lv.skip(i as int).len() == lv.len() - i);
        if i < n {
            assert(lv.skip(i as int)[0] == lv[i as int]);
            if i + 1 < n {
                assert(lv.skip(i as int).drop_first() =~= lv.skip(i + 1));
            }
        }
        assert(out@ =~= old(out)@ + spec_debug_items(lv.skip(i as int)));
    }
}

fn push_debug_entries(out: &mut Vec<char>, es: &Vec<(Value, Value)>, i: usize)
    requires
        i <= es@.len(),
    ensures
        final(out)@ == old(out)@ + spec_debug_entries(
            crate::value::entries_view(es@).skip(i as int),
        ),
    decreases es@, es@.len() - i, 1int,
{
    broadcast use crate::value::lemma_entries_view;

    let n = es.len();
    if i < n {
        proof {
            assert(decreases_to!(es@ => es@[i as int].0));
            assert(decreases_to!(es@ => es@[i as int].1));
        }
        out.push('(');
        push_value_debug(out, &es[i].0);
        push_str_chars(out, ", ");
        push_value_debug(out, &es[i].1);
        out.push(')');
        if i + 1 < n {
            push_str_chars(out, ", ");
            push_debug_entries(out, es, i + 1);
        }
    }
    proof {
        let ev = crate::value::entries_view(es@);
        assert(ev.skip(i as int).len() == ev.len() - i);
        if i < n {
            assert(ev.skip(i as int)[0] == ev[i as int]);
            if i + 1 < n {
                assert(ev.skip(i as int).drop_first() =~= ev.skip(i + 1));
            }
        }
        assert(out@ =~= old(out)@ + spec_debug_entries(ev.skip(i as int)));
    }
}

fn push_debug_fields(out: &mut Vec<char>, fs: &Vec<(String, Value)>, i: usize)
    requires
        i <= fs@.len(),
    ensures
        final(out)@ == old(out)@ + spec_debug_fields(
            crate::value::fields_view(fs@).skip(i as int),
        ),
    decreases fs@, fs@.len() - i, 1int,
{
    broadcast use crate::value::lemma_fields_view;

    let n = fs.len();
    if i < n {
        proof {
            assert(decreases_to!(fs@ => fs@[i as int].1));
        }
        out.push('(');
        out.push('"');
        push_str_chars(out, fs[i].0.as_str());
        push_str_chars(out, "\", ");
        push_value_debug(out, &fs[i].1);
        out.push(')');
        if i + 1 < n {
            push_str_chars(out, ", ");
            push_debug_fields(out, fs, i + 1);
        }
    }
    proof {
        let fv = crate::value::fields_view(fs@);
        assert(fv.skip(i as int).len() == fv.len() - i);
        if i < n {
            assert(fv.skip(i as int)[0] == fv[i as int]);
            if i + 1 < n {
                assert(fv.skip(i as int).drop_first() =~= fv.skip(i + 1));
            }
        }
        assert(out@ =~= old(out)@ + spec_debug_fields(fv.skip(i as int)));
    }
}

/// The debug form of a value, as characters.
pub fn debug_chars(v: &Value) -> (out: Vec<char>)
    ensures
        out@ == spec_value_debug(v@),
{
    let mut out: Vec<char> = Vec::new();
    push_value_debug(&mut out, v);
    proof {
        assert(out@ =~= spec_value_debug(v@));
    }
    out
}

/// The display form of a value, as characters.
pub fn display_chars(v: &Value) -> (out: Vec<char>)
    ensures
        out@ == spec_value_display(v@),
{
    let mut out: Vec<char> = Vec::new();
    match v {
        Value::U32(x) => {
            push_u64_dec(*x as u64, &mut out);
        }
        Value::I32(x) => {
            push_i64_dec(&mut out, *x as i64);
        }
        Value::U64(x) => {
            push_u64_dec(*x, &mut out);
        }
        Value::I64(x) => {
            push_i64_dec(&mut out, *x);
        }
        Value::F32(d) => {
            let cs = dec_to_chars(d);
            push_char_vec(&mut out, &cs);
        }
        Value::F64(d) => {
            let cs = dec_to_chars(d);
            push_char_vec(&mut out, &cs);
        }
        Value::String(s) => {
            push_str_chars(&mut out, s.as_str());
        }
        Value::Char(c) => {
            out.push(*c);
        }
        Value::Bool(b) => {
            push_str_chars(&mut out, if *b { "true" } else { "false" });
        }
        Value::Date(ms) => {
            let s = date_display(*ms);
            push_str_chars(&mut out, s.as_str());
        }
        Value::List(vs) => {
            out.push('[');
            push_debug_items(&mut out, vs, 0);
            out.push(']');
            proof {
                assert(crate::value::list_view(vs@).skip(0) =~= crate::value::list_view(vs@));
            }
        }
        Value::Mapping(es) => {
            push_str_chars(&mut out, "map");
        }
        Value::Struct(sv) => {
            push_str_chars(&mut out, sv.definition.as_str());
            push_str_chars(&mut out, ": [");
            push_debug_fields(&mut out, &sv.fields, 0);
            out.push(']');
            proof {
                assert(crate::value::fields_view(sv.fields@).skip(0) =~= crate::value::fields_view(
                    sv.fields@,
                ));
            }
        }
        Value::Error(s) => {
            push_str_chars(&mut out, s.as_str());
        }
        Value::Void => {
            push_str_chars(&mut out, "()");
        }
    }
    proof {
        assert(out@ =~= spec_value_display(v@));
    }
    out
}

/// The display form of a value.
pub fn display_string(v: &Value) -> (s: String)
    ensures
        s@ == spec_value_display(v@),
{
    let out = display_chars(v);
    string_from_chars(&out)
}

} // verus!
