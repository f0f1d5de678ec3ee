//! The runtime value model: tagged values with structural equality,
//! same-variant ordering, and bounds-checked numeric casts.
//!
//! Floating-point literals are carried as exact [`Decimal`] numbers, and
//! date-time values as milliseconds since the Unix epoch, so that every
//! operation on a value is specified over plain data.

use vstd::prelude::*;

verus! {

use crate::decimal::{dec_cmp, spec_dec_eq, spec_dec_lt, Decimal};
use crate::errors::ValueError;
use crate::text::{chars_lt, chars_of, spec_chars_lt, str_eq};

/// The field names of one object declaration, in declaration order.
#[derive(Debug, Clone)]
pub struct StructDefinition {
    pub fields: Vec<String>,
}

/// One constructed object instance: the name of its declaration and its
/// fields, in declaration order.
#[derive(Debug)]
pub struct StructValue {
    pub definition: String,
    pub fields: Vec<(String, Value)>,
}

impl StructValue {
    /// A fresh instance of the named declaration, fields still unbound.
    pub fn new(definition: String) -> (r: StructValue)
        ensures
            r.definition == definition,
            r.fields@ =~= Seq::<(String, Value)>::empty(),
    {
        StructValue { definition, fields: Vec::new() }
    }
}

/// A runtime value of the language.
#[derive(Debug)]
pub enum Value {
    U32(u32),
    I32(i32),
    U64(u64),
    I64(i64),
    F32(Decimal),
    F64(Decimal),
    String(String),
    Char(char),
    Bool(bool),
    Date(i64),
    List(Vec<Value>),
    Mapping(Vec<(Value, Value)>),
    Struct(StructValue),
    Error(String),
    Void,
}

/// The mathematical shape of a runtime value.
#[verifier::ext_equal]
pub ghost enum ValueV {
    U32(u32),
    I32(i32),
    U64(u64),
    I64(i64),
    F32(Decimal),
    F64(Decimal),
    Str(Seq<char>),
    Char(char),
    Bool(bool),
    Date(i64),
    List(Seq<ValueV>),
    Mapping(Seq<(ValueV, ValueV)>),
    Struct { definition: Seq<char>, fields: Seq<(Seq<char>, ValueV)> },
    Error(Seq<char>),
    Void,
}

/// The mathematical shape of a value.
pub open spec fn value_view(v: Value) -> ValueV
    decreases v,
{
    match v {
        Value::U32(x) => ValueV::U32(x),
        Value::I32(x) => ValueV::I32(x),
        Value::U64(x) => ValueV::U64(x),
        Value::I64(x) => ValueV::I64(x),
        Value::F32(d) => ValueV::F32(d),
        Value::F64(d) => ValueV::F64(d),
        Value::String(s) => ValueV::Str(s@),
        Value::Char(c) => ValueV::Char(c),
        Value::Bool(b) => ValueV::Bool(b),
        Value::Date(ms) => ValueV::Date(ms),
        Value::List(vs) => ValueV::List(list_view(vs@)),
        Value::Mapping(es) => ValueV::Mapping(entries_view(es@)),
        Value::Struct(sv) => ValueV::Struct {
            definition: sv.definition@,
            fields: fields_view(sv.fields@),
        },
        Value::Error(s) => ValueV::Error(s@),
        Value::Void => ValueV::Void,
    }
}

/// The shapes of a sequence of values.
pub open spec fn list_view(s: Seq<Value>) -> Seq<ValueV>
    decreases s,
{
    if s.len() == 0 {
        Seq::empty()
    } else {
        list_view(s.drop_last()).push(value_view(s.last()))
    }
}

/// The shapes of a sequence of key-value pairs.
pub open spec fn entries_view(s: Seq<(Value, Value)>) -> Seq<(ValueV, ValueV)>
    decreases s,
{
    if s.len() == 0 {
        Seq::empty()
    } else {
        entries_view(s.drop_last()).push(
            (value_view(s.last().0), value_view(s.last().1)),
        )
    }
}

/// The shapes of a sequence of named fields.
pub open spec fn fields_view(s: Seq<(String, Value)>) -> Seq<(Seq<char>, ValueV)>
    decreases s,
{
    if s.len() == 0 {
        Seq::empty()
    } else {
        fields_view(s.drop_last()).push((s.last().0@, value_view(s.last().1)))
    }
}

pub broadcast proof fn lemma_list_view(s: Seq<Value>)
    ensures
        (#[trigger] list_view(s)).len() == s.len(),
        forall|i: int| 0 <= i < s.len() ==> #[trigger] list_view(s)[i] == value_view(s[i]),
    decreases s.len(),
{
    if s.len() > 0 {
        lemma_list_view(s.drop_last());
        assert(forall|i: int|
            0 <= i < s.len() - 1 ==> s.drop_last()[i] == s[i]);
    }
}

pub broadcast proof fn lemma_entries_view(s: Seq<(Value, Value)>)
    ensures
        (#[trigger] entries_view(s)).len() == s.len(),
        forall|i: int|
            0 <= i < s.len() ==> #[trigger] entries_view(s)[i] == (
                value_view(s[i].0),
                value_view(s[i].1),
            ),
    decreases s.len(),
{
    if s.len() > 0 {
        lemma_entries_view(s.drop_last());
        assert(forall|i: int|
            0 <= i < s.len() - 1 ==> s.drop_last()[i] == s[i]);
    }
}

pub broadcast proof fn lemma_fields_view(s: Seq<(String, Value)>)
    ensures
        (#[trigger] fields_view(s)).len() == s.len(),
        forall|i: int|
            0 <= i < s.len() ==> #[trigger] fields_view(s)[i] == (s[i].0@, value_view(s[i].1)),
    decreases s.len(),
{
    if s.len() > 0 {
        lemma_fields_view(s.drop_last());
        assert(forall|i: int|
            0 <= i < s.len() - 1 ==> s.drop_last()[i] == s[i]);
    }
}

pub broadcast proof fn lemma_list_view_push(s: Seq<Value>, x: Value)
    ensures
        #[trigger] list_view(s.push(x)) == list_view(s).push(value_view(x)),
{
    assert(s.push(x).drop_last() =~= s);
}

pub broadcast proof fn lemma_entries_view_push(s: Seq<(Value, Value)>, x: (Value, Value))
    ensures
        #[trigger] entries_view(s.push(x)) == entries_view(s).push(
            (value_view(x.0), value_view(x.1)),
        ),
{
    assert(s.push(x).drop_last() =~= s);
}

pub broadcast proof fn lemma_fields_view_push(s: Seq<(String, Value)>, x: (String, Value))
    ensures
        #[trigger] fields_view(s.push(x)) == fields_view(s).push((x.0@, value_view(x.1))),
{
    assert(s.push(x).drop_last() =~= s);
}

impl View for Value {
    type V = ValueV;

    open spec fn view(&self) -> ValueV {
        value_view(*self)
    }
}

#[verifier::loop_isolation(false)]
fn clone_value(v: &Value) -> (r: Value)
    ensures
        r@ == v@,
    decreases *v,
{
    broadcast use
        lemma_list_view,
        lemma_entries_view,
        lemma_fields_view,
        lemma_list_view_push,
        lemma_entries_view_push,
        lemma_fields_view_push,
    ;

    match v {
        Value::U32(x) => Value::U32(*x),
        Value::I32(x) => Value::I32(*x),
        Value::U64(x) => Value::U64(*x),
        Value::I64(x) => Value::I64(*x),
        Value::F32(d) => Value::F32(*d),
        Value::F64(d) => Value::F64(*d),
        Value::String(s) => Value::String(s.clone()),
        Value::Char(c) => Value::Char(*c),
        Value::Bool(b) => Value::Bool(*b),
        Value::Date(ms) => Value::Date(*ms),
        Value::List(vs) => {
            proof {
                assert(decreases_to!(*v => vs@));
            }
            Value::List(clone_values(vs))
        }
        Value::Mapping(es) => {
            let n = es.len();
            let mut out: Vec<(Value, Value)> = Vec::new();
            let mut i: usize = 0;
            while i < n
                invariant
                    n == es@.len(),
                    i <= n,
                    out@.len() == i,
                    v matches Value::Mapping(inner) && inner == es,
                    entries_view(out@) =~= entries_view(es@).take(i as int),
                decreases n - i,
            {
                proof {
                    assert(decreases_to!(*v => es@[i as int].0));
                    assert(decreases_to!(*v => es@[i as int].1));
                }
                let k = clone_value(&es[i].0);
                let val = clone_value(&es[i].1);
                out.push((k, val));
                proof {
                    assert(entries_view(out@) =~= entries_view(es@).take(i + 1));
                }
                i = i + 1;
            }
            proof {
                assert(entries_view(es@).take(n as int) =~= entries_view(es@));
            }
            Value::Mapping(out)
        }
        Value::Struct(sv) => {
            proof {
                assert(decreases_to!(*v => sv.fields@));
            }
            let out = clone_fields(&sv.fields);
            Value::Struct(StructValue { definition: sv.definition.clone(), fields: out })
        }
        Value::Error(s) => Value::Error(s.clone()),
        Value::Void => Value::Void,
    }
}

/// Clone a vector of values elementwise.
#[verifier::loop_isolation(false)]
pub fn clone_values(vs: &Vec<Value>) -> (out: Vec<Value>)
    ensures
        list_view(out@) == list_view(vs@),
    decreases vs@,
{
    broadcast use lemma_list_view, lemma_list_view_push;

    let n = vs.len();
    let mut out: Vec<Value> = Vec::new();
    let mut i: usize = 0;
    while i < n
        invariant
            n == vs@.len(),
            i <= n,
            out@.len() == i,
            list_view(out@) =~= list_view(vs@).take(i as int),
        decreases n - i,
    {
        proof {
            assert(decreases_to!(vs@ => vs@[i as int]));
        }
        out.push(clone_value(&vs[i]));
        proof {
            assert(list_view(out@) =~= list_view(vs@).take(i + 1));
        }
        i = i + 1;
    }
    proof {
        assert(list_view(vs@).take(n as int) =~= list_view(vs@));
        assert(list_view(out@) == list_view(vs@));
    }
    out
}

#[verifier::loop_isolation(false)]
fn clone_fields(fields: &Vec<(String, Value)>) -> (out: Vec<(String, Value)>)
    ensures
        fields_view(out@) == fields_view(fields@),
    decreases fields@,
{
    broadcast use lemma_fields_view, lemma_fields_view_push;

    let n = fields.len();
    let mut out: Vec<(String, Value)> = Vec::new();
    let mut i: usize = 0;
    while i < n
        invariant
            n == fields@.len(),
            i <= n,
            out@.len() == i,
            fields_view(out@) =~= fields_view(fields@).take(i as int),
        decreases n - i,
    {
        proof {
            assert(decreases_to!(fields@ => fields@[i as int].1));
        }
        let name = fields[i].0.clone();
        let val = clone_value(&fields[i].1);
        out.push((name, val));
        proof {
            assert(fields_view(out@) =~= fields_view(fields@).take(i + 1));
        }
        i = i + 1;
    }
    proof {
        assert(fields_view(fields@).take(n as int) =~= fields_view(fields@));
    }
    out
}

impl Clone for Value {
    /// A deep copy with the same shape.
    fn clone(&self) -> (r: Value)
        ensures
            r@ == self@,
    {
        clone_value(self)
    }
}

impl Clone for StructValue {
    /// A deep copy: the clone has the same declaration name and fields.
    fn clone(&self) -> (r: StructValue)
        ensures
            r.definition@ == self.definition@,
            fields_view(r.fields@) == fields_view(self.fields@),
    {
        StructValue { definition: self.definition.clone(), fields: clone_fields(&self.fields) }
    }
}

/// Structural equality of two value shapes. Values of different variants
/// Some binding of `ys` matches the binding `e`, key and value.
pub open spec fn spec_entry_in(e: (ValueV, ValueV), ys: Seq<(ValueV, ValueV)>) -> bool
    decreases e,
{
    exists|q: int|
        0 <= q < ys.len() && spec_value_eq(e.0, (#[trigger] ys[q]).0) && spec_value_eq(
            e.1,
            ys[q].1,
        )
}

/// Some binding of `xs` matches the binding `e`, key and value.
pub open spec fn spec_entry_from(xs: Seq<(ValueV, ValueV)>, e: (ValueV, ValueV)) -> bool
    decreases xs,
{
    exists|i: int|
        0 <= i < xs.len() && spec_value_eq((#[trigger] xs[i]).0, e.0) && spec_value_eq(
            xs[i].1,
            e.1,
        )
}

/// are never equal; numbers compare within their own variant only, the
/// decimal variants numerically. Two maps are equal when each holds a
/// binding matching every binding of the other: the order in which their
/// keys were bound is not significant.
pub open spec fn spec_value_eq(a: ValueV, b: ValueV) -> bool
    decreases a,
{
    match (a, b) {
        (ValueV::U32(x), ValueV::U32(y)) => x == y,
        (ValueV::I32(x), ValueV::I32(y)) => x == y,
        (ValueV::U64(x), ValueV::U64(y)) => x == y,
        (ValueV::I64(x), ValueV::I64(y)) => x == y,
        (ValueV::F32(x), ValueV::F32(y)) => spec_dec_eq(x, y),
        (ValueV::F64(x), ValueV::F64(y)) => spec_dec_eq(x, y),
        (ValueV::Str(x), ValueV::Str(y)) => x == y,
        (ValueV::Char(x), ValueV::Char(y)) => x == y,
        (ValueV::Bool(x), ValueV::Bool(y)) => x == y,
        (ValueV::Date(x), ValueV::Date(y)) => x == y,
        (ValueV::List(x), ValueV::List(y)) => x.len() == y.len() && (forall|i: int|
            0 <= i < x.len() ==> spec_value_eq(x[i], #[trigger] y[i])),
        (ValueV::Mapping(x), ValueV::Mapping(y)) => x.len() == y.len() && (forall|i: int|
            0 <= i < x.len() ==> spec_entry_in(#[trigger] x[i], y)) && (forall|q: int|
            0 <= q < y.len() ==> spec_entry_from(x, #[trigger] y[q])),
        (
            ValueV::Struct { definition: xd, fields: xf },
            ValueV::Struct { definition: yd, fields: yf },
        ) => xd == yd && xf.len() == yf.len() && (forall|i: int|
            0 <= i < xf.len() ==> xf[i].0 == (#[trigger] yf[i]).0 && spec_value_eq(
                xf[i].1,
                yf[i].1,
            )),
        (ValueV::Error(x), ValueV::Error(y)) => x == y,
        (ValueV::Void, ValueV::Void) => true,
        _ => false,
    }
}

/// Structural equality of two values.
#[verifier::loop_isolation(false)]
pub fn value_eq(a: &Value, b: &Value) -> (r: bool)
    ensures
        r == spec_value_eq(a@, b@),
    decreases *a,
{
    broadcast use lemma_list_view, lemma_entries_view, lemma_fields_view;

    match (a, b) {
        (Value::U32(x), Value::U32(y)) => x == y,
        (Value::I32(x), Value::I32(y)) => x == y,
        (Value::U64(x), Value::U64(y)) => x == y,
        (Value::I64(x), Value::I64(y)) => x == y,
        (Value::F32(x), Value::F32(y)) => dec_cmp(x, y) == 0,
        (Value::F64(x), Value::F64(y)) => dec_cmp(x, y) == 0,
        (Value::String(x), Value::String(y)) => str_eq(x.as_str(), y.as_str()),
        (Value::Char(x), Value::Char(y)) => x == y,
        (Value::Bool(x), Value::Bool(y)) => x == y,
        (Value::Date(x), Value::Date(y)) => x == y,
        (Value::List(x), Value::List(y)) => {
            proof {
                assert(a@ == ValueV::List(list_view(x@)));
                assert(b@ == ValueV::List(list_view(y@)));
            }
            if x.len() != y.len() {
                return false;
            }
            let n = x.len();
            let mut i: usize = 0;
            while i < n
                invariant
                    n == x@.len() == y@.len(),
                    i <= n,
                    a matches Value::List(xs) && xs == x,
                    forall|j: int|
                        0 <= j < i ==> spec_value_eq(
                            list_view(x@)[j],
                            #[trigger] list_view(y@)[j],
                        ),
                decreases n - i,
            {
                proof {
                    assert(decreases_to!(*a => x@[i as int]));
                }
                if !value_eq(&x[i], &y[i]) {
                    proof {
                        assert(!spec_value_eq(
                            list_view(x@)[i as int],
                            list_view(y@)[i as int],
                        ));
                    }
                    return false;
                }
                i = i + 1;
            }
            true
        }
        (Value::Mapping(x), Value::Mapping(y)) => {
            proof {
                assert(a@ == ValueV::Mapping(entries_view(x@)));
                assert(b@ == ValueV::Mapping(entries_view(y@)));
            }
            if x.len() != y.len() {
                proof {
                    assert(entries_view(x@).len() == x@.len());
                    assert(entries_view(y@).len() == y@.len());
                }
                return false;
            }
            let n = x.len();
            proof {
                assert(entries_view(x@).len() == x@.len());
                assert(entries_view(y@).len() == y@.len());
            }
            // every binding of x is matched somewhere in y
            let mut i: usize = 0;
            while i < n
                invariant
                    n == x@.len() == y@.len(),
                    i <= n,
                    a matches Value::Mapping(xs) && xs == x,
                    forall|p: int|
                        0 <= p < i ==> spec_entry_in(
                            #[trigger] entries_view(x@)[p],
                            entries_view(y@),
                        ),
                decreases n - i,
            {
                let mut hit = false;
                let mut q: usize = 0;
                while q < n
                    invariant
                        n == x@.len() == y@.len(),
                        i < n,
                        q <= n,
                        a matches Value::Mapping(xs) && xs == x,
                        hit ==> spec_entry_in(entries_view(x@)[i as int], entries_view(y@)),
                        !hit ==> forall|qq: int|
                            #![trigger entries_view(y@)[qq]]
                            0 <= qq < q ==> !(spec_value_eq(
                                entries_view(x@)[i as int].0,
                                entries_view(y@)[qq].0,
                            ) && spec_value_eq(
                                entries_view(x@)[i as int].1,
                                entries_view(y@)[qq].1,
                            )),
                    decreases n - q,
                {
                    if !hit {
                        proof {
                            assert(decreases_to!(*a => x@[i as int]));
                            assert(decreases_to!(*a => x@[i as int].1));
                            assert(entries_view(x@)[i as int] == (
                                x@[i as int].0@,
                                x@[i as int].1@,
                            ));
                            assert(entries_view(y@)[q as int] == (
                                y@[q as int].0@,
                                y@[q as int].1@,
                            ));
                        }
                        let keys_match = value_eq(&x[i].0, &y[q].0);
                        let values_match = if keys_match {
                            value_eq(&x[i].1, &y[q].1)
                        } else {
                            false
                        };
                        if keys_match && values_match {
                            hit = true;
                        }
                    }
                    q = q + 1;
                }
                if !hit {
                    proof {
                        assert(!spec_value_eq(a@, b@)) by {
                            if spec_value_eq(a@, b@) {
                                assert(spec_entry_in(
                                    entries_view(x@)[i as int],
                                    entries_view(y@),
                                ));
                            }
                        }
                    }
                    return false;
                }
                i = i + 1;
            }
            // every binding of y is matched somewhere in x
            let mut qo: usize = 0;
            while qo < n
                invariant
                    n == x@.len() == y@.len(),
                    qo <= n,
                    a matches Value::Mapping(xs) && xs == x,
                    forall|p: int|
                        0 <= p < n ==> spec_entry_in(
                            #[trigger] entries_view(x@)[p],
                            entries_view(y@),
                        ),
                    forall|q: int|
                        0 <= q < qo ==> spec_entry_from(
                            entries_view(x@),
                            #[trigger] entries_view(y@)[q],
                        ),
                decreases n - qo,
            {
                let mut hit = false;
                let mut i2: usize = 0;
                while i2 < n
                    invariant
                        n == x@.len() == y@.len(),
                        qo < n,
                        i2 <= n,
                        a matches Value::Mapping(xs) && xs == x,
                        hit ==> spec_entry_from(entries_view(x@), entries_view(y@)[qo as int]),
                        !hit ==> forall|p: int|
                            #![trigger entries_view(x@)[p]]
                            0 <= p < i2 ==> !(spec_value_eq(
                                entries_view(x@)[p].0,
                                entries_view(y@)[qo as int].0,
                            ) && spec_value_eq(
                                entries_view(x@)[p].1,
                                entries_view(y@)[qo as int].1,
                            )),
                    decreases n - i2,
                {
                    if !hit {
                        proof {
                            assert(decreases_to!(*a => x@[i2 as int]));
                            assert(decreases_to!(*a => x@[i2 as int].1));
                            assert(entries_view(x@)[i2 as int] == (
                                x@[i2 as int].0@,
                                x@[i2 as int].1@,
                            ));
                            assert(entries_view(y@)[qo as int] == (
                                y@[qo as int].0@,
                                y@[qo as int].1@,
                            ));
                        }
                        let keys_match = value_eq(&x[i2].0, &y[qo].0);
                        let values_match = if keys_match {
                            value_eq(&x[i2].1, &y[qo].1)
                        } else {
                            false
                        };
                        if keys_match && values_match {
                            hit = true;
                        }
                    }
                    i2 = i2 + 1;
                }
                if !hit {
                    proof {
                        assert(!spec_value_eq(a@, b@)) by {
                            if spec_value_eq(a@, b@) {
                                assert(spec_entry_from(
                                    entries_view(x@),
                                    entries_view(y@)[qo as int],
                                ));
                            }
                        }
                    }
                    return false;
                }
                qo = qo + 1;
            }
            proof {
                assert(spec_value_eq(a@, b@));
            }
            true
        }
        (Value::Struct(x), Value::Struct(y)) => {
            proof {
                assert(fields_view(x.fields@).len() == x.fields@.len());
                assert(fields_view(y.fields@).len() == y.fields@.len());
            }
            if !str_eq(x.definition.as_str(), y.definition.as_str()) {
                return false;
            }
            if x.fields.len() != y.fields.len() {
                return false;
            }
            let n = x.fields.len();
            let mut i: usize = 0;
            while i < n
                invariant
                    n == x.fields@.len() == y.fields@.len(),
                    i <= n,
                    a matches Value::Struct(xs) && xs == x,
                    forall|j: int|
                        0 <= j < i ==> fields_view(x.fields@)[j].0 == (
                        #[trigger] fields_view(y.fields@)[j]).0 && spec_value_eq(
                            fields_view(x.fields@)[j].1,
                            fields_view(y.fields@)[j].1,
                        ),
                decreases n - i,
            {
                proof {
                    assert(decreases_to!(*a => x.fields@[i as int].1));
                }
                if !str_eq(x.fields[i].0.as_str(), y.fields[i].0.as_str()) {
                    proof {
                        assert(fields_view(x.fields@)[i as int].0 != fields_view(
                            y.fields@,
                        )[i as int].0);
                    }
                    return false;
                }
                if !value_eq(&x.fields[i].1, &y.fields[i].1) {
                    proof {
                        assert(!spec_value_eq(
                            fields_view(x.fields@)[i as int].1,
                            fields_view(y.fields@)[i as int].1,
                        ));
                    }
                    return false;
                }
                i = i + 1;
            }
            true
        }
        (Value::Error(x), Value::Error(y)) => str_eq(x.as_str(), y.as_str()),
        (Value::Void, Value::Void) => true,
        _ => false,
    }
}

impl PartialEq for Value {
    fn eq(&self, other: &Value) -> (r: bool) {
        value_eq(self, other)
    }
}

impl vstd::std_specs::cmp::PartialEqSpecImpl for Value {
    open spec fn obeys_eq_spec() -> bool {
        true
    }

    open spec fn eq_spec(&self, other: &Value) -> bool {
        spec_value_eq(value_view(*self), value_view(*other))
    }
}

/// The outcome of comparing two values: an ordering, or none when the
/// variants do not compare.
#[derive(Debug, Clone, Copy, PartialEq, Eq, Structural)]
pub enum ValueOrder {
    Less,
    Equal,
    Greater,
    Unordered,
}

/// Ordering of two value shapes: defined within one variant for numbers,
/// strings (lexicographically by code point), characters and dates;
/// everything else is unordered.
pub open spec fn spec_value_cmp(a: ValueV, b: ValueV) -> ValueOrder {
    match (a, b) {
        (ValueV::U32(x), ValueV::U32(y)) => spec_int_order(x as int, y as int),
        (ValueV::I32(x), ValueV::I32(y)) => spec_int_order(x as int, y as int),
        (ValueV::U64(x), ValueV::U64(y)) => spec_int_order(x as int, y as int),
        (ValueV::I64(x), ValueV::I64(y)) => spec_int_order(x as int, y as int),
        (ValueV::F32(x), ValueV::F32(y)) => spec_dec_order(x, y),
        (ValueV::F64(x), ValueV::F64(y)) => spec_dec_order(x, y),
        (ValueV::Str(x), ValueV::Str(y)) => if x == y {
            ValueOrder::Equal
        } else if spec_chars_lt(x, y) {
            ValueOrder::Less
        } else {
            ValueOrder::Greater
        },
        (ValueV::Char(x), ValueV::Char(y)) => spec_int_order(x as int, y as int),
        (ValueV::Date(x), ValueV::Date(y)) => spec_int_order(x as int, y as int),
        _ => ValueOrder::Unordered,
    }
}

/// The order of two mathematical integers.
pub open spec fn spec_int_order(x: int, y: int) -> ValueOrder {
    if x < y {
        ValueOrder::Less
    } else if x == y {
        ValueOrder::Equal
    } else {
        ValueOrder::Greater
    }
}

/// The order of two decimals.
pub open spec fn spec_dec_order(x: Decimal, y: Decimal) -> ValueOrder {
    if spec_dec_lt(x, y) {
        ValueOrder::Less
    } else if spec_dec_eq(x, y) {
        ValueOrder::Equal
    } else {
        ValueOrder::Greater
    }
}

/// Compare two values.
pub fn value_cmp(a: &Value, b: &Value) -> (r: ValueOrder)
    ensures
        r == spec_value_cmp(a@, b@),
{
    match (a, b) {
        (Value::U32(x), Value::U32(y)) => int_order_u64(*x as u64, *y as u64),
        (Value::I32(x), Value::I32(y)) => int_order_i64(*x as i64, *y as i64),
        (Value::U64(x), Value::U64(y)) => int_order_u64(*x, *y),
        (Value::I64(x), Value::I64(y)) => int_order_i64(*x, *y),
        (Value::F32(x), Value::F32(y)) => dec_order(x, y),
        (Value::F64(x), Value::F64(y)) => dec_order(x, y),
        (Value::String(x), Value::String(y)) => {
            if str_eq(x.as_str(), y.as_str()) {
                ValueOrder::Equal
            } else {
                let xv = chars_of(x.as_str());
                let yv = chars_of(y.as_str());
                if chars_lt(&xv, &yv) {
                    ValueOrder::Less
                } else {
                    ValueOrder::Greater
                }
            }
        }
        (Value::Char(x), Value::Char(y)) => int_order_u64(*x as u64, *y as u64),
        (Value::Date(x), Value::Date(y)) => int_order_i64(*x, *y),
        _ => ValueOrder::Unordered,
    }
}

fn int_order_u64(x: u64, y: u64) -> (r: ValueOrder)
    ensures
        r == spec_int_order(x as int, y as int),
{
    if x < y {
        ValueOrder::Less
    } else if x == y {
        ValueOrder::Equal
    } else {
        ValueOrder::Greater
    }
}

fn int_order_i64(x: i64, y: i64) -> (r: ValueOrder)
    ensures
        r == spec_int_order(x as int, y as int),
{
    if x < y {
        ValueOrder::Less
    } else if x == y {
        ValueOrder::Equal
    } else {
        ValueOrder::Greater
    }
}

fn dec_order(x: &Decimal, y: &Decimal) -> (r: ValueOrder)
    ensures
        r == spec_dec_order(*x, *y),
{
    let c = dec_cmp(x, y);
    if c == -1 {
        ValueOrder::Less
    } else if c == 0 {
        ValueOrder::Equal
    } else {
        ValueOrder::Greater
    }
}

/// The checked narrowing of a value to an unsigned 32-bit integer: defined
/// on the integer variants whose value is in range, a cast error elsewhere.
pub open spec fn spec_cast_u32(v: ValueV) -> Result<ValueV, ValueError> {
    match v {
        ValueV::U32(x) => Ok(ValueV::U32(x)),
        ValueV::I32(x) => if 0 <= x {
            Ok(ValueV::U32(x as u32))
        } else {
            Err(ValueError::IllegalCast)
        },
        ValueV::U64(x) => if x <= u32::MAX {
            Ok(ValueV::U32(x as u32))
        } else {
            Err(ValueError::IllegalCast)
        },
        ValueV::I64(x) => if 0 <= x <= u32::MAX {
            Ok(ValueV::U32(x as u32))
        } else {
            Err(ValueError::IllegalCast)
        },
        _ => Err(ValueError::IllegalCast),
    }
}

/// The checked narrowing of a value to an unsigned 64-bit integer.
pub open spec fn spec_cast_u64(v: ValueV) -> Result<ValueV, ValueError> {
    match v {
        ValueV::U32(x) => Ok(ValueV::U64(x as u64)),
        ValueV::I32(x) => if 0 <= x {
            Ok(ValueV::U64(x as u64))
        } else {
            Err(ValueError::IllegalCast)
        },
        ValueV::U64(x) => Ok(ValueV::U64(x)),
        ValueV::I64(x) => if 0 <= x {
            Ok(ValueV::U64(x as u64))
        } else {
            Err(ValueError::IllegalCast)
        },
        _ => Err(ValueError::IllegalCast),
    }
}

/// The checked narrowing of a value to a signed 32-bit integer.
pub open spec fn spec_cast_i32(v: ValueV) -> Result<ValueV, ValueError> {
    match v {
        ValueV::U32(x) => if x <= i32::MAX {
            Ok(ValueV::I32(x as i32))
        } else {
            Err(ValueError::IllegalCast)
        },
        ValueV::I32(x) => Ok(ValueV::I32(x)),
        ValueV::U64(x) => if x <= i32::MAX {
            Ok(ValueV::I32(x as i32))
        } else {
            Err(ValueError::IllegalCast)
        },
        ValueV::I64(x) => if i32::MIN <= x <= i32::MAX {
            Ok(ValueV::I32(x as i32))
        } else {
            Err(ValueError::IllegalCast)
        },
        _ => Err(ValueError::IllegalCast),
    }
}

/// The conversion of a value to a 32-bit float slot: integers become exact
/// decimals, decimal variants change width only.
pub open spec fn spec_cast_f32(v: ValueV) -> Result<ValueV, ValueError> {
    match v {
        ValueV::U32(x) => Ok(ValueV::F32(Decimal { neg: false, mant: x as u64, exp: 0 })),
        ValueV::U64(x) => Ok(ValueV::F32(Decimal { neg: false, mant: x, exp: 0 })),
        ValueV::I32(x) => Ok(
            ValueV::F32(
                Decimal {
                    neg: x < 0,
                    mant: (if x < 0 {
                        -(x as int)
                    } else {
                        x as int
                    }) as u64,
                    exp: 0,
                },
            ),
        ),
        ValueV::I64(x) => Ok(
            ValueV::F32(
                Decimal {
                    neg: x < 0,
                    mant: (if x < 0 {
                        -(x as int)
                    } else {
                        x as int
                    }) as u64,
                    exp: 0,
                },
            ),
        ),
        ValueV::F32(d) => Ok(ValueV::F32(d)),
        ValueV::F64(d) => Ok(ValueV::F32(d)),
        _ => Err(ValueError::IllegalCast),
    }
}

impl Value {
    /// Narrow to an unsigned 32-bit integer, bounds-checked.
    pub fn cast_u32(&self) -> (r: Result<Value, ValueError>)
        ensures
            match r {
                Ok(v) => spec_cast_u32(self@) == Ok::<ValueV, ValueError>(v@),
                Err(e) => spec_cast_u32(self@) == Err::<ValueV, ValueError>(e),
            },
    {
        match self {
            Value::U32(x) => Ok(Value::U32(*x)),
            Value::I32(x) => if 0 <= *x {
                Ok(Value::U32(*x as u32))
            } else {
                Err(ValueError::IllegalCast)
            },
            Value::U64(x) => if *x <= u32::MAX as u64 {
                Ok(Value::U32(*x as u32))
            } else {
                Err(ValueError::IllegalCast)
            },
            Value::I64(x) => if 0 <= *x && *x <= u32::MAX as i64 {
                Ok(Value::U32(*x as u32))
            } else {
                Err(ValueError::IllegalCast)
            },
            _ => Err(ValueError::IllegalCast),
        }
    }

    /// Narrow to an unsigned 64-bit integer, bounds-checked.
    pub fn cast_u64(&self) -> (r: Result<Value, ValueError>)
        ensures
            match r {
                Ok(v) => spec_cast_u64(self@) == Ok::<ValueV, ValueError>(v@),
                Err(e) => spec_cast_u64(self@) == Err::<ValueV, ValueError>(e),
            },
    {
        match self {
            Value::U32(x) => Ok(Value::U64(*x as u64)),
            Value::I32(x) => if 0 <= *x {
                Ok(Value::U64(*x as u64))
            } else {
                Err(ValueError::IllegalCast)
            },
            Value::U64(x) => Ok(Value::U64(*x)),
            Value::I64(x) => if 0 <= *x {
                Ok(Value::U64(*x as u64))
            } else {
                Err(ValueError::IllegalCast)
            },
            _ => Err(ValueError::IllegalCast),
        }
    }

    /// Narrow to a signed 32-bit integer, bounds-checked.
    pub fn cast_i32(&self) -> (r: Result<Value, ValueError>)
        ensures
            match r {
                Ok(v) => spec_cast_i32(self@) == Ok::<ValueV, ValueError>(v@),
                Err(e) => spec_cast_i32(self@) == Err::<ValueV, ValueError>(e),
            },
    {
        match self {
            Value::U32(x) => if *x <= i32::MAX as u32 {
                Ok(Value::I32(*x as i32))
            } else {
                Err(ValueError::IllegalCast)
            },
            Value::I32(x) => Ok(Value::I32(*x)),
            Value::U64(x) => if *x <= i32::MAX as u64 {
                Ok(Value::I32(*x as i32))
            } else {
                Err(ValueError::IllegalCast)
            },
            Value::I64(x) => if i32::MIN as i64 <= *x && *x <= i32::MAX as i64 {
                Ok(Value::I32(*x as i32))
            } else {
                Err(ValueError::IllegalCast)
            },
            _ => Err(ValueError::IllegalCast),
        }
    }

    /// Convert to a 32-bit float slot.
    pub fn cast_f32(&self) -> (r: Result<Value, ValueError>)
        ensures
            match r {
                Ok(v) => spec_cast_f32(self@) == Ok::<ValueV, ValueError>(v@),
                Err(e) => spec_cast_f32(self@) == Err::<ValueV, ValueError>(e),
            },
    {
        match self {
            Value::U32(x) => Ok(Value::F32(Decimal { neg: false, mant: *x as u64, exp: 0 })),
            Value::U64(x) => Ok(Value::F32(Decimal { neg: false, mant: *x, exp: 0 })),
            Value::I32(x) => {
                let mag: u64 = if *x < 0 {
                    (-(*x as i64)) as u64
                } else {
                    *x as u64
                };
                Ok(Value::F32(Decimal { neg: *x < 0, mant: mag, exp: 0 }))
            }
            Value::I64(x) => {
                let mag: u64 = if *x < 0 {
                    (-(*x as i128)) as u64
                } else {
                    *x as u64
                };
                Ok(Value::F32(Decimal { neg: *x < 0, mant: mag, exp: 0 }))
            }
            Value::F32(d) => Ok(Value::F32(*d)),
            Value::F64(d) => Ok(Value::F32(*d)),
            _ => Err(ValueError::IllegalCast),
        }
    }

    /// The value as a list index, when it is a non-negative integer that
    /// fits the machine's word.
    pub fn cast_usize(&self) -> (r: Result<usize, ValueError>)
        ensures
            match r {
                Ok(n) => spec_cast_index(self@) == Some(n as int),
                Err(e) => spec_cast_index(self@) is None && e == ValueError::IllegalCast,
            },
    {
        match self {
            Value::U32(x) => Ok(*x as usize),
            Value::I32(x) => if 0 <= *x {
                Ok(*x as usize)
            } else {
                Err(ValueError::IllegalCast)
            },
            Value::U64(x) => if *x <= usize::MAX as u64 {
                Ok(*x as usize)
            } else {
                Err(ValueError::IllegalCast)
            },
            Value::I64(x) => if 0 <= *x && (*x as u64) <= usize::MAX as u64 {
                Ok(*x as usize)
            } else {
                Err(ValueError::IllegalCast)
            },
            _ => Err(ValueError::IllegalCast),
        }
    }
}

/// The value as a mathematical index: defined on the non-negative integer
/// variants that fit the machine's word.
pub open spec fn spec_cast_index(v: ValueV) -> Option<int> {
    match v {
        ValueV::U32(x) => Some(x as int),
        ValueV::I32(x) => if 0 <= x {
            Some(x as int)
        } else {
            None
        },
        ValueV::U64(x) => if x <= usize::MAX {
            Some(x as int)
        } else {
            None
        },
        ValueV::I64(x) => if 0 <= x <= usize::MAX {
            Some(x as int)
        } else {
            None
        },
        _ => None,
    }
}

} // verus!
