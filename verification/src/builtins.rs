//! The table of built-in methods: receiver type name and method name to
//! a native operation. Lookup is pure; each operation is specified
//! exactly on the values it accepts, and fails with a runtime error
//! elsewhere.

use vstd::prelude::*;

verus! {

use crate::errors::{RuntimeError, RuntimeErrorV, ValueError};
use crate::text::{chars_of, str_eq, string_from_chars};
use crate::value::{clone_values, lemma_list_view, lemma_list_view_push, list_view, value_view, Value, ValueV};

/// The built-in methods the language offers.
#[derive(Debug, Clone, Copy, PartialEq, Eq, Structural)]
pub enum Builtin {
    StringLen,
    StringToUppercase,
    StringToLowercase,
    StringContains,
    StringReverse,
    StringTrim,
    StringTrimStart,
    StringTrimEnd,
    StringReplaceAll,
    ListLen,
    ListPush,
    ListRemove,
}

/// The method filed under a receiver type name and method name, if any.
pub open spec fn spec_builtin_lookup(receiver_type: Seq<char>, method: Seq<char>) -> Option<Builtin> {
    if receiver_type == "string"@ {
        if method == "len"@ {
            Some(Builtin::StringLen)
        } else if method == "to_uppercase"@ {
            Some(Builtin::StringToUppercase)
        } else if method == "to_lowercase"@ {
            Some(Builtin::StringToLowercase)
        } else if method == "contains"@ {
            Some(Builtin::StringContains)
        } else if method == "reverse"@ {
            Some(Builtin::StringReverse)
        } else if method == "trim"@ {
            Some(Builtin::StringTrim)
        } else if method == "trim_start"@ {
            Some(Builtin::StringTrimStart)
        } else if method == "trim_end"@ {
            Some(Builtin::StringTrimEnd)
        } else if method == "replace_all"@ {
            Some(Builtin::StringReplaceAll)
        } else {
            None
        }
    } else if receiver_type == "list"@ {
        if method == "len"@ {
            Some(Builtin::ListLen)
        } else if method == "push"@ {
            Some(Builtin::ListPush)
        } else if method == "remove"@ {
            Some(Builtin::ListRemove)
        } else {
            None
        }
    } else {
        None
    }
}

/// Look a method up by receiver type name and method name.
pub fn lookup(receiver_type: &str, method: &str) -> (r: Option<Builtin>)
    ensures
        r == spec_builtin_lookup(receiver_type@, method@),
{
    if str_eq(receiver_type, "string") {
        if str_eq(method, "len") {
            Some(Builtin::StringLen)
        } else if str_eq(method, "to_uppercase") {
            Some(Builtin::StringToUppercase)
        } else if str_eq(method, "to_lowercase") {
            Some(Builtin::StringToLowercase)
        } else if str_eq(method, "contains") {
            Some(Builtin::StringContains)
        } else if str_eq(method, "reverse") {
            Some(Builtin::StringReverse)
        } else if str_eq(method, "trim") {
            Some(Builtin::StringTrim)
        } else if str_eq(method, "trim_start") {
            Some(Builtin::StringTrimStart)
        } else if str_eq(method, "trim_end") {
            Some(Builtin::StringTrimEnd)
        } else if str_eq(method, "replace_all") {
            Some(Builtin::StringReplaceAll)
        } else {
            None
        }
    } else if str_eq(receiver_type, "list") {
        if str_eq(method, "len") {
            Some(Builtin::ListLen)
        } else if str_eq(method, "push") {
            Some(Builtin::ListPush)
        } else if str_eq(method, "remove") {
            Some(Builtin::ListRemove)
        } else {
            None
        }
    } else {
        None
    }
}

/// The number of arguments a method takes, beside its receiver.
/// `contains` takes its pattern as one argument: a declaration without
/// parameters would leave the method uncallable, since call sites are
/// checked against this arity.
pub open spec fn spec_builtin_arity(b: Builtin) -> nat {
    match b {
        Builtin::StringReplaceAll => 2,
        Builtin::StringContains => 1,
        Builtin::ListPush => 1,
        Builtin::ListRemove => 1,
        _ => 0,
    }
}

/// The arity of a method.
pub fn builtin_arity(b: Builtin) -> (r: usize)
    ensures
        r == spec_builtin_arity(b),
{
    match b {
        Builtin::StringReplaceAll => 2,
        Builtin::StringContains => 1,
        Builtin::ListPush => 1,
        Builtin::ListRemove => 1,
        _ => 0,
    }
}

/// The static type of a method's result.
pub open spec fn spec_builtin_return_type(b: Builtin) -> crate::tokens::TokenType {
    match b {
        Builtin::StringLen => crate::tokens::TokenType::I64,
        Builtin::StringContains => crate::tokens::TokenType::Bool,
        Builtin::ListLen => crate::tokens::TokenType::U64,
        Builtin::ListPush => crate::tokens::TokenType::ListType,
        Builtin::ListRemove => crate::tokens::TokenType::ListType,
        _ => crate::tokens::TokenType::StringType,
    }
}

/// The static type of a method's result.
pub fn builtin_return_type(b: Builtin) -> (r: crate::tokens::TokenType)
    ensures
        r == spec_builtin_return_type(b),
{
    match b {
        Builtin::StringLen => crate::tokens::TokenType::I64,
        Builtin::StringContains => crate::tokens::TokenType::Bool,
        Builtin::ListLen => crate::tokens::TokenType::U64,
        Builtin::ListPush => crate::tokens::TokenType::ListType,
        Builtin::ListRemove => crate::tokens::TokenType::ListType,
        _ => crate::tokens::TokenType::StringType,
    }
}

/// What `str::to_uppercase` returns: a function of the characters alone.
pub uninterp spec fn upper_of(s: Seq<char>) -> Seq<char>;

/// Relies on `str::to_uppercase`: the result depends on the characters
/// alone.
#[verifier::external_body]
fn to_uppercase(s: &str) -> (r: String)
    ensures
        r@ == upper_of(s@),
{
    s.to_uppercase()
}

/// What `str::to_lowercase` returns: a function of the characters alone.
pub uninterp spec fn lower_of(s: Seq<char>) -> Seq<char>;

/// Relies on `str::to_lowercase`: the result depends on the characters
/// alone.
#[verifier::external_body]
fn to_lowercase(s: &str) -> (r: String)
    ensures
        r@ == lower_of(s@),
{
    s.to_lowercase()
}

/// Whether a pattern is accepted by the regex engine.
pub uninterp spec fn regex_ok(pattern: Seq<char>) -> bool;

/// What replacing every match of a valid pattern inside a text with a
/// replacement yields: a function of the three texts alone.
pub uninterp spec fn regex_replace_of(
    pattern: Seq<char>,
    text: Seq<char>,
    replacement: Seq<char>,
) -> Seq<char>;

/// Relies on `regex::Regex::new` and `regex::Regex::replace_all`: whether
/// the pattern compiles, and the replaced text, depend on the three
/// arguments alone.
#[verifier::external_body]
fn replace_all_via_regex(text: &str, pattern: &str, replacement: &str) -> (r: Option<String>)
    ensures
        r is Some <==> regex_ok(pattern@),
        r is Some ==> r->0@ == regex_replace_of(pattern@, text@, replacement@),
{
    match regex::Regex::new(pattern) {
        Ok(re) => Some(re.replace_all(text, replacement).into_owned()),
        Err(_) => None,
    }
}

/// Whether a character is in the White_Space set that trimming removes.
pub open spec fn spec_is_ws(c: char) -> bool {
    c == ' ' || c == '\t' || c == '\n' || c == '\r' || c == '\u{b}' || c == '\u{c}' || c
        == '\u{85}' || c == '\u{a0}' || c == '\u{1680}' || ('\u{2000}' <= c && c <= '\u{200a}') || c
        == '\u{2028}' || c == '\u{2029}' || c == '\u{202f}' || c == '\u{205f}' || c == '\u{3000}'
}

fn is_ws(c: char) -> (r: bool)
    ensures
        r == spec_is_ws(c),
{
    c == ' ' || c == '\t' || c == '\n' || c == '\r' || c == '\u{b}' || c == '\u{c}' || c
        == '\u{85}' || c == '\u{a0}' || c == '\u{1680}' || ('\u{2000}' <= c && c <= '\u{200a}') || c
        == '\u{2028}' || c == '\u{2029}' || c == '\u{202f}' || c == '\u{205f}' || c == '\u{3000}'
}

/// A sequence with its leading white space removed.
pub open spec fn spec_trim_start(s: Seq<char>) -> Seq<char>
    decreases s.len(),
{
    if s.len() > 0 && spec_is_ws(s[0]) {
        spec_trim_start(s.drop_first())
    } else {
        s
    }
}

/// A sequence with its trailing white space removed.
pub open spec fn spec_trim_end(s: Seq<char>) -> Seq<char>
    decreases s.len(),
{
    if s.len() > 0 && spec_is_ws(s.last()) {
        spec_trim_end(s.drop_last())
    } else {
        s
    }
}

#[verifier::loop_isolation(false)]
fn trim_range(s: &Vec<char>, trim_front: bool, trim_back: bool) -> (r: Vec<char>)
    ensures
        trim_front && trim_back ==> r@ == spec_trim_end(spec_trim_start(s@)),
        trim_front && !trim_back ==> r@ == spec_trim_start(s@),
        !trim_front && trim_back ==> r@ == spec_trim_end(s@),
{
    let n = s.len();
    let mut from: usize = 0;
    proof {
        assert(s@.skip(0) =~= s@);
    }
    if trim_front {
        let mut scanning = true;
        while scanning && from < n
            invariant
                n == s@.len(),
                from <= n,
                spec_trim_start(s@) == spec_trim_start(s@.skip(from as int)),
                !scanning ==> from < n && !spec_is_ws(s@[from as int]),
            decreases n - from + (if scanning { 1int } else { 0int }),
        {
            proof {
                assert(s@.skip(from as int)[0] == s@[from as int]);
            }
            if is_ws(s[from]) {
                proof {
                    assert(s@.skip(from as int).drop_first() =~= s@.skip(from + 1));
                }
                from = from + 1;
            } else {
                scanning = false;
            }
        }
        proof {
            if from == n {
                assert(s@.skip(from as int) =~= Seq::<char>::empty());
            } else {
                assert(s@.skip(from as int)[0] == s@[from as int]);
            }
            lemma_trim_start_fixed(s@.skip(from as int));
        }
    }
    let mut to: usize = n;
    proof {
        assert(s@.subrange(from as int, n as int) =~= s@.skip(from as int));
    }
    if trim_back {
        let mut scanning = true;
        while scanning && to > from
            invariant
                n == s@.len(),
                from <= to <= n,
                spec_trim_end(s@.skip(from as int)) == spec_trim_end(
                    s@.subrange(from as int, to as int),
                ),
                !scanning ==> to > from && !spec_is_ws(s@[to - 1]),
            decreases to + (if scanning { 1int } else { 0int }),
        {
            proof {
                assert(s@.subrange(from as int, to as int).last() == s@[to - 1]);
            }
            if is_ws(s[to - 1]) {
                proof {
                    assert(s@.subrange(from as int, to as int).drop_last() =~= s@.subrange(
                        from as int,
                        to - 1,
                    ));
                }
                to = to - 1;
            } else {
                scanning = false;
            }
        }
        proof {
            if to > from {
                assert(s@.subrange(from as int, to as int).last() == s@[to - 1]);
            } else {
                assert(s@.subrange(from as int, to as int) =~= Seq::<char>::empty());
            }
            lemma_trim_end_fixed(s@.subrange(from as int, to as int));
        }
    }
    let mut out: Vec<char> = Vec::new();
    let mut i: usize = from;
    while i < to
        invariant
            from <= i <= to <= s@.len(),
            out@ == s@.subrange(from as int, i as int),
        decreases to - i,
    {
        out.push(s[i]);
        proof {
            assert(out@ =~= s@.subrange(from as int, i + 1));
        }
        i = i + 1;
    }
    proof {
        assert(out@ =~= s@.subrange(from as int, to as int));
        if !trim_back {
            assert(s@.subrange(from as int, to as int) =~= s@.skip(from as int));
        }
    }
    out
}

/// A sequence that does not start with white space is its own trim.
proof fn lemma_trim_start_fixed(s: Seq<char>)
    requires
        s.len() == 0 || !spec_is_ws(s[0]),
    ensures
        spec_trim_start(s) == s,
{
}

/// A sequence that does not end with white space is its own trim.
proof fn lemma_trim_end_fixed(s: Seq<char>)
    requires
        s.len() == 0 || !spec_is_ws(s.last()),
    ensures
        spec_trim_end(s) == s,
{
}

/// Whether `p` occurs as a contiguous run inside `s`.
pub open spec fn spec_str_contains(s: Seq<char>, p: Seq<char>) -> bool {
    exists|k: int| 0 <= k <= s.len() - p.len() && #[trigger] s.subrange(k, k + p.len()) == p
}

#[verifier::loop_isolation(false)]
fn contains_chars(s: &Vec<char>, p: &Vec<char>) -> (r: bool)
    ensures
        r == spec_str_contains(s@, p@),
{
    let n = s.len();
    let m = p.len();
    if m > n {
        proof {
            assert(s@.len() - p@.len() < 0);
        }
        return false;
    }
    let mut k: usize = 0;
    loop
        invariant
            m <= n,
            n == s@.len(),
            m == p@.len(),
            k <= n - m + 1,
            forall|j: int| 0 <= j < k ==> #[trigger] s@.subrange(j, j + p@.len()) != p@,
        decreases n - m - k + 1,
    {
        if k > n - m {
            break ;
        }
        let mut i: usize = 0;
        let mut matching = true;
        while matching && i < m
            invariant
                k + m <= n,
                m == p@.len(),
                n == s@.len(),
                i <= m,
                matching ==> forall|c: int| 0 <= c < i ==> s@[k + c] == p@[c],
                !matching ==> i < m && s@.subrange(k as int, k + p@.len())[i as int]
                    != p@[i as int],
            decreases m - i + (if matching { 1int } else { 0int }),
        {
            if s[k + i] != p[i] {
                proof {
                    assert(s@.subrange(k as int, k + p@.len())[i as int] != p@[i as int]);
                }
                matching = false;
            } else {
                i = i + 1;
            }
        }
        if matching {
            proof {
                assert(s@.subrange(k as int, k + p@.len()) =~= p@);
            }
            return true;
        }
        proof {
            assert(s@.subrange(k as int, k + p@.len()) != p@);
        }
        k = k + 1;
    }
    false
}

/// The characters of `s` in reverse order.
pub open spec fn spec_reverse(s: Seq<char>) -> Seq<char> {
    Seq::new(s.len(), |i: int| s[s.len() - 1 - i])
}

fn reverse_chars(s: &Vec<char>) -> (r: Vec<char>)
    ensures
        r@ == spec_reverse(s@),
{
    let n = s.len();
    let mut out: Vec<char> = Vec::new();
    let mut i: usize = 0;
    while i < n
        invariant
            n == s@.len(),
            i <= n,
            out@ == spec_reverse(s@).take(i as int),
        decreases n - i,
    {
        out.push(s[n - 1 - i]);
        proof {
            assert(out@ =~= spec_reverse(s@).take(i + 1));
        }
        i = i + 1;
    }
    proof {
        assert(spec_reverse(s@).take(n as int) =~= spec_reverse(s@));
    }
    out
}

/// What a built-in method call yields on given values: its result, or
/// the precise runtime error it reports instead.
pub open spec fn spec_call_builtin(
    receiver_type: Seq<char>,
    method: Seq<char>,
    receiver: ValueV,
    args: Seq<ValueV>,
) -> Result<ValueV, RuntimeErrorV> {
    match spec_builtin_lookup(receiver_type, method) {
        None => Err(RuntimeErrorV::FunctionNotFound(receiver_type + seq!['.'] + method)),
        Some(b) => match b {
            Builtin::StringLen => match receiver {
                ValueV::Str(s) => {
                    let bytes = vstd::utf8::encode_utf8(s).len() as usize;
                    if bytes <= i64::MAX {
                        Ok(ValueV::I64(bytes as i64))
                    } else {
                        Err(RuntimeErrorV::IllegalArgument("oversized string"@))
                    }
                },
                _ => Err(RuntimeErrorV::ExpectedType("string"@)),
            },
            Builtin::StringToUppercase => match receiver {
                ValueV::Str(s) => Ok(ValueV::Str(upper_of(s))),
                _ => Err(RuntimeErrorV::ExpectedType("string"@)),
            },
            Builtin::StringToLowercase => match receiver {
                ValueV::Str(s) => Ok(ValueV::Str(lower_of(s))),
                _ => Err(RuntimeErrorV::ExpectedType("string"@)),
            },
            Builtin::StringContains => match receiver {
                ValueV::Str(s) => if args.len() == 1 && args[0] is Str {
                    Ok(ValueV::Bool(spec_str_contains(s, args[0]->Str_0)))
                } else {
                    Err(RuntimeErrorV::ExpectedType("string"@))
                },
                _ => Err(RuntimeErrorV::ExpectedType("string"@)),
            },
            Builtin::StringReverse => match receiver {
                ValueV::Str(s) => Ok(ValueV::Str(spec_reverse(s))),
                _ => Err(RuntimeErrorV::ExpectedType("string"@)),
            },
            Builtin::StringTrim => match receiver {
                ValueV::Str(s) => Ok(ValueV::Str(spec_trim_end(spec_trim_start(s)))),
                _ => Err(RuntimeErrorV::ExpectedType("string"@)),
            },
            Builtin::StringTrimStart => match receiver {
                ValueV::Str(s) => Ok(ValueV::Str(spec_trim_start(s))),
                _ => Err(RuntimeErrorV::ExpectedType("string"@)),
            },
            Builtin::StringTrimEnd => match receiver {
                ValueV::Str(s) => Ok(ValueV::Str(spec_trim_end(s))),
                _ => Err(RuntimeErrorV::ExpectedType("string"@)),
            },
            Builtin::StringReplaceAll => match receiver {
                ValueV::Str(s) => if args.len() == 2 && args[0] is Str && args[1] is Str {
                    if regex_ok(args[0]->Str_0) {
                        Ok(ValueV::Str(regex_replace_of(args[0]->Str_0, s, args[1]->Str_0)))
                    } else {
                        Err(RuntimeErrorV::IllegalArgument("Invalid regex"@))
                    }
                } else {
                    // a wrong-typed pattern or replacement is an illegal argument
                    Err(RuntimeErrorV::IllegalArgument("Expected a string argument"@))
                },
                _ => Err(RuntimeErrorV::ExpectedType("string"@)),
            },
            Builtin::ListLen => match receiver {
                ValueV::List(vs) => Ok(ValueV::U64(vs.len() as u64)),
                _ => Err(RuntimeErrorV::ExpectedType("list"@)),
            },
            Builtin::ListPush => match receiver {
                ValueV::List(vs) => if args.len() == 1 {
                    Ok(ValueV::List(vs.push(args[0])))
                } else {
                    Err(RuntimeErrorV::ExpectedType("list"@))
                },
                _ => Err(RuntimeErrorV::ExpectedType("list"@)),
            },
            Builtin::ListRemove => match receiver {
                ValueV::List(vs) => if args.len() == 1 {
                    match crate::value::spec_cast_index(args[0]) {
                        Some(i) => if i < vs.len() {
                            Ok(ValueV::List(vs.remove(i)))
                        } else {
                            Err(RuntimeErrorV::IndexOutOfBounds(i, vs.len() as int))
                        },
                        None => Err(
                            RuntimeErrorV::ValueError(crate::errors::ValueError::IllegalCast),
                        ),
                    }
                } else {
                    Err(RuntimeErrorV::ExpectedType("list"@))
                },
                _ => Err(RuntimeErrorV::ExpectedType("list"@)),
            },
        },
    }
}

/// Invoke a built-in method on a receiver and its arguments. Succeeds
/// exactly where the table defines a result; anything else reports a
/// runtime error.
#[verifier::loop_isolation(false)]
#[verifier::rlimit(100)]
pub fn call_builtin(receiver_type: &str, method: &str, receiver: Value, args: Vec<Value>) -> (r:
    Result<Value, RuntimeError>)
    ensures
        match r {
            Ok(v) => spec_call_builtin(receiver_type@, method@, receiver@, list_view(args@))
                == Ok::<ValueV, RuntimeErrorV>(v@),
            Err(e) => spec_call_builtin(receiver_type@, method@, receiver@, list_view(args@))
                == Err::<ValueV, RuntimeErrorV>(e@),
        },
{
    broadcast use lemma_list_view, lemma_list_view_push;

    let b = match lookup(receiver_type, method) {
        Some(b) => b,
        None => {
            let mut dotted = receiver_type.to_owned();
            dotted.append(".");
            dotted.append(method);
            proof {
                assert(dotted@ == receiver_type@ + seq!['.'] + method@) by {
                    assert(dotted@ =~= receiver_type@ + "."@ + method@);
                    assert(receiver_type@ + "."@ + method@ =~= receiver_type@ + seq!['.']
                        + method@) by {
                        reveal_strlit(".");
                    }
                }
            }
            return Err(RuntimeError::FunctionNotFound(dotted));
        }
    };
    proof {
        assert(spec_builtin_lookup(receiver_type@, method@) == Some(b));
    }
    match b {
        Builtin::StringLen => match &receiver {
            Value::String(s) => {
                proof {
                    assert(receiver@ == ValueV::Str(s@));
                }
                let bytes = s.as_str().len();
                if bytes as u64 <= i64::MAX as u64 {
                    let out = Value::I64(bytes as i64);
                    proof {
                        assert(spec_call_builtin(receiver_type@, method@, receiver@, list_view(args@)) == Ok::<ValueV, RuntimeErrorV>(out@));
                    }
                    Ok(out)
                } else {
                    Err(RuntimeError::IllegalArgumentException(string_text("oversized string")))
                }
            }
            _ => {
                Err(RuntimeError::ExpectedType(string_text("string")))
            },
        },
        Builtin::StringToUppercase => match &receiver {
            Value::String(s) => {
                proof {
                    assert(receiver@ == ValueV::Str(s@));
                }
                let out = Value::String(to_uppercase(s.as_str()));
                proof {
                    assert(spec_call_builtin(receiver_type@, method@, receiver@, list_view(args@)) == Ok::<ValueV, RuntimeErrorV>(out@));
                }
                Ok(out)
            }
            _ => {
                Err(RuntimeError::ExpectedType(string_text("string")))
            },
        },
        Builtin::StringToLowercase => match &receiver {
            Value::String(s) => {
                proof {
                    assert(receiver@ == ValueV::Str(s@));
                }
                let out = Value::String(to_lowercase(s.as_str()));
                proof {
                    assert(spec_call_builtin(receiver_type@, method@, receiver@, list_view(args@)) == Ok::<ValueV, RuntimeErrorV>(out@));
                }
                Ok(out)
            }
            _ => {
                Err(RuntimeError::ExpectedType(string_text("string")))
            },
        },
        Builtin::StringContains => match &receiver {
            Value::String(s) => {
                proof {
                    assert(receiver@ == ValueV::Str(s@));
                }
                if args.len() == 1 {
                    match &args[0] {
                        Value::String(p) => {
                            let sc = chars_of(s.as_str());
                            let pc = chars_of(p.as_str());
                            let out = Value::Bool(contains_chars(&sc, &pc));
                            proof {
                                assert(spec_call_builtin(receiver_type@, method@, receiver@, list_view(args@)) == Ok::<ValueV, RuntimeErrorV>(out@));
                            }
                            Ok(out)
                        }
                        _ => {
                Err(RuntimeError::ExpectedType(string_text("string")))
            },
                    }
                } else {
                    Err(RuntimeError::ExpectedType(string_text("string")))
                }
            }
            _ => {
                Err(RuntimeError::ExpectedType(string_text("string")))
            },
        },
        Builtin::StringReverse => match &receiver {
            Value::String(s) => {
                proof {
                    assert(receiver@ == ValueV::Str(s@));
                }
                let sc = chars_of(s.as_str());
                let rc = reverse_chars(&sc);
                let out = Value::String(string_from_chars(&rc));
                proof {
                    assert(spec_call_builtin(receiver_type@, method@, receiver@, list_view(args@)) == Ok::<ValueV, RuntimeErrorV>(out@));
                }
                Ok(out)
            }
            _ => {
                Err(RuntimeError::ExpectedType(string_text("string")))
            },
        },
        Builtin::StringTrim => match &receiver {
            Value::String(s) => {
                proof {
                    assert(receiver@ == ValueV::Str(s@));
                }
                let sc = chars_of(s.as_str());
                let tc = trim_range(&sc, true, true);
                let out = Value::String(string_from_chars(&tc));
                proof {
                    assert(spec_call_builtin(receiver_type@, method@, receiver@, list_view(args@)) == Ok::<ValueV, RuntimeErrorV>(out@));
                }
                Ok(out)
            }
            _ => {
                Err(RuntimeError::ExpectedType(string_text("string")))
            },
        },
        Builtin::StringTrimStart => match &receiver {
            Value::String(s) => {
                proof {
                    assert(receiver@ == ValueV::Str(s@));
                }
                let sc = chars_of(s.as_str());
                let tc = trim_range(&sc, true, false);
                let out = Value::String(string_from_chars(&tc));
                proof {
                    assert(spec_call_builtin(receiver_type@, method@, receiver@, list_view(args@)) == Ok::<ValueV, RuntimeErrorV>(out@));
                }
                Ok(out)
            }
            _ => {
                Err(RuntimeError::ExpectedType(string_text("string")))
            },
        },
        Builtin::StringTrimEnd => match &receiver {
            Value::String(s) => {
                proof {
                    assert(receiver@ == ValueV::Str(s@));
                }
                let sc = chars_of(s.as_str());
                let tc = trim_range(&sc, false, true);
                let out = Value::String(string_from_chars(&tc));
                proof {
                    assert(spec_call_builtin(receiver_type@, method@, receiver@, list_view(args@)) == Ok::<ValueV, RuntimeErrorV>(out@));
                }
                Ok(out)
            }
            _ => {
                Err(RuntimeError::ExpectedType(string_text("string")))
            },
        },
        Builtin::StringReplaceAll => match &receiver {
            Value::String(s) => {
                proof {
                    assert(receiver@ == ValueV::Str(s@));
                }
                if args.len() == 2 {
                    match (&args[0], &args[1]) {
                        (Value::String(p), Value::String(rp)) => {
                            match replace_all_via_regex(s.as_str(), p.as_str(), rp.as_str()) {
                                Some(out) => {
                                    let outv = Value::String(out);
                                    proof {
                                        assert(spec_call_builtin(receiver_type@, method@, receiver@, list_view(args@)) == Ok::<ValueV, RuntimeErrorV>(outv@));
                                    }
                                    Ok(outv)
                                }
                                None => {
                                    Err(
                                        RuntimeError::IllegalArgumentException(
                                            string_text("Invalid regex"),
                                        ),
                                    )
                                },
                            }
                        }
                        _ => Err(
                            RuntimeError::IllegalArgumentException(
                                string_text("Expected a string argument"),
                            ),
                        ),
                    }
                } else {
                    Err(
                        RuntimeError::IllegalArgumentException(
                            string_text("Expected a string argument"),
                        ),
                    )
                }
            }
            _ => {
                Err(RuntimeError::ExpectedType(string_text("string")))
            },
        },
        Builtin::ListLen => match &receiver {
            Value::List(vs) => {
                let out = Value::U64(vs.len() as u64);
                proof {
                    assert(spec_builtin_lookup(receiver_type@, method@) == Some(Builtin::ListLen));
                    assert(receiver@ == ValueV::List(list_view(vs@)));
                    assert(list_view(vs@).len() == vs@.len());
                    assert(out@ == ValueV::U64(vs@.len() as u64));
                    assert(spec_call_builtin(receiver_type@, method@, receiver@, list_view(args@))
                        == Ok::<ValueV, RuntimeErrorV>(out@));
                }
                Ok(out)
            }
            _ => {
                Err(RuntimeError::ExpectedType(string_text("list")))
            },
        },
        Builtin::ListPush => match &receiver {
            Value::List(vs) => {
                proof {
                    assert(receiver@ == ValueV::List(list_view(vs@)));
                }
                if args.len() == 1 {
                    let mut out = clone_values(vs);
                    out.push(args[0].clone());
                    proof {
                        assert(list_view(out@) == list_view(vs@).push(list_view(args@)[0]));
                        assert(spec_call_builtin(
                            receiver_type@,
                            method@,
                            receiver@,
                            list_view(args@),
                        ) == Ok::<ValueV, RuntimeErrorV>(value_view(Value::List(out))));
                    }
                    Ok(Value::List(out))
                } else {
                    Err(RuntimeError::ExpectedType(string_text("list")))
                }
            }
            _ => {
                Err(RuntimeError::ExpectedType(string_text("list")))
            },
        },
        Builtin::ListRemove => match &receiver {
            Value::List(vs) => {
                proof {
                    assert(receiver@ == ValueV::List(list_view(vs@)));
                }
                if args.len() == 1 {
                    match args[0].cast_usize() {
                        Ok(i) => {
                            if i < vs.len() {
                                let mut out = clone_values(vs);
                                out.remove(i);
                                proof {
                                    assert(list_view(out@) =~= list_view(vs@).remove(i as int))
                                        by {
                                        lemma_list_view_remove(vs@, i as int);
                                    }
                                }
                                proof {
                                    assert(spec_call_builtin(receiver_type@, method@, receiver@, list_view(args@)) == Ok::<ValueV, RuntimeErrorV>(value_view(Value::List(out))));
                                }
                                Ok(Value::List(out))
                            } else {
                                Err(RuntimeError::IndexOutOfBounds(i, vs.len()))
                            }
                        }
                        Err(_) => {
                            Err(RuntimeError::ValueError(ValueError::IllegalCast))
                        },
                    }
                } else {
                    Err(RuntimeError::ExpectedType(string_text("list")))
                }
            }
            _ => {
                Err(RuntimeError::ExpectedType(string_text("list")))
            },
        },
    }
}

/// Removing an element commutes with taking shapes.
proof fn lemma_list_view_remove(s: Seq<Value>, i: int)
    requires
        0 <= i < s.len(),
    ensures
        list_view(s.remove(i)) =~= list_view(s).remove(i),
{
    broadcast use lemma_list_view;

    assert(list_view(s.remove(i)).len() == list_view(s).remove(i).len());
    assert forall|j: int| 0 <= j < s.len() - 1 implies list_view(s.remove(i))[j] == list_view(
        s,
    ).remove(i)[j] by {
        if j < i {
            assert(s.remove(i)[j] == s[j]);
        } else {
            assert(s.remove(i)[j] == s[j + 1]);
        }
    }
}

fn string_text(s: &str) -> (r: String)
    ensures
        r@ == s@,
{
    s.to_owned()
}

/// Invoke a built-in method, taking the names as owned strings.
pub fn call_builtin_owned(receiver_type: &String, method: &String, receiver: Value, args: Vec<Value>)
    -> (r: Result<Value, RuntimeError>)
    ensures
        match r {
            Ok(v) => spec_call_builtin(receiver_type@, method@, receiver@, list_view(args@))
                == Ok::<ValueV, RuntimeErrorV>(v@),
            Err(e) => spec_call_builtin(receiver_type@, method@, receiver@, list_view(args@))
                == Err::<ValueV, RuntimeErrorV>(e@),
        },
{
    call_builtin(receiver_type.as_str(), method.as_str(), receiver, args)
}

} // verus!
