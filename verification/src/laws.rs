//! Statements that hold of the library as a whole, each proved from the
//! contracts the modules state.

use vstd::prelude::*;

verus! {

use crate::chunk::ChunkV;
use crate::errors::{CompilerError, RuntimeErrorV};
use crate::tokens::TokenType;
use crate::value::ValueV;
use crate::value_ops::{spec_string_appendable, spec_value_add};
use crate::value_text::spec_value_display;
use crate::vm::spec_interpret;

/// Adding any stringifiable value to a string concatenates the string
/// with that value's textual form.
pub proof fn lemma_string_concatenation(s: Seq<char>, v: ValueV)
    requires
        spec_string_appendable(v),
        !(v is Mapping),
    ensures
        spec_value_add(ValueV::Str(s), v) == Ok::<ValueV, crate::errors::ValueError>(
            ValueV::Str(s + spec_value_display(v)),
        ),
{
}

/// Adding a string to the right of any stringifiable value concatenates
/// that value's textual form with the string.
pub proof fn lemma_string_concatenation_right(v: ValueV, s: Seq<char>)
    requires
        spec_string_appendable(v),
        !(v is Mapping),
        !(v is Str),
    ensures
        spec_value_add(v, ValueV::Str(s)) == Ok::<ValueV, crate::errors::ValueError>(
            ValueV::Str(spec_value_display(v) + s),
        ),
{
}

/// An untyped negative integer literal never reconciles with an unsigned
/// declared type: the reconciliation reports exactly the two types.
pub proof fn lemma_negative_literal_rejected(declared: TokenType)
    requires
        declared == TokenType::U32 || declared == TokenType::U64,
    ensures
        crate::symbols::spec_calculate_type(declared, TokenType::SignedInteger) == Err::<
            TokenType,
            CompilerError,
        >(CompilerError::IncompatibleTypes(declared, TokenType::SignedInteger)),
{
}

/// A run is a function of the registry snapshot it was started with and
/// the name it was asked to run: two runs of one snapshot agree, whatever
/// other snapshots are published while they execute.
pub proof fn lemma_snapshot_isolation(
    snapshot: Seq<(Seq<char>, ChunkV)>,
    name: Seq<char>,
    first: Result<ValueV, RuntimeErrorV>,
    second: Result<ValueV, RuntimeErrorV>,
)
    requires
        first == spec_interpret(snapshot, name),
        second == spec_interpret(snapshot, name),
    ensures
        first == second,
{
}

/// Two executions of one chunk registry yield one outcome: the machine is
/// deterministic in its inputs.
pub proof fn lemma_run_deterministic(
    reg: Seq<(Seq<char>, ChunkV)>,
    name: Seq<char>,
    first: Result<ValueV, RuntimeErrorV>,
    second: Result<ValueV, RuntimeErrorV>,
)
    requires
        first == spec_interpret(reg, name),
        second == spec_interpret(reg, name),
    ensures
        first == second,
{
}

} // verus!
