//! The two error families of the language core: compile-time errors, which
//! carry a source line, and runtime errors, which terminate one execution.
//! Every error renders to text through `message`, with the exact wording
//! pinned by a specification.

use vstd::prelude::*;

verus! {

use crate::text::{spec_u64_dec, u64_to_string};
use crate::tokens::{spec_display_name, TokenType};

/// A compile-time failure, fatal to the unit being compiled.
#[derive(Debug, Clone)]
pub enum CompilerError {
    Failure,
    TooManyParameters,
    Expected(&'static str),
    UnexpectedIndent(usize, usize),
    UninitializedVariable,
    IncompatibleTypes(TokenType, TokenType),
    ParseError(String),
    UndeclaredVariable(String),
    UnexpectedIdentifier,
    Unterminated(&'static str),
    IllegalCharLength(String),
    UnexpectedType(TokenType),
    KeywordNotAllowedAsIdentifier(TokenType),
    Overflow,
    FunctionNotFound(String),
    IllegalArgumentsException(String, usize, usize),
}

/// The text of a compile-time failure.
pub open spec fn spec_compiler_error_message(e: CompilerError) -> Seq<char> {
    match e {
        CompilerError::Failure => "Compilation failed"@,
        CompilerError::TooManyParameters => "Too many parameters"@,
        CompilerError::Expected(s) => "Expected "@ + s@,
        CompilerError::UnexpectedIndent(found, expected) => "unexpected indent level "@
            + spec_u64_dec(found as int) + " vs expected "@ + spec_u64_dec(expected as int),
        CompilerError::UninitializedVariable => "Uninitialized variables are not allowed."@,
        CompilerError::IncompatibleTypes(expected, found) => "Expected "@ + spec_display_name(
            expected,
        ) + ", found "@ + spec_display_name(found),
        CompilerError::ParseError(s) => "Error parsing number "@ + s@,
        CompilerError::UndeclaredVariable(s) => "Undeclared variable: "@ + s@,
        CompilerError::UnexpectedIdentifier => "Unexpected identifier"@,
        CompilerError::Unterminated(s) => "Unterminated "@ + s@,
        CompilerError::IllegalCharLength(s) => "Illegal char length for "@ + s@,
        CompilerError::UnexpectedType(t) => "Unexpected type "@ + spec_display_name(t),
        CompilerError::KeywordNotAllowedAsIdentifier(t) => "'"@ + spec_display_name(t)
            + "' is a keyword. You cannot use it as an identifier"@,
        CompilerError::Overflow => "Crud does not support numbers above 2^64"@,
        CompilerError::FunctionNotFound(s) => "Function "@ + s@ + " not found"@,
        CompilerError::IllegalArgumentsException(name, expected, found) =>
            "Illegal number of arguments for "@ + name@ + ": expected "@ + spec_u64_dec(
            expected as int,
        ) + ", got "@ + spec_u64_dec(found as int),
    }
}

impl CompilerError {
    /// Render this failure as text.
    pub fn message(&self) -> (s: String)
        ensures
            s@ == spec_compiler_error_message(*self),
    {
        let mut s = String::new();
        match self {
            CompilerError::Failure => {
                s.append("Compilation failed");
            }
            CompilerError::TooManyParameters => {
                s.append("Too many parameters");
            }
            CompilerError::Expected(what) => {
                s.append("Expected ");
                s.append(what);
            }
            CompilerError::UnexpectedIndent(found, expected) => {
                s.append("unexpected indent level ");
                let n = u64_to_string(*found as u64);
                s.append(n.as_str());
                s.append(" vs expected ");
                let m = u64_to_string(*expected as u64);
                s.append(m.as_str());
            }
            CompilerError::UninitializedVariable => {
                s.append("Uninitialized variables are not allowed.");
            }
            CompilerError::IncompatibleTypes(expected, found) => {
                s.append("Expected ");
                s.append(expected.display_name());
                s.append(", found ");
                s.append(found.display_name());
            }
            CompilerError::ParseError(what) => {
                s.append("Error parsing number ");
                s.append(what.as_str());
            }
            CompilerError::UndeclaredVariable(name) => {
                s.append("Undeclared variable: ");
                s.append(name.as_str());
            }
            CompilerError::UnexpectedIdentifier => {
                s.append("Unexpected identifier");
            }
            CompilerError::Unterminated(what) => {
                s.append("Unterminated ");
                s.append(what);
            }
            CompilerError::IllegalCharLength(what) => {
                s.append("Illegal char length for ");
                s.append(what.as_str());
            }
            CompilerError::UnexpectedType(t) => {
                s.append("Unexpected type ");
                s.append(t.display_name());
            }
            CompilerError::KeywordNotAllowedAsIdentifier(t) => {
                s.append("'");
                s.append(t.display_name());
                s.append("' is a keyword. You cannot use it as an identifier");
            }
            CompilerError::Overflow => {
                s.append("Crud does not support numbers above 2^64");
            }
            CompilerError::FunctionNotFound(name) => {
                s.append("Function ");
                s.append(name.as_str());
                s.append(" not found");
            }
            CompilerError::IllegalArgumentsException(name, expected, found) => {
                s.append("Illegal number of arguments for ");
                s.append(name.as_str());
                s.append(": expected ");
                let n = u64_to_string(*expected as u64);
                s.append(n.as_str());
                s.append(", got ");
                let m = u64_to_string(*found as u64);
                s.append(m.as_str());
            }
        }
        s
    }
}

/// The mathematical shape of a compile-time failure.
#[verifier::ext_equal]
pub ghost enum CompilerErrorV {
    Failure,
    TooManyParameters,
    Expected(Seq<char>),
    UnexpectedIndent(int, int),
    UninitializedVariable,
    IncompatibleTypes(TokenType, TokenType),
    ParseError(Seq<char>),
    UndeclaredVariable(Seq<char>),
    UnexpectedIdentifier,
    Unterminated(Seq<char>),
    IllegalCharLength(Seq<char>),
    UnexpectedType(TokenType),
    KeywordNotAllowedAsIdentifier(TokenType),
    Overflow,
    FunctionNotFound(Seq<char>),
    IllegalArguments(Seq<char>, int, int),
}

impl View for CompilerError {
    type V = CompilerErrorV;

    open spec fn view(&self) -> CompilerErrorV {
        match self {
            CompilerError::Failure => CompilerErrorV::Failure,
            CompilerError::TooManyParameters => CompilerErrorV::TooManyParameters,
            CompilerError::Expected(s) => CompilerErrorV::Expected(s@),
            CompilerError::UnexpectedIndent(found, expected) => CompilerErrorV::UnexpectedIndent(
                *found as int,
                *expected as int,
            ),
            CompilerError::UninitializedVariable => CompilerErrorV::UninitializedVariable,
            CompilerError::IncompatibleTypes(expected, found) => CompilerErrorV::IncompatibleTypes(
                *expected,
                *found,
            ),
            CompilerError::ParseError(s) => CompilerErrorV::ParseError(s@),
            CompilerError::UndeclaredVariable(s) => CompilerErrorV::UndeclaredVariable(s@),
            CompilerError::UnexpectedIdentifier => CompilerErrorV::UnexpectedIdentifier,
            CompilerError::Unterminated(s) => CompilerErrorV::Unterminated(s@),
            CompilerError::IllegalCharLength(s) => CompilerErrorV::IllegalCharLength(s@),
            CompilerError::UnexpectedType(t) => CompilerErrorV::UnexpectedType(*t),
            CompilerError::KeywordNotAllowedAsIdentifier(t) =>
                CompilerErrorV::KeywordNotAllowedAsIdentifier(*t),
            CompilerError::Overflow => CompilerErrorV::Overflow,
            CompilerError::FunctionNotFound(s) => CompilerErrorV::FunctionNotFound(s@),
            CompilerError::IllegalArgumentsException(name, expected, found) =>
                CompilerErrorV::IllegalArguments(name@, *expected as int, *found as int),
        }
    }
}

/// The mathematical shape of a located compile-time failure.
#[verifier::ext_equal]
pub ghost struct CompilerErrorAtLineV {
    pub error: CompilerErrorV,
    pub line: int,
}

/// A compile-time failure together with the source line it arose on.
#[derive(Debug, Clone)]
pub struct CompilerErrorAtLine {
    pub error: CompilerError,
    pub line: usize,
}

/// The text of a located compile-time failure:
/// "error at line N, <message>".
pub open spec fn spec_error_at_line_message(e: CompilerErrorAtLine) -> Seq<char> {
    "error at line "@ + spec_u64_dec(e.line as int) + ", "@ + spec_compiler_error_message(e.error)
}

impl View for CompilerErrorAtLine {
    type V = CompilerErrorAtLineV;

    open spec fn view(&self) -> CompilerErrorAtLineV {
        CompilerErrorAtLineV { error: self.error@, line: self.line as int }
    }
}

impl CompilerErrorAtLine {
    /// Attach a source line to a compile-time failure.
    pub fn raise(error: CompilerError, line: usize) -> (r: CompilerErrorAtLine)
        ensures
            r.error == error,
            r.line == line,
    {
        CompilerErrorAtLine { error, line }
    }

    /// Render this failure as text.
    pub fn message(&self) -> (s: String)
        ensures
            s@ == spec_error_at_line_message(*self),
    {
        let mut s = String::new();
        s.append("error at line ");
        let n = u64_to_string(self.line as u64);
        s.append(n.as_str());
        s.append(", ");
        let inner = self.error.message();
        s.append(inner.as_str());
        s
    }
}

/// A failure while evaluating a single binary or unary operation: the
/// operator is not defined on the operands' variants, or a cast leaves
/// the target range.
#[derive(Debug, Clone, Copy, PartialEq, Eq, Structural)]
pub enum ValueError {
    CannotNegate,
    CannotAdd,
    CannotSubtract,
    CannotMultiply,
    CannotDivide,
    CannotBitAnd,
    CannotBitOr,
    CannotBitXor,
    CannotNot,
    CannotShiftLeft,
    CannotShiftRight,
    CannotAnd,
    CannotCompare,
    IllegalCast,
}

/// The text of a value-operation failure.
pub open spec fn spec_value_error_message(e: ValueError) -> Seq<char> {
    match e {
        ValueError::CannotNegate => "Cannot negate"@,
        ValueError::CannotAdd => "Cannot add"@,
        ValueError::CannotSubtract => "Cannot subtract"@,
        ValueError::CannotMultiply => "Cannot multiply"@,
        ValueError::CannotDivide => "Cannot divide"@,
        ValueError::CannotBitAnd => "Cannot do bitwise-and on"@,
        ValueError::CannotBitOr => "Cannot do bitwise-or on"@,
        ValueError::CannotBitXor => "Cannot do bitwise-xor on"@,
        ValueError::CannotNot => "Cannot calculate not"@,
        ValueError::CannotShiftLeft => "Cannot shift left on"@,
        ValueError::CannotShiftRight => "Cannot shift right on"@,
        ValueError::CannotAnd => "Cannot and"@,
        ValueError::CannotCompare => "Cannot compare"@,
        ValueError::IllegalCast => "Illegal cast"@,
    }
}

impl ValueError {
    /// Render this failure as text.
    pub fn message(&self) -> (s: String)
        ensures
            s@ == spec_value_error_message(*self),
    {
        let mut s = String::new();
        match self {
            ValueError::CannotNegate => {
                s.append("Cannot negate");
            }
            ValueError::CannotAdd => {
                s.append("Cannot add");
            }
            ValueError::CannotSubtract => {
                s.append("Cannot subtract");
            }
            ValueError::CannotMultiply => {
                s.append("Cannot multiply");
            }
            ValueError::CannotDivide => {
                s.append("Cannot divide");
            }
            ValueError::CannotBitAnd => {
                s.append("Cannot do bitwise-and on");
            }
            ValueError::CannotBitOr => {
                s.append("Cannot do bitwise-or on");
            }
            ValueError::CannotBitXor => {
                s.append("Cannot do bitwise-xor on");
            }
            ValueError::CannotNot => {
                s.append("Cannot calculate not");
            }
            ValueError::CannotShiftLeft => {
                s.append("Cannot shift left on");
            }
            ValueError::CannotShiftRight => {
                s.append("Cannot shift right on");
            }
            ValueError::CannotAnd => {
                s.append("Cannot and");
            }
            ValueError::CannotCompare => {
                s.append("Cannot compare");
            }
            ValueError::IllegalCast => {
                s.append("Illegal cast");
            }
        }
        s
    }
}

/// A failure that terminates one run of the virtual machine.
#[derive(Debug, Clone)]
pub enum RuntimeError {
    ValueError(ValueError),
    Something,
    FunctionNotFound(String),
    ExpectedType(String),
    IllegalArgumentException(String),
    IllegalArgumentsException(String, usize, usize),
    IndexOutOfBounds(usize, usize),
}

/// The mathematical shape of a runtime failure.
#[verifier::ext_equal]
pub ghost enum RuntimeErrorV {
    ValueError(ValueError),
    Something,
    FunctionNotFound(Seq<char>),
    ExpectedType(Seq<char>),
    IllegalArgument(Seq<char>),
    IllegalArguments(Seq<char>, int, int),
    IndexOutOfBounds(int, int),
}

impl View for RuntimeError {
    type V = RuntimeErrorV;

    open spec fn view(&self) -> RuntimeErrorV {
        match self {
            RuntimeError::ValueError(e) => RuntimeErrorV::ValueError(*e),
            RuntimeError::Something => RuntimeErrorV::Something,
            RuntimeError::FunctionNotFound(s) => RuntimeErrorV::FunctionNotFound(s@),
            RuntimeError::ExpectedType(s) => RuntimeErrorV::ExpectedType(s@),
            RuntimeError::IllegalArgumentException(s) => RuntimeErrorV::IllegalArgument(s@),
            RuntimeError::IllegalArgumentsException(name, expected, found) =>
                RuntimeErrorV::IllegalArguments(name@, *expected as int, *found as int),
            RuntimeError::IndexOutOfBounds(index, len) => RuntimeErrorV::IndexOutOfBounds(
                *index as int,
                *len as int,
            ),
        }
    }
}

/// The text of a runtime failure.
pub open spec fn spec_runtime_error_message(e: RuntimeError) -> Seq<char> {
    match e {
        RuntimeError::ValueError(v) => "Error while executing: "@ + spec_value_error_message(v),
        RuntimeError::Something => "Error occurred"@,
        RuntimeError::FunctionNotFound(s) => "Function "@ + s@ + " not found"@,
        RuntimeError::ExpectedType(s) => "Expected "@ + s@,
        RuntimeError::IllegalArgumentException(s) => "Illegal argument: "@ + s@,
        RuntimeError::IllegalArgumentsException(name, expected, found) =>
            "Illegal number of arguments for "@ + name@ + ": expected "@ + spec_u64_dec(
            expected as int,
        ) + ", got "@ + spec_u64_dec(found as int),
        RuntimeError::IndexOutOfBounds(index, len) => "Index "@ + spec_u64_dec(index as int)
            + " out of bounds, length "@ + spec_u64_dec(len as int),
    }
}

impl RuntimeError {
    /// Render this failure as text.
    pub fn message(&self) -> (s: String)
        ensures
            s@ == spec_runtime_error_message(*self),
    {
        let mut s = String::new();
        match self {
            RuntimeError::ValueError(v) => {
                s.append("Error while executing: ");
                let inner = v.message();
                s.append(inner.as_str());
            }
            RuntimeError::Something => {
                s.append("Error occurred");
            }
            RuntimeError::FunctionNotFound(name) => {
                s.append("Function ");
                s.append(name.as_str());
                s.append(" not found");
            }
            RuntimeError::ExpectedType(what) => {
                s.append("Expected ");
                s.append(what.as_str());
            }
            RuntimeError::IllegalArgumentException(what) => {
                s.append("Illegal argument: ");
                s.append(what.as_str());
            }
            RuntimeError::IllegalArgumentsException(name, expected, found) => {
                s.append("Illegal number of arguments for ");
                s.append(name.as_str());
                s.append(": expected ");
                let n = u64_to_string(*expected as u64);
                s.append(n.as_str());
                s.append(", got ");
                let m = u64_to_string(*found as u64);
                s.append(m.as_str());
            }
            RuntimeError::IndexOutOfBounds(index, len) => {
                s.append("Index ");
                let n = u64_to_string(*index as u64);
                s.append(n.as_str());
                s.append(" out of bounds, length ");
                let m = u64_to_string(*len as u64);
                s.append(m.as_str());
            }
        }
        s
    }
}

#[verifier::external_type_specification]
#[verifier::external_body]
pub struct ExIoError(std::io::Error);

/// Any failure of the core: a located compile-time error, a runtime error,
/// or a fault of the surrounding platform.
#[derive(Debug, Clone)]
pub enum Error {
    Compiler(CompilerErrorAtLine),
    Runtime(RuntimeError),
    Platform(String),
}

/// The text of a failure of the core.
pub open spec fn spec_error_message(e: Error) -> Seq<char> {
    match e {
        Error::Compiler(c) => "Compilation failed: "@ + spec_error_at_line_message(c),
        Error::Runtime(r) => spec_runtime_error_message(r),
        Error::Platform(s) => "Platform error "@ + s@,
    }
}

/// Relies on std's `Display` for `std::io::Error`: renders the error's
/// text. Turn a host input/output failure into a platform error carrying
/// that text.
#[verifier::external_body]
pub fn map_underlying(error: std::io::Error) -> (r: Error)
    ensures
        r is Platform,
{
    Error::Platform(error.to_string())
}

impl Error {
    /// Render this failure as text.
    pub fn message(&self) -> (s: String)
        ensures
            s@ == spec_error_message(*self),
    {
        let mut s = String::new();
        match self {
            Error::Compiler(c) => {
                s.append("Compilation failed: ");
                let inner = c.message();
                s.append(inner.as_str());
            }
            Error::Runtime(r) => {
                let inner = r.message();
                s.append(inner.as_str());
            }
            Error::Platform(what) => {
                s.append("Platform error ");
                s.append(what.as_str());
            }
        }
        s
    }
}

} // verus!
