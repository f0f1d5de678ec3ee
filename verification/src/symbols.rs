//! The symbol table and the type engine: a pre-pass collects every
//! declaration so that forward references resolve, and a fixed widening
//! table reconciles declared with inferred types.

use vstd::prelude::*;

verus! {

use crate::ast_compiler::{Expression, Parameter, Statement};
use crate::errors::CompilerError;
use crate::text::str_eq;
use crate::tokens::TokenType;

/// One declaration summary: a variable's type, a function's signature, or
/// an object's field layout.
#[derive(Debug)]
pub enum Symbol {
    Variable { var_type: TokenType },
    Function { parameters: Vec<Parameter>, return_type: TokenType },
    Object { fields: Vec<Parameter> },
}

/// The compile-time symbol table: name to declaration summary, the
/// earliest entry for a name winning the lookup.
pub struct SymbolTable {
    pub entries: Vec<(String, Symbol)>,
}

/// The static type recorded for a name, if any.
pub open spec fn spec_symbol_type(entries: Seq<(String, Symbol)>, name: Seq<char>) -> Option<
    TokenType,
>
    decreases entries.len(),
{
    if entries.len() == 0 {
        None
    } else if entries[0].0@ == name {
        match entries[0].1 {
            Symbol::Variable { var_type } => Some(var_type),
            Symbol::Function { return_type, .. } => Some(return_type),
            Symbol::Object { .. } => Some(TokenType::Object),
        }
    } else {
        spec_symbol_type(entries.drop_first(), name)
    }
}

impl SymbolTable {
    /// An empty table.
    pub fn new() -> (r: SymbolTable)
        ensures
            r.entries@.len() == 0,
    {
        SymbolTable { entries: Vec::new() }
    }

    /// The position of a name in the table, if declared.
    pub fn find(&self, name: &str) -> (r: Option<usize>)
        ensures
            match r {
                Some(i) => i < self.entries@.len() && self.entries@[i as int].0@ == name@ && (
                forall|j: int| 0 <= j < i ==> self.entries@[j].0@ != name@),
                None => forall|j: int|
                    0 <= j < self.entries@.len() ==> self.entries@[j].0@ != name@,
            },
    {
        let n = self.entries.len();
        let mut i: usize = 0;
        while i < n
            invariant
                n == self.entries@.len(),
                i <= n,
                forall|j: int| 0 <= j < i ==> self.entries@[j].0@ != name@,
            decreases n - i,
        {
            if str_eq(self.entries[i].0.as_str(), name) {
                return Some(i);
            }
            i = i + 1;
        }
        None
    }

    /// Record a declaration. An earlier declaration of the same name is
    /// left in place; the table keeps the first: afterwards the name is
    /// declared, every earlier lookup is unchanged, and a fresh name is
    /// appended with exactly the given summary.
    pub fn declare(&mut self, name: String, symbol: Symbol)
        ensures
            spec_symbol_type(final(self).entries@, name@) is Some,
            forall|k: Seq<char>|
                spec_symbol_type(old(self).entries@, k) is Some ==> #[trigger] spec_symbol_type(
                    final(self).entries@,
                    k,
                ) == spec_symbol_type(old(self).entries@, k),
            spec_symbol_type(old(self).entries@, name@) is Some ==> final(self).entries
                == old(self).entries,
            spec_symbol_type(old(self).entries@, name@) is None ==> final(self).entries@
                == old(self).entries@.push((name, symbol)),
    {
        proof {
            lemma_symbol_type_at(self.entries@, name@);
        }
        match self.find(name.as_str()) {
            Some(i) => {
                proof {
                    assert(spec_symbol_type(self.entries@, name@) is Some);
                }
            }
            None => {
                proof {
                    let e = (name, symbol);
                    lemma_symbol_push(self.entries@, e);
                }
                self.entries.push((name, symbol));
            }
        }
    }

    /// The static type a name carries, if it is declared.
    pub fn lookup_type(&self, name: &str) -> (r: Option<TokenType>)
        ensures
            r == spec_symbol_type(self.entries@, name@),
    {
        let r = self.find(name);
        proof {
            lemma_symbol_type_at(self.entries@, name@);
        }
        match r {
            Some(i) => match &self.entries[i].1 {
                Symbol::Variable { var_type } => Some(*var_type),
                Symbol::Function { return_type, .. } => Some(*return_type),
                Symbol::Object { .. } => Some(TokenType::Object),
            },
            None => None,
        }
    }
}

/// A first-match lookup agrees with the recursive characterisation.
proof fn lemma_symbol_type_at(entries: Seq<(String, Symbol)>, name: Seq<char>)
    ensures
        forall|i: int|
            0 <= i < entries.len() && entries[i].0@ == name && (forall|j: int|
                0 <= j < i ==> entries[j].0@ != name) ==> spec_symbol_type(entries, name) == (
            match entries[i].1 {
                Symbol::Variable { var_type } => Some(var_type),
                Symbol::Function { return_type, .. } => Some(return_type),
                Symbol::Object { .. } => Some(TokenType::Object),
            }),
        (forall|j: int| 0 <= j < entries.len() ==> entries[j].0@ != name) ==> spec_symbol_type(
            entries,
            name,
        ) is None,
    decreases entries.len(),
{
    if entries.len() > 0 {
        lemma_symbol_type_at(entries.drop_first(), name);
        assert(forall|i: int|
            1 <= i < entries.len() ==> entries.drop_first()[i - 1] == entries[i]);
    }
}

/// Appending an entry leaves every earlier lookup unchanged, and makes
/// the appended name declared when it was fresh.
proof fn lemma_symbol_push(entries: Seq<(String, Symbol)>, e: (String, Symbol))
    ensures
        forall|k: Seq<char>|
            spec_symbol_type(entries, k) is Some ==> #[trigger] spec_symbol_type(
                entries.push(e),
                k,
            ) == spec_symbol_type(entries, k),
        (forall|j: int| 0 <= j < entries.len() ==> entries[j].0@ != e.0@)
            ==> spec_symbol_type(entries.push(e), e.0@) is Some,
    decreases entries.len(),
{
    if entries.len() > 0 {
        lemma_symbol_push(entries.drop_first(), e);
        assert(entries.push(e).drop_first() =~= entries.drop_first().push(e));
        assert(forall|j: int|
            1 <= j < entries.len() ==> entries.drop_first()[j - 1] == entries[j]);
        assert forall|k: Seq<char>| spec_symbol_type(entries, k) is Some implies spec_symbol_type(
            entries.push(e),
            k,
        ) == spec_symbol_type(entries, k) by {
            assert(entries.push(e)[0] == entries[0]);
            if entries[0].0@ != k {
                assert(spec_symbol_type(entries.drop_first(), k) is Some);
                assert(spec_symbol_type(entries.push(e), k) == spec_symbol_type(
                    entries.drop_first().push(e),
                    k,
                ));
            }
        }
    } else {
        assert(entries.push(e)[0] == e);
    }
}

/// Collapse an untyped literal class to its concrete default: untyped
/// integers become 64-bit signed, untyped floats 64-bit, signed and
/// unsigned literal classes their 64-bit forms.
pub open spec fn spec_collapse(t: TokenType) -> TokenType {
    match t {
        TokenType::Integer => TokenType::I64,
        TokenType::SignedInteger => TokenType::I64,
        TokenType::UnsignedInteger => TokenType::U64,
        TokenType::FloatingPoint => TokenType::F64,
        _ => t,
    }
}

/// The fixed widening table for one binary operation over unequal operand
/// types: floats dominate integers, 64 bits dominate 32, untyped literal
/// classes adapt, and signed/unsigned mixes are not defined. `Unknown`
/// stands for an undefined pairing.
pub open spec fn spec_widen(l: TokenType, r: TokenType) -> TokenType {
    if l == r {
        spec_collapse(l)
    } else {
        match (l, r) {
            (TokenType::Integer, _) => spec_widen_untyped_int(r),
            (_, TokenType::Integer) => spec_widen_untyped_int(l),
            (TokenType::SignedInteger, _) => spec_widen_signed(r),
            (_, TokenType::SignedInteger) => spec_widen_signed(l),
            (TokenType::UnsignedInteger, _) => spec_widen_unsigned(r),
            (_, TokenType::UnsignedInteger) => spec_widen_unsigned(l),
            (TokenType::FloatingPoint, _) => spec_widen_untyped_float(r),
            (_, TokenType::FloatingPoint) => spec_widen_untyped_float(l),
            (TokenType::I32, TokenType::I64) => TokenType::I64,
            (TokenType::I64, TokenType::I32) => TokenType::I64,
            (TokenType::U32, TokenType::U64) => TokenType::U64,
            (TokenType::U64, TokenType::U32) => TokenType::U64,
            (TokenType::F32, TokenType::F64) => TokenType::F64,
            (TokenType::F64, TokenType::F32) => TokenType::F64,
            (TokenType::F32, TokenType::I32) => TokenType::F32,
            (TokenType::F32, TokenType::U32) => TokenType::F32,
            (TokenType::I32, TokenType::F32) => TokenType::F32,
            (TokenType::U32, TokenType::F32) => TokenType::F32,
            (TokenType::F32, TokenType::I64) => TokenType::F64,
            (TokenType::F32, TokenType::U64) => TokenType::F64,
            (TokenType::I64, TokenType::F32) => TokenType::F64,
            (TokenType::U64, TokenType::F32) => TokenType::F64,
            (TokenType::F64, TokenType::I32) => TokenType::F64,
            (TokenType::F64, TokenType::I64) => TokenType::F64,
            (TokenType::F64, TokenType::U32) => TokenType::F64,
            (TokenType::F64, TokenType::U64) => TokenType::F64,
            (TokenType::I32, TokenType::F64) => TokenType::F64,
            (TokenType::I64, TokenType::F64) => TokenType::F64,
            (TokenType::U32, TokenType::F64) => TokenType::F64,
            (TokenType::U64, TokenType::F64) => TokenType::F64,
            _ => TokenType::Unknown,
        }
    }
}

/// How an untyped integer literal adapts to the other operand.
pub open spec fn spec_widen_untyped_int(other: TokenType) -> TokenType {
    match other {
        TokenType::I32 => TokenType::I32,
        TokenType::I64 => TokenType::I64,
        TokenType::U32 => TokenType::U32,
        TokenType::U64 => TokenType::U64,
        TokenType::F32 => TokenType::F32,
        TokenType::F64 => TokenType::F64,
        TokenType::FloatingPoint => TokenType::F64,
        TokenType::SignedInteger => TokenType::I64,
        TokenType::UnsignedInteger => TokenType::U64,
        _ => TokenType::Unknown,
    }
}

/// How a negated untyped integer literal adapts: only signed and float
/// targets accept it.
pub open spec fn spec_widen_signed(other: TokenType) -> TokenType {
    match other {
        TokenType::I32 => TokenType::I32,
        TokenType::I64 => TokenType::I64,
        TokenType::F32 => TokenType::F32,
        TokenType::F64 => TokenType::F64,
        TokenType::FloatingPoint => TokenType::F64,
        _ => TokenType::Unknown,
    }
}

/// How an unsigned literal class adapts: only unsigned and float targets.
pub open spec fn spec_widen_unsigned(other: TokenType) -> TokenType {
    match other {
        TokenType::U32 => TokenType::U32,
        TokenType::U64 => TokenType::U64,
        TokenType::F32 => TokenType::F32,
        TokenType::F64 => TokenType::F64,
        TokenType::FloatingPoint => TokenType::F64,
        _ => TokenType::Unknown,
    }
}

/// How an untyped float literal adapts to the other operand.
pub open spec fn spec_widen_untyped_float(other: TokenType) -> TokenType {
    match other {
        TokenType::F32 => TokenType::F32,
        TokenType::F64 => TokenType::F64,
        TokenType::I32 | TokenType::I64 | TokenType::U32 | TokenType::U64 => TokenType::F64,
        _ => TokenType::Unknown,
    }
}

/// Whether an operator is a comparison, always producing a boolean.
pub open spec fn spec_is_comparison(op: TokenType) -> bool {
    match op {
        TokenType::Greater | TokenType::GreaterEqual | TokenType::Less | TokenType::LessEqual
            | TokenType::EqualEqual | TokenType::BangEqual => true,
        _ => false,
    }
}

/// The static type of a binary node: comparisons produce booleans; `+`
/// with a string operand concatenates into a string; anything else
/// follows the widening table.
pub open spec fn spec_binary_type(op: TokenType, l: TokenType, r: TokenType) -> TokenType {
    if spec_is_comparison(op) {
        TokenType::Bool
    } else if op == TokenType::Plus && (l == TokenType::StringType || r == TokenType::StringType) {
        TokenType::StringType
    } else {
        spec_widen(l, r)
    }
}

/// The static type of an expression under a symbol table. An undeclared
/// name or an undefined pairing infers `Unknown`; negating an untyped
/// integer literal makes it signed; any other unary keeps an untyped
/// integer unsigned and passes other operand types through.
pub open spec fn spec_infer(entries: Seq<(String, Symbol)>, e: Expression) -> TokenType
    decreases e,
{
    match e {
        Expression::Literal { literaltype, .. } => literaltype,
        Expression::Binary { left, operator, right, .. } => spec_binary_type(
            operator.token_type,
            spec_infer(entries, *left),
            spec_infer(entries, *right),
        ),
        Expression::Unary { operator, right, .. } => {
            let inner = spec_infer(entries, *right);
            if inner == TokenType::Integer {
                if operator.token_type == TokenType::Minus {
                    TokenType::SignedInteger
                } else {
                    TokenType::UnsignedInteger
                }
            } else {
                inner
            }
        },
        Expression::Grouping { expression, .. } => spec_infer(entries, *expression),
        Expression::List { .. } => TokenType::ListType,
        Expression::Mapping { .. } => TokenType::MapType,
        Expression::Variable { name, .. } => match spec_symbol_type(entries, name@) {
            Some(t) => t,
            None => TokenType::Unknown,
        },
        Expression::FunctionCall { name, .. } => match spec_symbol_type(entries, name@) {
            Some(t) => t,
            None => TokenType::Unknown,
        },
        Expression::NamedParameter { value, .. } => spec_infer(entries, *value),
        Expression::MethodCall { receiver, method_name, .. } => {
            let receiver_type = spec_infer(entries, *receiver);
            match crate::builtins::spec_builtin_lookup(
                crate::tokens::spec_display_name(receiver_type),
                method_name@,
            ) {
                Some(b) => crate::builtins::spec_builtin_return_type(b),
                None => TokenType::Unknown,
            }
        },
        Expression::ListGet { .. } => TokenType::Unknown,
        Expression::Stop { .. } => TokenType::Unknown,
    }
}

/// Infer the static type of an expression.
pub fn infer_type(expression: &Expression, symbols: &SymbolTable) -> (r: TokenType)
    ensures
        r == spec_infer(symbols.entries@, *expression),
    decreases *expression,
{
    match expression {
        Expression::Literal { literaltype, .. } => *literaltype,
        Expression::Binary { left, operator, right, .. } => {
            let lt = infer_type(left, symbols);
            let rt = infer_type(right, symbols);
            binary_type(operator.token_type, lt, rt)
        }
        Expression::Unary { operator, right, .. } => {
            let inner = infer_type(right, symbols);
            if inner == TokenType::Integer {
                if operator.token_type == TokenType::Minus {
                    TokenType::SignedInteger
                } else {
                    TokenType::UnsignedInteger
                }
            } else {
                inner
            }
        }
        Expression::Grouping { expression: inner, .. } => infer_type(inner, symbols),
        Expression::List { .. } => TokenType::ListType,
        Expression::Mapping { .. } => TokenType::MapType,
        Expression::Variable { name, .. } => match symbols.lookup_type(name.as_str()) {
            Some(t) => t,
            None => TokenType::Unknown,
        },
        Expression::FunctionCall { name, .. } => match symbols.lookup_type(name.as_str()) {
            Some(t) => t,
            None => TokenType::Unknown,
        },
        Expression::NamedParameter { value, .. } => infer_type(value, symbols),
        Expression::MethodCall { receiver, method_name, .. } => {
            let receiver_type = infer_type(receiver, symbols);
            match crate::builtins::lookup(receiver_type.display_name(), method_name.as_str()) {
                Some(b) => crate::builtins::builtin_return_type(b),
                None => TokenType::Unknown,
            }
        }
        Expression::ListGet { .. } => TokenType::Unknown,
        Expression::Stop { .. } => TokenType::Unknown,
    }
}

fn binary_type(op: TokenType, l: TokenType, r: TokenType) -> (t: TokenType)
    ensures
        t == spec_binary_type(op, l, r),
{
    let comparison = match op {
        TokenType::Greater | TokenType::GreaterEqual | TokenType::Less | TokenType::LessEqual
            | TokenType::EqualEqual | TokenType::BangEqual => true,
        _ => false,
    };
    if comparison {
        TokenType::Bool
    } else if op == TokenType::Plus && (l == TokenType::StringType || r == TokenType::StringType) {
        TokenType::StringType
    } else {
        widen(l, r)
    }
}

fn collapse(t: TokenType) -> (r: TokenType)
    ensures
        r == spec_collapse(t),
{
    match t {
        TokenType::Integer => TokenType::I64,
        TokenType::SignedInteger => TokenType::I64,
        TokenType::UnsignedInteger => TokenType::U64,
        TokenType::FloatingPoint => TokenType::F64,
        _ => t,
    }
}

fn widen_untyped_int(other: TokenType) -> (r: TokenType)
    ensures
        r == spec_widen_untyped_int(other),
{
    match other {
        TokenType::I32 => TokenType::I32,
        TokenType::I64 => TokenType::I64,
        TokenType::U32 => TokenType::U32,
        TokenType::U64 => TokenType::U64,
        TokenType::F32 => TokenType::F32,
        TokenType::F64 => TokenType::F64,
        TokenType::FloatingPoint => TokenType::F64,
        TokenType::SignedInteger => TokenType::I64,
        TokenType::UnsignedInteger => TokenType::U64,
        _ => TokenType::Unknown,
    }
}

fn widen_signed(other: TokenType) -> (r: TokenType)
    ensures
        r == spec_widen_signed(other),
{
    match other {
        TokenType::I32 => TokenType::I32,
        TokenType::I64 => TokenType::I64,
        TokenType::F32 => TokenType::F32,
        TokenType::F64 => TokenType::F64,
        TokenType::FloatingPoint => TokenType::F64,
        _ => TokenType::Unknown,
    }
}

fn widen_unsigned(other: TokenType) -> (r: TokenType)
    ensures
        r == spec_widen_unsigned(other),
{
    match other {
        TokenType::U32 => TokenType::U32,
        TokenType::U64 => TokenType::U64,
        TokenType::F32 => TokenType::F32,
        TokenType::F64 => TokenType::F64,
        TokenType::FloatingPoint => TokenType::F64,
        _ => TokenType::Unknown,
    }
}

fn widen_untyped_float(other: TokenType) -> (r: TokenType)
    ensures
        r == spec_widen_untyped_float(other),
{
    match other {
        TokenType::F32 => TokenType::F32,
        TokenType::F64 => TokenType::F64,
        TokenType::I32 | TokenType::I64 | TokenType::U32 | TokenType::U64 => TokenType::F64,
        _ => TokenType::Unknown,
    }
}

fn widen(l: TokenType, r: TokenType) -> (t: TokenType)
    ensures
        t == spec_widen(l, r),
{
    if l == r {
        collapse(l)
    } else if l == TokenType::Integer {
        widen_untyped_int(r)
    } else if r == TokenType::Integer {
        widen_untyped_int(l)
    } else if l == TokenType::SignedInteger {
        widen_signed(r)
    } else if r == TokenType::SignedInteger {
        widen_signed(l)
    } else if l == TokenType::UnsignedInteger {
        widen_unsigned(r)
    } else if r == TokenType::UnsignedInteger {
        widen_unsigned(l)
    } else if l == TokenType::FloatingPoint {
        widen_untyped_float(r)
    } else if r == TokenType::FloatingPoint {
        widen_untyped_float(l)
    } else {
        match (l, r) {
            (TokenType::I32, TokenType::I64) => TokenType::I64,
            (TokenType::I64, TokenType::I32) => TokenType::I64,
            (TokenType::U32, TokenType::U64) => TokenType::U64,
            (TokenType::U64, TokenType::U32) => TokenType::U64,
            (TokenType::F32, TokenType::F64) => TokenType::F64,
            (TokenType::F64, TokenType::F32) => TokenType::F64,
            (TokenType::F32, TokenType::I32) => TokenType::F32,
            (TokenType::F32, TokenType::U32) => TokenType::F32,
            (TokenType::I32, TokenType::F32) => TokenType::F32,
            (TokenType::U32, TokenType::F32) => TokenType::F32,
            (TokenType::F32, TokenType::I64) => TokenType::F64,
            (TokenType::F32, TokenType::U64) => TokenType::F64,
            (TokenType::I64, TokenType::F32) => TokenType::F64,
            (TokenType::U64, TokenType::F32) => TokenType::F64,
            (TokenType::F64, TokenType::I32) => TokenType::F64,
            (TokenType::F64, TokenType::I64) => TokenType::F64,
            (TokenType::F64, TokenType::U32) => TokenType::F64,
            (TokenType::F64, TokenType::U64) => TokenType::F64,
            (TokenType::I32, TokenType::F64) => TokenType::F64,
            (TokenType::I64, TokenType::F64) => TokenType::F64,
            (TokenType::U32, TokenType::F64) => TokenType::F64,
            (TokenType::U64, TokenType::F64) => TokenType::F64,
            _ => TokenType::Unknown,
        }
    }
}

/// The reconciliation of a declared with an inferred type: identical
/// types pass; an omitted declaration takes the collapsed inferred type;
/// a declared string accepts anything, via stringification; untyped
/// integer literals narrow to declared integer types, but a negated
/// literal never to an unsigned one; floats narrow and widen among
/// themselves and absorb untyped numeric literals. Every other pairing is
/// an incompatible-types error naming both.
pub open spec fn spec_calculate_type(declared: TokenType, inferred: TokenType) -> Result<
    TokenType,
    CompilerError,
> {
    if declared == TokenType::Unknown {
        Ok(spec_collapse(inferred))
    } else if declared == inferred {
        Ok(declared)
    } else if declared == TokenType::StringType {
        Ok(TokenType::StringType)
    } else {
        match (declared, inferred) {
            (TokenType::I32, TokenType::Integer) => Ok(TokenType::I32),
            (TokenType::I32, TokenType::SignedInteger) => Ok(TokenType::I32),
            (TokenType::I64, TokenType::Integer) => Ok(TokenType::I64),
            (TokenType::I64, TokenType::SignedInteger) => Ok(TokenType::I64),
            (TokenType::U32, TokenType::Integer) => Ok(TokenType::U32),
            (TokenType::U32, TokenType::UnsignedInteger) => Ok(TokenType::U32),
            (TokenType::U64, TokenType::Integer) => Ok(TokenType::U64),
            (TokenType::U64, TokenType::UnsignedInteger) => Ok(TokenType::U64),
            (TokenType::F32, TokenType::FloatingPoint) => Ok(TokenType::F32),
            (TokenType::F32, TokenType::Integer) => Ok(TokenType::F32),
            (TokenType::F32, TokenType::SignedInteger) => Ok(TokenType::F32),
            (TokenType::F32, TokenType::F64) => Ok(TokenType::F32),
            (TokenType::F64, TokenType::FloatingPoint) => Ok(TokenType::F64),
            (TokenType::F64, TokenType::Integer) => Ok(TokenType::F64),
            (TokenType::F64, TokenType::SignedInteger) => Ok(TokenType::F64),
            (TokenType::F64, TokenType::F32) => Ok(TokenType::F64),
            _ => Err(CompilerError::IncompatibleTypes(declared, inferred)),
        }
    }
}

/// Reconcile a declared type with an inferred one.
pub fn calculate_type(declared: TokenType, inferred: TokenType) -> (r: Result<
    TokenType,
    CompilerError,
>)
    ensures
        r == spec_calculate_type(declared, inferred),
{
    if declared == TokenType::Unknown {
        Ok(collapse(inferred))
    } else if declared == inferred {
        Ok(declared)
    } else if declared == TokenType::StringType {
        Ok(TokenType::StringType)
    } else {
        match (declared, inferred) {
            (TokenType::I32, TokenType::Integer) => Ok(TokenType::I32),
            (TokenType::I32, TokenType::SignedInteger) => Ok(TokenType::I32),
            (TokenType::I64, TokenType::Integer) => Ok(TokenType::I64),
            (TokenType::I64, TokenType::SignedInteger) => Ok(TokenType::I64),
            (TokenType::U32, TokenType::Integer) => Ok(TokenType::U32),
            (TokenType::U32, TokenType::UnsignedInteger) => Ok(TokenType::U32),
            (TokenType::U64, TokenType::Integer) => Ok(TokenType::U64),
            (TokenType::U64, TokenType::UnsignedInteger) => Ok(TokenType::U64),
            (TokenType::F32, TokenType::FloatingPoint) => Ok(TokenType::F32),
            (TokenType::F32, TokenType::Integer) => Ok(TokenType::F32),
            (TokenType::F32, TokenType::SignedInteger) => Ok(TokenType::F32),
            (TokenType::F32, TokenType::F64) => Ok(TokenType::F32),
            (TokenType::F64, TokenType::FloatingPoint) => Ok(TokenType::F64),
            (TokenType::F64, TokenType::Integer) => Ok(TokenType::F64),
            (TokenType::F64, TokenType::SignedInteger) => Ok(TokenType::F64),
            (TokenType::F64, TokenType::F32) => Ok(TokenType::F64),
            _ => Err(CompilerError::IncompatibleTypes(declared, inferred)),
        }
    }
}

/// Whether a statement's declaration, if it makes one, is filed.
pub open spec fn spec_declared(entries: Seq<(String, Symbol)>, s: Statement) -> bool {
    match s {
        Statement::VarStmt { name, .. } => spec_symbol_type(entries, name.lexeme@) is Some,
        Statement::FunctionStmt { function } => spec_symbol_type(
            entries,
            function.name.lexeme@,
        ) is Some,
        Statement::ObjectStmt { name, .. } => spec_symbol_type(entries, name.lexeme@) is Some,
        _ => true,
    }
}

/// Collect every declaration of a unit into the symbol table, so that a
/// function may call one declared after it: afterwards every top-level
/// declaration is filed, and every earlier lookup is unchanged.
/// Variables record their reconciled type where reconciliation succeeds,
/// their declared type otherwise; the later compile pass reports the
/// failure.
#[verifier::loop_isolation(false)]
pub fn build(namespace: &str, statements: &Vec<Statement>, symbols: &mut SymbolTable)
    ensures
        forall|k: Seq<char>|
            spec_symbol_type(old(symbols).entries@, k) is Some ==> #[trigger] spec_symbol_type(
                final(symbols).entries@,
                k,
            ) == spec_symbol_type(old(symbols).entries@, k),
        forall|i: int|
            0 <= i < statements@.len() ==> spec_declared(
                final(symbols).entries@,
                #[trigger] statements@[i],
            ),
    decreases statements@,
{
    let _ = namespace;
    let n = statements.len();
    let mut i: usize = 0;
    while i < n
        invariant
            n == statements@.len(),
            i <= n,
            forall|k: Seq<char>|
                spec_symbol_type(old(symbols).entries@, k) is Some ==> #[trigger] spec_symbol_type(
                    symbols.entries@,
                    k,
                ) == spec_symbol_type(old(symbols).entries@, k),
            forall|j: int|
                0 <= j < i ==> spec_declared(symbols.entries@, #[trigger] statements@[j]),
        decreases n - i,
    {
        proof {
            assert(decreases_to!(statements@ => statements@[i as int]));
        }
        build_statement(&statements[i], symbols);
        i = i + 1;
    }
}

#[verifier::loop_isolation(false)]
fn build_statement(statement: &Statement, symbols: &mut SymbolTable)
    ensures
        forall|k: Seq<char>|
            spec_symbol_type(old(symbols).entries@, k) is Some ==> #[trigger] spec_symbol_type(
                final(symbols).entries@,
                k,
            ) == spec_symbol_type(old(symbols).entries@, k),
        spec_declared(final(symbols).entries@, *statement),
    decreases *statement,
{
    match statement {
        Statement::VarStmt { name, var_type, initializer } => {
            let inferred = infer_type(initializer, symbols);
            let recorded = match calculate_type(*var_type, inferred) {
                Ok(t) => t,
                Err(_) => *var_type,
            };
            symbols.declare(name.lexeme.clone(), Symbol::Variable { var_type: recorded });
        }
        Statement::FunctionStmt { function } => {
            let mut parameters: Vec<Parameter> = Vec::new();
            let np = function.parameters.len();
            let mut i: usize = 0;
            while i < np
                invariant
                    np == function.parameters@.len(),
                    symbols == old(symbols),
                decreases np - i,
            {
                parameters.push(function.parameters[i].clone());
                i = i + 1;
            }
            symbols.declare(
                function.name.lexeme.clone(),
                Symbol::Function { parameters, return_type: function.return_type },
            );
            let nb = function.body.len();
            let mut k: usize = 0;
            while k < nb
                invariant
                    nb == function.body@.len(),
                    k <= nb,
                    forall|kk: Seq<char>|
                        spec_symbol_type(old(symbols).entries@, kk) is Some
                            ==> #[trigger] spec_symbol_type(symbols.entries@, kk)
                            == spec_symbol_type(old(symbols).entries@, kk),
                    spec_symbol_type(symbols.entries@, function.name.lexeme@) is Some,
                decreases nb - k,
            {
                proof {
                    assert(decreases_to!(*statement => function.body@[k as int]));
                }
                build_statement(&function.body[k], symbols);
                k = k + 1;
            }
        }
        Statement::ObjectStmt { name, fields } => {
            let mut copied: Vec<Parameter> = Vec::new();
            let nf = fields.len();
            let mut i: usize = 0;
            while i < nf
                invariant
                    nf == fields@.len(),
                    symbols == old(symbols),
                decreases nf - i,
            {
                copied.push(fields[i].clone());
                i = i + 1;
            }
            symbols.declare(name.lexeme.clone(), Symbol::Object { fields: copied });
        }
        _ => (),
    }
}

} // verus!
