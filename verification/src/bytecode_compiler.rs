//! The bytecode compiler: walks statements and expressions, emits
//! instructions into a chunk, and registers compiled chunks — one per
//! function — under qualified names. Arguments of calls are re-ordered
//! to parameter declaration order and type-checked against the fixed
//! coercion table before any code is emitted for them.
//!
//! Every compiling function is pinned to a functional specification of
//! the generation: the `spec_compile_*` family threads a `GenState`
//! through statements and expressions and yields either the exact state
//! reached — chunk words, constants, slots, filed chunks — or the exact
//! located error.

use vstd::prelude::*;

verus! {

use crate::ast_compiler::{
    expr_height, exprs_height, lemma_exprs_height_elem, lemma_pairs_height_elem,
    lemma_stmts_height_elem, pairs_height, stmt_height, stmts_height_from, Expression, Function,
    Parameter, Statement,
};
use crate::builtins::{builtin_arity, lookup};
use crate::chunk::{Chunk, ChunkV};
use crate::errors::{CompilerError, CompilerErrorAtLine, CompilerErrorAtLineV, CompilerErrorV};
use crate::registry::{spec_assoc, Registry};
use crate::symbols::{calculate_type, infer_type, Symbol, SymbolTable};
use crate::text::str_eq;
use crate::tokens::TokenType;
use crate::value::{Value, ValueV};
use crate::vm::{
    OP_ADD, OP_AND, OP_ASSIGN, OP_BITAND, OP_BITOR, OP_BITXOR, OP_CALL, OP_CALL_BUILTIN,
    OP_CONSTANT, OP_DEF_LIST, OP_DEF_MAP, OP_DIVIDE, OP_EQUAL, OP_GET, OP_GREATER,
    OP_GREATER_EQUAL, OP_LESS, OP_LESS_EQUAL, OP_LIST_GET, OP_MULTIPLY, OP_NEGATE, OP_NOT, OP_OR,
    OP_RETURN, OP_SHL, OP_SHR, OP_SUBTRACT,
};

/// The qualified name a unit compiles under: the given namespace, or
/// "main" where none is given.
pub open spec fn spec_unit_name(namespace: Option<&str>) -> Seq<char> {
    match namespace {
        Some(name) => name@,
        None => "main"@,
    }
}

/// The state one chunk's compilation threads: the chunk under
/// construction, the compiler's name-to-slot map, the current source
/// line, and the registry of finished chunks.
#[verifier::ext_equal]
pub ghost struct GenState {
    pub chunk: ChunkV,
    pub vars: Seq<(Seq<char>, int)>,
    pub line: usize,
    pub registry: Seq<(Seq<char>, ChunkV)>,
}

/// The shapes of a compiler's name-to-slot map.
pub open spec fn cvars_view(s: Seq<(String, usize)>) -> Seq<(Seq<char>, int)> {
    Seq::new(s.len(), |i: int| (s[i].0@, s[i].1 as int))
}

/// The generation state a compiler and registry stand in.
pub(crate) open spec fn spec_state(c: Compiler, registry: Seq<(Seq<char>, ChunkV)>) -> GenState {
    GenState {
        chunk: c.chunk@,
        vars: cvars_view(c.vars@),
        line: c.current_line,
        registry,
    }
}

/// One instruction word appended, recording the current line.
pub open spec fn spec_emit(g: GenState, word: u16) -> GenState {
    GenState {
        chunk: ChunkV {
            code: g.chunk.code.push(word),
            lines: g.chunk.lines.push(g.line),
            ..g.chunk
        },
        ..g
    }
}

/// Two instruction words appended.
pub open spec fn spec_emit2(g: GenState, first: u16, second: u16) -> GenState {
    spec_emit(spec_emit(g, first), second)
}

/// A constant appended to the pool, yielding its index.
pub open spec fn spec_add_const(g: GenState, value: ValueV) -> (GenState, int) {
    (
        GenState {
            chunk: ChunkV { constants: g.chunk.constants.push(value), ..g.chunk },
            ..g
        },
        g.chunk.constants.len() as int,
    )
}

/// A located failure at the state's current line.
pub open spec fn spec_fail(g: GenState, error: CompilerErrorV) -> CompilerErrorAtLineV {
    CompilerErrorAtLineV { error, line: g.line as int }
}

/// The least string constant equal to `text`, if the pool holds one.
pub open spec fn spec_find_str_const(constants: Seq<ValueV>, text: Seq<char>) -> Option<int>
    decreases constants.len(),
{
    if constants.len() == 0 {
        None
    } else if constants[0] == ValueV::Str(text) {
        Some(0)
    } else {
        match spec_find_str_const(constants.drop_first(), text) {
            Some(i) => Some(i + 1),
            None => None,
        }
    }
}

/// A string constant found or interned, as an instruction word.
pub open spec fn spec_name_const(g: GenState, text: Seq<char>) -> Result<
    (GenState, u16),
    CompilerErrorAtLineV,
> {
    let found = spec_find_str_const(g.chunk.constants, text);
    let with = match found {
        Some(i) => (g, i),
        None => spec_add_const(g, ValueV::Str(text)),
    };
    if with.1 > u16::MAX {
        Err(spec_fail(g, CompilerErrorV::Overflow))
    } else {
        Ok((with.0, with.1 as u16))
    }
}

/// A constant interned and loaded.
pub open spec fn spec_emit_const(g: GenState, value: ValueV) -> Result<
    GenState,
    CompilerErrorAtLineV,
> {
    let with = spec_add_const(g, value);
    if with.1 > u16::MAX {
        Err(spec_fail(g, CompilerErrorV::Overflow))
    } else {
        Ok(spec_emit2(with.0, OP_CONSTANT, with.1 as u16))
    }
}

/// The first slot bound to a name in the compiler's map, if any.
pub open spec fn spec_find_slot(vars: Seq<(Seq<char>, int)>, name: Seq<char>) -> Option<int>
    decreases vars.len(),
{
    if vars.len() == 0 {
        None
    } else if vars[0].0 == name {
        Some(vars[0].1)
    } else {
        spec_find_slot(vars.drop_first(), name)
    }
}

/// The first declaration summary filed under a name, if any.
pub open spec fn spec_symbol_entry(entries: Seq<(String, Symbol)>, name: Seq<char>) -> Option<
    Symbol,
>
    decreases entries.len(),
{
    if entries.len() == 0 {
        None
    } else if entries[0].0@ == name {
        Some(entries[0].1)
    } else {
        spec_symbol_entry(entries.drop_first(), name)
    }
}

/// The parameters a callable symbol binds: a function's parameters or an
/// object's fields.
pub open spec fn spec_symbol_params(sym: Symbol) -> Option<Seq<Parameter>> {
    match sym {
        Symbol::Function { parameters, .. } => Some(parameters@),
        Symbol::Object { fields } => Some(fields@),
        _ => None,
    }
}

/// The last named argument written for a parameter, if any.
pub open spec fn spec_last_named(arguments: Seq<Expression>, name: Seq<char>) -> Option<int>
    decreases arguments.len(),
{
    if arguments.len() == 0 {
        None
    } else if arguments.last() matches Expression::NamedParameter { name: written, .. }
        && written.lexeme@ == name {
        Some(arguments.len() - 1)
    } else {
        spec_last_named(arguments.drop_last(), name)
    }
}

/// The first positional argument not yet taken, if any.
pub open spec fn spec_first_free(arguments: Seq<Expression>, used: Seq<bool>, k: int) -> Option<
    int,
>
    decreases arguments.len() - k,
{
    if !(0 <= k < arguments.len() && arguments.len() == used.len()) {
        None
    } else if !used[k] && !(arguments[k] is NamedParameter) {
        Some(k)
    } else {
        spec_first_free(arguments, used, k + 1)
    }
}

/// Whether an argument's inferred type is accepted for a parameter: equal
/// types pass, a string parameter takes only a string, numeric literals
/// may narrow.
pub open spec fn spec_argument_accepted(param_type: TokenType, value_type: TokenType) -> bool {
    if param_type == value_type {
        true
    } else if param_type == TokenType::StringType {
        false
    } else {
        crate::symbols::spec_calculate_type(param_type, value_type) is Ok
    }
}

/// A named argument index is inside the argument list.
proof fn lemma_last_named_bounds(arguments: Seq<Expression>, name: Seq<char>)
    ensures
        spec_last_named(arguments, name) matches Some(k) ==> 0 <= k < arguments.len(),
    decreases arguments.len(),
{
    if arguments.len() > 0 {
        lemma_last_named_bounds(arguments.drop_last(), name);
    }
}

/// A free positional index is inside the argument list.
proof fn lemma_first_free_bounds(arguments: Seq<Expression>, used: Seq<bool>, k: int)
    ensures
        spec_first_free(arguments, used, k) matches Some(j) ==> 0 <= j < arguments.len(),
    decreases arguments.len() - k,
{
    if 0 <= k < arguments.len() && arguments.len() == used.len() {
        lemma_first_free_bounds(arguments, used, k + 1);
    }
}

/// What compiling one expression emits: the state the compiler reaches,
/// or the exact located error it reports. Operands come before their
/// operator; calls intern their names, re-order arguments to parameter
/// order and type-check them; every literal loads a fresh constant.
pub open spec fn spec_compile_expression(
    e: Expression,
    st: Seq<(String, Symbol)>,
    g: GenState,
) -> Result<GenState, CompilerErrorAtLineV>
    decreases expr_height(e), 2int, 0int,
{
    match e {
        Expression::FunctionCall { name, arguments, .. } => {
            match spec_name_const(g, name@) {
                Err(err) => Err(err),
                Ok((g1, name_index)) => if arguments@.len() > u16::MAX {
                    Err(spec_fail(g1, CompilerErrorV::TooManyParameters))
                } else {
                    match spec_symbol_entry(st, name@) {
                        None => Err(
                            spec_fail(g1, CompilerErrorV::FunctionNotFound(name@)),
                        ),
                        Some(sym) => if spec_symbol_params(sym) is None {
                            Err(spec_fail(g1, CompilerErrorV::FunctionNotFound(name@)))
                        } else {
                            match spec_compile_arguments(arguments@, sym, name@, st, g1) {
                                Err(err) => Err(err),
                                Ok(g2) => Ok(
                                    spec_emit(
                                        spec_emit2(g2, OP_CALL, name_index),
                                        arguments@.len() as u16,
                                    ),
                                ),
                            }
                        },
                    }
                },
            }
        },
        Expression::MethodCall { receiver, method_name, arguments, .. } => {
            match spec_compile_expression(*receiver, st, g) {
                Err(err) => Err(err),
                Ok(g1) => {
                    let receiver_type = crate::tokens::spec_display_name(
                        crate::symbols::spec_infer(st, *receiver),
                    );
                    match spec_name_const(g1, receiver_type) {
                        Err(err) => Err(err),
                        Ok((g2, type_index)) => match spec_name_const(g2, method_name@) {
                            Err(err) => Err(err),
                            Ok((g3, name_index)) => match crate::builtins::spec_builtin_lookup(
                                receiver_type,
                                method_name@,
                            ) {
                                None => Err(
                                    spec_fail(
                                        g3,
                                        CompilerErrorV::FunctionNotFound(
                                            receiver_type + seq!['.'] + method_name@,
                                        ),
                                    ),
                                ),
                                Some(b) => {
                                    let arity = crate::builtins::spec_builtin_arity(b);
                                    if arity != arguments@.len() {
                                        Err(
                                            spec_fail(
                                                g3,
                                                CompilerErrorV::IllegalArguments(
                                                    receiver_type + seq!['.'] + method_name@,
                                                    arity as int,
                                                    arguments@.len() as int,
                                                ),
                                            ),
                                        )
                                    } else if arguments@.len() > u16::MAX {
                                        Err(spec_fail(g3, CompilerErrorV::TooManyParameters))
                                    } else {
                                        match spec_compile_exprs(arguments@, 0, st, g3) {
                                            Err(err) => Err(err),
                                            Ok(g4) => Ok(
                                                spec_emit(
                                                    spec_emit(
                                                        spec_emit2(g4, OP_CALL_BUILTIN, name_index),
                                                        type_index,
                                                    ),
                                                    arguments@.len() as u16,
                                                ),
                                            ),
                                        }
                                    }
                                },
                            },
                        },
                    }
                },
            }
        },
        Expression::Variable { name, .. } => {
            match spec_find_slot(g.vars, name@) {
                Some(slot) => if slot > u16::MAX {
                    Err(spec_fail(g, CompilerErrorV::Overflow))
                } else {
                    Ok(spec_emit2(g, OP_GET, slot as u16))
                },
                None => Err(spec_fail(g, CompilerErrorV::UndeclaredVariable(name@))),
            }
        },
        Expression::Literal { value, .. } => spec_emit_const(g, crate::value::value_view(value)),
        Expression::List { values, .. } => if values@.len() > u16::MAX {
            Err(spec_fail(g, CompilerErrorV::TooManyParameters))
        } else {
            match spec_compile_exprs(values@, 0, st, g) {
                Err(err) => Err(err),
                Ok(g1) => Ok(spec_emit2(g1, OP_DEF_LIST, values@.len() as u16)),
            }
        },
        Expression::Mapping { entries, .. } => if entries@.len() > u16::MAX {
            Err(spec_fail(g, CompilerErrorV::TooManyParameters))
        } else {
            match spec_compile_pairs(entries@, 0, st, g) {
                Err(err) => Err(err),
                Ok(g1) => Ok(spec_emit2(g1, OP_DEF_MAP, entries@.len() as u16)),
            }
        },
        Expression::Grouping { expression, .. } => spec_compile_expression(*expression, st, g),
        Expression::Unary { operator, right, .. } => {
            match spec_compile_expression(*right, st, g) {
                Err(err) => Err(err),
                Ok(g1) => match operator.token_type {
                    TokenType::Minus => Ok(spec_emit(g1, OP_NEGATE)),
                    TokenType::Bang => Ok(spec_emit(g1, OP_NOT)),
                    _ => Err(
                        spec_fail(g1, CompilerErrorV::UnexpectedType(operator.token_type)),
                    ),
                },
            }
        },
        Expression::Binary { left, operator, right, .. } => {
            match spec_compile_expression(*left, st, g) {
                Err(err) => Err(err),
                Ok(g1) => match spec_compile_expression(*right, st, g1) {
                    Err(err) => Err(err),
                    Ok(g2) => match spec_binary_opcode(operator.token_type) {
                        Some(op) => Ok(spec_emit(g2, op)),
                        None => Err(
                            spec_fail(g2, CompilerErrorV::UnexpectedType(operator.token_type)),
                        ),
                    },
                },
            }
        },
        Expression::NamedParameter { value, .. } => spec_compile_expression(*value, st, g),
        Expression::ListGet { list, index, .. } => {
            match spec_compile_expression(*list, st, g) {
                Err(err) => Err(err),
                Ok(g1) => match spec_compile_expression(*index, st, g1) {
                    Err(err) => Err(err),
                    Ok(g2) => Ok(spec_emit(g2, OP_LIST_GET)),
                },
            }
        },
        Expression::Stop { .. } => Ok(g),
    }
}

/// The instruction a binary operator token compiles to, if it has one.
pub open spec fn spec_binary_opcode(op: TokenType) -> Option<u16> {
    match op {
        TokenType::BitAnd => Some(OP_BITAND),
        TokenType::BitXor => Some(OP_BITXOR),
        TokenType::EqualEqual => Some(OP_EQUAL),
        TokenType::BangEqual => Some(crate::vm::OP_NOT_EQUAL),
        TokenType::Greater => Some(OP_GREATER),
        TokenType::GreaterEqual => Some(OP_GREATER_EQUAL),
        TokenType::GreaterGreater => Some(OP_SHR),
        TokenType::Less => Some(OP_LESS),
        TokenType::LessEqual => Some(OP_LESS_EQUAL),
        TokenType::LessLess => Some(OP_SHL),
        TokenType::LogicalAnd => Some(OP_AND),
        TokenType::LogicalOr => Some(OP_OR),
        TokenType::Minus => Some(OP_SUBTRACT),
        TokenType::Pipe => Some(OP_BITOR),
        TokenType::Plus => Some(OP_ADD),
        TokenType::Slash => Some(OP_DIVIDE),
        TokenType::Star => Some(OP_MULTIPLY),
        _ => None,
    }
}

/// Compiling a run of expressions from position `i` on, left to right.
pub open spec fn spec_compile_exprs(
    values: Seq<Expression>,
    i: int,
    st: Seq<(String, Symbol)>,
    g: GenState,
) -> Result<GenState, CompilerErrorAtLineV>
    decreases exprs_height(values), 1int, values.len() - i,
    via spec_compile_exprs_dec
{
    if i < 0 || i >= values.len() {
        Ok(g)
    } else {
        match spec_compile_expression(values[i], st, g) {
            Err(err) => Err(err),
            Ok(g1) => spec_compile_exprs(values, i + 1, st, g1),
        }
    }
}

#[via_fn]
proof fn spec_compile_exprs_dec(
    values: Seq<Expression>,
    i: int,
    st: Seq<(String, Symbol)>,
    g: GenState,
) {
    if 0 <= i < values.len() {
        lemma_exprs_height_elem(values, i);
    }
}

/// Compiling a run of key-value expression pairs from position `i` on.
pub open spec fn spec_compile_pairs(
    entries: Seq<(Expression, Expression)>,
    i: int,
    st: Seq<(String, Symbol)>,
    g: GenState,
) -> Result<GenState, CompilerErrorAtLineV>
    decreases pairs_height(entries), 1int, entries.len() - i,
    via spec_compile_pairs_dec
{
    if i < 0 || i >= entries.len() {
        Ok(g)
    } else {
        match spec_compile_expression(entries[i].0, st, g) {
            Err(err) => Err(err),
            Ok(g1) => match spec_compile_expression(entries[i].1, st, g1) {
                Err(err) => Err(err),
                Ok(g2) => spec_compile_pairs(entries, i + 1, st, g2),
            },
        }
    }
}

#[via_fn]
proof fn spec_compile_pairs_dec(
    entries: Seq<(Expression, Expression)>,
    i: int,
    st: Seq<(String, Symbol)>,
    g: GenState,
) {
    if 0 <= i < entries.len() {
        lemma_pairs_height_elem(entries, i);
    }
}

/// Compiling a call's arguments: their number must match the callable's
/// parameters, then they compile in parameter-declaration order.
pub open spec fn spec_compile_arguments(
    arguments: Seq<Expression>,
    sym: Symbol,
    callee: Seq<char>,
    st: Seq<(String, Symbol)>,
    g: GenState,
) -> Result<GenState, CompilerErrorAtLineV>
    decreases exprs_height(arguments), 2int, 0int,
{
    let n_params = match spec_symbol_params(sym) {
        Some(ps) => ps.len() as int,
        None => 0,
    };
    if n_params != arguments.len() {
        Err(
            spec_fail(
                g,
                CompilerErrorV::IllegalArguments(callee, n_params, arguments.len() as int),
            ),
        )
    } else {
        spec_compile_arguments_from(
            arguments,
            sym,
            callee,
            st,
            Seq::new(arguments.len(), |k: int| false),
            0,
            g,
        )
    }
}

/// One parameter position bound and compiled: the last named argument
/// written for the parameter, or the first positional argument not yet
/// taken; its inferred type must be accepted for the parameter's.
pub open spec fn spec_compile_arguments_from(
    arguments: Seq<Expression>,
    sym: Symbol,
    callee: Seq<char>,
    st: Seq<(String, Symbol)>,
    used: Seq<bool>,
    p: int,
    g: GenState,
) -> Result<GenState, CompilerErrorAtLineV>
    decreases exprs_height(arguments), 1int, arguments.len() - p,
    via spec_compile_arguments_from_dec
{
    if p < 0 || p >= arguments.len() {
        Ok(g)
    } else {
        match spec_symbol_params(sym) {
            None => Err(spec_fail(g, CompilerErrorV::TooManyParameters)),
            Some(ps) => if p >= ps.len() {
                Err(spec_fail(g, CompilerErrorV::TooManyParameters))
            } else {
                let param_name = ps[p].name.lexeme@;
                let param_type = ps[p].var_type;
                let chosen = match spec_last_named(arguments, param_name) {
                    Some(k) => Some(k),
                    None => spec_first_free(arguments, used, 0),
                };
                match chosen {
                    None => Err(
                        spec_fail(
                            g,
                            CompilerErrorV::IllegalArguments(
                                callee,
                                ps.len() as int,
                                arguments.len() as int,
                            ),
                        ),
                    ),
                    Some(index) => {
                        let value_type = crate::symbols::spec_infer(st, arguments[index]);
                        if !spec_argument_accepted(param_type, value_type) {
                            Err(
                                spec_fail(
                                    g,
                                    CompilerErrorV::IncompatibleTypes(param_type, value_type),
                                ),
                            )
                        } else {
                            match spec_compile_expression(arguments[index], st, g) {
                                Err(err) => Err(err),
                                Ok(g1) => spec_compile_arguments_from(
                                    arguments,
                                    sym,
                                    callee,
                                    st,
                                    used.update(index, true),
                                    p + 1,
                                    g1,
                                ),
                            }
                        }
                    },
                }
            },
        }
    }
}

#[via_fn]
proof fn spec_compile_arguments_from_dec(
    arguments: Seq<Expression>,
    sym: Symbol,
    callee: Seq<char>,
    st: Seq<(String, Symbol)>,
    used: Seq<bool>,
    p: int,
    g: GenState,
) {
    if 0 <= p < arguments.len() {
        match spec_symbol_params(sym) {
            None => (),
            Some(ps) => if p < ps.len() {
                let param_name = ps[p].name.lexeme@;
                lemma_last_named_bounds(arguments, param_name);
                lemma_first_free_bounds(arguments, used, 0);
                let chosen = match spec_last_named(arguments, param_name) {
                    Some(k) => Some(k),
                    None => spec_first_free(arguments, used, 0),
                };
                match chosen {
                    Some(index) => {
                        lemma_exprs_height_elem(arguments, index);
                    },
                    None => (),
                }
            } else {
            },
        }
    }
}

/// What compiling one statement emits and files: the state reached, or
/// the exact located error. A variable statement reconciles its declared
/// and inferred types, takes a fresh slot and assigns into it; a function
/// declaration compiles its own chunk and files it under
/// "<enclosing>/<name>"; an object declaration records its field names on
/// the chunk and emits nothing.
pub open spec fn spec_compile_statement(
    s: Statement,
    st: Seq<(String, Symbol)>,
    g0: GenState,
) -> Result<GenState, CompilerErrorAtLineV>
    decreases stmt_height(s), 4int, 0int,
{
    let g = GenState { line: crate::ast_compiler::spec_stmt_line(s), ..g0 };
    match s {
        Statement::VarStmt { name, initializer, .. } => {
            match spec_symbol_entry(st, name.lexeme@) {
                Some(Symbol::Variable { var_type: recorded }) => {
                    match crate::symbols::spec_calculate_type(
                        recorded,
                        crate::symbols::spec_infer(st, initializer),
                    ) {
                        Err(e) => Err(spec_fail(g, e@)),
                        Ok(_) => {
                            let slot = g.chunk.vars.len() as int;
                            let g1 = GenState {
                                chunk: ChunkV {
                                    vars: g.chunk.vars.push((recorded, name.lexeme@)),
                                    ..g.chunk
                                },
                                vars: g.vars.push((name.lexeme@, slot)),
                                ..g
                            };
                            if slot > u16::MAX {
                                Err(spec_fail(g1, CompilerErrorV::Overflow))
                            } else {
                                match spec_compile_expression(initializer, st, g1) {
                                    Err(err) => Err(err),
                                    Ok(g2) => Ok(spec_emit2(g2, OP_ASSIGN, slot as u16)),
                                }
                            }
                        },
                    }
                },
                _ => Err(
                    spec_fail(g, CompilerErrorV::UndeclaredVariable(name.lexeme@)),
                ),
            }
        },
        Statement::PrintStmt { value } => {
            match spec_compile_expression(value, st, g) {
                Err(err) => Err(err),
                Ok(g1) => Ok(spec_emit(g1, crate::vm::OP_PRINT)),
            }
        },
        Statement::ExpressionStmt { expression } => spec_compile_expression(expression, st, g),
        Statement::FunctionStmt { function } => {
            match spec_compile_function(function, st, g.registry) {
                Err(err) => Err(err),
                Ok((compiled, registry1)) => {
                    let qualified = g.chunk.name + seq!['/'] + function.name.lexeme@;
                    Ok(
                        GenState {
                            registry: crate::registry::spec_assoc_put(
                                registry1,
                                qualified,
                                compiled,
                            ),
                            ..g
                        },
                    )
                },
            }
        },
        Statement::ObjectStmt { name, fields } => {
            Ok(
                GenState {
                    chunk: ChunkV {
                        object_defs: g.chunk.object_defs.push(
                            (
                                name.lexeme@,
                                Seq::new(fields@.len(), |i: int| fields@[i].name.lexeme@),
                            ),
                        ),
                        ..g.chunk
                    },
                    ..g
                },
            )
        },
        Statement::GuardStatement { .. } => Err(
            spec_fail(g, CompilerErrorV::Expected("a supported statement"@)),
        ),
    }
}

/// Compiling a run of statements from position `i` on, in order.
pub open spec fn spec_compile_statements(
    ast: Seq<Statement>,
    i: int,
    st: Seq<(String, Symbol)>,
    g: GenState,
) -> Result<GenState, CompilerErrorAtLineV>
    decreases stmts_height_from(ast), 1int, ast.len() - i,
    via spec_compile_statements_dec
{
    if i < 0 || i >= ast.len() {
        Ok(g)
    } else {
        match spec_compile_statement(ast[i], st, g) {
            Err(err) => Err(err),
            Ok(g1) => spec_compile_statements(ast, i + 1, st, g1),
        }
    }
}

#[via_fn]
proof fn spec_compile_statements_dec(
    ast: Seq<Statement>,
    i: int,
    st: Seq<(String, Symbol)>,
    g: GenState,
) {
    if 0 <= i < ast.len() {
        lemma_stmts_height_elem(ast, i);
    }
}

/// Compiling a whole unit into one chunk: its statements in order, the
/// code closed by the return opcode.
pub open spec fn spec_compile_unit_body(
    ast: Seq<Statement>,
    st: Seq<(String, Symbol)>,
    g: GenState,
) -> Result<GenState, CompilerErrorAtLineV>
    decreases stmts_height_from(ast), 2int, 0int,
{
    match spec_compile_statements(ast, 0, st, g) {
        Err(err) => Err(err),
        Ok(g1) => Ok(spec_emit(g1, OP_RETURN)),
    }
}

/// A fresh generation state: an empty chunk under the given name, no
/// slots, line zero, over the given registry.
pub open spec fn spec_fresh(name: Seq<char>, registry: Seq<(Seq<char>, ChunkV)>) -> GenState {
    GenState {
        chunk: ChunkV {
            name,
            code: Seq::empty(),
            constants: Seq::empty(),
            lines: Seq::empty(),
            object_defs: Seq::empty(),
            vars: Seq::empty(),
        },
        vars: Seq::empty(),
        line: 0,
        registry,
    }
}

/// What compiling one function declaration produces: a fresh chunk named
/// after the function, its slots seeded by the parameters in order, its
/// body compiled into it — together with the registry as the body's
/// nested declarations leave it.
pub open spec fn spec_compile_function(
    f: Function,
    st: Seq<(String, Symbol)>,
    registry: Seq<(Seq<char>, ChunkV)>,
) -> Result<(ChunkV, Seq<(Seq<char>, ChunkV)>), CompilerErrorAtLineV>
    decreases stmts_height_from(f.body@), 3int, 0int,
{
    let seeded = GenState {
        chunk: ChunkV {
            name: f.name.lexeme@,
            code: Seq::empty(),
            constants: Seq::empty(),
            lines: Seq::empty(),
            object_defs: Seq::empty(),
            vars: Seq::new(
                f.parameters@.len(),
                |i: int| (f.parameters@[i].var_type, f.parameters@[i].name.lexeme@),
            ),
        },
        vars: Seq::new(f.parameters@.len(), |i: int| (f.parameters@[i].name.lexeme@, i)),
        line: 0,
        registry,
    };
    match spec_compile_unit_body(f.body@, st, seeded) {
        Err(err) => Err(err),
        Ok(g) => Ok((g.chunk, g.registry)),
    }
}

/// What compiling a whole unit yields: the registry with the unit's
/// chunk filed under its name, every declared function under
/// "<unit>/<name>", or the exact located error.
pub open spec fn spec_compile_unit(
    ast: Seq<Statement>,
    st: Seq<(String, Symbol)>,
    name: Seq<char>,
    registry: Seq<(Seq<char>, ChunkV)>,
) -> Result<Seq<(Seq<char>, ChunkV)>, CompilerErrorAtLineV> {
    match spec_compile_unit_body(ast, st, spec_fresh(name, registry)) {
        Err(err) => Err(err),
        Ok(g) => Ok(crate::registry::spec_assoc_put(g.registry, name, g.chunk)),
    }
}

/// A first-match scan agrees with the recursive constant lookup.
proof fn lemma_find_str_const_at(constants: Seq<ValueV>, text: Seq<char>)
    ensures
        forall|i: int|
            0 <= i < constants.len() && constants[i] == ValueV::Str(text) && (forall|j: int|
                0 <= j < i ==> constants[j] != ValueV::Str(text)) ==> spec_find_str_const(
                constants,
                text,
            ) == Some(i),
        (forall|j: int| 0 <= j < constants.len() ==> constants[j] != ValueV::Str(text))
            ==> spec_find_str_const(constants, text) is None,
    decreases constants.len(),
{
    if constants.len() > 0 {
        lemma_find_str_const_at(constants.drop_first(), text);
        assert(forall|i: int|
            1 <= i < constants.len() ==> constants.drop_first()[i - 1] == constants[i]);
    }
}

/// A first-match scan agrees with the recursive slot lookup.
proof fn lemma_find_slot_at(vars: Seq<(Seq<char>, int)>, name: Seq<char>)
    ensures
        forall|i: int|
            0 <= i < vars.len() && vars[i].0 == name && (forall|j: int|
                0 <= j < i ==> vars[j].0 != name) ==> spec_find_slot(vars, name) == Some(
                vars[i].1,
            ),
        (forall|j: int| 0 <= j < vars.len() ==> vars[j].0 != name) ==> spec_find_slot(
            vars,
            name,
        ) is None,
    decreases vars.len(),
{
    if vars.len() > 0 {
        lemma_find_slot_at(vars.drop_first(), name);
        assert(forall|i: int| 1 <= i < vars.len() ==> vars.drop_first()[i - 1] == vars[i]);
    }
}

/// A first-match scan agrees with the recursive symbol lookup.
proof fn lemma_symbol_entry_at(entries: Seq<(String, Symbol)>, name: Seq<char>)
    ensures
        forall|i: int|
            0 <= i < entries.len() && entries[i].0@ == name && (forall|j: int|
                0 <= j < i ==> entries[j].0@ != name) ==> spec_symbol_entry(entries, name)
                == Some(entries[i].1),
        (forall|j: int| 0 <= j < entries.len() ==> entries[j].0@ != name) ==> spec_symbol_entry(
            entries,
            name,
        ) is None,
    decreases entries.len(),
{
    if entries.len() > 0 {
        lemma_symbol_entry_at(entries.drop_first(), name);
        assert(forall|i: int|
            1 <= i < entries.len() ==> entries.drop_first()[i - 1] == entries[i]);
    }
}

/// A unit of bare literal expression statements: the simplest well-formed
/// units, whose compilation is owed to succeed.
pub open spec fn spec_literal_unit(ast: Seq<Statement>) -> bool {
    forall|i: int|
        0 <= i < ast.len() ==> (#[trigger] ast[i] matches Statement::ExpressionStmt {
            expression,
        } && expression is Literal)
}

/// One compilation step leaves the chunk's identity intact: the name
/// stays, and the variable table only grows, keeping what it held as a
/// prefix.
pub open spec fn chunk_extends(a: ChunkV, b: ChunkV) -> bool {
    &&& b.name == a.name
    &&& a.vars.len() <= b.vars.len()
    &&& b.vars.take(a.vars.len() as int) =~= a.vars
}

/// One compilation step never unfiles a chunk: every qualified name
/// filed before stays filed.
pub open spec fn registry_extends(
    a: Seq<(Seq<char>, ChunkV)>,
    b: Seq<(Seq<char>, ChunkV)>,
) -> bool {
    forall|k: Seq<char>| spec_assoc(a, k) is Some ==> #[trigger] spec_assoc(b, k) is Some
}

/// Compile a unit of statements into the registry, under the given
/// qualified namespace, or under "main" when none is given. On success
/// the registry holds the unit's chunk — its code closed by the return
/// opcode — under that name, one chunk per declared function under
/// "<unit>/<function>", and every chunk filed before stays filed. A unit
/// of bare literal expressions is owed to compile.
pub fn compile(
    qualified_name: Option<&str>,
    ast: &Vec<Statement>,
    symbols: &SymbolTable,
    registry: &mut Registry,
) -> (r: Result<(), CompilerErrorAtLine>)
    ensures
        registry_extends(old(registry)@, final(registry)@),
        r is Ok ==> (spec_assoc(final(registry)@, spec_unit_name(qualified_name)) matches Some(
            c,
        ) && c.code.len() >= 1 && c.code.last() == OP_RETURN),
        r is Ok ==> forall|i: int|
            0 <= i < ast@.len() ==> (#[trigger] ast@[i] matches Statement::FunctionStmt {
                function,
            } ==> spec_assoc(
                final(registry)@,
                spec_unit_name(qualified_name) + seq!['/'] + function.name.lexeme@,
            ) is Some),
        (spec_literal_unit(ast@) && ast@.len() <= u16::MAX) ==> r is Ok,
        (match r {
            Ok(_) => spec_compile_unit(
                ast@,
                symbols.entries@,
                spec_unit_name(qualified_name),
                old(registry)@,
            ) == Ok::<Seq<(Seq<char>, ChunkV)>, CompilerErrorAtLineV>(final(registry)@),
            Err(e) => spec_compile_unit(
                ast@,
                symbols.entries@,
                spec_unit_name(qualified_name),
                old(registry)@,
            ) == Err::<Seq<(Seq<char>, ChunkV)>, CompilerErrorAtLineV>(e@),
        }),
{
    compile_in_namespace(ast, qualified_name, symbols, registry)
}

/// Compile one function declaration into its own chunk, with fresh slot
/// numbering seeded by the parameter list in order. A body of bare
/// literal expressions is owed to compile.
pub(crate) fn compile_function(
    function: &Function,
    symbols: &SymbolTable,
    registry: &mut Registry,
    namespace: &str,
) -> (r: Result<Chunk, CompilerErrorAtLine>)
    ensures
        registry_extends(old(registry)@, final(registry)@),
        r matches Ok(c) ==> ({
            &&& c@.name == function.name.lexeme@
            &&& c@.code.len() >= 1
            &&& c@.code.last() == OP_RETURN
            &&& c@.vars.len() >= function.parameters@.len()
            &&& forall|i: int|
                0 <= i < function.parameters@.len() ==> #[trigger] c@.vars[i] == (
                    function.parameters@[i].var_type,
                    function.parameters@[i].name.lexeme@,
                )
            &&& c.function_parameters@.len() == function.parameters@.len()
            &&& forall|i: int|
                0 <= i < function.parameters@.len() ==> (#[trigger] c.function_parameters@[
                    i
                ].var_type == function.parameters@[i].var_type
                    && c.function_parameters@[i].name.lexeme@
                    == function.parameters@[i].name.lexeme@)
        }),
        (spec_literal_unit(function.body@) && function.body@.len() <= u16::MAX) ==> r is Ok,
        (match r {
            Ok(c) => spec_compile_function(*function, symbols.entries@, old(registry)@) == Ok::<
                (ChunkV, Seq<(Seq<char>, ChunkV)>),
                CompilerErrorAtLineV,
            >((c@, final(registry)@)),
            Err(e) => spec_compile_function(*function, symbols.entries@, old(registry)@) == Err::<
                (ChunkV, Seq<(Seq<char>, ChunkV)>),
                CompilerErrorAtLineV,
            >(e@),
        }),
    decreases stmts_height_from(function.body@), 3int,
{
    let mut compiler = Compiler::new(function.name.lexeme.as_str());
    let np = function.parameters.len();
    let mut i: usize = 0;
    while i < np
        invariant
            np == function.parameters@.len(),
            i <= np,
            compiler.chunk@.name == function.name.lexeme@,
            compiler.chunk@.code.len() == 0,
            compiler.chunk@.constants.len() == 0,
            compiler.chunk@.lines.len() == 0,
            compiler.chunk@.object_defs.len() == 0,
            compiler.current_line == 0,
            compiler.chunk@.vars.len() == i,
            forall|j: int|
                0 <= j < i ==> #[trigger] compiler.chunk@.vars[j] == (
                    function.parameters@[j].var_type,
                    function.parameters@[j].name.lexeme@,
                ),
            compiler.vars@.len() == i,
            forall|j: int|
                0 <= j < i ==> (#[trigger] compiler.vars@[j].0@ == function.parameters@[
                    j
                ].name.lexeme@ && compiler.vars@[j].1 == j),
        decreases np - i,
    {
        let parameter = &function.parameters[i];
        let var_index = compiler.chunk.add_var(parameter.var_type, parameter.name.lexeme.as_str());
        compiler.vars.push((parameter.name.lexeme.clone(), var_index));
        i = i + 1;
    }
    proof {
        assert(spec_state(compiler, old(registry)@) =~~= (GenState {
            chunk: ChunkV {
                name: function.name.lexeme@,
                code: Seq::empty(),
                constants: Seq::empty(),
                lines: Seq::empty(),
                object_defs: Seq::empty(),
                vars: Seq::new(
                    function.parameters@.len(),
                    |j: int| (function.parameters@[j].var_type, function.parameters@[j].name.lexeme@),
                ),
            },
            vars: Seq::new(
                function.parameters@.len(),
                |j: int| (function.parameters@[j].name.lexeme@, j),
            ),
            line: 0,
            registry: old(registry)@,
        }));
    }
    let ghost seeded = compiler.chunk@;
    let mut chunk = match compiler.compile_vec(&function.body, symbols, registry, namespace) {
        Ok(c) => c,
        Err(e) => {
            return Err(e);
        }
    };
    proof {
        assert(chunk@.vars.take(np as int) =~= seeded.vars);
        assert(forall|j: int|
            0 <= j < np ==> #[trigger] chunk@.vars[j] == seeded.vars[j]);
    }
    let mut copied: Vec<Parameter> = Vec::new();
    let mut k: usize = 0;
    let np2 = function.parameters.len();
    while k < np2
        invariant
            np2 == function.parameters@.len(),
            k <= np2,
            copied@.len() == k,
            forall|j: int|
                0 <= j < k ==> (#[trigger] copied@[j].var_type == function.parameters@[
                    j
                ].var_type && copied@[j].name.lexeme@ == function.parameters@[j].name.lexeme@),
        decreases np2 - k,
    {
        copied.push(function.parameters[k].clone());
        k = k + 1;
    }
    let ghost shaped = chunk@;
    chunk.function_parameters = copied;
    proof {
        assert(chunk@ == shaped);
    }
    Ok(chunk)
}

/// Compile a unit under a namespace and file its chunk.
#[verifier::loop_isolation(false)]
pub(crate) fn compile_in_namespace(
    ast: &Vec<Statement>,
    namespace: Option<&str>,
    symbols: &SymbolTable,
    registry: &mut Registry,
) -> (r: Result<(), CompilerErrorAtLine>)
    ensures
        registry_extends(old(registry)@, final(registry)@),
        r is Ok ==> (spec_assoc(final(registry)@, spec_unit_name(namespace)) matches Some(c)
            && c.code.len() >= 1 && c.code.last() == OP_RETURN),
        r is Ok ==> forall|i: int|
            0 <= i < ast@.len() ==> (#[trigger] ast@[i] matches Statement::FunctionStmt {
                function,
            } ==> spec_assoc(
                final(registry)@,
                spec_unit_name(namespace) + seq!['/'] + function.name.lexeme@,
            ) is Some),
        (spec_literal_unit(ast@) && ast@.len() <= u16::MAX) ==> r is Ok,
        (match r {
            Ok(_) => spec_compile_unit(
                ast@,
                symbols.entries@,
                spec_unit_name(namespace),
                old(registry)@,
            ) == Ok::<Seq<(Seq<char>, ChunkV)>, CompilerErrorAtLineV>(final(registry)@),
            Err(e) => spec_compile_unit(
                ast@,
                symbols.entries@,
                spec_unit_name(namespace),
                old(registry)@,
            ) == Err::<Seq<(Seq<char>, ChunkV)>, CompilerErrorAtLineV>(e@),
        }),
{
    broadcast use
        crate::registry::lemma_assoc_put_same,
        crate::registry::lemma_assoc_put_extends,
    ;

    let name: &str = match namespace {
        Some(n) => n,
        None => "main",
    };
    proof {
        assert(name@ == spec_unit_name(namespace));
    }
    let mut compiler = Compiler::new(name);
    proof {
        assert(spec_state(compiler, old(registry)@) == spec_fresh(name@, old(registry)@));
    }
    let chunk = match compiler.compile_vec(ast, symbols, registry, name) {
        Ok(c) => c,
        Err(e) => {
            return Err(e);
        }
    };
    let ghost gdone = spec_state(compiler, registry@);
    registry.insert(name, chunk);
    proof {
        assert(registry@ == crate::registry::spec_assoc_put(gdone.registry, name@, gdone.chunk));
    }
    Ok(())
}

/// The state of one chunk's compilation: the chunk being filled, the
/// mapping from variable name to slot, and the source line of the
/// statement under compilation.
pub(crate) struct Compiler {
    pub(crate) chunk: Chunk,
    pub(crate) vars: Vec<(String, usize)>,
    pub(crate) current_line: usize,
}

impl Compiler {
    /// A fresh compiler for a chunk of the given name.
    pub(crate) fn new(name: &str) -> (r: Compiler)
        ensures
            r.chunk@.name == name@,
            r.chunk@.code.len() == 0,
            r.chunk@.constants.len() == 0,
            r.chunk@.lines.len() == 0,
            r.chunk@.object_defs.len() == 0,
            r.chunk@.vars.len() == 0,
            r.vars@.len() == 0,
            r.current_line == 0,
            forall|reg: Seq<(Seq<char>, ChunkV)>| #[trigger] spec_state(r, reg) == spec_fresh(
                name@,
                reg,
            ),
    {
        let r = Compiler { chunk: Chunk::new(name), vars: Vec::new(), current_line: 0 };
        proof {
            assert forall|reg: Seq<(Seq<char>, ChunkV)>| #[trigger] spec_state(r, reg)
                == spec_fresh(name@, reg) by {
                assert(spec_state(r, reg) =~~= spec_fresh(name@, reg));
            }
        }
        r
    }

    fn raise(&self, error: CompilerError) -> (r: CompilerErrorAtLine)
        ensures
            r.error == error,
            r.line == self.current_line,
    {
        CompilerErrorAtLine::raise(error, self.current_line)
    }

    #[verifier::loop_isolation(false)]
    fn find_var(&self, name: &str) -> (r: Option<usize>)
        ensures
            match r {
                Some(slot) => spec_find_slot(cvars_view(self.vars@), name@) == Some(slot as int),
                None => spec_find_slot(cvars_view(self.vars@), name@) is None,
            },
    {
        proof {
            lemma_find_slot_at(cvars_view(self.vars@), name@);
        }
        let n = self.vars.len();
        let mut i: usize = 0;
        while i < n
            invariant
                n == self.vars@.len(),
                i <= n,
                forall|j: int| 0 <= j < i ==> cvars_view(self.vars@)[j].0 != name@,
            decreases n - i,
        {
            if str_eq(self.vars[i].0.as_str(), name) {
                proof {
                    assert(cvars_view(self.vars@)[i as int] == (
                        self.vars@[i as int].0@,
                        self.vars@[i as int].1 as int,
                    ));
                }
                return Some(self.vars[i].1);
            }
            i = i + 1;
        }
        None
    }

    fn emit_word(&mut self, word: u16)
        ensures
            final(self).chunk@ == (crate::chunk::ChunkV {
                code: old(self).chunk@.code.push(word),
                lines: old(self).chunk@.lines.push(old(self).current_line as usize),
                ..old(self).chunk@
            }),
            final(self).vars == old(self).vars,
            final(self).current_line == old(self).current_line,
            forall|reg: Seq<(Seq<char>, ChunkV)>|
                #[trigger] spec_state(*final(self), reg) == spec_emit(
                    spec_state(*old(self), reg),
                    word,
                ),
    {
        let line = self.current_line;
        self.chunk.add(word, line);
        proof {
            assert forall|reg: Seq<(Seq<char>, ChunkV)>|
                #[trigger] spec_state(*self, reg) == spec_emit(
                    spec_state(*old(self), reg),
                    word,
                ) by {
                assert(spec_state(*self, reg) =~~= spec_emit(spec_state(*old(self), reg), word));
            }
        }
    }

    fn emit_words(&mut self, first: u16, second: u16)
        ensures
            final(self).chunk@.name == old(self).chunk@.name,
            final(self).chunk@.vars == old(self).chunk@.vars,
            final(self).chunk@.constants == old(self).chunk@.constants,
            final(self).chunk@.code == old(self).chunk@.code.push(first).push(second),
            final(self).vars == old(self).vars,
            final(self).current_line == old(self).current_line,
            forall|reg: Seq<(Seq<char>, ChunkV)>|
                #[trigger] spec_state(*final(self), reg) == spec_emit2(
                    spec_state(*old(self), reg),
                    first,
                    second,
                ),
    {
        self.emit_word(first);
        self.emit_word(second);
    }

    /// Intern a constant, failing where its index leaves the width of an
    /// instruction word.
    fn emit_constant(&mut self, value: Value) -> (r: Result<u16, CompilerErrorAtLine>)
        ensures
            final(self).chunk@.name == old(self).chunk@.name,
            final(self).chunk@.vars == old(self).chunk@.vars,
            final(self).vars == old(self).vars,
            final(self).chunk@.constants.len() == old(self).chunk@.constants.len() + 1,
            old(self).chunk@.constants.len() <= u16::MAX ==> r is Ok,
            forall|reg: Seq<(Seq<char>, ChunkV)>|
                #[trigger] spec_emit_const(spec_state(*old(self), reg), value@) == (match r {
                    Ok(_) => Ok(spec_state(*final(self), reg)),
                    Err(e) => Err(e@),
                }),
    {
        let ghost prior = *self;
        let index = self.chunk.add_constant(value);
        let ghost mid = *self;
        if index > u16::MAX as usize {
            let located = self.raise(CompilerError::Overflow);
            proof {
                assert forall|reg: Seq<(Seq<char>, ChunkV)>|
                    #[trigger] spec_emit_const(spec_state(prior, reg), value@) == Err::<
                        GenState,
                        CompilerErrorAtLineV,
                    >(located@) by {
                    assert(spec_add_const(spec_state(prior, reg), value@).1 == index as int);
                }
            }
            return Err(located);
        }
        self.emit_words(OP_CONSTANT, index as u16);
        proof {
            assert forall|reg: Seq<(Seq<char>, ChunkV)>|
                #[trigger] spec_emit_const(spec_state(prior, reg), value@) == Ok::<
                    GenState,
                    CompilerErrorAtLineV,
                >(spec_state(*self, reg)) by {
                let added = spec_add_const(spec_state(prior, reg), value@);
                assert(added.1 == index as int);
                assert(added.0 =~~= spec_state(mid, reg));
                assert(spec_state(*self, reg) == spec_emit2(
                    spec_state(mid, reg),
                    OP_CONSTANT,
                    index as u16,
                ));
            }
        }
        Ok(index as u16)
    }

    /// Find or intern a string constant, as an instruction word.
    fn name_constant(&mut self, name: &str) -> (r: Result<u16, CompilerErrorAtLine>)
        ensures
            final(self).chunk@.name == old(self).chunk@.name,
            final(self).chunk@.vars == old(self).chunk@.vars,
            final(self).vars == old(self).vars,
            forall|reg: Seq<(Seq<char>, ChunkV)>|
                #[trigger] spec_name_const(spec_state(*old(self), reg), name@) == (match r {
                    Ok(word) => Ok((spec_state(*final(self), reg), word)),
                    Err(e) => Err(e@),
                }),
    {
        let ghost prior = *self;
        proof {
            lemma_find_str_const_at(self.chunk@.constants, name@);
        }
        let index = match self.chunk.find_constant(name) {
            Some(i) => {
                proof {
                    assert(spec_find_str_const(prior.chunk@.constants, name@) == Some(i as int));
                }
                i
            }
            None => {
                proof {
                    assert(spec_find_str_const(prior.chunk@.constants, name@) is None);
                }
                self.chunk.add_constant(Value::String(name.to_owned()))
            }
        };
        if index > u16::MAX as usize {
            let located = self.raise(CompilerError::Overflow);
            proof {
                assert forall|reg: Seq<(Seq<char>, ChunkV)>|
                    #[trigger] spec_name_const(spec_state(prior, reg), name@) == Err::<
                        (GenState, u16),
                        CompilerErrorAtLineV,
                    >(located@) by {
                    match spec_find_str_const(prior.chunk@.constants, name@) {
                        Some(_) => {}
                        None => {
                            assert(spec_add_const(spec_state(prior, reg), ValueV::Str(name@)).1
                                == index as int);
                        }
                    }
                }
            }
            return Err(located);
        }
        proof {
            assert forall|reg: Seq<(Seq<char>, ChunkV)>|
                #[trigger] spec_name_const(spec_state(prior, reg), name@) == Ok::<
                    (GenState, u16),
                    CompilerErrorAtLineV,
                >((spec_state(*self, reg), index as u16)) by {
                match spec_find_str_const(prior.chunk@.constants, name@) {
                    Some(_) => {
                        assert(spec_state(*self, reg) =~~= spec_state(prior, reg));
                    }
                    None => {
                        let added = spec_add_const(spec_state(prior, reg), ValueV::Str(name@));
                        assert(added.1 == index as int);
                        assert(added.0 =~~= spec_state(*self, reg));
                    }
                }
            }
        }
        Ok(index as u16)
    }

    /// Compile a whole unit into this compiler's chunk, closing it with a
    /// return instruction.
    pub(crate) fn compile_vec(
        &mut self,
        ast: &Vec<Statement>,
        symbols: &SymbolTable,
        registry: &mut Registry,
        namespace: &str,
    ) -> (r: Result<Chunk, CompilerErrorAtLine>)
        ensures
            chunk_extends(old(self).chunk@, final(self).chunk@),
            registry_extends(old(registry)@, final(registry)@),
            r matches Ok(c) ==> ({
                &&& c@ == final(self).chunk@
                &&& c@.code.len() >= 1
                &&& c@.code.last() == OP_RETURN
                &&& forall|i: int|
                    0 <= i < ast@.len() ==> (#[trigger] ast@[i] matches Statement::FunctionStmt {
                        function,
                    } ==> spec_assoc(
                        final(registry)@,
                        old(self).chunk@.name + seq!['/'] + function.name.lexeme@,
                    ) is Some)
            }),
            (spec_literal_unit(ast@) && old(self).chunk@.constants.len() + ast@.len()
                <= u16::MAX) ==> r is Ok,
            (match r {
                Ok(_) => spec_compile_unit_body(
                    ast@,
                    symbols.entries@,
                    spec_state(*old(self), old(registry)@),
                ) == Ok::<GenState, CompilerErrorAtLineV>(
                    spec_state(*final(self), final(registry)@),
                ),
                Err(e) => spec_compile_unit_body(
                    ast@,
                    symbols.entries@,
                    spec_state(*old(self), old(registry)@),
                ) == Err::<GenState, CompilerErrorAtLineV>(e@),
            }),
        decreases stmts_height_from(ast@), 2int,
    {
        match self.compile_statements(ast, symbols, registry, namespace) {
            Ok(_) => (),
            Err(e) => {
                return Err(e);
            }
        }
        let ghost g1 = spec_state(*self, registry@);
        self.emit_word(OP_RETURN);
        proof {
            assert(spec_state(*self, registry@) == spec_emit(g1, OP_RETURN));
        }
        Ok(self.chunk.clone())
    }

    /// Compile a unit handed as a slice of statements.
    #[verifier::loop_isolation(false)]
    fn compile_statements(
        &mut self,
        ast: &Vec<Statement>,
        symbols: &SymbolTable,
        registry: &mut Registry,
        namespace: &str,
    ) -> (r: Result<(), CompilerErrorAtLine>)
        ensures
            chunk_extends(old(self).chunk@, final(self).chunk@),
            registry_extends(old(registry)@, final(registry)@),
            r is Ok ==> forall|i: int|
                0 <= i < ast@.len() ==> (#[trigger] ast@[i] matches Statement::FunctionStmt {
                    function,
                } ==> spec_assoc(
                    final(registry)@,
                    old(self).chunk@.name + seq!['/'] + function.name.lexeme@,
                ) is Some),
            (spec_literal_unit(ast@) && old(self).chunk@.constants.len() + ast@.len()
                <= u16::MAX) ==> r is Ok,
            (match r {
                Ok(_) => spec_compile_statements(
                    ast@,
                    0,
                    symbols.entries@,
                    spec_state(*old(self), old(registry)@),
                ) == Ok::<GenState, CompilerErrorAtLineV>(
                    spec_state(*final(self), final(registry)@),
                ),
                Err(e) => spec_compile_statements(
                    ast@,
                    0,
                    symbols.entries@,
                    spec_state(*old(self), old(registry)@),
                ) == Err::<GenState, CompilerErrorAtLineV>(e@),
            }),
        decreases stmts_height_from(ast@), 1int,
    {
        let ghost st = symbols.entries@;
        let ghost g0 = spec_state(*old(self), old(registry)@);
        let n = ast.len();
        let mut i: usize = 0;
        while i < n
            invariant
                n == ast@.len(),
                i <= n,
                chunk_extends(old(self).chunk@, self.chunk@),
                registry_extends(old(registry)@, registry@),
                forall|j: int|
                    0 <= j < i ==> (#[trigger] ast@[j] matches Statement::FunctionStmt {
                        function,
                    } ==> spec_assoc(
                        registry@,
                        old(self).chunk@.name + seq!['/'] + function.name.lexeme@,
                    ) is Some),
                (spec_literal_unit(ast@) && old(self).chunk@.constants.len() + n
                    <= u16::MAX) ==> self.chunk@.constants.len()
                    == old(self).chunk@.constants.len() + i,
                spec_compile_statements(ast@, 0, st, g0) == spec_compile_statements(
                    ast@,
                    i as int,
                    st,
                    spec_state(*self, registry@),
                ),
            decreases n - i,
        {
            proof {
                lemma_stmts_height_elem(ast@, i as int);
            }
            let ghost gcur = spec_state(*self, registry@);
            match self.compile_statement(&ast[i], symbols, registry, namespace) {
                Ok(_) => (),
                Err(e) => {
                    proof {
                        assert(spec_compile_statements(ast@, i as int, st, gcur) == Err::<
                            GenState,
                            CompilerErrorAtLineV,
                        >(e@));
                    }
                    return Err(e);
                }
            }
            proof {
                assert(spec_compile_statements(ast@, i as int, st, gcur)
                    == spec_compile_statements(ast@, i + 1, st, spec_state(*self, registry@)));
            }
            i = i + 1;
        }
        proof {
            assert(spec_compile_statements(ast@, n as int, st, spec_state(*self, registry@))
                == Ok::<GenState, CompilerErrorAtLineV>(spec_state(*self, registry@)));
        }
        Ok(())
    }

    /// Compile one statement.
    #[verifier::loop_isolation(false)]
    fn compile_statement(
        &mut self,
        statement: &Statement,
        symbols: &SymbolTable,
        registry: &mut Registry,
        namespace: &str,
    ) -> (r: Result<(), CompilerErrorAtLine>)
        ensures
            chunk_extends(old(self).chunk@, final(self).chunk@),
            registry_extends(old(registry)@, final(registry)@),
            r is Ok ==> (statement matches Statement::FunctionStmt { function } ==> spec_assoc(
                final(registry)@,
                old(self).chunk@.name + seq!['/'] + function.name.lexeme@,
            ) is Some),
            (statement matches Statement::ExpressionStmt { expression } && expression is Literal
                && old(self).chunk@.constants.len() <= u16::MAX) ==> (r is Ok
                && final(self).chunk@.constants.len() == old(self).chunk@.constants.len() + 1),
            (match r {
                Ok(_) => spec_compile_statement(
                    *statement,
                    symbols.entries@,
                    spec_state(*old(self), old(registry)@),
                ) == Ok::<GenState, CompilerErrorAtLineV>(
                    spec_state(*final(self), final(registry)@),
                ),
                Err(e) => spec_compile_statement(
                    *statement,
                    symbols.entries@,
                    spec_state(*old(self), old(registry)@),
                ) == Err::<GenState, CompilerErrorAtLineV>(e@),
            }),
        decreases stmt_height(*statement), 4int,
    {
        broadcast use
            crate::registry::lemma_assoc_put_same,
            crate::registry::lemma_assoc_put_extends,
        ;

        let ghost st = symbols.entries@;
        let ghost reg0 = old(registry)@;
        self.current_line = statement.line();
        let ghost g = spec_state(*self, reg0);
        proof {
            assert(g == (GenState {
                line: crate::ast_compiler::spec_stmt_line(*statement),
                ..spec_state(*old(self), reg0)
            }));
        }
        match statement {
            Statement::VarStmt { name, initializer, .. } => {
                proof {
                    lemma_symbol_entry_at(st, name.lexeme@);
                }
                let recorded = match symbols.find(name.lexeme.as_str()) {
                    Some(i) => {
                        proof {
                            assert(spec_symbol_entry(st, name.lexeme@) == Some(st[i as int].1));
                        }
                        match &symbols.entries[i].1 {
                            Symbol::Variable { var_type } => *var_type,
                            _ => {
                                return Err(
                                    self.raise(
                                        CompilerError::UndeclaredVariable(name.lexeme.clone()),
                                    ),
                                );
                            }
                        }
                    },
                    None => {
                        proof {
                            assert(spec_symbol_entry(st, name.lexeme@) is None);
                        }
                        return Err(
                            self.raise(CompilerError::UndeclaredVariable(name.lexeme.clone())),
                        );
                    }
                };
                let inferred = infer_type(initializer, symbols);
                match calculate_type(recorded, inferred) {
                    Ok(_) => (),
                    Err(e) => {
                        return Err(self.raise(e));
                    }
                }
                let slot = self.chunk.add_var(recorded, name.lexeme.as_str());
                self.vars.push((name.lexeme.clone(), slot));
                let ghost g1 = spec_state(*self, reg0);
                proof {
                    assert(g1 =~~= (GenState {
                        chunk: ChunkV {
                            vars: g.chunk.vars.push((recorded, name.lexeme@)),
                            ..g.chunk
                        },
                        vars: g.vars.push((name.lexeme@, g.chunk.vars.len() as int)),
                        ..g
                    }));
                }
                if slot > u16::MAX as usize {
                    return Err(self.raise(CompilerError::Overflow));
                }
                match self.compile_expression(namespace, initializer, symbols, registry) {
                    Ok(_) => (),
                    Err(e) => {
                        return Err(e);
                    }
                }
                let ghost g2 = spec_state(*self, reg0);
                self.emit_words(OP_ASSIGN, slot as u16);
                proof {
                    assert(spec_state(*self, reg0) == spec_emit2(g2, OP_ASSIGN, slot as u16));
                }
                Ok(())
            }
            Statement::PrintStmt { value } => {
                match self.compile_expression(namespace, value, symbols, registry) {
                    Ok(_) => (),
                    Err(e) => {
                        return Err(e);
                    }
                }
                let ghost g1 = spec_state(*self, reg0);
                self.emit_word(crate::vm::OP_PRINT);
                proof {
                    assert(spec_state(*self, reg0) == spec_emit(g1, crate::vm::OP_PRINT));
                }
                Ok(())
            }
            Statement::ExpressionStmt { expression } => {
                match self.compile_expression(namespace, expression, symbols, registry) {
                    Ok(_) => (),
                    Err(e) => {
                        return Err(e);
                    }
                }
                Ok(())
            }
            Statement::FunctionStmt { function } => {
                let compiled = match compile_function(function, symbols, registry, namespace) {
                    Ok(c) => c,
                    Err(e) => {
                        return Err(e);
                    }
                };
                let ghost r1 = registry@;
                let mut qualified = self.chunk.name.clone();
                qualified.append("/");
                qualified.append(function.name.lexeme.as_str());
                proof {
                    assert(qualified@ == self.chunk@.name + seq!['/'] + function.name.lexeme@)
                        by {
                        assert(qualified@ =~= self.chunk@.name + "/"@ + function.name.lexeme@);
                        assert(self.chunk@.name + "/"@ + function.name.lexeme@ =~= self.chunk@.name
                            + seq!['/'] + function.name.lexeme@) by {
                            reveal_strlit("/");
                        }
                    }
                }
                registry.insert(qualified.as_str(), compiled);
                proof {
                    assert(spec_state(*self, registry@) =~~= (GenState {
                        registry: crate::registry::spec_assoc_put(
                            r1,
                            g.chunk.name + seq!['/'] + function.name.lexeme@,
                            compiled@,
                        ),
                        ..g
                    }));
                }
                Ok(())
            }
            Statement::ObjectStmt { name, fields } => {
                let mut field_names: Vec<String> = Vec::new();
                let nf = fields.len();
                let mut i: usize = 0;
                while i < nf
                    invariant
                        nf == fields@.len(),
                        i <= nf,
                        field_names@.len() == i,
                        forall|j: int|
                            0 <= j < i ==> #[trigger] field_names@[j]@ == fields@[j].name.lexeme@,
                    decreases nf - i,
                {
                    field_names.push(fields[i].name.lexeme.clone());
                    i = i + 1;
                }
                proof {
                    assert(crate::chunk::names_view(field_names@) =~= Seq::new(
                        fields@.len(),
                        |j: int| fields@[j].name.lexeme@,
                    ));
                }
                self.chunk.add_object_def(name.lexeme.as_str(), field_names);
                proof {
                    assert(spec_state(*self, reg0) =~~= (GenState {
                        chunk: ChunkV {
                            object_defs: g.chunk.object_defs.push(
                                (
                                    name.lexeme@,
                                    Seq::new(fields@.len(), |j: int| fields@[j].name.lexeme@),
                                ),
                            ),
                            ..g.chunk
                        },
                        ..g
                    }));
                }
                Ok(())
            }
            Statement::GuardStatement { .. } => {
                // guard routing has no compiled form in this core
                Err(self.raise(CompilerError::Expected("a supported statement")))
            }
        }
    }

    /// Compile one expression, leaving exactly its value on the stack.
    #[verifier::loop_isolation(false)]
    fn compile_expression(
        &mut self,
        namespace: &str,
        expression: &Expression,
        symbols: &SymbolTable,
        registry: &mut Registry,
    ) -> (r: Result<(), CompilerErrorAtLine>)
        ensures
            final(self).chunk@.name == old(self).chunk@.name,
            final(self).chunk@.vars == old(self).chunk@.vars,
            final(self).vars == old(self).vars,
            *final(registry) == *old(registry),
            (expression is Literal && old(self).chunk@.constants.len() <= u16::MAX) ==> (r is Ok
                && final(self).chunk@.constants.len() == old(self).chunk@.constants.len() + 1),
            (match r {
                Ok(_) => spec_compile_expression(
                    *expression,
                    symbols.entries@,
                    spec_state(*old(self), old(registry)@),
                ) == Ok::<GenState, CompilerErrorAtLineV>(
                    spec_state(*final(self), old(registry)@),
                ),
                Err(e) => spec_compile_expression(
                    *expression,
                    symbols.entries@,
                    spec_state(*old(self), old(registry)@),
                ) == Err::<GenState, CompilerErrorAtLineV>(e@),
            }),
        decreases expr_height(*expression), 2int,
    {
        let ghost st = symbols.entries@;
        let ghost reg = old(registry)@;
        let ghost g0 = spec_state(*old(self), reg);
        match expression {
            Expression::FunctionCall { name, arguments, .. } => {
                let name_index = match self.name_constant(name.as_str()) {
                    Ok(i) => i,
                    Err(e) => {
                        proof {
                            assert(spec_name_const(g0, name@) == Err::<
                                (GenState, u16),
                                CompilerErrorAtLineV,
                            >(e@));
                        }
                        return Err(e);
                    }
                };
                let ghost g1 = spec_state(*self, reg);
                proof {
                    assert(spec_name_const(g0, name@) == Ok::<
                        (GenState, u16),
                        CompilerErrorAtLineV,
                    >((g1, name_index)));
                }
                if arguments.len() > u16::MAX as usize {
                    return Err(self.raise(CompilerError::TooManyParameters));
                }
                proof {
                    lemma_symbol_entry_at(st, name@);
                }
                let symbol_index = match symbols.find(name.as_str()) {
                    Some(i) => i,
                    None => {
                        proof {
                            assert(spec_symbol_entry(st, name@) is None);
                        }
                        return Err(
                            self.raise(CompilerError::FunctionNotFound(name.clone())),
                        );
                    }
                };
                proof {
                    assert(spec_symbol_entry(st, name@) == Some(st[symbol_index as int].1));
                }
                let has_params = match &symbols.entries[symbol_index].1 {
                    Symbol::Function { .. } => true,
                    Symbol::Object { .. } => true,
                    _ => false,
                };
                if !has_params {
                    return Err(self.raise(CompilerError::FunctionNotFound(name.clone())));
                }
                match self.compile_arguments_in_order(
                    namespace,
                    symbols,
                    registry,
                    arguments,
                    symbol_index,
                    name.as_str(),
                ) {
                    Ok(_) => (),
                    Err(e) => {
                        return Err(e);
                    }
                }
                let ghost g2 = spec_state(*self, reg);
                self.emit_words(OP_CALL, name_index);
                self.emit_word(arguments.len() as u16);
                proof {
                    assert(spec_state(*self, reg) == spec_emit(
                        spec_emit2(g2, OP_CALL, name_index),
                        arguments@.len() as u16,
                    ));
                }
                Ok(())
            }
            Expression::MethodCall { receiver, method_name, arguments, .. } => {
                match self.compile_expression(namespace, receiver, symbols, registry) {
                    Ok(_) => (),
                    Err(e) => {
                        return Err(e);
                    }
                }
                let ghost g1 = spec_state(*self, reg);
                let receiver_type = infer_type(receiver, symbols).display_name();
                let ghost rt = crate::tokens::spec_display_name(
                    crate::symbols::spec_infer(st, **receiver),
                );
                proof {
                    assert(receiver_type@ == rt);
                }
                let type_index = match self.name_constant(receiver_type) {
                    Ok(i) => i,
                    Err(e) => {
                        proof {
                            assert(spec_name_const(g1, rt) == Err::<
                                (GenState, u16),
                                CompilerErrorAtLineV,
                            >(e@));
                        }
                        return Err(e);
                    }
                };
                let ghost g2 = spec_state(*self, reg);
                proof {
                    assert(spec_name_const(g1, rt) == Ok::<
                        (GenState, u16),
                        CompilerErrorAtLineV,
                    >((g2, type_index)));
                }
                let name_index = match self.name_constant(method_name.as_str()) {
                    Ok(i) => i,
                    Err(e) => {
                        proof {
                            assert(spec_name_const(g2, method_name@) == Err::<
                                (GenState, u16),
                                CompilerErrorAtLineV,
                            >(e@));
                        }
                        return Err(e);
                    }
                };
                let ghost g3 = spec_state(*self, reg);
                proof {
                    assert(spec_name_const(g2, method_name@) == Ok::<
                        (GenState, u16),
                        CompilerErrorAtLineV,
                    >((g3, name_index)));
                    reveal_strlit(".");
                }
                let builtin = match lookup(receiver_type, method_name.as_str()) {
                    Some(b) => b,
                    None => {
                        let mut dotted = receiver_type.to_owned();
                        dotted.append(".");
                        dotted.append(method_name.as_str());
                        proof {
                            assert(dotted@ =~= rt + seq!['.'] + method_name@);
                        }
                        return Err(self.raise(CompilerError::FunctionNotFound(dotted)));
                    }
                };
                let arity = builtin_arity(builtin);
                if arity != arguments.len() {
                    let mut dotted = receiver_type.to_owned();
                    dotted.append(".");
                    dotted.append(method_name.as_str());
                    proof {
                        assert(dotted@ =~= rt + seq!['.'] + method_name@);
                    }
                    return Err(
                        self.raise(
                            CompilerError::IllegalArgumentsException(
                                dotted,
                                arity,
                                arguments.len(),
                            ),
                        ),
                    );
                }
                let na = arguments.len();
                if na > u16::MAX as usize {
                    return Err(self.raise(CompilerError::TooManyParameters));
                }
                let mut i: usize = 0;
                while i < na
                    invariant
                        i <= na,
                        na == arguments@.len(),
                        self.chunk@.name == old(self).chunk@.name,
                        self.chunk@.vars == old(self).chunk@.vars,
                        self.vars == old(self).vars,
                        *registry == *old(registry),
                        spec_compile_exprs(arguments@, 0, st, g3) == spec_compile_exprs(
                            arguments@,
                            i as int,
                            st,
                            spec_state(*self, reg),
                        ),
                    decreases na - i,
                {
                    proof {
                        lemma_exprs_height_elem(arguments@, i as int);
                    }
                    let ghost gcur = spec_state(*self, reg);
                    match self.compile_expression(namespace, &arguments[i], symbols, registry) {
                        Ok(_) => (),
                        Err(e) => {
                            proof {
                                assert(spec_compile_exprs(arguments@, i as int, st, gcur) == Err::<
                                    GenState,
                                    CompilerErrorAtLineV,
                                >(e@));
                            }
                            return Err(e);
                        }
                    }
                    proof {
                        assert(spec_compile_exprs(arguments@, i as int, st, gcur)
                            == spec_compile_exprs(arguments@, i + 1, st, spec_state(*self, reg)));
                    }
                    i = i + 1;
                }
                let ghost g4 = spec_state(*self, reg);
                proof {
                    assert(spec_compile_exprs(arguments@, na as int, st, g4) == Ok::<
                        GenState,
                        CompilerErrorAtLineV,
                    >(g4));
                }
                self.emit_word(OP_CALL_BUILTIN);
                self.emit_word(name_index);
                self.emit_word(type_index);
                self.emit_word(na as u16);
                proof {
                    assert(spec_state(*self, reg) == spec_emit(
                        spec_emit(
                            spec_emit2(g4, OP_CALL_BUILTIN, name_index),
                            type_index,
                        ),
                        na as u16,
                    ));
                }
                Ok(())
            }
            Expression::Variable { name, .. } => {
                match self.find_var(name.as_str()) {
                    Some(slot) => {
                        proof {
                            assert(spec_find_slot(g0.vars, name@) == Some(slot as int));
                        }
                        if slot > u16::MAX as usize {
                            return Err(self.raise(CompilerError::Overflow));
                        }
                        self.emit_words(OP_GET, slot as u16);
                        proof {
                            assert(spec_state(*self, reg) == spec_emit2(g0, OP_GET, slot as u16));
                        }
                        Ok(())
                    }
                    None => {
                        proof {
                            assert(spec_find_slot(g0.vars, name@) is None);
                        }
                        Err(self.raise(CompilerError::UndeclaredVariable(name.clone())))
                    }
                }
            }
            Expression::Literal { value, .. } => {
                let cloned = value.clone();
                proof {
                    assert(cloned@ == crate::value::value_view(*value));
                }
                match self.emit_constant(cloned) {
                    Ok(_) => Ok(()),
                    Err(e) => Err(e),
                }
            }
            Expression::List { values, .. } => {
                let n = values.len();
                if n > u16::MAX as usize {
                    return Err(self.raise(CompilerError::TooManyParameters));
                }
                let mut i: usize = 0;
                while i < n
                    invariant
                        i <= n,
                        n == values@.len(),
                        self.chunk@.name == old(self).chunk@.name,
                        self.chunk@.vars == old(self).chunk@.vars,
                        self.vars == old(self).vars,
                        *registry == *old(registry),
                        spec_compile_exprs(values@, 0, st, g0) == spec_compile_exprs(
                            values@,
                            i as int,
                            st,
                            spec_state(*self, reg),
                        ),
                    decreases n - i,
                {
                    proof {
                        lemma_exprs_height_elem(values@, i as int);
                    }
                    let ghost gcur = spec_state(*self, reg);
                    match self.compile_expression(namespace, &values[i], symbols, registry) {
                        Ok(_) => (),
                        Err(e) => {
                            proof {
                                assert(spec_compile_exprs(values@, i as int, st, gcur) == Err::<
                                    GenState,
                                    CompilerErrorAtLineV,
                                >(e@));
                            }
                            return Err(e);
                        }
                    }
                    proof {
                        assert(spec_compile_exprs(values@, i as int, st, gcur)
                            == spec_compile_exprs(values@, i + 1, st, spec_state(*self, reg)));
                    }
                    i = i + 1;
                }
                let ghost g1 = spec_state(*self, reg);
                proof {
                    assert(spec_compile_exprs(values@, n as int, st, g1) == Ok::<
                        GenState,
                        CompilerErrorAtLineV,
                    >(g1));
                }
                self.emit_words(OP_DEF_LIST, n as u16);
                proof {
                    assert(spec_state(*self, reg) == spec_emit2(g1, OP_DEF_LIST, n as u16));
                }
                Ok(())
            }
            Expression::Mapping { entries, .. } => {
                let n = entries.len();
                if n > u16::MAX as usize {
                    return Err(self.raise(CompilerError::TooManyParameters));
                }
                let mut i: usize = 0;
                while i < n
                    invariant
                        i <= n,
                        n == entries@.len(),
                        self.chunk@.name == old(self).chunk@.name,
                        self.chunk@.vars == old(self).chunk@.vars,
                        self.vars == old(self).vars,
                        *registry == *old(registry),
                        spec_compile_pairs(entries@, 0, st, g0) == spec_compile_pairs(
                            entries@,
                            i as int,
                            st,
                            spec_state(*self, reg),
                        ),
                    decreases n - i,
                {
                    proof {
                        lemma_pairs_height_elem(entries@, i as int);
                    }
                    let ghost gcur = spec_state(*self, reg);
                    match self.compile_expression(namespace, &entries[i].0, symbols, registry) {
                        Ok(_) => (),
                        Err(e) => {
                            proof {
                                assert(spec_compile_pairs(entries@, i as int, st, gcur) == Err::<
                                    GenState,
                                    CompilerErrorAtLineV,
                                >(e@));
                            }
                            return Err(e);
                        }
                    }
                    match self.compile_expression(namespace, &entries[i].1, symbols, registry) {
                        Ok(_) => (),
                        Err(e) => {
                            proof {
                                assert(spec_compile_pairs(entries@, i as int, st, gcur) == Err::<
                                    GenState,
                                    CompilerErrorAtLineV,
                                >(e@));
                            }
                            return Err(e);
                        }
                    }
                    proof {
                        assert(spec_compile_pairs(entries@, i as int, st, gcur)
                            == spec_compile_pairs(entries@, i + 1, st, spec_state(*self, reg)));
                    }
                    i = i + 1;
                }
                let ghost g1 = spec_state(*self, reg);
                proof {
                    assert(spec_compile_pairs(entries@, n as int, st, g1) == Ok::<
                        GenState,
                        CompilerErrorAtLineV,
                    >(g1));
                }
                self.emit_words(OP_DEF_MAP, n as u16);
                proof {
                    assert(spec_state(*self, reg) == spec_emit2(g1, OP_DEF_MAP, n as u16));
                }
                Ok(())
            }
            Expression::Grouping { expression: inner, .. } => {
                self.compile_expression(namespace, inner, symbols, registry)
            }
            Expression::Unary { operator, right, .. } => {
                match self.compile_expression(namespace, right, symbols, registry) {
                    Ok(_) => (),
                    Err(e) => {
                        return Err(e);
                    }
                }
                let ghost g1 = spec_state(*self, reg);
                match operator.token_type {
                    TokenType::Minus => {
                        self.emit_word(OP_NEGATE);
                        proof {
                            assert(spec_state(*self, reg) == spec_emit(g1, OP_NEGATE));
                        }
                        Ok(())
                    }
                    TokenType::Bang => {
                        self.emit_word(OP_NOT);
                        proof {
                            assert(spec_state(*self, reg) == spec_emit(g1, OP_NOT));
                        }
                        Ok(())
                    }
                    _ => Err(self.raise(CompilerError::UnexpectedType(operator.token_type))),
                }
            }
            Expression::Binary { left, operator, right, .. } => {
                match self.compile_expression(namespace, left, symbols, registry) {
                    Ok(_) => (),
                    Err(e) => {
                        return Err(e);
                    }
                }
                match self.compile_expression(namespace, right, symbols, registry) {
                    Ok(_) => (),
                    Err(e) => {
                        return Err(e);
                    }
                }
                let ghost g2 = spec_state(*self, reg);
                let op: Option<u16> = match operator.token_type {
                    TokenType::BitAnd => Some(OP_BITAND),
                    TokenType::BitXor => Some(OP_BITXOR),
                    TokenType::EqualEqual => Some(OP_EQUAL),
                    TokenType::BangEqual => Some(crate::vm::OP_NOT_EQUAL),
                    TokenType::Greater => Some(OP_GREATER),
                    TokenType::GreaterEqual => Some(OP_GREATER_EQUAL),
                    TokenType::GreaterGreater => Some(OP_SHR),
                    TokenType::Less => Some(OP_LESS),
                    TokenType::LessEqual => Some(OP_LESS_EQUAL),
                    TokenType::LessLess => Some(OP_SHL),
                    TokenType::LogicalAnd => Some(OP_AND),
                    TokenType::LogicalOr => Some(OP_OR),
                    TokenType::Minus => Some(OP_SUBTRACT),
                    TokenType::Pipe => Some(OP_BITOR),
                    TokenType::Plus => Some(OP_ADD),
                    TokenType::Slash => Some(OP_DIVIDE),
                    TokenType::Star => Some(OP_MULTIPLY),
                    _ => None,
                };
                proof {
                    assert(op == spec_binary_opcode(operator.token_type));
                }
                match op {
                    Some(w) => {
                        self.emit_word(w);
                        proof {
                            assert(spec_state(*self, reg) == spec_emit(g2, w));
                        }
                        Ok(())
                    }
                    None => Err(
                        self.raise(CompilerError::UnexpectedType(operator.token_type)),
                    ),
                }
            }
            Expression::NamedParameter { value, .. } => {
                self.compile_expression(namespace, value, symbols, registry)
            }
            Expression::ListGet { list, index, .. } => {
                match self.compile_expression(namespace, list, symbols, registry) {
                    Ok(_) => (),
                    Err(e) => {
                        return Err(e);
                    }
                }
                match self.compile_expression(namespace, index, symbols, registry) {
                    Ok(_) => (),
                    Err(e) => {
                        return Err(e);
                    }
                }
                let ghost g2 = spec_state(*self, reg);
                self.emit_word(OP_LIST_GET);
                proof {
                    assert(spec_state(*self, reg) == spec_emit(g2, OP_LIST_GET));
                }
                Ok(())
            }
            Expression::Stop { .. } => Ok(()),
        }
    }

    /// Compile a call's arguments in parameter-declaration order: a named
    /// argument goes where its parameter was declared, the rest fill the
    /// remaining positions in the order written. Each argument's inferred
    /// type must reconcile with its parameter's declared type.
    #[verifier::loop_isolation(false)]
    fn compile_arguments_in_order(
        &mut self,
        namespace: &str,
        symbols: &SymbolTable,
        registry: &mut Registry,
        arguments: &Vec<Expression>,
        symbol_index: usize,
        callee: &str,
    ) -> (r: Result<(), CompilerErrorAtLine>)
        requires
            symbol_index < symbols.entries@.len(),
        ensures
            final(self).chunk@.name == old(self).chunk@.name,
            final(self).chunk@.vars == old(self).chunk@.vars,
            final(self).vars == old(self).vars,
            *final(registry) == *old(registry),
            (match r {
                Ok(_) => spec_compile_arguments(
                    arguments@,
                    symbols.entries@[symbol_index as int].1,
                    callee@,
                    symbols.entries@,
                    spec_state(*old(self), old(registry)@),
                ) == Ok::<GenState, CompilerErrorAtLineV>(
                    spec_state(*final(self), old(registry)@),
                ),
                Err(e) => spec_compile_arguments(
                    arguments@,
                    symbols.entries@[symbol_index as int].1,
                    callee@,
                    symbols.entries@,
                    spec_state(*old(self), old(registry)@),
                ) == Err::<GenState, CompilerErrorAtLineV>(e@),
            }),
        decreases exprs_height(arguments@), 1int,
    {
        let ghost st = symbols.entries@;
        let ghost reg = old(registry)@;
        let ghost g0 = spec_state(*old(self), reg);
        let ghost sym = st[symbol_index as int].1;
        let n_params = match &symbols.entries[symbol_index].1 {
            Symbol::Function { parameters, .. } => parameters.len(),
            Symbol::Object { fields } => fields.len(),
            _ => 0,
        };
        if n_params != arguments.len() {
            return Err(
                self.raise(
                    CompilerError::IllegalArgumentsException(
                        callee.to_owned(),
                        n_params,
                        arguments.len(),
                    ),
                ),
            );
        }
        let mut used: Vec<bool> = Vec::new();
        let na = arguments.len();
        let mut i: usize = 0;
        while i < na
            invariant
                i <= na,
                na == arguments@.len(),
                used@.len() == i,
                forall|j: int| 0 <= j < i ==> !used@[j],
            decreases na - i,
        {
            used.push(false);
            i = i + 1;
        }
        proof {
            assert(used@ =~= Seq::new(arguments@.len(), |k: int| false));
        }
        let mut p: usize = 0;
        while p < na
            invariant
                p <= na,
                na == arguments@.len(),
                used@.len() == na,
                self.chunk@.name == old(self).chunk@.name,
                self.chunk@.vars == old(self).chunk@.vars,
                self.vars == old(self).vars,
                *registry == *old(registry),
                spec_compile_arguments_from(
                    arguments@,
                    sym,
                    callee@,
                    st,
                    Seq::new(arguments@.len(), |k: int| false),
                    0,
                    g0,
                ) == spec_compile_arguments_from(
                    arguments@,
                    sym,
                    callee@,
                    st,
                    used@,
                    p as int,
                    spec_state(*self, reg),
                ),
            decreases na - p,
        {
            let ghost used_in = used@;
            let ghost gcur = spec_state(*self, reg);
            let (param_name, param_type) = match &symbols.entries[symbol_index].1 {
                Symbol::Function { parameters, .. } => {
                    if p < parameters.len() {
                        (parameters[p].name.lexeme.clone(), parameters[p].var_type)
                    } else {
                        return Err(self.raise(CompilerError::TooManyParameters));
                    }
                }
                Symbol::Object { fields } => {
                    if p < fields.len() {
                        (fields[p].name.lexeme.clone(), fields[p].var_type)
                    } else {
                        return Err(self.raise(CompilerError::TooManyParameters));
                    }
                }
                _ => {
                    return Err(self.raise(CompilerError::TooManyParameters));
                }
            };
            proof {
                assert(spec_symbol_params(sym) matches Some(ps) && (p as int) < ps.len()
                    && param_name@ == ps[p as int].name.lexeme@ && param_type == ps[p
                    as int].var_type);
            }
            // the named argument for this parameter, if one was written;
            // the last such argument wins
            let mut chosen: Option<usize> = None;
            let mut k: usize = 0;
            while k < na
                invariant
                    k <= na,
                    na == arguments@.len(),
                    (match chosen {
                        Some(c) => c < na && spec_last_named(
                            arguments@.take(k as int),
                            param_name@,
                        ) == Some(c as int),
                        None => spec_last_named(arguments@.take(k as int), param_name@) is None,
                    }),
                decreases na - k,
            {
                match &arguments[k] {
                    Expression::NamedParameter { name, .. } => {
                        if str_eq(name.lexeme.as_str(), param_name.as_str()) {
                            chosen = Some(k);
                        }
                    }
                    _ => (),
                }
                proof {
                    assert(arguments@.take(k + 1).drop_last() =~= arguments@.take(k as int));
                    assert(arguments@.take(k + 1).last() == arguments@[k as int]);
                }
                k = k + 1;
            }
            proof {
                assert(arguments@.take(na as int) =~= arguments@);
            }
            if chosen.is_none() {
                // the first positional argument not yet taken
                let mut k: usize = 0;
                while k < na
                    invariant
                        k <= na,
                        na == arguments@.len(),
                        used@.len() == na,
                        used@ == used_in,
                        (match chosen {
                            Some(c) => c < na && spec_first_free(arguments@, used_in, 0) == Some(
                                c as int,
                            ),
                            None => spec_first_free(arguments@, used_in, 0) == spec_first_free(
                                arguments@,
                                used_in,
                                k as int,
                            ),
                        }),
                    decreases na - k,
                {
                    if chosen.is_none() && !used[k] {
                        match &arguments[k] {
                            Expression::NamedParameter { .. } => (),
                            _ => {
                                chosen = Some(k);
                            }
                        }
                    }
                    k = k + 1;
                }
            }
            proof {
                assert((match chosen {
                    Some(c) => c < na && (match spec_last_named(arguments@, param_name@) {
                        Some(kk) => Some(kk),
                        None => spec_first_free(arguments@, used_in, 0),
                    }) == Some(c as int),
                    None => (match spec_last_named(arguments@, param_name@) {
                        Some(kk) => Some(kk),
                        None => spec_first_free(arguments@, used_in, 0),
                    }) is None,
                }));
            }
            let index = match chosen {
                Some(c) => c,
                None => {
                    return Err(
                        self.raise(
                            CompilerError::IllegalArgumentsException(
                                callee.to_owned(),
                                n_params,
                                arguments.len(),
                            ),
                        ),
                    );
                }
            };
            used.set(index, true);
            let value_type = infer_type(&arguments[index], symbols);
            // an argument never stringifies into a string parameter; numeric
            // literals may still narrow to a numeric parameter type
            let accepted = if param_type == value_type {
                true
            } else if param_type == TokenType::StringType {
                false
            } else {
                match calculate_type(param_type, value_type) {
                    Ok(_) => true,
                    Err(_) => false,
                }
            };
            proof {
                assert(accepted == spec_argument_accepted(
                    param_type,
                    crate::symbols::spec_infer(st, arguments@[index as int]),
                ));
            }
            if !accepted {
                return Err(
                    self.raise(CompilerError::IncompatibleTypes(param_type, value_type)),
                );
            }
            proof {
                lemma_exprs_height_elem(arguments@, index as int);
            }
            match self.compile_expression(namespace, &arguments[index], symbols, registry) {
                Ok(_) => (),
                Err(e) => {
                    proof {
                        assert(spec_compile_arguments_from(
                            arguments@,
                            sym,
                            callee@,
                            st,
                            used_in,
                            p as int,
                            gcur,
                        ) == Err::<GenState, CompilerErrorAtLineV>(e@));
                    }
                    return Err(e);
                }
            }
            proof {
                assert(used@ =~= used_in.update(index as int, true));
                assert(spec_compile_arguments_from(
                    arguments@,
                    sym,
                    callee@,
                    st,
                    used_in,
                    p as int,
                    gcur,
                ) == spec_compile_arguments_from(
                    arguments@,
                    sym,
                    callee@,
                    st,
                    used@,
                    p + 1,
                    spec_state(*self, reg),
                ));
            }
            p = p + 1;
        }
        proof {
            assert(spec_compile_arguments_from(
                arguments@,
                sym,
                callee@,
                st,
                used@,
                na as int,
                spec_state(*self, reg),
            ) == Ok::<GenState, CompilerErrorAtLineV>(spec_state(*self, reg)));
        }
        Ok(())
    }
}

} // verus!
