//! The syntax tree and the indentation-sensitive recursive-descent parser
//! that builds it from a token stream. The parser is total: it consumes
//! tokens monotonically, rejects malformed input with a located error, and
//! never reads out of bounds.

use vstd::prelude::*;

verus! {

use crate::errors::{CompilerError, CompilerErrorAtLine};
use crate::literals::{parse_float_chars, parse_hex_range, parse_u64_chars};
use crate::text::chars_of;
use crate::tokens::{Token, TokenType};
use crate::value::Value;

/// One function declaration: name, parameters, return type and body.
#[derive(Debug)]
pub struct Function {
    pub name: Token,
    pub parameters: Vec<Parameter>,
    pub return_type: TokenType,
    pub body: Vec<Statement>,
}

/// One named, typed parameter or object field.
#[derive(Debug)]
pub struct Parameter {
    pub name: Token,
    pub var_type: TokenType,
}

impl Clone for Parameter {
    /// A copy with the same name and declared type.
    fn clone(&self) -> (r: Parameter)
        ensures
            r.name.token_type == self.name.token_type,
            r.name.lexeme@ == self.name.lexeme@,
            r.name.line == self.name.line,
            r.var_type == self.var_type,
    {
        Parameter { name: self.name.clone(), var_type: self.var_type }
    }
}

/// One statement of the language.
#[derive(Debug)]
pub enum Statement {
    ExpressionStmt { expression: Expression },
    VarStmt { name: Token, var_type: TokenType, initializer: Expression },
    PrintStmt { value: Expression },
    FunctionStmt { function: Function },
    ObjectStmt { name: Token, fields: Vec<Parameter> },
    GuardStatement { if_expr: Expression, then_expr: Expression },
}

/// The source line a statement begins on.
pub open spec fn spec_stmt_line(s: Statement) -> usize {
    match s {
        Statement::ExpressionStmt { expression } => spec_expr_line(expression),
        Statement::VarStmt { name, .. } => name.line,
        Statement::PrintStmt { value } => spec_expr_line(value),
        Statement::FunctionStmt { function } => function.name.line,
        Statement::ObjectStmt { name, .. } => name.line,
        Statement::GuardStatement { if_expr, .. } => spec_expr_line(if_expr),
    }
}

impl Statement {
    /// The source line a statement begins on.
    pub fn line(&self) -> (r: usize)
        ensures
            r == spec_stmt_line(*self),
    {
        match self {
            Statement::ExpressionStmt { expression } => expression.line(),
            Statement::VarStmt { name, .. } => name.line,
            Statement::PrintStmt { value } => value.line(),
            Statement::FunctionStmt { function } => function.name.line,
            Statement::ObjectStmt { name, .. } => name.line,
            Statement::GuardStatement { if_expr, .. } => if_expr.line(),
        }
    }
}

/// One expression of the language.
#[derive(Debug)]
pub enum Expression {
    Binary { line: usize, left: Box<Expression>, operator: Token, right: Box<Expression> },
    Unary { line: usize, operator: Token, right: Box<Expression> },
    Grouping { line: usize, expression: Box<Expression> },
    Literal { line: usize, literaltype: TokenType, value: Value },
    List { line: usize, literaltype: TokenType, values: Vec<Expression> },
    Mapping { line: usize, literaltype: TokenType, entries: Vec<(Expression, Expression)> },
    Variable { line: usize, name: String, var_type: TokenType },
    FunctionCall { line: usize, name: String, arguments: Vec<Expression> },
    MethodCall {
        line: usize,
        receiver: Box<Expression>,
        method_name: String,
        arguments: Vec<Expression>,
    },
    ListGet { line: usize, list: Box<Expression>, index: Box<Expression> },
    NamedParameter { line: usize, name: Token, value: Box<Expression> },
    Stop { line: usize },
}

/// The source line an expression begins on.
pub open spec fn spec_expr_line(e: Expression) -> usize {
    match e {
        Expression::Binary { line, .. } => line,
        Expression::Unary { line, .. } => line,
        Expression::Grouping { line, .. } => line,
        Expression::Literal { line, .. } => line,
        Expression::List { line, .. } => line,
        Expression::Mapping { line, .. } => line,
        Expression::Variable { line, .. } => line,
        Expression::FunctionCall { line, .. } => line,
        Expression::MethodCall { line, .. } => line,
        Expression::ListGet { line, .. } => line,
        Expression::NamedParameter { line, .. } => line,
        Expression::Stop { line } => line,
    }
}

impl Expression {
    /// The source line an expression begins on.
    pub fn line(&self) -> (r: usize)
        ensures
            r == spec_expr_line(*self),
    {
        match self {
            Expression::Binary { line, .. } => *line,
            Expression::Unary { line, .. } => *line,
            Expression::Grouping { line, .. } => *line,
            Expression::Literal { line, .. } => *line,
            Expression::List { line, .. } => *line,
            Expression::Mapping { line, .. } => *line,
            Expression::Variable { line, .. } => *line,
            Expression::FunctionCall { line, .. } => *line,
            Expression::MethodCall { line, .. } => *line,
            Expression::ListGet { line, .. } => *line,
            Expression::NamedParameter { line, .. } => *line,
            Expression::Stop { line } => *line,
        }
    }
}

/// The structural size of an expression, for termination measures.
pub open spec fn expr_height(e: Expression) -> nat
    decreases e,
{
    match e {
        Expression::Binary { left, right, .. } => 1 + expr_height(*left) + expr_height(*right),
        Expression::Unary { right, .. } => 1 + expr_height(*right),
        Expression::Grouping { expression, .. } => 1 + expr_height(*expression),
        Expression::Literal { .. } => 1,
        Expression::List { values, .. } => 1 + exprs_height(values@),
        Expression::Mapping { entries, .. } => 1 + pairs_height(entries@),
        Expression::Variable { .. } => 1,
        Expression::FunctionCall { arguments, .. } => 1 + exprs_height(arguments@),
        Expression::MethodCall { receiver, arguments, .. } => 1 + expr_height(*receiver)
            + exprs_height(arguments@),
        Expression::ListGet { list, index, .. } => 1 + expr_height(*list) + expr_height(*index),
        Expression::NamedParameter { value, .. } => 1 + expr_height(*value),
        Expression::Stop { .. } => 1,
    }
}

/// The combined size of a sequence of expressions; always above the size
/// of each element.
pub open spec fn exprs_height(s: Seq<Expression>) -> nat
    decreases s,
{
    if s.len() == 0 {
        1
    } else {
        exprs_height(s.drop_last()) + expr_height(s.last())
    }
}

/// The combined size of a sequence of expression pairs.
pub open spec fn pairs_height(s: Seq<(Expression, Expression)>) -> nat
    decreases s,
{
    if s.len() == 0 {
        1
    } else {
        pairs_height(s.drop_last()) + expr_height(s.last().0) + expr_height(s.last().1)
    }
}

/// Every element weighs less than the whole sequence.
pub broadcast proof fn lemma_exprs_height_elem(s: Seq<Expression>, i: int)
    requires
        0 <= i < s.len(),
    ensures
        #[trigger] expr_height(s[i]) < exprs_height(s),
    decreases s.len(),
{
    lemma_exprs_height_pos(s.drop_last());
    if i == s.len() - 1 {
    } else {
        lemma_exprs_height_elem(s.drop_last(), i);
        assert(s.drop_last()[i] == s[i]);
    }
}

pub proof fn lemma_exprs_height_pos(s: Seq<Expression>)
    ensures
        exprs_height(s) >= 1,
    decreases s.len(),
{
    if s.len() > 0 {
        lemma_exprs_height_pos(s.drop_last());
    }
}

/// Every pair's components weigh less than the whole sequence.
pub broadcast proof fn lemma_pairs_height_elem(s: Seq<(Expression, Expression)>, i: int)
    requires
        0 <= i < s.len(),
    ensures
        #[trigger] expr_height(s[i].0) < pairs_height(s),
        expr_height(s[i].1) < pairs_height(s),
    decreases s.len(),
{
    lemma_pairs_height_pos(s.drop_last());
    if i == s.len() - 1 {
    } else {
        lemma_pairs_height_elem(s.drop_last(), i);
        assert(s.drop_last()[i] == s[i]);
    }
}

pub proof fn lemma_pairs_height_pos(s: Seq<(Expression, Expression)>)
    ensures
        pairs_height(s) >= 1,
    decreases s.len(),
{
    if s.len() > 0 {
        lemma_pairs_height_pos(s.drop_last());
    }
}

/// The structural size of a statement.
pub open spec fn stmt_height(s: Statement) -> nat
    decreases s,
{
    match s {
        Statement::ExpressionStmt { expression } => 1 + expr_height(expression),
        Statement::VarStmt { initializer, .. } => 1 + expr_height(initializer),
        Statement::PrintStmt { value } => 1 + expr_height(value),
        Statement::FunctionStmt { function } => 1 + stmts_height_of(function),
        Statement::ObjectStmt { .. } => 1,
        Statement::GuardStatement { if_expr, then_expr } => 1 + expr_height(if_expr)
            + expr_height(then_expr),
    }
}

/// The combined size of a function's body.
pub open spec fn stmts_height_of(f: Function) -> nat
    decreases f,
{
    stmts_height_from(f.body@)
}

/// The combined size of a sequence of statements; always above the size
/// of each element.
pub open spec fn stmts_height_from(s: Seq<Statement>) -> nat
    decreases s,
{
    if s.len() == 0 {
        1
    } else {
        stmts_height_from(s.drop_last()) + stmt_height(s.last())
    }
}

/// Every statement weighs less than its sequence.
pub broadcast proof fn lemma_stmts_height_elem(s: Seq<Statement>, i: int)
    requires
        0 <= i < s.len(),
    ensures
        #[trigger] stmt_height(s[i]) < stmts_height_from(s),
    decreases s.len(),
{
    lemma_stmts_height_pos(s.drop_last());
    if i == s.len() - 1 {
    } else {
        lemma_stmts_height_elem(s.drop_last(), i);
        assert(s.drop_last()[i] == s[i]);
    }
}

pub proof fn lemma_stmts_height_pos(s: Seq<Statement>)
    ensures
        stmts_height_from(s) >= 1,
    decreases s.len(),
{
    if s.len() > 0 {
        lemma_stmts_height_pos(s.drop_last());
    }
}

/// Parse a token stream into statements.
pub fn compile(path: Option<&str>, tokens: Vec<Token>) -> (r: Result<
    Vec<Statement>,
    CompilerErrorAtLine,
>) {
    let _ = path;
    let mut parser = AstCompiler { tokens, current: 0, indent: vec![0usize] };
    parser.compile()
}

struct AstCompiler {
    tokens: Vec<Token>,
    current: usize,
    indent: Vec<usize>,
}

impl AstCompiler {
    spec fn wf(&self) -> bool {
        self.current <= self.tokens@.len()
    }

    spec fn same_tokens(&self, other: &AstCompiler) -> bool {
        self.tokens == other.tokens
    }

    fn peek_type(&self) -> (r: TokenType)
        requires
            self.wf(),
        ensures
            r == (if self.current < self.tokens@.len() {
                self.tokens@[self.current as int].token_type
            } else {
                TokenType::Eof
            }),
    {
        if self.current < self.tokens.len() {
            self.tokens[self.current].token_type
        } else {
            TokenType::Eof
        }
    }

    fn peek(&self) -> (r: Token)
        requires
            self.wf(),
    {
        if self.current < self.tokens.len() {
            self.tokens[self.current].clone()
        } else {
            Token { token_type: TokenType::Eof, lexeme: String::new(), line: 1 }
        }
    }

    fn previous(&self) -> (r: Token)
        requires
            self.wf(),
    {
        if 0 < self.current {
            self.tokens[self.current - 1].clone()
        } else {
            Token { token_type: TokenType::Eof, lexeme: String::new(), line: 1 }
        }
    }

    fn current_line(&self) -> (r: usize)
        requires
            self.wf(),
    {
        self.peek().line
    }

    fn raise(&self, error: CompilerError) -> (r: CompilerErrorAtLine)
        requires
            self.wf(),
    {
        CompilerErrorAtLine::raise(error, self.current_line())
    }

    fn is_at_end(&self) -> (r: bool)
        requires
            self.wf(),
        ensures
            r == (self.current == self.tokens@.len()
                || self.tokens@[self.current as int].token_type == TokenType::Eof),
    {
        match self.peek_type() {
            TokenType::Eof => true,
            _ => false,
        }
    }

    fn advance(&mut self)
        requires
            old(self).wf(),
        ensures
            final(self).wf(),
            final(self).same_tokens(old(self)),
            final(self).indent == old(self).indent,
            old(self).current <= final(self).current <= old(self).current + 1,
            (old(self).current < old(self).tokens@.len() && old(self).tokens@[old(
                self,
            ).current as int].token_type != TokenType::Eof) ==> final(self).current == old(
                self,
            ).current + 1,
    {
        if !self.is_at_end() {
            if self.current < self.tokens.len() {
                self.current = self.current + 1;
            }
        }
    }

    /// Consume and return the token under the cursor.
    fn advance_token(&mut self) -> (r: Token)
        requires
            old(self).wf(),
        ensures
            final(self).wf(),
            final(self).same_tokens(old(self)),
            final(self).indent == old(self).indent,
            old(self).current <= final(self).current <= old(self).current + 1,
    {
        let t = self.peek();
        self.advance();
        t
    }

    fn check(&self, token_type: TokenType) -> (r: bool)
        requires
            self.wf(),
        ensures
            r ==> self.current < self.tokens@.len() && self.tokens@[self.current as int].token_type
                == token_type && token_type != TokenType::Eof,
    {
        if self.is_at_end() {
            false
        } else {
            if self.current < self.tokens.len() {
                self.tokens[self.current].token_type == token_type
            } else {
                false
            }
        }
    }

    fn match_token(&mut self, token_type: TokenType) -> (r: bool)
        requires
            old(self).wf(),
        ensures
            final(self).wf(),
            final(self).same_tokens(old(self)),
            final(self).indent == old(self).indent,
            old(self).current <= final(self).current <= old(self).current + 1,
            r ==> final(self).current == old(self).current + 1,
            !r ==> final(self).current == old(self).current,
    {
        if self.check(token_type) {
            self.advance();
            true
        } else {
            false
        }
    }

    fn match_either(&mut self, a: TokenType, b: TokenType) -> (r: bool)
        requires
            old(self).wf(),
        ensures
            final(self).wf(),
            final(self).same_tokens(old(self)),
            final(self).indent == old(self).indent,
            old(self).current <= final(self).current <= old(self).current + 1,
            r ==> final(self).current == old(self).current + 1,
    {
        if self.match_token(a) {
            true
        } else {
            self.match_token(b)
        }
    }

    fn consume(&mut self, token_type: TokenType, message: CompilerError) -> (r: Result<
        Token,
        CompilerErrorAtLine,
    >)
        requires
            old(self).wf(),
        ensures
            final(self).wf(),
            final(self).same_tokens(old(self)),
            final(self).indent == old(self).indent,
            old(self).current <= final(self).current <= old(self).current + 1,
            r is Ok ==> final(self).current == old(self).current + 1,
    {
        if self.check(token_type) {
            self.advance();
            Ok(self.previous())
        } else {
            Err(self.raise(message))
        }
    }
}

impl AstCompiler {
    fn compile(&mut self) -> (r: Result<Vec<Statement>, CompilerErrorAtLine>)
        requires
            old(self).wf(),
        ensures
            final(self).wf(),
            final(self).same_tokens(old(self)),
            old(self).current <= final(self).current,
        decreases old(self).tokens@.len() - old(self).current, 20int,
    {
        let mut statements: Vec<Statement> = Vec::new();
        loop
            invariant
                self.wf(),
                self.same_tokens(old(self)),
                old(self).current <= self.current,
            decreases self.tokens@.len() - self.current,
        {
            if self.is_at_end() {
                break;
            }
            let before = self.current;
            match self.indent() {
                Err(e) => {
                    return Err(e);
                }
                Ok(None) => {
                    break;
                }
                Ok(Some(statement)) => {
                    statements.push(statement);
                }
            }
            // a statement that consumed nothing would repeat forever
            if self.current == before {
                return Err(self.raise(CompilerError::Failure));
            }
        }
        Ok(statements)
    }

    fn indent(&mut self) -> (r: Result<Option<Statement>, CompilerErrorAtLine>)
        requires
            old(self).wf(),
        ensures
            final(self).wf(),
            final(self).same_tokens(old(self)),
            old(self).current <= final(self).current,
        decreases old(self).tokens@.len() - old(self).current, 19int,
    {
        let expected_indent: usize = if self.indent.len() > 0 {
            self.indent[self.indent.len() - 1]
        } else {
            0
        };
        // skip empty lines
        loop
            invariant
                self.wf(),
                self.same_tokens(old(self)),
                old(self).current <= self.current,
            decreases self.tokens@.len() - self.current,
        {
            if !self.match_token(TokenType::Eol) {
                break;
            }
        }
        if self.is_at_end() {
            return Ok(None);
        }
        let mut indent_on_line: usize = 0;
        loop
            invariant
                self.wf(),
                self.same_tokens(old(self)),
                old(self).current <= self.current,
                indent_on_line <= self.current,
            decreases self.tokens@.len() - self.current,
        {
            if !self.match_token(TokenType::Indent) {
                break;
            }
            indent_on_line = indent_on_line + 1;
        }
        if indent_on_line > expected_indent {
            Err(self.raise(CompilerError::UnexpectedIndent(indent_on_line, expected_indent)))
        } else if indent_on_line < expected_indent {
            if self.indent.len() > 0 {
                self.indent.pop();
            }
            Ok(None)
        } else {
            match self.declaration() {
                Ok(statement) => Ok(Some(statement)),
                Err(e) => Err(e),
            }
        }
    }

    fn declaration(&mut self) -> (r: Result<Statement, CompilerErrorAtLine>)
        requires
            old(self).wf(),
        ensures
            final(self).wf(),
            final(self).same_tokens(old(self)),
            old(self).current <= final(self).current,
        decreases old(self).tokens@.len() - old(self).current, 18int,
    {
        if self.match_token(TokenType::Fn) {
            self.function_declaration()
        } else if self.match_token(TokenType::Let) {
            self.let_declaration()
        } else if self.match_token(TokenType::Object) {
            self.object_declaration()
        } else if self.match_token(TokenType::Pipe) {
            self.guard_declaration()
        } else {
            self.statement()
        }
    }

    fn guard_declaration(&mut self) -> (r: Result<Statement, CompilerErrorAtLine>)
        requires
            old(self).wf(),
        ensures
            final(self).wf(),
            final(self).same_tokens(old(self)),
            old(self).current <= final(self).current,
        decreases old(self).tokens@.len() - old(self).current, 17int,
    {
        let if_expr = match self.guard_if_expr() {
            Ok(e) => e,
            Err(e) => {
                return Err(e);
            }
        };
        let then_expr = match self.expression() {
            Ok(e) => e,
            Err(e) => {
                return Err(e);
            }
        };
        Ok(Statement::GuardStatement { if_expr, then_expr })
    }

    fn guard_if_expr(&mut self) -> (r: Result<Expression, CompilerErrorAtLine>)
        requires
            old(self).wf(),
        ensures
            final(self).wf(),
            final(self).same_tokens(old(self)),
            old(self).current <= final(self).current,
        decreases old(self).tokens@.len() - old(self).current, 16int,
    {
        if !self.check(TokenType::SingleRightArrow) {
            if self.match_token(TokenType::Slash) {
                return self.path_guard_expr();
            } else if self.match_token(TokenType::Question) {
                return self.query_guard_expr();
            } else {
                return Err(self.raise(CompilerError::Expected("-> or ?")));
            }
        }
        Ok(Expression::Stop { line: self.current_line() })
    }

    fn query_guard_expr(&mut self) -> (r: Result<Expression, CompilerErrorAtLine>)
        requires
            old(self).wf(),
        ensures
            final(self).wf(),
            final(self).same_tokens(old(self)),
            old(self).current <= final(self).current,
        decreases old(self).tokens@.len() - old(self).current, 15int,
    {
        if self.match_token(TokenType::LeftBrace) {
            let query_params = match self.expression() {
                Ok(e) => e,
                Err(e) => {
                    return Err(e);
                }
            };
            match self.consume(
                TokenType::RightBrace,
                CompilerError::Expected("'}' after guard expression."),
            ) {
                Ok(_) => Ok(query_params),
                Err(e) => Err(e),
            }
        } else {
            Ok(Expression::Stop { line: self.current_line() })
        }
    }

    fn path_guard_expr(&mut self) -> (r: Result<Expression, CompilerErrorAtLine>)
        requires
            old(self).wf(),
        ensures
            final(self).wf(),
            final(self).same_tokens(old(self)),
            old(self).current <= final(self).current,
        decreases old(self).tokens@.len() - old(self).current, 15int,
    {
        if self.match_token(TokenType::LeftBrace) {
            let path_params = match self.expression() {
                Ok(e) => e,
                Err(e) => {
                    return Err(e);
                }
            };
            match self.consume(
                TokenType::RightBrace,
                CompilerError::Expected("'}' after guard expression."),
            ) {
                Ok(_) => Ok(path_params),
                Err(e) => Err(e),
            }
        } else {
            Ok(Expression::Stop { line: self.current_line() })
        }
    }

    fn object_declaration(&mut self) -> (r: Result<Statement, CompilerErrorAtLine>)
        requires
            old(self).wf(),
        ensures
            final(self).wf(),
            final(self).same_tokens(old(self)),
            old(self).current <= final(self).current,
        decreases old(self).tokens@.len() - old(self).current, 17int,
    {
        let object_name = match self.consume(
            TokenType::Identifier,
            CompilerError::Expected("object name."),
        ) {
            Ok(t) => t,
            Err(e) => {
                return Err(e);
            }
        };
        match self.consume(TokenType::Colon, CompilerError::Expected("':' after object name.")) {
            Ok(_) => (),
            Err(e) => {
                return Err(e);
            }
        }
        match self.consume(TokenType::Eol, CompilerError::Expected("end of line.")) {
            Ok(_) => (),
            Err(e) => {
                return Err(e);
            }
        }
        let base_indent: usize = if self.indent.len() > 0 {
            self.indent[self.indent.len() - 1]
        } else {
            0
        };
        let expected_indent: usize = if base_indent < usize::MAX {
            base_indent + 1
        } else {
            base_indent
        };
        let mut fields: Vec<Parameter> = Vec::new();
        let mut done = false;
        loop
            invariant
                self.wf(),
                self.same_tokens(old(self)),
                old(self).current <= self.current,
            decreases self.tokens@.len() - self.current,
        {
            if done || self.is_at_end() {
                break;
            }
            let before = self.current;
            let mut k: usize = 0;
            while k < expected_indent
                invariant
                    self.wf(),
                    self.same_tokens(old(self)),
                    old(self).current <= self.current,
                    before <= self.current,
                decreases expected_indent - k,
            {
                if self.check(TokenType::Indent) {
                    self.advance();
                } else {
                    done = true;
                }
                k = k + 1;
            }
            if !done {
                let field_name = match self.consume(
                    TokenType::Identifier,
                    CompilerError::Expected("an object field name."),
                ) {
                    Ok(t) => t,
                    Err(e) => {
                        return Err(e);
                    }
                };
                match self.consume(
                    TokenType::Colon,
                    CompilerError::Expected("':' after field name."),
                ) {
                    Ok(_) => (),
                    Err(e) => {
                        return Err(e);
                    }
                }
                let field_type = self.peek_type();
                if field_type.is_type() {
                    self.advance();
                } else {
                    return Err(self.raise(CompilerError::Expected("a type")));
                }
                fields.push(Parameter { name: field_name, var_type: field_type });
                // swallow the end of the field's line, if one follows
                self.match_token(TokenType::Eol);
            }
            if self.current == before {
                if done {
                    break;
                }
                return Err(self.raise(CompilerError::Failure));
            }
        }
        Ok(Statement::ObjectStmt { name: object_name, fields })
    }

    fn function_declaration(&mut self) -> (r: Result<Statement, CompilerErrorAtLine>)
        requires
            old(self).wf(),
        ensures
            final(self).wf(),
            final(self).same_tokens(old(self)),
            old(self).current <= final(self).current,
        decreases old(self).tokens@.len() - old(self).current, 17int,
    {
        let name_token = match self.consume(
            TokenType::Identifier,
            CompilerError::Expected("function name."),
        ) {
            Ok(t) => t,
            Err(e) => {
                return Err(e);
            }
        };
        match self.consume(
            TokenType::LeftParen,
            CompilerError::Expected("'(' after function name."),
        ) {
            Ok(_) => (),
            Err(e) => {
                return Err(e);
            }
        }
        let mut parameters: Vec<Parameter> = Vec::new();
        loop
            invariant
                self.wf(),
                self.same_tokens(old(self)),
                old(self).current <= self.current,
            decreases self.tokens@.len() - self.current,
        {
            if self.check(TokenType::RightParen) {
                break;
            }
            if parameters.len() >= 25 {
                return Err(self.raise(CompilerError::TooManyParameters));
            }
            let before = self.current;
            let parm_name = match self.consume(
                TokenType::Identifier,
                CompilerError::Expected("a parameter name."),
            ) {
                Ok(t) => t,
                Err(e) => {
                    return Err(e);
                }
            };
            match self.consume(
                TokenType::Colon,
                CompilerError::Expected(": after parameter name"),
            ) {
                Ok(_) => (),
                Err(e) => {
                    return Err(e);
                }
            }
            let var_type = self.peek_type();
            self.advance();
            parameters.push(Parameter { name: parm_name, var_type });
            self.match_token(TokenType::Comma);
            if self.current == before {
                return Err(self.raise(CompilerError::Failure));
            }
        }
        match self.consume(TokenType::RightParen, CompilerError::Expected(" ')' after parameters.")) {
            Ok(_) => (),
            Err(e) => {
                return Err(e);
            }
        }
        let return_type = if self.check(TokenType::SingleRightArrow) {
            self.advance();
            let t = self.peek_type();
            self.advance();
            t
        } else {
            TokenType::Void
        };
        match self.consume(
            TokenType::Colon,
            CompilerError::Expected("colon (:) after function declaration."),
        ) {
            Ok(_) => (),
            Err(e) => {
                return Err(e);
            }
        }
        match self.consume(TokenType::Eol, CompilerError::Expected("end of line.")) {
            Ok(_) => (),
            Err(e) => {
                return Err(e);
            }
        }
        let current_indent: usize = if self.indent.len() > 0 {
            self.indent[self.indent.len() - 1]
        } else {
            0
        };
        if current_indent < usize::MAX {
            self.indent.push(current_indent + 1);
        }
        let body = match self.compile() {
            Ok(b) => b,
            Err(e) => {
                return Err(e);
            }
        };
        let function = Function { name: name_token, parameters, return_type, body };
        Ok(Statement::FunctionStmt { function })
    }

    fn let_declaration(&mut self) -> (r: Result<Statement, CompilerErrorAtLine>)
        requires
            old(self).wf(),
        ensures
            final(self).wf(),
            final(self).same_tokens(old(self)),
            old(self).current <= final(self).current,
        decreases old(self).tokens@.len() - old(self).current, 17int,
    {
        if self.peek_type().is_type() {
            return Err(self.raise(CompilerError::KeywordNotAllowedAsIdentifier(self.peek_type())));
        }
        let name_token = match self.consume(
            TokenType::Identifier,
            CompilerError::Expected("variable name."),
        ) {
            Ok(t) => t,
            Err(e) => {
                return Err(e);
            }
        };
        let declared_type = if self.check(TokenType::Colon) {
            self.advance();
            let t = self.peek_type();
            self.advance();
            t
        } else {
            TokenType::Unknown
        };
        if self.match_token(TokenType::Equal) {
            let initializer = match self.expression() {
                Ok(e) => e,
                Err(e) => {
                    return Err(e);
                }
            };
            match self.consume(
                TokenType::Eol,
                CompilerError::Expected("end of line after initializer."),
            ) {
                Ok(_) => (),
                Err(e) => {
                    return Err(e);
                }
            }
            Ok(Statement::VarStmt { name: name_token, var_type: declared_type, initializer })
        } else {
            Err(self.raise(CompilerError::UninitializedVariable))
        }
    }

    fn statement(&mut self) -> (r: Result<Statement, CompilerErrorAtLine>)
        requires
            old(self).wf(),
        ensures
            final(self).wf(),
            final(self).same_tokens(old(self)),
            old(self).current <= final(self).current,
        decreases old(self).tokens@.len() - old(self).current, 17int,
    {
        if self.match_token(TokenType::Print) {
            self.print_statement()
        } else {
            self.expr_statement()
        }
    }

    fn print_statement(&mut self) -> (r: Result<Statement, CompilerErrorAtLine>)
        requires
            old(self).wf(),
        ensures
            final(self).wf(),
            final(self).same_tokens(old(self)),
            old(self).current <= final(self).current,
        decreases old(self).tokens@.len() - old(self).current, 16int,
    {
        let expr = match self.expression() {
            Ok(e) => e,
            Err(e) => {
                return Err(e);
            }
        };
        match self.consume(
            TokenType::Eol,
            CompilerError::Expected("end of line after print statement."),
        ) {
            Ok(_) => Ok(Statement::PrintStmt { value: expr }),
            Err(e) => Err(e),
        }
    }

    fn expr_statement(&mut self) -> (r: Result<Statement, CompilerErrorAtLine>)
        requires
            old(self).wf(),
        ensures
            final(self).wf(),
            final(self).same_tokens(old(self)),
            old(self).current <= final(self).current,
        decreases old(self).tokens@.len() - old(self).current, 16int,
    {
        let expr = match self.expression() {
            Ok(e) => e,
            Err(e) => {
                return Err(e);
            }
        };
        if !self.is_at_end() {
            match self.consume(
                TokenType::Eol,
                CompilerError::Expected("end of line after expression."),
            ) {
                Ok(_) => (),
                Err(e) => {
                    return Err(e);
                }
            }
        }
        Ok(Statement::ExpressionStmt { expression: expr })
    }

    fn expression(&mut self) -> (r: Result<Expression, CompilerErrorAtLine>)
        requires
            old(self).wf(),
        ensures
            final(self).wf(),
            final(self).same_tokens(old(self)),
            old(self).current <= final(self).current,
        decreases old(self).tokens@.len() - old(self).current, 14int,
    {
        self.or()
    }

    fn or(&mut self) -> (r: Result<Expression, CompilerErrorAtLine>)
        requires
            old(self).wf(),
        ensures
            final(self).wf(),
            final(self).same_tokens(old(self)),
            old(self).current <= final(self).current,
        decreases old(self).tokens@.len() - old(self).current, 13int,
    {
        let expr = match self.and() {
            Ok(e) => e,
            Err(e) => {
                return Err(e);
            }
        };
        self.binary_chain(TokenType::LogicalOr, TokenType::LogicalOr, expr)
    }

    fn and(&mut self) -> (r: Result<Expression, CompilerErrorAtLine>)
        requires
            old(self).wf(),
        ensures
            final(self).wf(),
            final(self).same_tokens(old(self)),
            old(self).current <= final(self).current,
        decreases old(self).tokens@.len() - old(self).current, 12int,
    {
        let expr = match self.bit_and() {
            Ok(e) => e,
            Err(e) => {
                return Err(e);
            }
        };
        self.binary_chain(TokenType::LogicalAnd, TokenType::LogicalAnd, expr)
    }

    fn bit_and(&mut self) -> (r: Result<Expression, CompilerErrorAtLine>)
        requires
            old(self).wf(),
        ensures
            final(self).wf(),
            final(self).same_tokens(old(self)),
            old(self).current <= final(self).current,
        decreases old(self).tokens@.len() - old(self).current, 11int,
    {
        let expr = match self.bit_or() {
            Ok(e) => e,
            Err(e) => {
                return Err(e);
            }
        };
        self.binary_chain(TokenType::BitAnd, TokenType::BitAnd, expr)
    }

    fn bit_or(&mut self) -> (r: Result<Expression, CompilerErrorAtLine>)
        requires
            old(self).wf(),
        ensures
            final(self).wf(),
            final(self).same_tokens(old(self)),
            old(self).current <= final(self).current,
        decreases old(self).tokens@.len() - old(self).current, 10int,
    {
        let expr = match self.bit_xor() {
            Ok(e) => e,
            Err(e) => {
                return Err(e);
            }
        };
        self.binary_chain(TokenType::Pipe, TokenType::Pipe, expr)
    }

    fn bit_xor(&mut self) -> (r: Result<Expression, CompilerErrorAtLine>)
        requires
            old(self).wf(),
        ensures
            final(self).wf(),
            final(self).same_tokens(old(self)),
            old(self).current <= final(self).current,
        decreases old(self).tokens@.len() - old(self).current, 9int,
    {
        let expr = match self.equality() {
            Ok(e) => e,
            Err(e) => {
                return Err(e);
            }
        };
        self.binary_chain(TokenType::BitXor, TokenType::BitXor, expr)
    }

    fn equality(&mut self) -> (r: Result<Expression, CompilerErrorAtLine>)
        requires
            old(self).wf(),
        ensures
            final(self).wf(),
            final(self).same_tokens(old(self)),
            old(self).current <= final(self).current,
        decreases old(self).tokens@.len() - old(self).current, 8int,
    {
        let expr = match self.comparison() {
            Ok(e) => e,
            Err(e) => {
                return Err(e);
            }
        };
        self.binary_chain(TokenType::EqualEqual, TokenType::BangEqual, expr)
    }

    fn comparison(&mut self) -> (r: Result<Expression, CompilerErrorAtLine>)
        requires
            old(self).wf(),
        ensures
            final(self).wf(),
            final(self).same_tokens(old(self)),
            old(self).current <= final(self).current,
        decreases old(self).tokens@.len() - old(self).current, 7int,
    {
        let expr = match self.bitshift() {
            Ok(e) => e,
            Err(e) => {
                return Err(e);
            }
        };
        let expr = match self.binary_chain(TokenType::Greater, TokenType::GreaterEqual, expr) {
            Ok(e) => e,
            Err(e) => {
                return Err(e);
            }
        };
        self.binary_chain(TokenType::Less, TokenType::LessEqual, expr)
    }

    fn bitshift(&mut self) -> (r: Result<Expression, CompilerErrorAtLine>)
        requires
            old(self).wf(),
        ensures
            final(self).wf(),
            final(self).same_tokens(old(self)),
            old(self).current <= final(self).current,
        decreases old(self).tokens@.len() - old(self).current, 6int,
    {
        let expr = match self.term() {
            Ok(e) => e,
            Err(e) => {
                return Err(e);
            }
        };
        self.binary_chain(TokenType::GreaterGreater, TokenType::LessLess, expr)
    }

    fn term(&mut self) -> (r: Result<Expression, CompilerErrorAtLine>)
        requires
            old(self).wf(),
        ensures
            final(self).wf(),
            final(self).same_tokens(old(self)),
            old(self).current <= final(self).current,
        decreases old(self).tokens@.len() - old(self).current, 5int,
    {
        let expr = match self.factor() {
            Ok(e) => e,
            Err(e) => {
                return Err(e);
            }
        };
        self.binary_chain(TokenType::Minus, TokenType::Plus, expr)
    }

    fn factor(&mut self) -> (r: Result<Expression, CompilerErrorAtLine>)
        requires
            old(self).wf(),
        ensures
            final(self).wf(),
            final(self).same_tokens(old(self)),
            old(self).current <= final(self).current,
        decreases old(self).tokens@.len() - old(self).current, 4int,
    {
        let expr = match self.unary() {
            Ok(e) => e,
            Err(e) => {
                return Err(e);
            }
        };
        self.binary_chain(TokenType::Slash, TokenType::Star, expr)
    }

    /// Fold a run of left-associative binary operators of one precedence
    /// level onto `expr`.
    fn binary_chain(&mut self, op_a: TokenType, op_b: TokenType, expr: Expression) -> (r: Result<
        Expression,
        CompilerErrorAtLine,
    >)
        requires
            old(self).wf(),
        ensures
            final(self).wf(),
            final(self).same_tokens(old(self)),
            old(self).current <= final(self).current,
        decreases old(self).tokens@.len() - old(self).current, 3int,
    {
        let mut expr = expr;
        loop
            invariant
                self.wf(),
                self.same_tokens(old(self)),
                old(self).current <= self.current,
            decreases self.tokens@.len() - self.current,
        {
            if !self.match_either(op_a, op_b) {
                break;
            }
            let operator = self.previous();
            let right = match self.comparison() {
                Ok(e) => e,
                Err(e) => {
                    return Err(e);
                }
            };
            let line = operator.line;
            expr = Expression::Binary {
                line,
                left: Box::new(expr),
                operator,
                right: Box::new(right),
            };
        }
        Ok(expr)
    }

    fn unary(&mut self) -> (r: Result<Expression, CompilerErrorAtLine>)
        requires
            old(self).wf(),
        ensures
            final(self).wf(),
            final(self).same_tokens(old(self)),
            old(self).current <= final(self).current,
        decreases old(self).tokens@.len() - old(self).current, 3int,
    {
        if self.match_either(TokenType::Bang, TokenType::Minus) {
            let operator = self.previous();
            let right = match self.unary() {
                Ok(e) => e,
                Err(e) => {
                    return Err(e);
                }
            };
            let line = operator.line;
            Ok(Expression::Unary { line, operator, right: Box::new(right) })
        } else {
            self.primary()
        }
    }

    fn primary(&mut self) -> (r: Result<Expression, CompilerErrorAtLine>)
        requires
            old(self).wf(),
        ensures
            final(self).wf(),
            final(self).same_tokens(old(self)),
            old(self).current <= final(self).current,
        decreases old(self).tokens@.len() - old(self).current, 2int,
    {
        let mut expr = match self.primary_base() {
            Ok(e) => e,
            Err(e) => {
                return Err(e);
            }
        };
        // postfix operators: method calls and indexing
        loop
            invariant
                self.wf(),
                self.same_tokens(old(self)),
                old(self).current <= self.current,
            decreases self.tokens@.len() - self.current,
        {
            if self.match_token(TokenType::Dot) {
                let method = match self.consume(
                    TokenType::Identifier,
                    CompilerError::Expected("a method name after '.'"),
                ) {
                    Ok(t) => t,
                    Err(e) => {
                        return Err(e);
                    }
                };
                match self.consume(
                    TokenType::LeftParen,
                    CompilerError::Expected("'(' after method name"),
                ) {
                    Ok(_) => (),
                    Err(e) => {
                        return Err(e);
                    }
                }
                let arguments = match self.arguments() {
                    Ok(a) => a,
                    Err(e) => {
                        return Err(e);
                    }
                };
                let line = method.line;
                expr = Expression::MethodCall {
                    line,
                    receiver: Box::new(expr),
                    method_name: method.lexeme,
                    arguments,
                };
            } else if self.match_token(TokenType::LeftBracket) {
                let index = match self.expression() {
                    Ok(e) => e,
                    Err(e) => {
                        return Err(e);
                    }
                };
                match self.consume(
                    TokenType::RightBracket,
                    CompilerError::Expected("']' after index"),
                ) {
                    Ok(_) => (),
                    Err(e) => {
                        return Err(e);
                    }
                }
                let line = self.current_line();
                expr = Expression::ListGet {
                    line,
                    list: Box::new(expr),
                    index: Box::new(index),
                };
            } else {
                break;
            }
        }
        Ok(expr)
    }

    fn primary_base(&mut self) -> (r: Result<Expression, CompilerErrorAtLine>)
        requires
            old(self).wf(),
        ensures
            final(self).wf(),
            final(self).same_tokens(old(self)),
            old(self).current <= final(self).current,
        decreases old(self).tokens@.len() - old(self).current, 1int,
    {
        let line = self.current_line();
        if self.match_token(TokenType::LeftBracket) {
            self.list()
        } else if self.match_token(TokenType::LeftBrace) {
            self.map()
        } else if self.match_token(TokenType::False) {
            Ok(Expression::Literal {
                line,
                literaltype: TokenType::Bool,
                value: Value::Bool(false),
            })
        } else if self.match_token(TokenType::True) {
            Ok(Expression::Literal { line, literaltype: TokenType::Bool, value: Value::Bool(true) })
        } else if self.match_token(TokenType::Integer) {
            let lexeme = self.previous().lexeme;
            let cs = chars_of(lexeme.as_str());
            match parse_u64_chars(&cs) {
                Some(v) if v <= i64::MAX as u64 => Ok(Expression::Literal {
                    line,
                    literaltype: TokenType::Integer,
                    value: Value::I64(v as i64),
                }),
                _ => Err(self.raise(CompilerError::ParseError(lexeme))),
            }
        } else if self.match_token(TokenType::Hex) {
            let lexeme = self.previous().lexeme;
            let cs = chars_of(lexeme.as_str());
            if cs.len() < 3 {
                return Err(self.raise(CompilerError::ParseError(lexeme)));
            }
            match parse_hex_range(&cs, 2, cs.len()) {
                Some(v) => {
                    if v <= u32::MAX as u64 {
                        Ok(Expression::Literal {
                            line,
                            literaltype: TokenType::Integer,
                            value: Value::U32(v as u32),
                        })
                    } else {
                        Ok(Expression::Literal {
                            line,
                            literaltype: TokenType::Integer,
                            value: Value::U64(v),
                        })
                    }
                }
                None => Err(self.raise(CompilerError::ParseError(lexeme))),
            }
        } else if self.match_token(TokenType::FloatingPoint) {
            let lexeme = self.previous().lexeme;
            let cs = chars_of(lexeme.as_str());
            match parse_float_chars(&cs) {
                Some(d) => Ok(Expression::Literal {
                    line,
                    literaltype: TokenType::FloatingPoint,
                    value: Value::F64(d),
                }),
                None => Err(self.raise(CompilerError::ParseError(lexeme))),
            }
        } else if self.match_token(TokenType::StringType) {
            let lexeme = self.previous().lexeme;
            Ok(Expression::Literal {
                line,
                literaltype: TokenType::StringType,
                value: Value::String(lexeme),
            })
        } else if self.match_token(TokenType::Char) {
            let lexeme = self.previous().lexeme;
            let cs = chars_of(lexeme.as_str());
            if cs.len() == 1 {
                Ok(Expression::Literal {
                    line,
                    literaltype: TokenType::Char,
                    value: Value::Char(cs[0]),
                })
            } else {
                Err(self.raise(CompilerError::IllegalCharLength(lexeme)))
            }
        } else if self.match_token(TokenType::LeftParen) {
            let expr = match self.expression() {
                Ok(e) => e,
                Err(e) => {
                    return Err(e);
                }
            };
            match self.consume(
                TokenType::RightParen,
                CompilerError::Expected("')' after expression."),
            ) {
                Ok(_) => Ok(Expression::Grouping { line, expression: Box::new(expr) }),
                Err(e) => Err(e),
            }
        } else {
            let before = self.current;
            let token = self.advance_token();
            if self.current == before {
                return Err(self.raise(CompilerError::UnexpectedIdentifier));
            }
            if self.match_token(TokenType::LeftParen) {
                let arguments = match self.arguments() {
                    Ok(a) => a,
                    Err(e) => {
                        return Err(e);
                    }
                };
                Ok(Expression::FunctionCall { line, name: token.lexeme, arguments })
            } else if self.match_token(TokenType::Colon) {
                let value = match self.expression() {
                    Ok(e) => e,
                    Err(e) => {
                        return Err(e);
                    }
                };
                Ok(Expression::NamedParameter { line, name: token, value: Box::new(value) })
            } else {
                Ok(Expression::Variable { line, name: token.lexeme, var_type: TokenType::Unknown })
            }
        }
    }

    /// Parse a parenthesised, comma-separated argument list; the opening
    /// parenthesis has been consumed.
    fn arguments(&mut self) -> (r: Result<Vec<Expression>, CompilerErrorAtLine>)
        requires
            old(self).wf(),
        ensures
            final(self).wf(),
            final(self).same_tokens(old(self)),
            old(self).current <= final(self).current,
        decreases old(self).tokens@.len() - old(self).current, 15int,
    {
        let mut arguments: Vec<Expression> = Vec::new();
        loop
            invariant
                self.wf(),
                self.same_tokens(old(self)),
                old(self).current <= self.current,
            decreases self.tokens@.len() - self.current,
        {
            if self.match_token(TokenType::RightParen) {
                break;
            }
            if arguments.len() >= 25 {
                return Err(self.raise(CompilerError::TooManyParameters));
            }
            let before = self.current;
            let arg = match self.expression() {
                Ok(e) => e,
                Err(e) => {
                    return Err(e);
                }
            };
            arguments.push(arg);
            if !self.check(TokenType::Comma) && !self.check(TokenType::RightParen) {
                return Err(self.raise(CompilerError::Expected("')' after arguments.")));
            }
            self.match_token(TokenType::Comma);
            if self.current == before {
                return Err(self.raise(CompilerError::Failure));
            }
        }
        Ok(arguments)
    }

    fn list(&mut self) -> (r: Result<Expression, CompilerErrorAtLine>)
        requires
            old(self).wf(),
        ensures
            final(self).wf(),
            final(self).same_tokens(old(self)),
            old(self).current <= final(self).current,
        decreases old(self).tokens@.len() - old(self).current, 15int,
    {
        let mut values: Vec<Expression> = Vec::new();
        loop
            invariant
                self.wf(),
                self.same_tokens(old(self)),
                old(self).current <= self.current,
            decreases self.tokens@.len() - self.current,
        {
            if self.match_token(TokenType::RightBracket) {
                break;
            }
            let before = self.current;
            let value = match self.expression() {
                Ok(e) => e,
                Err(e) => {
                    return Err(e);
                }
            };
            values.push(value);
            if !self.check(TokenType::Comma) && !self.check(TokenType::RightBracket) {
                return Err(self.raise(CompilerError::Expected("']' at the end of the list.")));
            }
            self.match_token(TokenType::Comma);
            if self.current == before {
                return Err(self.raise(CompilerError::Failure));
            }
        }
        let line = self.current_line();
        Ok(Expression::List { line, literaltype: TokenType::ListType, values })
    }

    fn map(&mut self) -> (r: Result<Expression, CompilerErrorAtLine>)
        requires
            old(self).wf(),
        ensures
            final(self).wf(),
            final(self).same_tokens(old(self)),
            old(self).current <= final(self).current,
        decreases old(self).tokens@.len() - old(self).current, 15int,
    {
        let mut entries: Vec<(Expression, Expression)> = Vec::new();
        loop
            invariant
                self.wf(),
                self.same_tokens(old(self)),
                old(self).current <= self.current,
            decreases self.tokens@.len() - self.current,
        {
            if self.match_token(TokenType::RightBrace) {
                break;
            }
            let before = self.current;
            let key = match self.expression() {
                Ok(e) => e,
                Err(e) => {
                    return Err(e);
                }
            };
            match self.consume(TokenType::Colon, CompilerError::Expected("':' after map key.")) {
                Ok(_) => (),
                Err(e) => {
                    return Err(e);
                }
            }
            let value = match self.expression() {
                Ok(e) => e,
                Err(e) => {
                    return Err(e);
                }
            };
            entries.push((key, value));
            if !self.check(TokenType::Comma) && !self.check(TokenType::RightBrace) {
                return Err(self.raise(CompilerError::Expected("'}' after map.")));
            }
            self.match_token(TokenType::Comma);
            if self.current == before {
                return Err(self.raise(CompilerError::Failure));
            }
        }
        let line = self.current_line();
        Ok(Expression::Mapping { line, literaltype: TokenType::MapType, entries })
    }
}

} // verus!
