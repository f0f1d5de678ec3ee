//! The character-level scanner: source text to tokens. It walks the
//! characters once, consuming at least one per token, tracks the current
//! line for diagnostics, and ends every stream with an end-of-line and an
//! end-of-file token.

use vstd::prelude::*;

verus! {

use crate::errors::{CompilerError, CompilerErrorAtLine};
use crate::keywords::get_keyword;
use crate::text::{chars_of, string_from_chars};
use crate::tokens::{Token, TokenType};

/// Whether a character is a decimal digit.
pub open spec fn spec_is_digit(c: char) -> bool {
    '0' <= c && c <= '9'
}

/// Whether a character may continue a number: a digit or an exponent mark.
pub open spec fn spec_is_digit_or_scientific(c: char) -> bool {
    spec_is_digit(c) || c == 'e' || c == 'E'
}

/// Whether a character may start an identifier.
pub open spec fn spec_is_alpha(c: char) -> bool {
    ('a' <= c && c <= 'z') || ('A' <= c && c <= 'Z') || c == '_' || c == '$'
}

/// Whether a character may continue an identifier.
pub open spec fn spec_is_alphanumeric(c: char) -> bool {
    spec_is_alpha(c) || spec_is_digit(c)
}

/// Whether a character is a hexadecimal digit.
pub open spec fn spec_is_hex(c: char) -> bool {
    spec_is_digit(c) || ('a' <= c && c <= 'f') || ('A' <= c && c <= 'F')
}

pub fn is_digit(c: char) -> (r: bool)
    ensures
        r == spec_is_digit(c),
{
    '0' <= c && c <= '9'
}

pub fn is_digit_or_scientific(c: char) -> (r: bool)
    ensures
        r == spec_is_digit_or_scientific(c),
{
    is_digit(c) || c == 'e' || c == 'E'
}

pub fn is_alpha(c: char) -> (r: bool)
    ensures
        r == spec_is_alpha(c),
{
    ('a' <= c && c <= 'z') || ('A' <= c && c <= 'Z') || c == '_' || c == '$'
}

pub fn is_alphanumeric(c: char) -> (r: bool)
    ensures
        r == spec_is_alphanumeric(c),
{
    is_alpha(c) || is_digit(c)
}

fn is_hex(c: char) -> (r: bool)
    ensures
        r == spec_is_hex(c),
{
    is_digit(c) || ('a' <= c && c <= 'f') || ('A' <= c && c <= 'F')
}

/// Scan source text into tokens. On success the stream ends with an
/// end-of-line and an end-of-file token.
pub fn scan(source: &str) -> (r: Result<Vec<Token>, CompilerErrorAtLine>)
    ensures
        match r {
            Ok(tokens) => tokens@.len() >= 2 && tokens@.last().token_type == TokenType::Eof
                && tokens@[tokens@.len() - 2].token_type == TokenType::Eol,
            Err(_) => true,
        },
        (r matches Err(e) ==> (e.error is UnexpectedIdentifier || (
        e.error matches CompilerError::Unterminated(k) && (k@ == "char"@ || k@ == "string"@))
            || e.error matches CompilerError::IllegalCharLength(_))),
{
    let chars = chars_of(source);
    let mut scanner = Scanner {
        chars,
        current: 0,
        start: 0,
        tokens: Vec::new(),
        line: 1,
        new_line: true,
    };
    scanner.scan()
}

struct Scanner {
    chars: Vec<char>,
    current: usize,
    start: usize,
    tokens: Vec<Token>,
    line: usize,
    new_line: bool,
}

impl Scanner {
    spec fn wf(&self) -> bool {
        self.current <= self.chars@.len()
    }

    fn scan(&mut self) -> (r: Result<Vec<Token>, CompilerErrorAtLine>)
        requires
            old(self).wf(),
        ensures
            match r {
                Ok(tokens) => tokens@.len() >= 2 && tokens@.last().token_type == TokenType::Eof
                    && tokens@[tokens@.len() - 2].token_type == TokenType::Eol,
                Err(_) => true,
            },
            (r matches Err(e) ==> (e.error is UnexpectedIdentifier || (
            e.error matches CompilerError::Unterminated(k) && (k@ == "char"@ || k@
                == "string"@)) || e.error matches CompilerError::IllegalCharLength(_))),
    {
        loop
            invariant
                self.wf(),
            decreases self.chars@.len() - self.current,
        {
            if self.is_at_end() {
                break;
            }
            self.start = self.current;
            match self.scan_token() {
                Ok(_) => (),
                Err(e) => {
                    return Err(e);
                }
            }
        }
        self.add_token(TokenType::Eol);
        self.add_token(TokenType::Eof);
        let mut tokens: Vec<Token> = Vec::new();
        core::mem::swap(&mut tokens, &mut self.tokens);
        Ok(tokens)
    }

    fn is_at_end(&self) -> (r: bool)
        requires
            self.wf(),
        ensures
            r == (self.current == self.chars@.len()),
    {
        self.current >= self.chars.len()
    }

    fn peek(&self) -> (r: char)
        requires
            self.wf(),
        ensures
            self.current < self.chars@.len() ==> r == self.chars@[self.current as int],
            self.current == self.chars@.len() ==> r == '\0',
    {
        if self.current < self.chars.len() {
            self.chars[self.current]
        } else {
            '\0'
        }
    }

    fn peek_next(&self) -> (r: char)
        requires
            self.wf(),
    {
        let n = self.chars.len();
        if self.current < n {
            if self.current + 1 < n {
                self.chars[self.current + 1]
            } else {
                '\0'
            }
        } else {
            '\0'
        }
    }

    fn advance(&mut self) -> (r: char)
        requires
            old(self).wf(),
            old(self).current < old(self).chars@.len(),
        ensures
            final(self).wf(),
            final(self).chars == old(self).chars,
            final(self).start == old(self).start,
            final(self).current == old(self).current + 1,
            r == old(self).chars@[old(self).current as int],
    {
        let c = self.chars[self.current];
        let n = self.chars.len();
        if self.current < n {
            self.current = self.current + 1;
        }
        c
    }

    fn match_next(&mut self, expected: char) -> (r: bool)
        requires
            old(self).wf(),
        ensures
            final(self).wf(),
            final(self).chars == old(self).chars,
            final(self).start == old(self).start,
            old(self).current <= final(self).current <= old(self).current + 1,
            r ==> final(self).current == old(self).current + 1,
    {
        if self.is_at_end() {
            false
        } else if self.current < self.chars.len() && self.chars[self.current] != expected {
            false
        } else {
            if self.current < self.chars.len() {
                self.current = self.current + 1;
                true
            } else {
                false
            }
        }
    }

    fn raise(&self, error: CompilerError) -> (r: CompilerErrorAtLine)
        ensures
            r.error == error,
            r.line == self.line,
    {
        CompilerErrorAtLine::raise(error, self.line)
    }

    fn add_token(&mut self, token_type: TokenType)
        ensures
            final(self).wf() == old(self).wf(),
            final(self).chars == old(self).chars,
            final(self).current == old(self).current,
            final(self).start == old(self).start,
            final(self).line == old(self).line,
            final(self).new_line == old(self).new_line,
            final(self).tokens@.len() == old(self).tokens@.len() + 1,
            final(self).tokens@.last().token_type == token_type,
            final(self).tokens@.take(final(self).tokens@.len() - 1) == old(self).tokens@,
    {
        let line = self.line;
        self.tokens.push(Token::new(token_type, String::new(), line));
        proof {
            assert(self.tokens@.take(self.tokens@.len() - 1) =~= old(self).tokens@);
        }
    }

    fn add_token_with_value(&mut self, token_type: TokenType, value: String)
        ensures
            final(self).wf() == old(self).wf(),
            final(self).chars == old(self).chars,
            final(self).current == old(self).current,
            final(self).start == old(self).start,
            final(self).line == old(self).line,
            final(self).new_line == old(self).new_line,
    {
        let line = self.line;
        self.tokens.push(Token::new(token_type, value, line));
    }

    /// The source text from `from` up to `to`, as a string.
    fn lexeme(&self, from: usize, to: usize) -> (r: String)
        requires
            self.wf(),
            from <= to <= self.chars@.len(),
    {
        let mut v: Vec<char> = Vec::new();
        let mut i: usize = from;
        while i < to
            invariant
                from <= i <= to,
                to <= self.chars@.len(),
            decreases to - i,
        {
            v.push(self.chars[i]);
            i = i + 1;
        }
        string_from_chars(&v)
    }

    fn scan_token(&mut self) -> (r: Result<(), CompilerErrorAtLine>)
        requires
            old(self).wf(),
            old(self).current < old(self).chars@.len(),
            old(self).start <= old(self).current,
        ensures
            final(self).wf(),
            final(self).chars == old(self).chars,
            old(self).current < final(self).current,
            (r matches Err(e) ==> (e.error is UnexpectedIdentifier || (
            e.error matches CompilerError::Unterminated(k) && (k@ == "char"@ || k@
                == "string"@)) || e.error matches CompilerError::IllegalCharLength(_))),
    {
        let c = self.advance();
        if self.new_line && (c == ' ' || c == '\t') {
            self.add_token(TokenType::Indent);
            self.new_line = false;
            return Ok(());
        }
        if c != '\n' {
            self.new_line = false;
        }
        match c {
            '(' => self.add_token(TokenType::LeftParen),
            ')' => self.add_token(TokenType::RightParen),
            '{' => self.add_token(TokenType::LeftBrace),
            '}' => self.add_token(TokenType::RightBrace),
            '[' => self.add_token(TokenType::LeftBracket),
            ']' => self.add_token(TokenType::RightBracket),
            ',' => self.add_token(TokenType::Comma),
            '.' => self.add_token(TokenType::Dot),
            '-' => {
                let t = if self.match_next('>') {
                    TokenType::SingleRightArrow
                } else {
                    TokenType::Minus
                };
                self.add_token(t);
            }
            '#' => self.add_token(TokenType::Hash),
            '+' => self.add_token(TokenType::Plus),
            ':' => self.add_token(TokenType::Colon),
            ';' => (),
            '*' => self.add_token(TokenType::Star),
            '!' => {
                let t = if self.match_next('=') {
                    TokenType::BangEqual
                } else {
                    TokenType::Bang
                };
                self.add_token(t);
            }
            '=' => {
                let t = if self.match_next('=') {
                    TokenType::EqualEqual
                } else {
                    TokenType::Equal
                };
                self.add_token(t);
            }
            '<' => {
                let t = if self.match_next('=') {
                    TokenType::LessEqual
                } else if self.match_next('<') {
                    TokenType::LessLess
                } else {
                    TokenType::Less
                };
                self.add_token(t);
            }
            '>' => {
                let t = if self.match_next('=') {
                    TokenType::GreaterEqual
                } else if self.match_next('>') {
                    TokenType::GreaterGreater
                } else {
                    TokenType::Greater
                };
                self.add_token(t);
            }
            '/' => {
                if self.match_next('/') {
                    // a comment runs to the end of the line
                    loop
                        invariant
                            self.wf(),
                            self.chars == old(self).chars,
                            old(self).current < self.current,
                        decreases self.chars@.len() - self.current,
                    {
                        if self.is_at_end() {
                            break;
                        }
                        if self.peek() == '\n' {
                            break;
                        }
                        self.advance();
                    }
                } else {
                    self.add_token(TokenType::Slash);
                }
            }
            '\'' => {
                return self.char_literal();
            }
            '"' => {
                return self.string_literal();
            }
            '\r' | '\t' | ' ' => (),
            '\n' => {
                if self.line < usize::MAX {
                    self.line = self.line + 1;
                }
                self.new_line = true;
                self.add_token(TokenType::Eol);
            }
            '&' => {
                let t = if self.match_next('&') {
                    TokenType::LogicalAnd
                } else {
                    TokenType::BitAnd
                };
                self.add_token(t);
            }
            '|' => {
                let t = if self.match_next('|') {
                    TokenType::LogicalOr
                } else {
                    TokenType::Pipe
                };
                self.add_token(t);
            }
            '^' => self.add_token(TokenType::BitXor),
            _ => {
                if is_digit(c) {
                    self.number();
                } else if is_alpha(c) {
                    self.identifier();
                } else {
                    return Err(self.raise(CompilerError::UnexpectedIdentifier));
                }
            }
        }
        Ok(())
    }

    fn identifier(&mut self)
        requires
            old(self).wf(),
            old(self).start <= old(self).current,
        ensures
            final(self).wf(),
            final(self).chars == old(self).chars,
            old(self).current <= final(self).current,
    {
        loop
            invariant
                self.wf(),
                self.chars == old(self).chars,
                old(self).current <= self.current,
                old(self).start == self.start,
            decreases self.chars@.len() - self.current,
        {
            if self.is_at_end() {
                break;
            }
            if !is_alphanumeric(self.peek()) {
                break;
            }
            self.advance();
        }
        let value = self.lexeme(self.start, self.current);
        let token_type = match get_keyword(value.as_str()) {
            Some(t) => t,
            None => TokenType::Identifier,
        };
        self.add_token_with_value(token_type, value);
    }

    fn number(&mut self)
        requires
            old(self).wf(),
            old(self).start <= old(self).current,
        ensures
            final(self).wf(),
            final(self).chars == old(self).chars,
            old(self).current <= final(self).current,
    {
        // a hexadecimal literal: 0x followed by hex digits
        if self.current - self.start == 1 && self.start < self.chars.len() {
            if self.chars[self.start] == '0' && self.peek() == 'x' {
                if !self.is_at_end() {
                    self.advance();
                }
                loop
                    invariant
                        self.wf(),
                        self.chars == old(self).chars,
                        old(self).current <= self.current,
                        old(self).start == self.start,
                    decreases self.chars@.len() - self.current,
                {
                    if self.is_at_end() {
                        break;
                    }
                    if !is_hex(self.peek()) {
                        break;
                    }
                    self.advance();
                }
                let value = self.lexeme(self.start, self.current);
                self.add_token_with_value(TokenType::Hex, value);
                return;
            }
        }
        loop
            invariant
                self.wf(),
                self.chars == old(self).chars,
                old(self).current <= self.current,
                old(self).start == self.start,
            decreases self.chars@.len() - self.current,
        {
            if self.is_at_end() {
                break;
            }
            if !is_digit(self.peek()) {
                break;
            }
            self.advance();
        }
        let mut has_dot = false;
        if self.peek() == '.' && is_digit(self.peek_next()) {
            has_dot = true;
            if !self.is_at_end() {
                self.advance();
            }
        }
        loop
            invariant
                self.wf(),
                self.chars == old(self).chars,
                old(self).current <= self.current,
                old(self).start == self.start,
            decreases self.chars@.len() - self.current,
        {
            if self.is_at_end() {
                break;
            }
            if !is_digit_or_scientific(self.peek()) {
                break;
            }
            self.advance();
        }
        let value = self.lexeme(self.start, self.current);
        let t = if has_dot {
            TokenType::FloatingPoint
        } else {
            TokenType::Integer
        };
        self.add_token_with_value(t, value);
    }

    fn char_literal(&mut self) -> (r: Result<(), CompilerErrorAtLine>)
        requires
            old(self).wf(),
            old(self).start <= old(self).current,
        ensures
            final(self).wf(),
            final(self).chars == old(self).chars,
            old(self).current <= final(self).current,
            (r matches Err(e) ==> ((e.error matches CompilerError::Unterminated(k) && k@
                == "char"@) || e.error matches CompilerError::IllegalCharLength(_))),
    {
        loop
            invariant
                self.wf(),
                self.chars == old(self).chars,
                old(self).current <= self.current,
                old(self).start == self.start,
            decreases self.chars@.len() - self.current,
        {
            if self.is_at_end() {
                break;
            }
            if self.peek() == '\'' {
                break;
            }
            self.advance();
        }
        if self.is_at_end() {
            return Err(self.raise(CompilerError::Unterminated("char")));
        }
        self.advance();
        let from = if self.start + 1 <= self.current {
            self.start + 1
        } else {
            self.start
        };
        let to = if self.current > 0 && from <= self.current - 1 {
            self.current - 1
        } else {
            from
        };
        let value = self.lexeme(from, to);
        let cs = chars_of(value.as_str());
        if cs.len() != 1 {
            return Err(self.raise(CompilerError::IllegalCharLength(value)));
        }
        self.add_token_with_value(TokenType::Char, value);
        Ok(())
    }

    fn string_literal(&mut self) -> (r: Result<(), CompilerErrorAtLine>)
        requires
            old(self).wf(),
            old(self).start <= old(self).current,
        ensures
            final(self).wf(),
            final(self).chars == old(self).chars,
            old(self).current <= final(self).current,
            (r matches Err(e) ==> (e.error matches CompilerError::Unterminated(k) && k@
                == "string"@)),
    {
        loop
            invariant
                self.wf(),
                self.chars == old(self).chars,
                old(self).current <= self.current,
                old(self).start == self.start,
            decreases self.chars@.len() - self.current,
        {
            if self.is_at_end() {
                break;
            }
            if self.peek() == '"' {
                break;
            }
            if self.peek() == '\n' {
                if self.line < usize::MAX {
                    self.line = self.line + 1;
                }
            }
            self.advance();
        }
        if self.is_at_end() {
            return Err(self.raise(CompilerError::Unterminated("string")));
        }
        self.advance();
        let from = if self.start + 1 <= self.current {
            self.start + 1
        } else {
            self.start
        };
        let to = if self.current > 0 && from <= self.current - 1 {
            self.current - 1
        } else {
            from
        };
        let value = self.lexeme(from, to);
        self.add_token_with_value(TokenType::StringType, value);
        Ok(())
    }
}

} // verus!
