//! Token model shared by the scanner, the parser and the type engine.

use vstd::prelude::*;

verus! {

/// One lexical token: its kind, the source text it covers (where that text
/// matters, e.g. identifiers and literals) and the line it was read on.
#[derive(Debug)]
pub struct Token {
    pub token_type: TokenType,
    pub lexeme: String,
    pub line: usize,
}

impl Clone for Token {
    /// A copy with the same kind, text and line.
    fn clone(&self) -> (r: Token)
        ensures
            r.token_type == self.token_type,
            r.lexeme@ == self.lexeme@,
            r.line == self.line,
    {
        Token { token_type: self.token_type, lexeme: self.lexeme.clone(), line: self.line }
    }
}

impl Token {
    pub fn new(token_type: TokenType, lexeme: String, line: usize) -> (t: Token)
        ensures
            t.token_type == token_type,
            t.lexeme == lexeme,
            t.line == line,
    {
        Token { token_type, lexeme, line }
    }
}

/// The closed set of token kinds. Type keywords double as the names of the
/// language's static types; `Integer`, `SignedInteger`, `UnsignedInteger` and
/// `FloatingPoint` are the untyped literal classes the coercion table works on.
#[derive(Debug, Clone, Copy, PartialEq, Eq, Structural)]
pub enum TokenType {
    Bang,
    BangEqual,
    BitAnd,
    Pipe,
    BitXor,
    Bool,
    Char,
    Colon,
    Comma,
    Date,
    Dot,
    Else,
    Eof,
    Eol,
    Equal,
    EqualEqual,
    Error,
    F32,
    F64,
    False,
    Fn,
    For,
    Greater,
    GreaterEqual,
    GreaterGreater,
    Hash,
    Hex,
    I32,
    I64,
    Identifier,
    If,
    Indent,
    Integer,
    SignedInteger,
    UnsignedInteger,
    LeftBrace,
    LeftBracket,
    LeftParen,
    Less,
    LessEqual,
    LessLess,
    Let,
    ListType,
    MapType,
    LogicalAnd,
    LogicalOr,
    Minus,
    Not,
    FloatingPoint,
    Object,
    Plus,
    Print,
    Question,
    Return,
    RightParen,
    RightBrace,
    RightBracket,
    Semicolon,
    SingleRightArrow,
    Slash,
    Star,
    StringType,
    Struct,
    True,
    DateTime,
    U32,
    U64,
    Unknown,
    Void,
    While,
}

/// The display name of a token kind, as it appears in diagnostics
/// ("Expected u32, found i32/64").
pub open spec fn spec_display_name(t: TokenType) -> Seq<char> {
    match t {
        TokenType::StringType => "string"@,
        TokenType::Date => "date"@,
        TokenType::Char => "char"@,
        TokenType::I32 => "i32"@,
        TokenType::I64 => "i64"@,
        TokenType::U32 => "u32"@,
        TokenType::U64 => "u64"@,
        TokenType::F32 => "f32"@,
        TokenType::F64 => "f64"@,
        TokenType::Bool => "bool"@,
        TokenType::Bang => "!"@,
        TokenType::BangEqual => "!="@,
        TokenType::BitAnd => "&"@,
        TokenType::Pipe => "|"@,
        TokenType::BitXor => "^"@,
        TokenType::Colon => ":"@,
        TokenType::Comma => ","@,
        TokenType::FloatingPoint => "float"@,
        TokenType::MapType => "map"@,
        TokenType::ListType => "list"@,
        TokenType::Dot => "."@,
        TokenType::Else => "else"@,
        TokenType::Eof => "EOF"@,
        TokenType::Eol => "EOL"@,
        TokenType::Equal => "="@,
        TokenType::EqualEqual => "=="@,
        TokenType::Error => "error"@,
        TokenType::False => "false"@,
        TokenType::Fn => "fn"@,
        TokenType::For => "for"@,
        TokenType::Greater => ">"@,
        TokenType::GreaterEqual => ">="@,
        TokenType::GreaterGreater => ">>"@,
        TokenType::Hash => "#"@,
        TokenType::Hex => "0x"@,
        TokenType::If => "if"@,
        TokenType::Identifier => "identifier"@,
        TokenType::Indent => "indent"@,
        TokenType::Integer => "integer"@,
        TokenType::LeftBrace => "{"@,
        TokenType::LeftBracket => "["@,
        TokenType::LeftParen => "("@,
        TokenType::Less => "<"@,
        TokenType::LessEqual => "<="@,
        TokenType::LessLess => "<<"@,
        TokenType::Let => "let"@,
        TokenType::LogicalAnd => "&&"@,
        TokenType::LogicalOr => "||"@,
        TokenType::Minus => "-"@,
        TokenType::Not => "not"@,
        TokenType::Object => "object"@,
        TokenType::Plus => "+"@,
        TokenType::Print => "print"@,
        TokenType::Question => "?"@,
        TokenType::Return => "return"@,
        TokenType::RightParen => ")"@,
        TokenType::RightBrace => "}"@,
        TokenType::RightBracket => "]"@,
        TokenType::Semicolon => ";"@,
        TokenType::SingleRightArrow => "->"@,
        TokenType::Slash => "/"@,
        TokenType::Star => "*"@,
        TokenType::Struct => "struct"@,
        TokenType::DateTime => "t\""@,
        TokenType::True => "true"@,
        TokenType::Unknown => "?"@,
        TokenType::Void => "()"@,
        TokenType::While => "while"@,
        TokenType::SignedInteger => "i32/64"@,
        TokenType::UnsignedInteger => "u32/64"@,
    }
}

/// Whether a token kind names one of the language's static types.
pub open spec fn spec_is_type(t: TokenType) -> bool {
    match t {
        TokenType::I32
        | TokenType::I64
        | TokenType::U32
        | TokenType::U64
        | TokenType::F32
        | TokenType::F64
        | TokenType::StringType
        | TokenType::Date
        | TokenType::Object
        | TokenType::ListType
        | TokenType::MapType
        | TokenType::Char => true,
        _ => false,
    }
}

impl TokenType {
    /// The display name used in diagnostics.
    pub fn display_name(&self) -> (r: &'static str)
        ensures
            r@ == spec_display_name(*self),
    {
        match self {
            TokenType::StringType => "string",
            TokenType::Date => "date",
            TokenType::Char => "char",
            TokenType::I32 => "i32",
            TokenType::I64 => "i64",
            TokenType::U32 => "u32",
            TokenType::U64 => "u64",
            TokenType::F32 => "f32",
            TokenType::F64 => "f64",
            TokenType::Bool => "bool",
            TokenType::Bang => "!",
            TokenType::BangEqual => "!=",
            TokenType::BitAnd => "&",
            TokenType::Pipe => "|",
            TokenType::BitXor => "^",
            TokenType::Colon => ":",
            TokenType::Comma => ",",
            TokenType::FloatingPoint => "float",
            TokenType::MapType => "map",
            TokenType::ListType => "list",
            TokenType::Dot => ".",
            TokenType::Else => "else",
            TokenType::Eof => "EOF",
            TokenType::Eol => "EOL",
            TokenType::Equal => "=",
            TokenType::EqualEqual => "==",
            TokenType::Error => "error",
            TokenType::False => "false",
            TokenType::Fn => "fn",
            TokenType::For => "for",
            TokenType::Greater => ">",
            TokenType::GreaterEqual => ">=",
            TokenType::GreaterGreater => ">>",
            TokenType::Hash => "#",
            TokenType::Hex => "0x",
            TokenType::If => "if",
            TokenType::Identifier => "identifier",
            TokenType::Indent => "indent",
            TokenType::Integer => "integer",
            TokenType::LeftBrace => "{",
            TokenType::LeftBracket => "[",
            TokenType::LeftParen => "(",
            TokenType::Less => "<",
            TokenType::LessEqual => "<=",
            TokenType::LessLess => "<<",
            TokenType::Let => "let",
            TokenType::LogicalAnd => "&&",
            TokenType::LogicalOr => "||",
            TokenType::Minus => "-",
            TokenType::Not => "not",
            TokenType::Object => "object",
            TokenType::Plus => "+",
            TokenType::Print => "print",
            TokenType::Question => "?",
            TokenType::Return => "return",
            TokenType::RightParen => ")",
            TokenType::RightBrace => "}",
            TokenType::RightBracket => "]",
            TokenType::Semicolon => ";",
            TokenType::SingleRightArrow => "->",
            TokenType::Slash => "/",
            TokenType::Star => "*",
            TokenType::Struct => "struct",
            TokenType::DateTime => "t\"",
            TokenType::True => "true",
            TokenType::Unknown => "?",
            TokenType::Void => "()",
            TokenType::While => "while",
            TokenType::SignedInteger => "i32/64",
            TokenType::UnsignedInteger => "u32/64",
        }
    }

    /// Whether this token kind names one of the language's static types.
    pub fn is_type(&self) -> (r: bool)
        ensures
            r == spec_is_type(*self),
    {
        match self {
            TokenType::I32
            | TokenType::I64
            | TokenType::U32
            | TokenType::U64
            | TokenType::F32
            | TokenType::F64
            | TokenType::StringType
            | TokenType::Date
            | TokenType::Object
            | TokenType::ListType
            | TokenType::MapType
            | TokenType::Char => true,
            _ => false,
        }
    }
}

} // verus!
