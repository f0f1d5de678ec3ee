//! The language's reserved words and the token kinds they scan to.

use vstd::prelude::*;

verus! {

use crate::text::str_eq;
use crate::tokens::TokenType;

/// The token kind of a reserved word, if the given text is one.
pub open spec fn spec_get_keyword(s: Seq<char>) -> Option<TokenType> {
    if s == "and"@ {
        Some(TokenType::LogicalAnd)
    } else if s == "bool"@ {
        Some(TokenType::Bool)
    } else if s == "char"@ {
        Some(TokenType::Char)
    } else if s == "date"@ {
        Some(TokenType::Date)
    } else if s == "else"@ {
        Some(TokenType::Else)
    } else if s == "false"@ {
        Some(TokenType::False)
    } else if s == "f32"@ {
        Some(TokenType::F32)
    } else if s == "f64"@ {
        Some(TokenType::F64)
    } else if s == "fn"@ {
        Some(TokenType::Fn)
    } else if s == "for"@ {
        Some(TokenType::For)
    } else if s == "if"@ {
        Some(TokenType::If)
    } else if s == "i32"@ {
        Some(TokenType::I32)
    } else if s == "i64"@ {
        Some(TokenType::I64)
    } else if s == "let"@ {
        Some(TokenType::Let)
    } else if s == "list"@ {
        Some(TokenType::ListType)
    } else if s == "map"@ {
        Some(TokenType::MapType)
    } else if s == "or"@ {
        Some(TokenType::LogicalOr)
    } else if s == "object"@ {
        Some(TokenType::Object)
    } else if s == "print"@ {
        Some(TokenType::Print)
    } else if s == "struct"@ {
        Some(TokenType::Struct)
    } else if s == "string"@ {
        Some(TokenType::StringType)
    } else if s == "true"@ {
        Some(TokenType::True)
    } else if s == "u32"@ {
        Some(TokenType::U32)
    } else if s == "u64"@ {
        Some(TokenType::U64)
    } else if s == "while"@ {
        Some(TokenType::While)
    } else {
        None
    }
}

/// Look a word up among the language's keywords.
pub fn get_keyword(lexeme: &str) -> (r: Option<TokenType>)
    ensures
        r == spec_get_keyword(lexeme@),
{
    if str_eq(lexeme, "and") {
        Some(TokenType::LogicalAnd)
    } else if str_eq(lexeme, "bool") {
        Some(TokenType::Bool)
    } else if str_eq(lexeme, "char") {
        Some(TokenType::Char)
    } else if str_eq(lexeme, "date") {
        Some(TokenType::Date)
    } else if str_eq(lexeme, "else") {
        Some(TokenType::Else)
    } else if str_eq(lexeme, "false") {
        Some(TokenType::False)
    } else if str_eq(lexeme, "f32") {
        Some(TokenType::F32)
    } else if str_eq(lexeme, "f64") {
        Some(TokenType::F64)
    } else if str_eq(lexeme, "fn") {
        Some(TokenType::Fn)
    } else if str_eq(lexeme, "for") {
        Some(TokenType::For)
    } else if str_eq(lexeme, "if") {
        Some(TokenType::If)
    } else if str_eq(lexeme, "i32") {
        Some(TokenType::I32)
    } else if str_eq(lexeme, "i64") {
        Some(TokenType::I64)
    } else if str_eq(lexeme, "let") {
        Some(TokenType::Let)
    } else if str_eq(lexeme, "list") {
        Some(TokenType::ListType)
    } else if str_eq(lexeme, "map") {
        Some(TokenType::MapType)
    } else if str_eq(lexeme, "or") {
        Some(TokenType::LogicalOr)
    } else if str_eq(lexeme, "object") {
        Some(TokenType::Object)
    } else if str_eq(lexeme, "print") {
        Some(TokenType::Print)
    } else if str_eq(lexeme, "struct") {
        Some(TokenType::Struct)
    } else if str_eq(lexeme, "string") {
        Some(TokenType::StringType)
    } else if str_eq(lexeme, "true") {
        Some(TokenType::True)
    } else if str_eq(lexeme, "u32") {
        Some(TokenType::U32)
    } else if str_eq(lexeme, "u64") {
        Some(TokenType::U64)
    } else if str_eq(lexeme, "while") {
        Some(TokenType::While)
    } else {
        None
    }
}

} // verus!
