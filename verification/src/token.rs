//! Lexical units produced by the lexer. A token carries no position of its
//! own; the lexer pairs each token with the position where it started.

use vstd::prelude::*;

verus! {

/// One lexical unit: a keyword, identifier, literal, operator or punctuation.
#[derive(Debug, Clone, PartialEq)]
pub enum Token {
    /// A numeric literal, carried as its validated lexeme.
    NumberConstant(String),
    /// A string literal, carried with escape sequences already decoded.
    StringConstant(String),
    /// A character literal.
    CharConstant(char),
    /// An identifier.
    Identifier(String),
    True,
    False,
    Let,
    Const,
    If,
    Else,
    While,
    Loop,
    For,
    In,
    Break,
    Return,
    Fn,
    Import,
    LeftParen,
    RightParen,
    LeftBrace,
    RightBrace,
    LeftBracket,
    RightBracket,
    Comma,
    SemiColon,
    /// `=`
    Equals,
    Plus,
    Minus,
    Star,
    Slash,
    Percent,
    /// `==`
    EqualsTo,
    /// `!=`
    NotEqualsTo,
    LessThan,
    LessThanEqual,
    GreaterThan,
    GreaterThanEqual,
    /// `!`
    Bang,
    /// `&&`
    AndAnd,
    /// `||`
    OrOr,
    /// `&`: lexed, but no binary precedence is registered for it.
    Ampersand,
    /// `|`: lexed, but no binary precedence is registered for it.
    Pipe,
    /// `^`: lexed, but no binary precedence is registered for it.
    Caret,
}

} // verus!
