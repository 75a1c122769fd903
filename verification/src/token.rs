//! The token data types the scanner produces.
//!
//! `TokenType` is the closed set of token categories; identifiers carry
//! their spelling and integer literals their parsed value.  `Token` pairs a
//! kind with the literal text it was scanned from.  Both types view into
//! the model: a `TokenType` views as a `model::TokenKind` and a `Token` as
//! a `SpecToken`, so every contract can speak of tokens mathematically.

use vstd::prelude::*;
use crate::model::TokenKind;

verus! {

/// Category of a token.  The variant names keep the scanner's traditional
/// spellings; `ILLEGAL` carries the unrecognized byte and `INVALID_INT`
/// marks a digit run whose value overflows `i64`.
#[allow(non_camel_case_types)]
#[derive(Debug, Clone, PartialEq, Eq)]
pub enum TokenType {
    EOF,
    ILLEGAL(u8),
    IDENT(String),
    INT(i64),
    INVALID_INT,
    ASSIGN,
    PLUS,
    MINUS,
    BANG,
    ASTERISK,
    SLASH,
    LT,
    GT,
    EQ,
    NotEQ,
    COMMA,
    SEMICOLON,
    LPAREN,
    RPAREN,
    LBRACE,
    RBRACE,
    LET,
    FUNCTION,
    IF,
    TRUE,
    FALSE,
    ELSE,
    RETURN,
}

impl View for TokenType {
    type V = TokenKind;

    open spec fn view(&self) -> TokenKind {
        match self {
            TokenType::EOF => TokenKind::Eof,
            TokenType::ILLEGAL(b) => TokenKind::Illegal(*b),
            TokenType::IDENT(s) => TokenKind::Ident(s@),
            TokenType::INT(v) => TokenKind::IntLit(*v as int),
            TokenType::INVALID_INT => TokenKind::IntOverflow,
            TokenType::ASSIGN => TokenKind::Assign,
            TokenType::PLUS => TokenKind::Plus,
            TokenType::MINUS => TokenKind::Minus,
            TokenType::BANG => TokenKind::Bang,
            TokenType::ASTERISK => TokenKind::Asterisk,
            TokenType::SLASH => TokenKind::Slash,
            TokenType::LT => TokenKind::Lt,
            TokenType::GT => TokenKind::Gt,
            TokenType::EQ => TokenKind::EqEq,
            TokenType::NotEQ => TokenKind::NotEq,
            TokenType::COMMA => TokenKind::Comma,
            TokenType::SEMICOLON => TokenKind::Semicolon,
            TokenType::LPAREN => TokenKind::LParen,
            TokenType::RPAREN => TokenKind::RParen,
            TokenType::LBRACE => TokenKind::LBrace,
            TokenType::RBRACE => TokenKind::RBrace,
            TokenType::LET => TokenKind::KwLet,
            TokenType::FUNCTION => TokenKind::KwFunction,
            TokenType::IF => TokenKind::KwIf,
            TokenType::TRUE => TokenKind::KwTrue,
            TokenType::FALSE => TokenKind::KwFalse,
            TokenType::ELSE => TokenKind::KwElse,
            TokenType::RETURN => TokenKind::KwReturn,
        }
    }
}

/// Specification-level image of a `Token`: its kind and literal text.
pub struct SpecToken {
    pub kind: TokenKind,
    pub lit: Seq<char>,
}

/// A scanned token: an immutable pair of kind and literal source text.
#[derive(Debug, Clone, PartialEq, Eq)]
pub struct Token {
    pub token_type: TokenType,
    pub literal: String,
}

impl View for Token {
    type V = SpecToken;

    open spec fn view(&self) -> SpecToken {
        SpecToken { kind: self.token_type@, lit: self.literal@ }
    }
}

} // verus!
