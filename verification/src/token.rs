//! The token vocabulary of the scanner.
//!
//! `Token` is the executable value handed to callers; `TokenView` is its
//! mathematical counterpart, carrying identifier and numeral text as a
//! `Seq<char>`, so that contracts can speak of tokens independently of
//! `String` representation.

use vstd::prelude::*;

verus! {

/// A classified lexical element of the source text.
///
/// `Ident` and `Int` carry the exact slice of source text they were read
/// from; every other variant stands for itself.
#[derive(Debug, PartialEq, Eq)]
pub enum Token {
    /// An unrecognized character.
    Illegal,
    /// End of input; repeats forever once produced.
    Eof,
    /// An identifier that is not a reserved word.
    Ident(String),
    /// A decimal integer literal, kept as its raw digit text.
    Int(String),
    /// `=`
    Assign,
    /// `+`
    Plus,
    /// `-`
    Minus,
    /// `:` (type-annotation introducer)
    In,
    /// `->` (function-type arrow)
    To,
    /// `,`
    Comma,
    /// `;`
    Semicolon,
    /// `(`
    LParen,
    /// `)`
    RParen,
    /// `{`
    LBrace,
    /// `}`
    RBrace,
    /// The reserved word `let`.
    Let,
}

/// The mathematical shape of a `Token`: the same variants, with captured
/// text abstracted to a sequence of characters.
pub enum TokenView {
    Illegal,
    Eof,
    Ident(Seq<char>),
    Int(Seq<char>),
    Assign,
    Plus,
    Minus,
    In,
    To,
    Comma,
    Semicolon,
    LParen,
    RParen,
    LBrace,
    RBrace,
    Let,
}

impl View for Token {
    type V = TokenView;

    open spec fn view(&self) -> TokenView {
        match self {
            Token::Illegal => TokenView::Illegal,
            Token::Eof => TokenView::Eof,
            Token::Ident(s) => TokenView::Ident(s@),
            Token::Int(s) => TokenView::Int(s@),
            Token::Assign => TokenView::Assign,
            Token::Plus => TokenView::Plus,
            Token::Minus => TokenView::Minus,
            Token::In => TokenView::In,
            Token::To => TokenView::To,
            Token::Comma => TokenView::Comma,
            Token::Semicolon => TokenView::Semicolon,
            Token::LParen => TokenView::LParen,
            Token::RParen => TokenView::RParen,
            Token::LBrace => TokenView::LBrace,
            Token::RBrace => TokenView::RBrace,
            Token::Let => TokenView::Let,
        }
    }
}

} // verus!
