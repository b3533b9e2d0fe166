use vstd::prelude::*;

verus! {

/// A token of the language; `S` is the type of identifier names (`String`
/// in code, `Seq<char>` in specifications).
#[derive(Debug, PartialEq)]
pub enum TokenOf<S> {
    Ident(S),
    Int(i32),
    Return,
    Fn,
    Let,
    Equals,
    Semicolon,
    OpenParen,
    CloseParen,
    OpenCurly,
    CloseCurly,
    Plus,
    Minus,
    Asterisk,
    Slash,
    Colon,
    Comma,
    EOF,
}

pub type Token = TokenOf<String>;

pub type SToken = TokenOf<Seq<char>>;

impl View for TokenOf<String> {
    type V = SToken;

    open spec fn view(&self) -> SToken {
        match self {
            TokenOf::Ident(s) => TokenOf::Ident(s@),
            TokenOf::Int(v) => TokenOf::Int(*v),
            TokenOf::Return => TokenOf::Return,
            TokenOf::Fn => TokenOf::Fn,
            TokenOf::Let => TokenOf::Let,
            TokenOf::Equals => TokenOf::Equals,
            TokenOf::Semicolon => TokenOf::Semicolon,
            TokenOf::OpenParen => TokenOf::OpenParen,
            TokenOf::CloseParen => TokenOf::CloseParen,
            TokenOf::OpenCurly => TokenOf::OpenCurly,
            TokenOf::CloseCurly => TokenOf::CloseCurly,
            TokenOf::Plus => TokenOf::Plus,
            TokenOf::Minus => TokenOf::Minus,
            TokenOf::Asterisk => TokenOf::Asterisk,
            TokenOf::Slash => TokenOf::Slash,
            TokenOf::Colon => TokenOf::Colon,
            TokenOf::Comma => TokenOf::Comma,
            TokenOf::EOF => TokenOf::EOF,
        }
    }
}

impl TokenOf<String> {
    /// A copy of this token.
    pub fn duplicate(&self) -> (t: Token)
        ensures
            t@ == self@,
    {
        match self {
            TokenOf::Ident(s) => TokenOf::Ident(s.clone()),
            TokenOf::Int(v) => TokenOf::Int(*v),
            TokenOf::Return => TokenOf::Return,
            TokenOf::Fn => TokenOf::Fn,
            TokenOf::Let => TokenOf::Let,
            TokenOf::Equals => TokenOf::Equals,
            TokenOf::Semicolon => TokenOf::Semicolon,
            TokenOf::OpenParen => TokenOf::OpenParen,
            TokenOf::CloseParen => TokenOf::CloseParen,
            TokenOf::OpenCurly => TokenOf::OpenCurly,
            TokenOf::CloseCurly => TokenOf::CloseCurly,
            TokenOf::Plus => TokenOf::Plus,
            TokenOf::Minus => TokenOf::Minus,
            TokenOf::Asterisk => TokenOf::Asterisk,
            TokenOf::Slash => TokenOf::Slash,
            TokenOf::Colon => TokenOf::Colon,
            TokenOf::Comma => TokenOf::Comma,
            TokenOf::EOF => TokenOf::EOF,
        }
    }
}

/// The binding strength of a token as a binary operator: `+` and `-` bind
/// with 1, `*` and `/` with 2, every other token is no operator (0).
pub open spec fn precedence(t: SToken) -> u32 {
    match t {
        TokenOf::Plus | TokenOf::Minus => 1,
        TokenOf::Asterisk | TokenOf::Slash => 2,
        _ => 0,
    }
}

} // verus!
