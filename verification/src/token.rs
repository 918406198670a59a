//! Tokens produced by the lexer: kinds, source spans, and display names.

use vstd::prelude::*;

verus! {

/// Half-open byte range `[start, end)` into the source text.
#[derive(Debug, Clone, Copy, PartialEq, Eq, Structural)]
pub struct Span {
    pub start: usize,
    pub end: usize,
}

/// Token kinds emitted by the lexer.
#[derive(Debug, Clone)]
pub enum TokenKind {
    // Keywords
    Let,
    Fn,
    If,
    Else,
    While,
    Return,
    // Identifiers + literals
    Ident(String),
    Int(i64),
    // Operators
    Plus,
    Minus,
    Star,
    Slash,
    Percentage,
    Equal,
    // Comparison operators
    EqualEqual,
    NotEqual,
    Less,
    LessEqual,
    Greater,
    GreaterEqual,
    // Delimiters
    LParen,
    RParen,
    LBrace,
    RBrace,
    Semicolon,
    Comma,
    // Type hints
    Colon,
    Arrow,
    IntType,
    Eof,
}

/// Mathematical model of a token kind: identifier names as character
/// sequences rather than heap strings.
pub enum TokenKindV {
    Let,
    Fn,
    If,
    Else,
    While,
    Return,
    Ident(Seq<char>),
    Int(i64),
    Plus,
    Minus,
    Star,
    Slash,
    Percentage,
    Equal,
    EqualEqual,
    NotEqual,
    Less,
    LessEqual,
    Greater,
    GreaterEqual,
    LParen,
    RParen,
    LBrace,
    RBrace,
    Semicolon,
    Comma,
    Colon,
    Arrow,
    IntType,
    Eof,
}

impl View for TokenKind {
    type V = TokenKindV;

    open spec fn view(&self) -> TokenKindV {
        match self {
            TokenKind::Let => TokenKindV::Let,
            TokenKind::Fn => TokenKindV::Fn,
            TokenKind::If => TokenKindV::If,
            TokenKind::Else => TokenKindV::Else,
            TokenKind::While => TokenKindV::While,
            TokenKind::Return => TokenKindV::Return,
            TokenKind::Ident(s) => TokenKindV::Ident(s@),
            TokenKind::Int(v) => TokenKindV::Int(*v),
            TokenKind::Plus => TokenKindV::Plus,
            TokenKind::Minus => TokenKindV::Minus,
            TokenKind::Star => TokenKindV::Star,
            TokenKind::Slash => TokenKindV::Slash,
            TokenKind::Percentage => TokenKindV::Percentage,
            TokenKind::Equal => TokenKindV::Equal,
            TokenKind::EqualEqual => TokenKindV::EqualEqual,
            TokenKind::NotEqual => TokenKindV::NotEqual,
            TokenKind::Less => TokenKindV::Less,
            TokenKind::LessEqual => TokenKindV::LessEqual,
            TokenKind::Greater => TokenKindV::Greater,
            TokenKind::GreaterEqual => TokenKindV::GreaterEqual,
            TokenKind::LParen => TokenKindV::LParen,
            TokenKind::RParen => TokenKindV::RParen,
            TokenKind::LBrace => TokenKindV::LBrace,
            TokenKind::RBrace => TokenKindV::RBrace,
            TokenKind::Semicolon => TokenKindV::Semicolon,
            TokenKind::Comma => TokenKindV::Comma,
            TokenKind::Colon => TokenKindV::Colon,
            TokenKind::Arrow => TokenKindV::Arrow,
            TokenKind::IntType => TokenKindV::IntType,
            TokenKind::Eof => TokenKindV::Eof,
        }
    }
}

impl TokenKind {
    /// Human-readable token name for diagnostics.
    pub fn name(&self) -> (r: String)
        ensures
            r@ == kind_name(self@),
    {
        match self {
            TokenKind::Let => String::from_str("Let"),
            TokenKind::Fn => String::from_str("Fn"),
            TokenKind::If => String::from_str("If"),
            TokenKind::Else => String::from_str("Else"),
            TokenKind::While => String::from_str("While"),
            TokenKind::Return => String::from_str("Return"),
            TokenKind::Ident(_) => String::from_str("identifier"),
            TokenKind::Int(_) => String::from_str("integer literal"),
            TokenKind::Plus => String::from_str("Plus"),
            TokenKind::Minus => String::from_str("Minus"),
            TokenKind::Star => String::from_str("Star"),
            TokenKind::Slash => String::from_str("Slash"),
            TokenKind::Percentage => String::from_str("Percentage"),
            TokenKind::Equal => String::from_str("Equal"),
            TokenKind::EqualEqual => String::from_str("EqualEqual"),
            TokenKind::NotEqual => String::from_str("NotEqual"),
            TokenKind::Less => String::from_str("Less"),
            TokenKind::LessEqual => String::from_str("LessEqual"),
            TokenKind::Greater => String::from_str("Greater"),
            TokenKind::GreaterEqual => String::from_str("GreaterEqual"),
            TokenKind::LParen => String::from_str("LParen"),
            TokenKind::RParen => String::from_str("RParen"),
            TokenKind::LBrace => String::from_str("LBrace"),
            TokenKind::RBrace => String::from_str("RBrace"),
            TokenKind::Semicolon => String::from_str("Semicolon"),
            TokenKind::Comma => String::from_str("Comma"),
            TokenKind::Colon => String::from_str("Colon"),
            TokenKind::Arrow => String::from_str("Arrow"),
            TokenKind::IntType => String::from_str("IntType"),
            TokenKind::Eof => String::from_str("Eof"),
        }
    }
}

/// The display name of each token kind, as `name` returns it.
pub open spec fn kind_name(k: TokenKindV) -> Seq<char> {
    match k {
        TokenKindV::Let => "Let"@,
        TokenKindV::Fn => "Fn"@,
        TokenKindV::If => "If"@,
        TokenKindV::Else => "Else"@,
        TokenKindV::While => "While"@,
        TokenKindV::Return => "Return"@,
        TokenKindV::Ident(_) => "identifier"@,
        TokenKindV::Int(_) => "integer literal"@,
        TokenKindV::Plus => "Plus"@,
        TokenKindV::Minus => "Minus"@,
        TokenKindV::Star => "Star"@,
        TokenKindV::Slash => "Slash"@,
        TokenKindV::Percentage => "Percentage"@,
        TokenKindV::Equal => "Equal"@,
        TokenKindV::EqualEqual => "EqualEqual"@,
        TokenKindV::NotEqual => "NotEqual"@,
        TokenKindV::Less => "Less"@,
        TokenKindV::LessEqual => "LessEqual"@,
        TokenKindV::Greater => "Greater"@,
        TokenKindV::GreaterEqual => "GreaterEqual"@,
        TokenKindV::LParen => "LParen"@,
        TokenKindV::RParen => "RParen"@,
        TokenKindV::RBrace => "RBrace"@,
        TokenKindV::LBrace => "LBrace"@,
        TokenKindV::Semicolon => "Semicolon"@,
        TokenKindV::Comma => "Comma"@,
        TokenKindV::Colon => "Colon"@,
        TokenKindV::Arrow => "Arrow"@,
        TokenKindV::IntType => "IntType"@,
        TokenKindV::Eof => "Eof"@,
    }
}

impl PartialEq for TokenKind {
    /// Two kinds are equal when they are the same variant and any payload
    /// (identifier name, integer value) is equal.
    #[verifier::rlimit(60)]
    fn eq(&self, other: &TokenKind) -> (r: bool) {
        match (self, other) {
            (TokenKind::Let, TokenKind::Let) => true,
            (TokenKind::Fn, TokenKind::Fn) => true,
            (TokenKind::If, TokenKind::If) => true,
            (TokenKind::Else, TokenKind::Else) => true,
            (TokenKind::While, TokenKind::While) => true,
            (TokenKind::Return, TokenKind::Return) => true,
            (TokenKind::Ident(a), TokenKind::Ident(b)) => *a == *b,
            (TokenKind::Int(a), TokenKind::Int(b)) => *a == *b,
            (TokenKind::Plus, TokenKind::Plus) => true,
            (TokenKind::Minus, TokenKind::Minus) => true,
            (TokenKind::Star, TokenKind::Star) => true,
            (TokenKind::Slash, TokenKind::Slash) => true,
            (TokenKind::Percentage, TokenKind::Percentage) => true,
            (TokenKind::Equal, TokenKind::Equal) => true,
            (TokenKind::EqualEqual, TokenKind::EqualEqual) => true,
            (TokenKind::NotEqual, TokenKind::NotEqual) => true,
            (TokenKind::Less, TokenKind::Less) => true,
            (TokenKind::LessEqual, TokenKind::LessEqual) => true,
            (TokenKind::Greater, TokenKind::Greater) => true,
            (TokenKind::GreaterEqual, TokenKind::GreaterEqual) => true,
            (TokenKind::LParen, TokenKind::LParen) => true,
            (TokenKind::RParen, TokenKind::RParen) => true,
            (TokenKind::LBrace, TokenKind::LBrace) => true,
            (TokenKind::RBrace, TokenKind::RBrace) => true,
            (TokenKind::Semicolon, TokenKind::Semicolon) => true,
            (TokenKind::Comma, TokenKind::Comma) => true,
            (TokenKind::Colon, TokenKind::Colon) => true,
            (TokenKind::Arrow, TokenKind::Arrow) => true,
            (TokenKind::IntType, TokenKind::IntType) => true,
            (TokenKind::Eof, TokenKind::Eof) => true,
            _ => false,
        }
    }
}

impl vstd::std_specs::cmp::PartialEqSpecImpl for TokenKind {
    open spec fn obeys_eq_spec() -> bool {
        true
    }

    open spec fn eq_spec(&self, other: &TokenKind) -> bool {
        self@ == other@
    }
}

impl Eq for TokenKind {

}

/// One token with source span information.
#[derive(Debug, Clone)]
pub struct Token {
    pub kind: TokenKind,
    pub span: Span,
}

/// Mathematical model of one token.
pub struct TokenV {
    pub kind: TokenKindV,
    pub span: Span,
}

impl View for Token {
    type V = TokenV;

    open spec fn view(&self) -> TokenV {
        TokenV { kind: self.kind@, span: self.span }
    }
}

impl DeepView for Token {
    type V = TokenV;

    open spec fn deep_view(&self) -> TokenV {
        self@
    }
}

impl Token {
    /// An owned copy of this token, with the same model.
    pub fn duplicate(&self) -> (r: Token)
        ensures
            r@ == self@,
    {
        let kind = match &self.kind {
            TokenKind::Let => TokenKind::Let,
            TokenKind::Fn => TokenKind::Fn,
            TokenKind::If => TokenKind::If,
            TokenKind::Else => TokenKind::Else,
            TokenKind::While => TokenKind::While,
            TokenKind::Return => TokenKind::Return,
            TokenKind::Ident(s) => TokenKind::Ident(s.clone()),
            TokenKind::Int(v) => TokenKind::Int(*v),
            TokenKind::Plus => TokenKind::Plus,
            TokenKind::Minus => TokenKind::Minus,
            TokenKind::Star => TokenKind::Star,
            TokenKind::Slash => TokenKind::Slash,
            TokenKind::Percentage => TokenKind::Percentage,
            TokenKind::Equal => TokenKind::Equal,
            TokenKind::EqualEqual => TokenKind::EqualEqual,
            TokenKind::NotEqual => TokenKind::NotEqual,
            TokenKind::Less => TokenKind::Less,
            TokenKind::LessEqual => TokenKind::LessEqual,
            TokenKind::Greater => TokenKind::Greater,
            TokenKind::GreaterEqual => TokenKind::GreaterEqual,
            TokenKind::LParen => TokenKind::LParen,
            TokenKind::RParen => TokenKind::RParen,
            TokenKind::LBrace => TokenKind::LBrace,
            TokenKind::RBrace => TokenKind::RBrace,
            TokenKind::Semicolon => TokenKind::Semicolon,
            TokenKind::Comma => TokenKind::Comma,
            TokenKind::Colon => TokenKind::Colon,
            TokenKind::Arrow => TokenKind::Arrow,
            TokenKind::IntType => TokenKind::IntType,
            TokenKind::Eof => TokenKind::Eof,
        };
        Token { kind, span: self.span }
    }
}

} // verus!
