use vstd::prelude::*;

verus! {

/// The kind of a lexical token. A closed enumeration: every byte of source
/// text maps to exactly one of these, with `Illegal` for bytes the lexer does
/// not recognise and `Eof` for the end of the input.
#[derive(Debug, PartialEq, Eq, Clone, Copy, Hash, Structural)]
pub enum TokenType {
    Illegal,
    Eof,
    Ident,
    Int,
    Assign,
    Plus,
    Comma,
    Semicolon,
    LParen,
    RParen,
    LBrace,
    RBrace,
    Function,
    Let,
    Equal,
    Return,
    True,
    False,
    Minus,
    Bang,
    BangEqual,
    Asterisk,
    Slash,
    LessThan,
    GreaterThan,
    If,
    Else,
}

/// Mathematical image of a token: its kind and the characters of its literal.
pub struct TokenV {
    pub token_type: TokenType,
    pub literal: Seq<char>,
}

/// A lexical token: its kind plus the exact source text that produced it
/// (empty for `Eof` and `Illegal`).
#[derive(Debug, PartialEq)]
pub struct Token {
    pub token_type: TokenType,
    pub literal: String,
}

impl View for Token {
    type V = TokenV;

    open spec fn view(&self) -> TokenV {
        TokenV { token_type: self.token_type, literal: self.literal@ }
    }
}

impl Clone for Token {
    fn clone(&self) -> (r: Token)
        ensures
            r == *self,
    {
        Token { token_type: self.token_type, literal: self.literal.clone() }
    }
}

impl Token {
    pub fn new(token_type: TokenType, literal: String) -> (t: Token)
        ensures
            t@ == (TokenV { token_type, literal: literal@ }),
    {
        Token { token_type, literal }
    }
}

/// The name of a token kind, as it appears in diagnostic messages.
pub open spec fn spec_token_type_name(t: TokenType) -> Seq<char> {
    match t {
        TokenType::Illegal => "Illegal"@,
        TokenType::Eof => "Eof"@,
        TokenType::Ident => "Ident"@,
        TokenType::Int => "Int"@,
        TokenType::Assign => "Assign"@,
        TokenType::Plus => "Plus"@,
        TokenType::Comma => "Comma"@,
        TokenType::Semicolon => "Semicolon"@,
        TokenType::LParen => "LParen"@,
        TokenType::RParen => "RParen"@,
        TokenType::LBrace => "LBrace"@,
        TokenType::RBrace => "RBrace"@,
        TokenType::Function => "Function"@,
        TokenType::Let => "Let"@,
        TokenType::Equal => "Equal"@,
        TokenType::Return => "Return"@,
        TokenType::True => "True"@,
        TokenType::False => "False"@,
        TokenType::Minus => "Minus"@,
        TokenType::Bang => "Bang"@,
        TokenType::BangEqual => "BangEqual"@,
        TokenType::Asterisk => "Asterisk"@,
        TokenType::Slash => "Slash"@,
        TokenType::LessThan => "LessThan"@,
        TokenType::GreaterThan => "GreaterThan"@,
        TokenType::If => "If"@,
        TokenType::Else => "Else"@,
    }
}

/// Renders a token kind's name for diagnostic messages.
pub fn token_type_name(t: TokenType) -> (r: String)
    ensures
        r@ == spec_token_type_name(t),
{
    match t {
        TokenType::Illegal => "Illegal".to_owned(),
        TokenType::Eof => "Eof".to_owned(),
        TokenType::Ident => "Ident".to_owned(),
        TokenType::Int => "Int".to_owned(),
        TokenType::Assign => "Assign".to_owned(),
        TokenType::Plus => "Plus".to_owned(),
        TokenType::Comma => "Comma".to_owned(),
        TokenType::Semicolon => "Semicolon".to_owned(),
        TokenType::LParen => "LParen".to_owned(),
        TokenType::RParen => "RParen".to_owned(),
        TokenType::LBrace => "LBrace".to_owned(),
        TokenType::RBrace => "RBrace".to_owned(),
        TokenType::Function => "Function".to_owned(),
        TokenType::Let => "Let".to_owned(),
        TokenType::Equal => "Equal".to_owned(),
        TokenType::Return => "Return".to_owned(),
        TokenType::True => "True".to_owned(),
        TokenType::False => "False".to_owned(),
        TokenType::Minus => "Minus".to_owned(),
        TokenType::Bang => "Bang".to_owned(),
        TokenType::BangEqual => "BangEqual".to_owned(),
        TokenType::Asterisk => "Asterisk".to_owned(),
        TokenType::Slash => "Slash".to_owned(),
        TokenType::LessThan => "LessThan".to_owned(),
        TokenType::GreaterThan => "GreaterThan".to_owned(),
        TokenType::If => "If".to_owned(),
        TokenType::Else => "Else".to_owned(),
    }
}

} // verus!
