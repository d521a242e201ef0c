//! Tokens: what the lexer produces and the parser consumes.
use vstd::prelude::*;

verus! {

/// The kind of a token.
#[derive(Debug, Clone, Copy, PartialEq, Eq, Structural)]
pub enum TokenType {
    LCurly,
    RCurly,
    LParen,
    RParen,
    Comma,
    Dot,
    Colon,
    Semicolon,
    Eof,
    // Comparison and equality
    And,
    Or,
    Bang,
    Eq,
    EqEq,
    Ne,
    Gt,
    Gte,
    Lt,
    Lte,
    // Operators
    Plus,
    PlusEq,
    Minus,
    MinusEq,
    Star,
    StarEq,
    Slash,
    SlashEq,
    // Keywords
    If,
    Else,
    Let,
    Struct,
    SSelf,
    While,
    For,
    Return,
    Fun,
    True,
    False,
    Null,
    Print,
    // Literals
    Ident,
    Number,
    String,
    Char,
}

/// A token: its kind, the text it was read from, and the line it stands on.
#[derive(Debug, PartialEq)]
pub struct Token {
    pub ty: TokenType,
    pub lexeme: String,
    pub line: u32,
}

/// The mathematical value of a [`Token`].
pub struct TokenView {
    pub ty: TokenType,
    pub lexeme: Seq<char>,
    pub line: u32,
}

impl View for Token {
    type V = TokenView;

    open spec fn view(&self) -> TokenView {
        TokenView { ty: self.ty, lexeme: self.lexeme@, line: self.line }
    }
}

impl Clone for Token {
    fn clone(&self) -> (r: Self)
        ensures
            r@ == self@,
    {
        Token { ty: self.ty, lexeme: self.lexeme.clone(), line: self.line }
    }
}

impl Token {
    /// The token of kind `ty` read from `lexeme` on line `line`.
    pub fn new(ty: TokenType, lexeme: String, line: u32) -> (r: Self)
        ensures
            r@ == (TokenView { ty, lexeme: lexeme@, line }),
    {
        Self { ty, lexeme, line }
    }

    /// The token as text: its kind and its lexeme in square brackets.
    pub fn to_string(&self) -> (r: String)
        ensures
            r@ == seq!['['] + kind_name(self.ty) + seq![' '] + self.lexeme@ + seq![']'],
    {
        let mut r = String::new();
        r.push('[');
        r.append(kind_text(self.ty));
        r.push(' ');
        r.append(self.lexeme.as_str());
        r.push(']');
        assert(r@ =~= seq!['['] + kind_name(self.ty) + seq![' '] + self.lexeme@ + seq![']']);
        r
    }
}

/// The views of a sequence of tokens.
pub open spec fn token_views(tokens: Seq<Token>) -> Seq<TokenView> {
    Seq::new(tokens.len(), |i: int| tokens[i]@)
}

/// The name of a token kind.
pub open spec fn kind_name(ty: TokenType) -> Seq<char> {
    match ty {
        TokenType::LCurly => "LCurly"@,
        TokenType::RCurly => "RCurly"@,
        TokenType::LParen => "LParen"@,
        TokenType::RParen => "RParen"@,
        TokenType::Comma => "Comma"@,
        TokenType::Dot => "Dot"@,
        TokenType::Colon => "Colon"@,
        TokenType::Semicolon => "Semicolon"@,
        TokenType::Eof => "Eof"@,
        TokenType::And => "And"@,
        TokenType::Or => "Or"@,
        TokenType::Bang => "Bang"@,
        TokenType::Eq => "Eq"@,
        TokenType::EqEq => "EqEq"@,
        TokenType::Ne => "Ne"@,
        TokenType::Gt => "Gt"@,
        TokenType::Gte => "Gte"@,
        TokenType::Lt => "Lt"@,
        TokenType::Lte => "Lte"@,
        TokenType::Plus => "Plus"@,
        TokenType::PlusEq => "PlusEq"@,
        TokenType::Minus => "Minus"@,
        TokenType::MinusEq => "MinusEq"@,
        TokenType::Star => "Star"@,
        TokenType::StarEq => "StarEq"@,
        TokenType::Slash => "Slash"@,
        TokenType::SlashEq => "SlashEq"@,
        TokenType::If => "If"@,
        TokenType::Else => "Else"@,
        TokenType::Let => "Let"@,
        TokenType::Struct => "Struct"@,
        TokenType::SSelf => "SSelf"@,
        TokenType::While => "While"@,
        TokenType::For => "For"@,
        TokenType::Return => "Return"@,
        TokenType::Fun => "Fun"@,
        TokenType::True => "True"@,
        TokenType::False => "False"@,
        TokenType::Null => "Null"@,
        TokenType::Print => "Print"@,
        TokenType::Ident => "Ident"@,
        TokenType::Number => "Number"@,
        TokenType::String => "String"@,
        TokenType::Char => "Char"@,
    }
}

/// The name of a token kind.
fn kind_text(ty: TokenType) -> (r: &'static str)
    ensures
        r@ == kind_name(ty),
{
    match ty {
        TokenType::LCurly => "LCurly",
        TokenType::RCurly => "RCurly",
        TokenType::LParen => "LParen",
        TokenType::RParen => "RParen",
        TokenType::Comma => "Comma",
        TokenType::Dot => "Dot",
        TokenType::Colon => "Colon",
        TokenType::Semicolon => "Semicolon",
        TokenType::Eof => "Eof",
        TokenType::And => "And",
        TokenType::Or => "Or",
        TokenType::Bang => "Bang",
        TokenType::Eq => "Eq",
        TokenType::EqEq => "EqEq",
        TokenType::Ne => "Ne",
        TokenType::Gt => "Gt",
        TokenType::Gte => "Gte",
        TokenType::Lt => "Lt",
        TokenType::Lte => "Lte",
        TokenType::Plus => "Plus",
        TokenType::PlusEq => "PlusEq",
        TokenType::Minus => "Minus",
        TokenType::MinusEq => "MinusEq",
        TokenType::Star => "Star",
        TokenType::StarEq => "StarEq",
        TokenType::Slash => "Slash",
        TokenType::SlashEq => "SlashEq",
        TokenType::If => "If",
        TokenType::Else => "Else",
        TokenType::Let => "Let",
        TokenType::Struct => "Struct",
        TokenType::SSelf => "SSelf",
        TokenType::While => "While",
        TokenType::For => "For",
        TokenType::Return => "Return",
        TokenType::Fun => "Fun",
        TokenType::True => "True",
        TokenType::False => "False",
        TokenType::Null => "Null",
        TokenType::Print => "Print",
        TokenType::Ident => "Ident",
        TokenType::Number => "Number",
        TokenType::String => "String",
        TokenType::Char => "Char",
    }
}

} // verus!
