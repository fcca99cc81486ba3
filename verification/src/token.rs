//! Lexical tokens.

use vstd::prelude::*;

verus! {

/// What a token is, without what it carries.
#[derive(Debug, Clone, Copy, PartialEq, Eq, Structural)]
pub enum TokenKind {
    LeftParen,
    RightParen,
    LeftBrace,
    RightBrace,
    Comma,
    Dot,
    Minus,
    Plus,
    Semicolon,
    Slash,
    Star,
    Bang,
    BangEqual,
    Equal,
    EqualEqual,
    Greater,
    GreaterEqual,
    Less,
    LessEqual,
    Identifier,
    String,
    Number,
    Numeral,
    And,
    Class,
    Else,
    False,
    For,
    Fun,
    If,
    Nil,
    Or,
    Print,
    Return,
    Super,
    This,
    True,
    Var,
    While,
    Error,
    Eof,
}

/// A token.
#[derive(Debug, PartialEq, Eq)]
pub enum TokenType {
    LeftParen,
    RightParen,
    LeftBrace,
    RightBrace,
    Comma,
    Dot,
    Minus,
    Plus,
    Semicolon,
    Slash,
    Star,
    Bang,
    BangEqual,
    Equal,
    EqualEqual,
    Greater,
    GreaterEqual,
    Less,
    LessEqual,
    /// A name.
    Identifier(String),
    /// A string literal, without its quotes.
    String(String),
    /// A number literal, as the bit pattern of its binary64 value.
    Number(u64),
    /// A number literal as it is written, before it is converted.
    Numeral(String),
    And,
    Class,
    Else,
    False,
    For,
    Fun,
    If,
    Nil,
    Or,
    Print,
    Return,
    Super,
    This,
    True,
    Var,
    While,
    /// Text that is no token: a character that starts none, or a numeral
    /// that stands for no number.
    Error(String),
    /// The end of the input.
    Eof,
}

/// The mathematical model of a token: its kind, the text it carries (empty
/// if it carries none) and the number it carries (zero if it carries none).
pub ghost struct Token {
    pub kind: TokenKind,
    pub text: Seq<char>,
    pub number: u64,
}

impl Token {
    /// A token that carries nothing.
    pub open spec fn bare(kind: TokenKind) -> Token {
        Token { kind, text: Seq::empty(), number: 0 }
    }

    /// A token that carries text.
    pub open spec fn with_text(kind: TokenKind, text: Seq<char>) -> Token {
        Token { kind, text, number: 0 }
    }
}

impl View for TokenType {
    type V = Token;

    open spec fn view(&self) -> Token {
        match self {
            TokenType::LeftParen => Token::bare(TokenKind::LeftParen),
            TokenType::RightParen => Token::bare(TokenKind::RightParen),
            TokenType::LeftBrace => Token::bare(TokenKind::LeftBrace),
            TokenType::RightBrace => Token::bare(TokenKind::RightBrace),
            TokenType::Comma => Token::bare(TokenKind::Comma),
            TokenType::Dot => Token::bare(TokenKind::Dot),
            TokenType::Minus => Token::bare(TokenKind::Minus),
            TokenType::Plus => Token::bare(TokenKind::Plus),
            TokenType::Semicolon => Token::bare(TokenKind::Semicolon),
            TokenType::Slash => Token::bare(TokenKind::Slash),
            TokenType::Star => Token::bare(TokenKind::Star),
            TokenType::Bang => Token::bare(TokenKind::Bang),
            TokenType::BangEqual => Token::bare(TokenKind::BangEqual),
            TokenType::Equal => Token::bare(TokenKind::Equal),
            TokenType::EqualEqual => Token::bare(TokenKind::EqualEqual),
            TokenType::Greater => Token::bare(TokenKind::Greater),
            TokenType::GreaterEqual => Token::bare(TokenKind::GreaterEqual),
            TokenType::Less => Token::bare(TokenKind::Less),
            TokenType::LessEqual => Token::bare(TokenKind::LessEqual),
            TokenType::Identifier(s) => Token::with_text(TokenKind::Identifier, s@),
            TokenType::String(s) => Token::with_text(TokenKind::String, s@),
            TokenType::Number(bits) => Token {
                kind: TokenKind::Number,
                text: Seq::empty(),
                number: *bits,
            },
            TokenType::Numeral(s) => Token::with_text(TokenKind::Numeral, s@),
            TokenType::And => Token::bare(TokenKind::And),
            TokenType::Class => Token::bare(TokenKind::Class),
            TokenType::Else => Token::bare(TokenKind::Else),
            TokenType::False => Token::bare(TokenKind::False),
            TokenType::For => Token::bare(TokenKind::For),
            TokenType::Fun => Token::bare(TokenKind::Fun),
            TokenType::If => Token::bare(TokenKind::If),
            TokenType::Nil => Token::bare(TokenKind::Nil),
            TokenType::Or => Token::bare(TokenKind::Or),
            TokenType::Print => Token::bare(TokenKind::Print),
            TokenType::Return => Token::bare(TokenKind::Return),
            TokenType::Super => Token::bare(TokenKind::Super),
            TokenType::This => Token::bare(TokenKind::This),
            TokenType::True => Token::bare(TokenKind::True),
            TokenType::Var => Token::bare(TokenKind::Var),
            TokenType::While => Token::bare(TokenKind::While),
            TokenType::Error(s) => Token::with_text(TokenKind::Error, s@),
            TokenType::Eof => Token::bare(TokenKind::Eof),
        }
    }
}

/// The models of a sequence of tokens, in order.
pub open spec fn token_views(tokens: Seq<TokenType>) -> Seq<Token> {
    tokens.map_values(|t: TokenType| t@)
}

impl TokenType {
    /// The kind of this token.
    pub fn kind(&self) -> (kind: TokenKind)
        ensures
            kind == self@.kind,
    {
        match self {
            TokenType::LeftParen => TokenKind::LeftParen,
            TokenType::RightParen => TokenKind::RightParen,
            TokenType::LeftBrace => TokenKind::LeftBrace,
            TokenType::RightBrace => TokenKind::RightBrace,
            TokenType::Comma => TokenKind::Comma,
            TokenType::Dot => TokenKind::Dot,
            TokenType::Minus => TokenKind::Minus,
            TokenType::Plus => TokenKind::Plus,
            TokenType::Semicolon => TokenKind::Semicolon,
            TokenType::Slash => TokenKind::Slash,
            TokenType::Star => TokenKind::Star,
            TokenType::Bang => TokenKind::Bang,
            TokenType::BangEqual => TokenKind::BangEqual,
            TokenType::Equal => TokenKind::Equal,
            TokenType::EqualEqual => TokenKind::EqualEqual,
            TokenType::Greater => TokenKind::Greater,
            TokenType::GreaterEqual => TokenKind::GreaterEqual,
            TokenType::Less => TokenKind::Less,
            TokenType::LessEqual => TokenKind::LessEqual,
            TokenType::Identifier(_) => TokenKind::Identifier,
            TokenType::String(_) => TokenKind::String,
            TokenType::Number(_) => TokenKind::Number,
            TokenType::Numeral(_) => TokenKind::Numeral,
            TokenType::And => TokenKind::And,
            TokenType::Class => TokenKind::Class,
            TokenType::Else => TokenKind::Else,
            TokenType::False => TokenKind::False,
            TokenType::For => TokenKind::For,
            TokenType::Fun => TokenKind::Fun,
            TokenType::If => TokenKind::If,
            TokenType::Nil => TokenKind::Nil,
            TokenType::Or => TokenKind::Or,
            TokenType::Print => TokenKind::Print,
            TokenType::Return => TokenKind::Return,
            TokenType::Super => TokenKind::Super,
            TokenType::This => TokenKind::This,
            TokenType::True => TokenKind::True,
            TokenType::Var => TokenKind::Var,
            TokenType::While => TokenKind::While,
            TokenType::Error(_) => TokenKind::Error,
            TokenType::Eof => TokenKind::Eof,
        }
    }

    /// The text of a numeral, if this token is one.
    pub fn numeral(&self) -> (text: Option<&String>)
        ensures
            match text {
                Some(s) => self@.kind == TokenKind::Numeral && s@ == self@.text,
                None => self@.kind != TokenKind::Numeral,
            },
    {
        match self {
            TokenType::Numeral(s) => Some(s),
            _ => None,
        }
    }

    /// Turns a numeral into the number that it stands for, or into an
    /// `Error` that carries its text if it stands for none. Any other token
    /// stays as it is.
    pub fn resolve(self, bits: Option<u64>) -> (token: TokenType)
        ensures
            token@ == resolved(self@, bits),
    {
        match self {
            TokenType::Numeral(s) => match bits {
                Some(b) => TokenType::Number(b),
                None => TokenType::Error(s),
            },
            other => other,
        }
    }

    /// The token of a kind that carries nothing; `Error` with no text for a
    /// kind that does.
    pub fn of_kind(kind: TokenKind) -> (token: TokenType)
        ensures
            token@ == if carries_payload(kind) {
                Token::with_text(TokenKind::Error, Seq::empty())
            } else {
                Token::bare(kind)
            },
    {
        match kind {
            TokenKind::LeftParen => TokenType::LeftParen,
            TokenKind::RightParen => TokenType::RightParen,
            TokenKind::LeftBrace => TokenType::LeftBrace,
            TokenKind::RightBrace => TokenType::RightBrace,
            TokenKind::Comma => TokenType::Comma,
            TokenKind::Dot => TokenType::Dot,
            TokenKind::Minus => TokenType::Minus,
            TokenKind::Plus => TokenType::Plus,
            TokenKind::Semicolon => TokenType::Semicolon,
            TokenKind::Slash => TokenType::Slash,
            TokenKind::Star => TokenType::Star,
            TokenKind::Bang => TokenType::Bang,
            TokenKind::BangEqual => TokenType::BangEqual,
            TokenKind::Equal => TokenType::Equal,
            TokenKind::EqualEqual => TokenType::EqualEqual,
            TokenKind::Greater => TokenType::Greater,
            TokenKind::GreaterEqual => TokenType::GreaterEqual,
            TokenKind::Less => TokenType::Less,
            TokenKind::LessEqual => TokenType::LessEqual,
            TokenKind::And => TokenType::And,
            TokenKind::Class => TokenType::Class,
            TokenKind::Else => TokenType::Else,
            TokenKind::False => TokenType::False,
            TokenKind::For => TokenType::For,
            TokenKind::Fun => TokenType::Fun,
            TokenKind::If => TokenType::If,
            TokenKind::Nil => TokenType::Nil,
            TokenKind::Or => TokenType::Or,
            TokenKind::Print => TokenType::Print,
            TokenKind::Return => TokenType::Return,
            TokenKind::Super => TokenType::Super,
            TokenKind::This => TokenType::This,
            TokenKind::True => TokenType::True,
            TokenKind::Var => TokenType::Var,
            TokenKind::While => TokenType::While,
            TokenKind::Eof => TokenType::Eof,
            _ => TokenType::Error(String::new()),
        }
    }
}

/// What a token becomes once its numeral is converted: `bits` is the bit
/// pattern of the number that the numeral stands for, if it stands for one.
/// Any other token stays as it is.
pub open spec fn resolved(token: Token, bits: Option<u64>) -> Token {
    if token.kind == TokenKind::Numeral {
        match bits {
            Some(b) => Token { kind: TokenKind::Number, text: Seq::empty(), number: b },
            None => Token::with_text(TokenKind::Error, token.text),
        }
    } else {
        token
    }
}

/// The kinds whose tokens carry a text or a number.
pub open spec fn carries_payload(kind: TokenKind) -> bool {
    kind == TokenKind::Identifier || kind == TokenKind::String || kind == TokenKind::Number || kind
        == TokenKind::Numeral || kind == TokenKind::Error
}

impl Clone for TokenType {
    fn clone(&self) -> (r: Self)
        ensures
            r@ == self@,
    {
        match self {
            TokenType::Identifier(s) => TokenType::Identifier(s.clone()),
            TokenType::String(s) => TokenType::String(s.clone()),
            TokenType::Number(bits) => TokenType::Number(*bits),
            TokenType::Numeral(s) => TokenType::Numeral(s.clone()),
            TokenType::Error(s) => TokenType::Error(s.clone()),
            other => {
                let t = TokenType::of_kind(other.kind());
                t
            },
        }
    }
}

} // verus!
