//! Binding powers and the table of parse rules.

use vstd::prelude::*;
use crate::token::{TokenKind, TokenType};

verus! {

/// How tightly an operator binds, from loosest to tightest.
#[derive(Debug, Clone, Copy, PartialEq, Eq, Structural)]
pub enum Precedence {
    /// Binds nothing: the precedence of a token that continues no
    /// expression.
    Lowest,
    /// `=`
    Assignment,
    /// `or`
    Or,
    /// `and`
    And,
    /// `==` `!=`
    Equality,
    /// `<` `>` `<=` `>=`
    Comparison,
    /// `+` `-`
    Term,
    /// `*` `/`
    Factor,
    /// `!` `-`
    Unary,
    /// `.` `()`
    Call,
    Primary,
}

impl Precedence {
    /// The place of a precedence in the order, from 0 for `Lowest` to 10 for
    /// `Primary`.
    pub open spec fn level(self) -> nat {
        match self {
            Precedence::Lowest => 0,
            Precedence::Assignment => 1,
            Precedence::Or => 2,
            Precedence::And => 3,
            Precedence::Equality => 4,
            Precedence::Comparison => 5,
            Precedence::Term => 6,
            Precedence::Factor => 7,
            Precedence::Unary => 8,
            Precedence::Call => 9,
            Precedence::Primary => 10,
        }
    }

    /// Decides `level`.
    pub fn rank(&self) -> (r: u8)
        ensures
            r == self.level(),
    {
        match self {
            Precedence::Lowest => 0,
            Precedence::Assignment => 1,
            Precedence::Or => 2,
            Precedence::And => 3,
            Precedence::Equality => 4,
            Precedence::Comparison => 5,
            Precedence::Term => 6,
            Precedence::Factor => 7,
            Precedence::Unary => 8,
            Precedence::Call => 9,
            Precedence::Primary => 10,
        }
    }

    /// The precedence one level above this one; `Lowest` above `Primary`.
    pub open spec fn spec_next(&self) -> Precedence {
        match self {
            Precedence::Lowest => Precedence::Assignment,
            Precedence::Assignment => Precedence::Or,
            Precedence::Or => Precedence::And,
            Precedence::And => Precedence::Equality,
            Precedence::Equality => Precedence::Comparison,
            Precedence::Comparison => Precedence::Term,
            Precedence::Term => Precedence::Factor,
            Precedence::Factor => Precedence::Unary,
            Precedence::Unary => Precedence::Call,
            Precedence::Call => Precedence::Primary,
            Precedence::Primary => Precedence::Lowest,
        }
    }

    /// The precedence one level above this one; `Lowest` above `Primary`.
    #[verifier::when_used_as_spec(spec_next)]
    pub fn next(&self) -> (r: Precedence)
        ensures
            r == self.spec_next(),
            r.level() == (self.level() + 1) % 11,
    {
        match self {
            Precedence::Lowest => Precedence::Assignment,
            Precedence::Assignment => Precedence::Or,
            Precedence::Or => Precedence::And,
            Precedence::And => Precedence::Equality,
            Precedence::Equality => Precedence::Comparison,
            Precedence::Comparison => Precedence::Term,
            Precedence::Term => Precedence::Factor,
            Precedence::Factor => Precedence::Unary,
            Precedence::Unary => Precedence::Call,
            Precedence::Call => Precedence::Primary,
            Precedence::Primary => Precedence::Lowest,
        }
    }
}

/// The handlers that a rule can name.
#[derive(Debug, Clone, Copy, PartialEq, Eq, Structural)]
pub enum RuleFunc {
    Number,
    Literal,
    Variable,
    Unary,
    Binary,
    Grouping,
    String,
    And,
    Or,
}

/// What a token can do in an expression: start one, continue one, and how
/// tightly it binds when it continues one.
#[derive(Debug, Clone, Copy, PartialEq, Eq, Structural)]
pub struct ParseRule {
    pub prefix: Option<RuleFunc>,
    pub infix: Option<RuleFunc>,
    pub precedence: Precedence,
}

/// The rule of each kind of token. A kind that the table does not name can
/// neither start nor continue an expression.
pub open spec fn rule_of(kind: TokenKind) -> ParseRule {
    match kind {
        TokenKind::LeftParen => ParseRule {
            prefix: Some(RuleFunc::Grouping),
            infix: None,
            precedence: Precedence::Lowest,
        },
        TokenKind::Minus => ParseRule {
            prefix: Some(RuleFunc::Unary),
            infix: Some(RuleFunc::Binary),
            precedence: Precedence::Term,
        },
        TokenKind::Plus => ParseRule {
            prefix: None,
            infix: Some(RuleFunc::Binary),
            precedence: Precedence::Term,
        },
        TokenKind::Star | TokenKind::Slash => ParseRule {
            prefix: None,
            infix: Some(RuleFunc::Binary),
            precedence: Precedence::Factor,
        },
        TokenKind::Number => ParseRule {
            prefix: Some(RuleFunc::Number),
            infix: None,
            precedence: Precedence::Lowest,
        },
        TokenKind::False | TokenKind::True | TokenKind::Nil => ParseRule {
            prefix: Some(RuleFunc::Literal),
            infix: None,
            precedence: Precedence::Lowest,
        },
        TokenKind::Bang => ParseRule {
            prefix: Some(RuleFunc::Unary),
            infix: None,
            precedence: Precedence::Lowest,
        },
        TokenKind::EqualEqual | TokenKind::BangEqual => ParseRule {
            prefix: None,
            infix: Some(RuleFunc::Binary),
            precedence: Precedence::Equality,
        },
        TokenKind::Less | TokenKind::LessEqual | TokenKind::Greater | TokenKind::GreaterEqual => ParseRule {
            prefix: None,
            infix: Some(RuleFunc::Binary),
            precedence: Precedence::Comparison,
        },
        TokenKind::Identifier => ParseRule {
            prefix: Some(RuleFunc::Variable),
            infix: None,
            precedence: Precedence::Lowest,
        },
        TokenKind::String => ParseRule {
            prefix: Some(RuleFunc::String),
            infix: None,
            precedence: Precedence::Lowest,
        },
        TokenKind::And => ParseRule {
            prefix: None,
            infix: Some(RuleFunc::And),
            precedence: Precedence::And,
        },
        TokenKind::Or => ParseRule {
            prefix: None,
            infix: Some(RuleFunc::Or),
            precedence: Precedence::Or,
        },
        _ => ParseRule { prefix: None, infix: None, precedence: Precedence::Lowest },
    }
}

/// The rule of a token.
pub fn parse_rules(t: &TokenType) -> (rule: ParseRule)
    ensures
        rule == rule_of(t@.kind),
{
    match t {
        TokenType::LeftParen => ParseRule {
            prefix: Some(RuleFunc::Grouping),
            infix: None,
            precedence: Precedence::Lowest,
        },
        TokenType::Minus => ParseRule {
            prefix: Some(RuleFunc::Unary),
            infix: Some(RuleFunc::Binary),
            precedence: Precedence::Term,
        },
        TokenType::Plus => ParseRule {
            prefix: None,
            infix: Some(RuleFunc::Binary),
            precedence: Precedence::Term,
        },
        TokenType::Star | TokenType::Slash => ParseRule {
            prefix: None,
            infix: Some(RuleFunc::Binary),
            precedence: Precedence::Factor,
        },
        TokenType::Number(_) => ParseRule {
            prefix: Some(RuleFunc::Number),
            infix: None,
            precedence: Precedence::Lowest,
        },
        TokenType::False | TokenType::True | TokenType::Nil => ParseRule {
            prefix: Some(RuleFunc::Literal),
            infix: None,
            precedence: Precedence::Lowest,
        },
        TokenType::Bang => ParseRule {
            prefix: Some(RuleFunc::Unary),
            infix: None,
            precedence: Precedence::Lowest,
        },
        TokenType::EqualEqual | TokenType::BangEqual => ParseRule {
            prefix: None,
            infix: Some(RuleFunc::Binary),
            precedence: Precedence::Equality,
        },
        TokenType::Less
        | TokenType::LessEqual
        | TokenType::Greater
        | TokenType::GreaterEqual => ParseRule {
            prefix: None,
            infix: Some(RuleFunc::Binary),
            precedence: Precedence::Comparison,
        },
        TokenType::Identifier(_) => ParseRule {
            prefix: Some(RuleFunc::Variable),
            infix: None,
            precedence: Precedence::Lowest,
        },
        TokenType::String(_) => ParseRule {
            prefix: Some(RuleFunc::String),
            infix: None,
            precedence: Precedence::Lowest,
        },
        TokenType::And => ParseRule {
            prefix: None,
            infix: Some(RuleFunc::And),
            precedence: Precedence::And,
        },
        TokenType::Or => ParseRule {
            prefix: None,
            infix: Some(RuleFunc::Or),
            precedence: Precedence::Or,
        },
        _ => ParseRule { prefix: None, infix: None, precedence: Precedence::Lowest },
    }
}

/// A token binds, that is, its precedence lies above `Lowest`, exactly if it
/// can continue an expression. `Eof` neither starts nor continues one. A
/// binary operator binds no looser than `Equality` and no tighter than
/// `Factor`, so the level above its own is never `Lowest`.
pub proof fn law_binding_tokens(kind: TokenKind)
    ensures
        rule_of(kind).precedence.level() >= 1 <==> rule_of(kind).infix is Some,
        rule_of(kind).infix is Some ==> kind != TokenKind::Eof,
        rule_of(kind).prefix is Some ==> kind != TokenKind::Eof,
        rule_of(kind).infix == Some(RuleFunc::Binary) ==> 4 <= rule_of(kind).precedence.level() <= 7,
{
}

} // verus!
