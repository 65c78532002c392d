//! Operators, their precedence, primitive types and joined spans.

use crate::lexer::{Span, Token, TokenType};
use crate::text::same;
use vstd::prelude::*;

verus! {

/// A malformed piece of syntax, with its place.
#[derive(Debug, Clone, PartialEq)]
pub struct ParseError {
    pub message: String,
    pub span: Span,
}

/// The span from the start of `first` to the end of `last`; a span without
/// an end ends where it starts.
pub open spec fn combine_spec(first: Span, last: Span) -> Span {
    Span {
        row_start: first.row_start,
        row_end: Some(
            match last.row_end {
                Some(row) => row,
                None => last.row_start,
            },
        ),
        col_start: first.col_start,
        col_end: Some(
            match last.col_end {
                Some(col) => col,
                None => last.col_start,
            },
        ),
    }
}

#[verifier::when_used_as_spec(combine_spec)]
pub fn combine(first: Span, last: Span) -> (r: Span)
    ensures
        r == combine_spec(first, last),
{
    let row_end: usize = match last.row_end {
        Some(row) => row,
        None => last.row_start,
    };
    let col_end: usize = match last.col_end {
        Some(col) => col,
        None => last.col_start,
    };
    let mut span = Span::new(first.row_start, first.col_start);
    span.complete(row_end, col_end);
    span
}

#[derive(Debug, Clone, Copy, PartialEq, Eq, Hash, Structural)]
pub enum PrimitiveType {
    Int,
    Float,
    Bool,
    Char,
    Str,
    Void,
    Auto,
}

impl PrimitiveType {
    /// The primitive type that a word names.
    pub open spec fn named(word: Seq<char>) -> Option<PrimitiveType> {
        if word == "int"@ {
            Some(PrimitiveType::Int)
        } else if word == "float"@ {
            Some(PrimitiveType::Float)
        } else if word == "bool"@ {
            Some(PrimitiveType::Bool)
        } else if word == "char"@ {
            Some(PrimitiveType::Char)
        } else if word == "string"@ {
            Some(PrimitiveType::Str)
        } else if word == "void"@ {
            Some(PrimitiveType::Void)
        } else {
            None
        }
    }

    pub fn from_name(word: &str) -> (r: Option<PrimitiveType>)
        ensures
            r == PrimitiveType::named(word@),
    {
        if same(word, "int") {
            Some(PrimitiveType::Int)
        } else if same(word, "float") {
            Some(PrimitiveType::Float)
        } else if same(word, "bool") {
            Some(PrimitiveType::Bool)
        } else if same(word, "char") {
            Some(PrimitiveType::Char)
        } else if same(word, "string") {
            Some(PrimitiveType::Str)
        } else if same(word, "void") {
            Some(PrimitiveType::Void)
        } else {
            None
        }
    }

    /// The primitive type that a token names.
    pub fn parse(token: &Token) -> (r: Result<PrimitiveType, ParseError>)
        ensures
            match r {
                Ok(p) => match token.token_type {
                    TokenType::Id(word) => PrimitiveType::named(word@) == Some(p),
                    TokenType::Auto => p == PrimitiveType::Auto,
                    _ => false,
                },
                Err(e) => {
                    &&& match token.token_type {
                        TokenType::Id(word) => PrimitiveType::named(word@) is None,
                        TokenType::Auto => false,
                        _ => true,
                    }
                    &&& e.span == token.span
                    &&& e.message@ == "Expected primitive type"@
                },
            },
    {
        let found = match &token.token_type {
            TokenType::Id(word) => PrimitiveType::from_name(word.as_str()),
            TokenType::Auto => Some(PrimitiveType::Auto),
            _ => None,
        };
        match found {
            Some(p) => Ok(p),
            None => Err(
                ParseError { message: "Expected primitive type".to_owned(), span: token.span },
            ),
        }
    }
}

#[derive(Debug, Clone, Copy, PartialEq, Eq, Hash, Structural)]
pub enum UnaryOp {
    Neg,
    Not,
    Ref,
    Deref,
    Incr,
    Decr,
}

impl UnaryOp {
    /// The prefix operator that a token type stands for.
    pub open spec fn of(t: TokenType) -> Option<UnaryOp> {
        match t {
            TokenType::Minus => Some(UnaryOp::Neg),
            TokenType::Bang => Some(UnaryOp::Not),
            TokenType::Ref => Some(UnaryOp::Ref),
            TokenType::Star => Some(UnaryOp::Deref),
            TokenType::Incr => Some(UnaryOp::Incr),
            TokenType::Decr => Some(UnaryOp::Decr),
            _ => None,
        }
    }

    pub fn parse(t: &TokenType) -> (r: Option<UnaryOp>)
        ensures
            r == UnaryOp::of(*t),
    {
        match t {
            TokenType::Minus => Some(UnaryOp::Neg),
            TokenType::Bang => Some(UnaryOp::Not),
            TokenType::Ref => Some(UnaryOp::Ref),
            TokenType::Star => Some(UnaryOp::Deref),
            TokenType::Incr => Some(UnaryOp::Incr),
            TokenType::Decr => Some(UnaryOp::Decr),
            _ => None,
        }
    }
}

#[derive(Debug, Clone, Copy, PartialEq, Eq, Hash, Structural)]
pub enum BinaryOp {
    Add,
    Subtract,
    Multiply,
    Divide,
    Modulo,
    Exponent,
    Assign,
    Equal,
    NotEqual,
    Less,
    Greater,
    LessEqual,
    GreaterEqual,
    LogicalAnd,
    LogicalOr,
    In,
    AddAssign,
    SubtractAssign,
    MultiplyAssign,
    DivideAssign,
    ModuloAssign,
}

/// How tightly an operator binds.
#[derive(Debug, Clone, Copy, PartialEq, Eq, PartialOrd, Ord, Structural)]
pub enum Precedence {
    Assignment,
    Or,
    And,
    Equality,
    Comparison,
    Term,
    Factor,
    Exponent,
    Unary,
    Call,
    Primary,
}

impl Precedence {
    /// The place of a precedence in the order.
    pub open spec fn rank_spec(self) -> int {
        match self {
            Precedence::Assignment => 0,
            Precedence::Or => 1,
            Precedence::And => 2,
            Precedence::Equality => 3,
            Precedence::Comparison => 4,
            Precedence::Term => 5,
            Precedence::Factor => 6,
            Precedence::Exponent => 7,
            Precedence::Unary => 8,
            Precedence::Call => 9,
            Precedence::Primary => 10,
        }
    }

    pub fn rank(self) -> (r: u8)
        ensures
            r == self.rank_spec(),
    {
        match self {
            Precedence::Assignment => 0,
            Precedence::Or => 1,
            Precedence::And => 2,
            Precedence::Equality => 3,
            Precedence::Comparison => 4,
            Precedence::Term => 5,
            Precedence::Factor => 6,
            Precedence::Exponent => 7,
            Precedence::Unary => 8,
            Precedence::Call => 9,
            Precedence::Primary => 10,
        }
    }

    /// The next tighter precedence; the tightest stays.
    pub open spec fn next_higher_spec(self) -> Precedence {
        match self {
            Precedence::Assignment => Precedence::Or,
            Precedence::Or => Precedence::And,
            Precedence::And => Precedence::Equality,
            Precedence::Equality => Precedence::Comparison,
            Precedence::Comparison => Precedence::Term,
            Precedence::Term => Precedence::Factor,
            Precedence::Factor => Precedence::Exponent,
            Precedence::Exponent => Precedence::Unary,
            Precedence::Unary => Precedence::Call,
            Precedence::Call => Precedence::Primary,
            Precedence::Primary => Precedence::Primary,
        }
    }

    #[verifier::when_used_as_spec(next_higher_spec)]
    pub fn next_higher(self) -> (r: Precedence)
        ensures
            r == self.next_higher_spec(),
    {
        match self {
            Precedence::Assignment => Precedence::Or,
            Precedence::Or => Precedence::And,
            Precedence::And => Precedence::Equality,
            Precedence::Equality => Precedence::Comparison,
            Precedence::Comparison => Precedence::Term,
            Precedence::Term => Precedence::Factor,
            Precedence::Factor => Precedence::Exponent,
            Precedence::Exponent => Precedence::Unary,
            Precedence::Unary => Precedence::Call,
            Precedence::Call => Precedence::Primary,
            Precedence::Primary => Precedence::Primary,
        }
    }
}

impl BinaryOp {
    /// The binary operator that a token type stands for.
    pub open spec fn of(t: TokenType) -> Option<BinaryOp> {
        match t {
            TokenType::Plus => Some(BinaryOp::Add),
            TokenType::Minus => Some(BinaryOp::Subtract),
            TokenType::Star => Some(BinaryOp::Multiply),
            TokenType::Slash => Some(BinaryOp::Divide),
            TokenType::Percent => Some(BinaryOp::Modulo),
            TokenType::StarStar => Some(BinaryOp::Exponent),
            TokenType::Eq => Some(BinaryOp::Assign),
            TokenType::EqEq => Some(BinaryOp::Equal),
            TokenType::NotEq => Some(BinaryOp::NotEqual),
            TokenType::Lt => Some(BinaryOp::Less),
            TokenType::Gt => Some(BinaryOp::Greater),
            TokenType::Le => Some(BinaryOp::LessEqual),
            TokenType::Ge => Some(BinaryOp::GreaterEqual),
            TokenType::And => Some(BinaryOp::LogicalAnd),
            TokenType::Or => Some(BinaryOp::LogicalOr),
            TokenType::In => Some(BinaryOp::In),
            TokenType::PlusEq => Some(BinaryOp::AddAssign),
            TokenType::MinusEq => Some(BinaryOp::SubtractAssign),
            TokenType::StarEq => Some(BinaryOp::MultiplyAssign),
            TokenType::SlashEq => Some(BinaryOp::DivideAssign),
            TokenType::PercentEq => Some(BinaryOp::ModuloAssign),
            _ => None,
        }
    }

    pub fn parse(t: &TokenType) -> (r: Option<BinaryOp>)
        ensures
            r == BinaryOp::of(*t),
    {
        match t {
            TokenType::Plus => Some(BinaryOp::Add),
            TokenType::Minus => Some(BinaryOp::Subtract),
            TokenType::Star => Some(BinaryOp::Multiply),
            TokenType::Slash => Some(BinaryOp::Divide),
            TokenType::Percent => Some(BinaryOp::Modulo),
            TokenType::StarStar => Some(BinaryOp::Exponent),
            TokenType::Eq => Some(BinaryOp::Assign),
            TokenType::EqEq => Some(BinaryOp::Equal),
            TokenType::NotEq => Some(BinaryOp::NotEqual),
            TokenType::Lt => Some(BinaryOp::Less),
            TokenType::Gt => Some(BinaryOp::Greater),
            TokenType::Le => Some(BinaryOp::LessEqual),
            TokenType::Ge => Some(BinaryOp::GreaterEqual),
            TokenType::And => Some(BinaryOp::LogicalAnd),
            TokenType::Or => Some(BinaryOp::LogicalOr),
            TokenType::In => Some(BinaryOp::In),
            TokenType::PlusEq => Some(BinaryOp::AddAssign),
            TokenType::MinusEq => Some(BinaryOp::SubtractAssign),
            TokenType::StarEq => Some(BinaryOp::MultiplyAssign),
            TokenType::SlashEq => Some(BinaryOp::DivideAssign),
            TokenType::PercentEq => Some(BinaryOp::ModuloAssign),
            _ => None,
        }
    }

    pub open spec fn precedence_spec(self) -> Precedence {
        match self {
            BinaryOp::Assign
            | BinaryOp::AddAssign
            | BinaryOp::SubtractAssign
            | BinaryOp::MultiplyAssign
            | BinaryOp::DivideAssign
            | BinaryOp::ModuloAssign => Precedence::Assignment,
            BinaryOp::LogicalOr => Precedence::Or,
            BinaryOp::LogicalAnd => Precedence::And,
            BinaryOp::Equal | BinaryOp::NotEqual => Precedence::Equality,
            BinaryOp::In
            | BinaryOp::Less
            | BinaryOp::LessEqual
            | BinaryOp::Greater
            | BinaryOp::GreaterEqual => Precedence::Comparison,
            BinaryOp::Add | BinaryOp::Subtract => Precedence::Term,
            BinaryOp::Multiply | BinaryOp::Divide | BinaryOp::Modulo => Precedence::Factor,
            BinaryOp::Exponent => Precedence::Exponent,
        }
    }

    #[verifier::when_used_as_spec(precedence_spec)]
    pub fn precedence(self) -> (r: Precedence)
        ensures
            r == self.precedence_spec(),
    {
        match self {
            BinaryOp::Assign
            | BinaryOp::AddAssign
            | BinaryOp::SubtractAssign
            | BinaryOp::MultiplyAssign
            | BinaryOp::DivideAssign
            | BinaryOp::ModuloAssign => Precedence::Assignment,
            BinaryOp::LogicalOr => Precedence::Or,
            BinaryOp::LogicalAnd => Precedence::And,
            BinaryOp::Equal | BinaryOp::NotEqual => Precedence::Equality,
            BinaryOp::In
            | BinaryOp::Less
            | BinaryOp::LessEqual
            | BinaryOp::Greater
            | BinaryOp::GreaterEqual => Precedence::Comparison,
            BinaryOp::Add | BinaryOp::Subtract => Precedence::Term,
            BinaryOp::Multiply | BinaryOp::Divide | BinaryOp::Modulo => Precedence::Factor,
            BinaryOp::Exponent => Precedence::Exponent,
        }
    }

    /// Assignments and exponentiation group from the right.
    pub open spec fn is_right_associative_spec(self) -> bool {
        self.precedence_spec() == Precedence::Assignment || self == BinaryOp::Exponent
    }

    #[verifier::when_used_as_spec(is_right_associative_spec)]
    pub fn is_right_associative(self) -> (r: bool)
        ensures
            r == self.is_right_associative_spec(),
    {
        self.precedence() == Precedence::Assignment || self == BinaryOp::Exponent
    }
}

} // verus!
