//! Errors of the parser.

use crate::ast::ParseError;
use crate::diagnostic::DiagnosticCode;
use crate::lexer::{Span, Token};
use crate::text::{cat, decimal, decimal_string};
use vstd::prelude::*;

verus! {

/// The result type for parser operations.
pub type ParserResult<T> = Result<T, ParserError>;

/// An error that occurred during parsing.
#[derive(Debug, Clone, PartialEq)]
pub struct ParserError {
    pub code: DiagnosticCode,
    pub message: String,
    pub help: Option<String>,
    pub span: Span,
}

/// A parser error as a mathematical value.
pub struct Fault {
    pub code: DiagnosticCode,
    pub message: Seq<char>,
    pub help: Option<Seq<char>>,
    pub span: Span,
}

impl View for ParserError {
    type V = Fault;

    open spec fn view(&self) -> Fault {
        Fault {
            code: self.code,
            message: self.message@,
            help: match self.help {
                Some(h) => Some(h@),
                None => None,
            },
            span: self.span,
        }
    }
}

/// An error without a help text.
pub open spec fn fault(code: DiagnosticCode, message: Seq<char>, span: Span) -> Fault {
    Fault { code, message, help: None, span }
}

/// An error with a help text.
pub open spec fn fault_help(
    code: DiagnosticCode,
    message: Seq<char>,
    span: Span,
    help: Seq<char>,
) -> Fault {
    Fault { code, message, help: Some(help), span }
}

impl ParserError {
    pub fn new(code: DiagnosticCode, message: &str, span: Span) -> (r: Self)
        ensures
            r@ == fault(code, message@, span),
    {
        Self { code, message: message.to_owned(), help: None, span }
    }

    pub fn from_token(code: DiagnosticCode, message: &str, token: &Token) -> (r: Self)
        ensures
            r@ == fault(code, message@, token.span),
    {
        Self::new(code, message, token.span)
    }

    pub fn with_help(code: DiagnosticCode, message: &str, span: Span, help: &str) -> (r: Self)
        ensures
            r@ == fault_help(code, message@, span, help@),
    {
        Self { code, message: message.to_owned(), help: Some(help.to_owned()), span }
    }

    /// The parser error for a malformed piece of syntax.
    pub fn from_parse_error(err: ParseError) -> (r: Self)
        ensures
            r@ == fault(DiagnosticCode::ParseExpectedToken, err.message@, err.span),
    {
        Self {
            code: DiagnosticCode::ParseExpectedToken,
            message: err.message,
            help: None,
            span: err.span,
        }
    }

    /// The one-line form of the error.
    pub fn to_string(&self) -> (r: String)
        ensures
            r@ == "Parser error at "@ + decimal(self.span.row_start as nat) + ":"@ + decimal(
                self.span.col_start as nat,
            ) + " - "@ + self.message@,
    {
        let mut out = cat("Parser error at ", decimal_string(self.span.row_start).as_str());
        out.append(":");
        out.append(decimal_string(self.span.col_start).as_str());
        out.append(" - ");
        out.append(self.message.as_str());
        out
    }
}

} // verus!
