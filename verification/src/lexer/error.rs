//! Errors of lexical analysis.

use crate::diagnostic::DiagnosticCode;
use crate::lexer::span::Span;
use crate::text::{cat, decimal, decimal_string};
use vstd::prelude::*;

verus! {

/// An error that occurred during lexical analysis.
#[derive(Debug, Clone, PartialEq)]
pub struct LexerError {
    pub code: DiagnosticCode,
    pub message: String,
    pub help: Option<String>,
    pub span: Span,
}

/// A lexer error as a mathematical value.
pub struct LexerErrorModel {
    pub code: DiagnosticCode,
    pub message: Seq<char>,
    pub help: Option<Seq<char>>,
    pub span: Span,
}

impl View for LexerError {
    type V = LexerErrorModel;

    open spec fn view(&self) -> LexerErrorModel {
        LexerErrorModel {
            code: self.code,
            message: self.message@,
            help: match self.help {
                Some(h) => Some(h@),
                None => None,
            },
            span: self.span,
        }
    }
}

impl LexerError {
    pub fn new(code: DiagnosticCode, message: &str, span: Span) -> (r: Self)
        ensures
            r@ == (LexerErrorModel { code, message: message@, help: None, span }),
    {
        Self { code, message: message.to_owned(), help: None, span }
    }

    pub fn with_help(code: DiagnosticCode, message: &str, span: Span, help: &str) -> (r: Self)
        ensures
            r@ == (LexerErrorModel { code, message: message@, help: Some(help@), span }),
    {
        Self { code, message: message.to_owned(), help: Some(help.to_owned()), span }
    }

    /// The one-line form of the error.
    pub fn to_string(&self) -> (r: String)
        ensures
            r@ == "Lexer error at "@ + decimal(self.span.row_start as nat) + ":"@ + decimal(
                self.span.col_start as nat,
            ) + " - "@ + self.message@,
    {
        let mut out = cat("Lexer error at ", decimal_string(self.span.row_start).as_str());
        out.append(":");
        out.append(decimal_string(self.span.col_start).as_str());
        out.append(" - ");
        out.append(self.message.as_str());
        out
    }
}

} // verus!
