//! Diagnostic messages.

use crate::diagnostic::catalog::DiagnosticCode;
use crate::diagnostic::edit::{SpanEdit, TextEdit};
use crate::diagnostic::files::FileId;
use crate::lexer::{LexerError, Span};
use crate::parser::ParserError;
use vstd::prelude::*;

verus! {

/// Maximum number of diagnostics presented for one analysis.
pub const MAX_DIAGNOSTICS: usize = 100;

/// The severity level of a diagnostic.
#[derive(Debug, Clone, Copy, PartialEq, Eq, PartialOrd, Ord, Structural)]
pub enum Level {
    Error,
    Warning,
}

/// The style of a label (primary or secondary).
#[derive(Debug, Clone, Copy, PartialEq, Eq, PartialOrd, Ord, Structural)]
pub enum LabelStyle {
    Primary,
    Secondary,
}

/// A label that points to a specific span in the source code.
#[derive(Debug, Clone)]
pub struct Label {
    pub span: Span,
    pub message: Option<String>,
    pub style: LabelStyle,
}

/// An optional text by its characters.
pub open spec fn text_of(t: Option<String>) -> Option<Seq<char>> {
    match t {
        Some(s) => Some(s@),
        None => None,
    }
}

impl Label {
    /// A primary label; an empty message is none.
    #[must_use]
    pub fn primary(span: Span, message: &str) -> (r: Self)
        ensures
            r.span == span,
            r.style == LabelStyle::Primary,
            text_of(r.message) == (if message@.len() == 0 {
                None
            } else {
                Some(message@)
            }),
    {
        let text = message.to_owned();
        Self {
            span,
            message: if message.is_empty() {
                None
            } else {
                Some(text)
            },
            style: LabelStyle::Primary,
        }
    }
}

/// A diagnostic message with associated labels and help text.
#[derive(Debug, Clone)]
pub struct Diagnostic {
    pub code: DiagnosticCode,
    pub level: Level,
    pub message: String,
    pub labels: Vec<Label>,
    pub help: Option<String>,
    pub file_id: Option<FileId>,
    pub edits: Vec<TextEdit>,
    pub span_edits: Vec<SpanEdit>,
}

impl Diagnostic {
    #[must_use]
    pub fn new(code: DiagnosticCode) -> (r: Self)
        ensures
            r.code == code,
            r.level == code.level(),
            r.message@ == Seq::<char>::empty(),
            r.labels@ == Seq::<Label>::empty(),
            r.help is None,
            r.file_id is None,
            r.edits@ == Seq::<TextEdit>::empty(),
            r.span_edits@ == Seq::<SpanEdit>::empty(),
    {
        Self {
            code,
            level: code.level(),
            message: String::new(),
            labels: Vec::new(),
            help: None,
            file_id: None,
            edits: Vec::new(),
            span_edits: Vec::new(),
        }
    }

    #[must_use]
    pub fn with_message(self, message: &str) -> (r: Self)
        ensures
            r == (Diagnostic { message: r.message, ..self }),
            r.message@ == message@,
    {
        let mut out = self;
        out.message = message.to_owned();
        out
    }

    #[must_use]
    pub fn with_label(self, label: Label) -> (r: Self)
        ensures
            r == (Diagnostic { labels: r.labels, ..self }),
            r.labels@ == self.labels@.push(label),
    {
        let mut out = self;
        out.labels.push(label);
        out
    }

    #[must_use]
    pub fn with_help(self, help: Option<String>) -> (r: Self)
        ensures
            r == (Diagnostic { help, ..self }),
    {
        let mut out = self;
        out.help = help;
        out
    }

    #[must_use]
    pub fn with_file_id(self, file_id: FileId) -> (r: Self)
        ensures
            r == (Diagnostic { file_id: Some(file_id), ..self }),
    {
        let mut out = self;
        out.file_id = Some(file_id);
        out
    }

    #[must_use]
    pub fn with_span_edit(self, edit: SpanEdit) -> (r: Self)
        ensures
            r == (Diagnostic { span_edits: r.span_edits, ..self }),
            r.span_edits@ == self.span_edits@.push(edit),
    {
        let mut out = self;
        out.span_edits.push(edit);
        out
    }

    #[must_use]
    pub fn with_span_edits(self, edits: Vec<SpanEdit>) -> (r: Self)
        ensures
            r == (Diagnostic { span_edits: r.span_edits, ..self }),
            r.span_edits@ == self.span_edits@ + edits@,
    {
        let mut out = self;
        let mut edits = edits;
        out.span_edits.append(&mut edits);
        out
    }
}

/// `d` reports `code` with `message` and `help` at `span` of a file, with
/// one primary label that has no message of its own.
pub open spec fn reports(
    d: Diagnostic,
    code: DiagnosticCode,
    message: Seq<char>,
    help: Option<Seq<char>>,
    span: Span,
    file_id: FileId,
) -> bool {
    &&& d.code == code
    &&& d.level == code.level()
    &&& d.message@ == message
    &&& text_of(d.help) == help
    &&& d.file_id == Some(file_id)
    &&& d.labels@.len() == 1
    &&& d.labels@[0].span == span
    &&& d.labels@[0].message is None
    &&& d.labels@[0].style == LabelStyle::Primary
    &&& d.edits@.len() == 0
    &&& d.span_edits@.len() == 0
}

/// The errors that become diagnostics.
pub trait ToDiagnostic {
    /// What a diagnostic of this error is.
    spec fn told_by(&self, d: Diagnostic, file_id: FileId) -> bool;

    fn to_diagnostic(&self, file_id: FileId) -> (r: Diagnostic)
        ensures
            self.told_by(r, file_id),
    ;
}

#[must_use]
pub fn diagnostic_from_parts_with_help(
    code: DiagnosticCode,
    message: &str,
    help: Option<&str>,
    span: Span,
    file_id: FileId,
) -> (r: Diagnostic)
    ensures
        reports(
            r,
            code,
            message@,
            match help {
                Some(h) => Some(h@),
                None => None,
            },
            span,
            file_id,
        ),
{
    let owned = match help {
        Some(h) => Some(h.to_owned()),
        None => None,
    };
    proof {
        reveal_strlit("");
    }
    Diagnostic::new(code).with_message(message).with_label(Label::primary(span, "")).with_help(
        owned,
    ).with_file_id(file_id)
}

fn help_text(help: &Option<String>) -> (r: Option<&str>)
    ensures
        text_of(*help) == (match r {
            Some(h) => Some(h@),
            None => None,
        }),
{
    match help {
        Some(h) => Some(h.as_str()),
        None => None,
    }
}

impl ToDiagnostic for LexerError {
    open spec fn told_by(&self, d: Diagnostic, file_id: FileId) -> bool {
        reports(d, self.code, self.message@, text_of(self.help), self.span, file_id)
    }

    fn to_diagnostic(&self, file_id: FileId) -> (r: Diagnostic) {
        diagnostic_from_parts_with_help(
            self.code,
            self.message.as_str(),
            help_text(&self.help),
            self.span,
            file_id,
        )
    }
}

impl ToDiagnostic for ParserError {
    open spec fn told_by(&self, d: Diagnostic, file_id: FileId) -> bool {
        reports(d, self.code, self.message@, text_of(self.help), self.span, file_id)
    }

    fn to_diagnostic(&self, file_id: FileId) -> (r: Diagnostic) {
        diagnostic_from_parts_with_help(
            self.code,
            self.message.as_str(),
            help_text(&self.help),
            self.span,
            file_id,
        )
    }
}

} // verus!
