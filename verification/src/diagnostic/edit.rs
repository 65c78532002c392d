//! Structured source edits attached to diagnostics.
//!
//! An edit can be applied automatically only when its producer has marked it
//! machine-applicable and its source range is valid.

use crate::diagnostic::catalog::DiagnosticCode;
use crate::diagnostic::files::FileId;
use crate::lexer::Span;
use vstd::prelude::*;

verus! {

/// A byte range in one source file. The range is half-open: `[start, end)`.
#[derive(Debug, Clone, Copy, PartialEq, Eq, Hash, Structural)]
pub struct SourceRange {
    pub start_byte: usize,
    pub end_byte: usize,
}

impl SourceRange {
    pub fn new(start_byte: usize, end_byte: usize) -> (r: Self)
        ensures
            r == (SourceRange { start_byte, end_byte }),
    {
        Self { start_byte, end_byte }
    }

    pub open spec fn is_empty_spec(self) -> bool {
        self.start_byte == self.end_byte
    }

    #[verifier::when_used_as_spec(is_empty_spec)]
    pub fn is_empty(self) -> (r: bool)
        ensures
            r == self.is_empty_spec(),
    {
        self.start_byte == self.end_byte
    }
}

/// How safe it is to apply an edit automatically.
#[derive(Debug, Clone, Copy, PartialEq, Eq, Hash, Structural)]
pub enum Applicability {
    /// The compiler proved that applying this edit preserves program meaning.
    MachineApplicable,
    /// The edit is plausible, but a person has to judge it.
    MaybeIncorrect,
    /// The edit contains placeholders for the user to fill in.
    HasPlaceholders,
    /// The producer did not provide a safety classification.
    Unspecified,
}

impl Applicability {
    pub open spec fn as_str_spec(self) -> &'static str {
        match self {
            Self::MachineApplicable => "machine-applicable",
            Self::MaybeIncorrect => "maybe-incorrect",
            Self::HasPlaceholders => "has-placeholders",
            Self::Unspecified => "unspecified",
        }
    }

    #[verifier::when_used_as_spec(as_str_spec)]
    pub fn as_str(self) -> (r: &'static str)
        ensures
            r == self.as_str_spec(),
    {
        match self {
            Self::MachineApplicable => "machine-applicable",
            Self::MaybeIncorrect => "maybe-incorrect",
            Self::HasPlaceholders => "has-placeholders",
            Self::Unspecified => "unspecified",
        }
    }

    /// The name of the variant.
    pub open spec fn name_spec(self) -> &'static str {
        match self {
            Self::MachineApplicable => "MachineApplicable",
            Self::MaybeIncorrect => "MaybeIncorrect",
            Self::HasPlaceholders => "HasPlaceholders",
            Self::Unspecified => "Unspecified",
        }
    }

    #[verifier::when_used_as_spec(name_spec)]
    pub fn name(self) -> (r: &'static str)
        ensures
            r == self.name_spec(),
    {
        match self {
            Self::MachineApplicable => "MachineApplicable",
            Self::MaybeIncorrect => "MaybeIncorrect",
            Self::HasPlaceholders => "HasPlaceholders",
            Self::Unspecified => "Unspecified",
        }
    }
}

/// What an edit puts in place: a text, or a copy of another piece of source.
#[derive(Debug, Clone, PartialEq, Eq)]
pub enum EditReplacement {
    Text(String),
    Source(Span),
}

/// An edit whose places are still rows and columns.
#[derive(Debug, Clone, PartialEq, Eq)]
pub struct SpanEdit {
    pub target: Span,
    pub replacement: EditReplacement,
    pub applicability: Applicability,
    pub diagnostic_code: DiagnosticCode,
    /// The file that the target is in, where it is not the diagnostic's own.
    pub target_file: Option<FileId>,
    /// The file that a source replacement is in, where it is not the diagnostic's own.
    pub replacement_file: Option<FileId>,
    /// The alternative solution that the edit belongs to, where there are several.
    pub solution_id: Option<u32>,
}

impl SpanEdit {
    pub fn machine_applicable_text(
        target: Span,
        replacement: &str,
        diagnostic_code: DiagnosticCode,
    ) -> (r: Self)
        ensures
            r.target == target,
            r.replacement matches EditReplacement::Text(t) && t@ == replacement@,
            r.applicability == Applicability::MachineApplicable,
            r.diagnostic_code == diagnostic_code,
            r.target_file is None && r.replacement_file is None && r.solution_id is None,
    {
        Self {
            target,
            replacement: EditReplacement::Text(replacement.to_owned()),
            applicability: Applicability::MachineApplicable,
            diagnostic_code,
            target_file: None,
            replacement_file: None,
            solution_id: None,
        }
    }

    pub fn machine_applicable_source(
        target: Span,
        source: Span,
        diagnostic_code: DiagnosticCode,
    ) -> (r: Self)
        ensures
            r == (SpanEdit {
                target,
                replacement: EditReplacement::Source(source),
                applicability: Applicability::MachineApplicable,
                diagnostic_code,
                target_file: None,
                replacement_file: None,
                solution_id: None,
            }),
    {
        Self {
            target,
            replacement: EditReplacement::Source(source),
            applicability: Applicability::MachineApplicable,
            diagnostic_code,
            target_file: None,
            replacement_file: None,
            solution_id: None,
        }
    }
}

/// One replacement in a source file.
#[derive(Debug, Clone, PartialEq, Eq)]
pub struct TextEdit {
    pub file_id: FileId,
    pub range: SourceRange,
    pub replacement: String,
    pub applicability: Applicability,
    pub diagnostic_code: DiagnosticCode,
    /// The alternative solution that the edit belongs to, where there are several.
    pub solution_id: Option<u32>,
}

impl TextEdit {
    pub fn machine_applicable(
        file_id: FileId,
        range: SourceRange,
        replacement: &str,
        diagnostic_code: DiagnosticCode,
    ) -> (r: Self)
        ensures
            r.file_id == file_id,
            r.range == range,
            r.replacement@ == replacement@,
            r.applicability == Applicability::MachineApplicable,
            r.diagnostic_code == diagnostic_code,
            r.solution_id is None,
    {
        Self {
            file_id,
            range,
            replacement: replacement.to_owned(),
            applicability: Applicability::MachineApplicable,
            diagnostic_code,
            solution_id: None,
        }
    }

    /// The edit as part of an alternative solution.
    pub fn with_solution(self, solution_id: Option<u32>) -> (r: Self)
        ensures
            r == (TextEdit { solution_id, ..self }),
    {
        Self {
            file_id: self.file_id,
            range: self.range,
            replacement: self.replacement,
            applicability: self.applicability,
            diagnostic_code: self.diagnostic_code,
            solution_id,
        }
    }

    pub open spec fn is_machine_applicable_spec(&self) -> bool {
        self.applicability == Applicability::MachineApplicable
    }

    #[verifier::when_used_as_spec(is_machine_applicable_spec)]
    pub fn is_machine_applicable(&self) -> (r: bool)
        ensures
            r == self.is_machine_applicable_spec(),
    {
        matches!(self.applicability, Applicability::MachineApplicable)
    }
}

} // verus!
