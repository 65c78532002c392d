//! Diagnostics: stable codes, source edits and rendering.

pub mod catalog;
pub mod diff;
pub mod edit;
pub mod edit_laws;
pub mod emitter;
pub mod files;
pub mod fix;
pub mod fix_laws;
pub mod order;
pub mod order_laws;
pub mod render_laws;
pub mod report;
pub mod styles;
pub mod transaction;
pub mod transaction_run;

pub use self::catalog::DiagnosticCode;
pub use self::edit::{Applicability, EditReplacement, SourceRange, SpanEdit, TextEdit};
pub use self::emitter::{DiagnosticEmitter, StandardEmitter};
pub use self::files::{FileId, Files};
pub use self::styles::{ColorConfig, Styles};
pub use self::report::{
    diagnostic_from_parts_with_help, Diagnostic, Label, LabelStyle, Level, ToDiagnostic,
    MAX_DIAGNOSTICS,
};
