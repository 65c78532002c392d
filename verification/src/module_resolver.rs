//! Modules: where they are found, and how they are loaded.
//!
//! Reading files and asking the file system is left to the caller. An import
//! goes through stages: a built-in module is loaded at once; for every other
//! one the caller finds the file, and hands in its path and its text.

use crate::ast::nodes::AstNode;
use crate::ast::tree::nodes_of;
use crate::diagnostic::emitter::{
    rendered, rendered_batch, DiagnosticEmitter, StandardEmitter,
};
use crate::diagnostic::files::{
    is_registered, path_has_one_id, registered, FileId, FileModel, Files,
};
use crate::diagnostic::fix::RecoveryIntervals;
use crate::diagnostic::report::{reports, Diagnostic, ToDiagnostic};
use crate::diagnostic::{ColorConfig, DiagnosticCode};
use crate::lexer::{Span, Token};
use crate::paths::{same_path, shown_path};
use crate::source::fits;
use crate::syntax::{
    diagnoses, lex_text, lexing_fault, parse_tokens, parsing, ranges, record_spans, recovered,
    tokens_of,
};
use crate::table::{
    entry_at, find_entry, has, holds, insert_name, insert_sorted, join, joined, parts, put,
    put_entry, remove_name, rising, split, starts_with, strip_prefix, views, Entry,
};
use crate::text::{cat, chars_of, same, string_of};
use vstd::prelude::*;

verus! {

/// Why a module could not be resolved.
#[derive(Debug)]
pub struct ModuleResolutionError {
    pub code: DiagnosticCode,
    pub message: String,
}

impl ModuleResolutionError {
    fn new(code: DiagnosticCode, message: String) -> (r: Self)
        ensures
            r.code == code,
            r.message == message,
    {
        Self { code, message }
    }

    /// An error of an import as a whole.
    pub fn from_message(message: String) -> (r: Self)
        ensures
            r.code == DiagnosticCode::ImportFailure,
            r.message == message,
    {
        Self::new(DiagnosticCode::ImportFailure, message)
    }

    pub fn to_string(&self) -> (r: String)
        ensures
            r@ == self.message@,
    {
        self.message.clone()
    }
}

/// Resolves imports and keeps what was loaded.
pub struct ModuleResolver {
    pub base_path: String,
    /// The nodes of modules that are done.
    pub compiled_modules: Vec<Entry<Vec<AstNode>>>,
    /// The modules that are being imported, the outermost first.
    pub import_stack: Vec<String>,
    pub being_imported: Vec<String>,
    /// Modules by the path of their file.
    pub canonical_cache: Vec<Entry<String>>,
    /// Texts that stand in for those of files.
    pub source_overrides: Vec<Entry<String>>,
    pub module_file_ids: Vec<Entry<FileId>>,
    pub diagnostics: Vec<Diagnostic>,
    pub recovery_intervals: RecoveryIntervals,
    pub emit_diagnostics: bool,
    /// What is to be printed.
    pub output: String,
    /// The texts of built-in modules.
    pub embedded_sources: Vec<Entry<String>>,
}

/// The name that a built-in module is kept under: its own, or what follows
/// `std.`.
pub open spec fn embedded_key(sources: Seq<Entry<String>>, module: Seq<char>) -> Option<Seq<char>> {
    if entry_at(sources, module) is Some {
        Some(module)
    } else if "std."@.is_prefix_of(module) && entry_at(
        sources,
        module.skip("std."@.len() as int),
    ) is Some {
        Some(module.skip("std."@.len() as int))
    } else {
        None
    }
}

/// The name that a module is kept under.
pub open spec fn module_key(sources: Seq<Entry<String>>, module: Seq<char>) -> Seq<char> {
    match embedded_key(sources, module) {
        Some(key) => key,
        None => module,
    }
}

/// The modules below a built-in one, by the parts of their names that follow
/// it.
pub open spec fn is_child(sources: Seq<Entry<String>>, module: Seq<char>, child: Seq<char>) -> bool {
    exists|i: int|
        0 <= i < sources.len() && below(#[trigger] sources[i].key@, module) && parts(
            sources[i].key@.skip(module.len() as int + 1),
            '.',
        )[0] == child
}

/// Whether a name is that of a module below another.
pub open spec fn below(key: Seq<char>, module: Seq<char>) -> bool {
    (module + "."@).is_prefix_of(key) && key.len() > module.len() + 1
}

/// Whether a name continues another behind a dot.
pub open spec fn continues(sources: Seq<Entry<String>>, module: Seq<char>) -> bool {
    exists|i: int|
        0 <= i < sources.len() && (module + "."@).is_prefix_of(#[trigger] sources[i].key@)
}

/// How a module is named in an import.
#[derive(Debug, Clone, Copy, PartialEq, Eq, Structural)]
pub enum ImportKind {
    /// From the importing file: `./` or `../`.
    Relative,
    /// From the root of the file system.
    Absolute,
    /// From the project, by names between dots.
    Project,
}

pub open spec fn import_kind_of(module: Seq<char>) -> ImportKind {
    if "./"@.is_prefix_of(module) || "../"@.is_prefix_of(module) {
        ImportKind::Relative
    } else if "/"@.is_prefix_of(module) {
        ImportKind::Absolute
    } else {
        ImportKind::Project
    }
}

/// How an import is named.
pub fn import_kind(module: &str) -> (r: ImportKind)
    ensures
        r == import_kind_of(module@),
{
    if starts_with(module, "./") || starts_with(module, "../") {
        ImportKind::Relative
    } else if starts_with(module, "/") {
        ImportKind::Absolute
    } else {
        ImportKind::Project
    }
}

/// A step on a path.
#[derive(Debug)]
pub enum PathMove {
    /// To the directory above.
    Up,
    /// To an entry.
    Into(String),
}

/// A step on a path as a mathematical value: none is the directory above.
pub open spec fn moves_of(v: Seq<PathMove>) -> Seq<Option<Seq<char>>> {
    Seq::new(
        v.len(),
        |i: int|
            match v[i] {
                PathMove::Up => None,
                PathMove::Into(s) => Some(s@),
            },
    )
}

/// A text without the repeated prefix.
pub open spec fn without_dots(s: Seq<char>) -> Seq<char>
    decreases s.len(),
{
    if s.len() >= 2 && s[0] == '.' && s[1] == '/' {
        without_dots(s.skip(2))
    } else {
        s
    }
}

/// The steps of the first `n` parts. Empty parts are none.
pub open spec fn steps_of(parts: Seq<Seq<char>>, n: int) -> Seq<Option<Seq<char>>>
    decreases n,
{
    if n <= 0 || n > parts.len() {
        seq![]
    } else if parts[n - 1] == ".."@ {
        steps_of(parts, n - 1).push(None)
    } else if parts[n - 1].len() > 0 {
        steps_of(parts, n - 1).push(Some(parts[n - 1]))
    } else {
        steps_of(parts, n - 1)
    }
}

/// The steps of a relative import from the directory of the importing file.
pub open spec fn relative_steps(module: Seq<char>) -> Seq<Option<Seq<char>>> {
    let p = parts(without_dots(module), '/');
    steps_of(p, p.len() as int)
}

fn trim_dots(text: &str) -> (r: String)
    ensures
        r@ == without_dots(text@),
{
    let chars = chars_of(text);
    let mut i: usize = 0;
    assert(chars@.skip(0) =~= text@);
    while chars.len() - i >= 2 && chars[i] == '.' && chars[i + 1] == '/'
        invariant
            i <= chars@.len(),
            chars@ == text@,
            without_dots(text@) == without_dots(text@.skip(i as int)),
        decreases chars@.len() - i,
    {
        assert(text@.skip(i as int).skip(2) =~= text@.skip(i + 2));
        i += 2;
    }
    assert(text@.skip(i as int) =~= chars@.subrange(i as int, chars@.len() as int));
    string_of(&chars, i, chars.len())
}

/// The steps of a relative import from the directory of the importing file.
pub fn relative_moves(module: &str) -> (r: Vec<PathMove>)
    ensures
        moves_of(r@) == relative_steps(module@),
{
    let pieces = split(trim_dots(module).as_str(), '/');
    let ghost p = views(pieces@);
    let mut out: Vec<PathMove> = Vec::new();
    let mut i: usize = 0;
    assert(moves_of(out@) =~= seq![]);
    while i < pieces.len()
        invariant
            i <= pieces@.len(),
            p == views(pieces@),
            moves_of(out@) == steps_of(p, i as int),
        decreases pieces@.len() - i,
    {
        let ghost before = moves_of(out@);
        let piece = pieces[i].as_str();
        assert(piece@ == p[i as int]);
        if same(piece, "..") {
            out.push(PathMove::Up);
            assert(moves_of(out@) =~= before.push(None));
        } else if !same(piece, "") {
            proof {
                reveal_strlit("");
                if piece@.len() == 0 {
                    assert(piece@ =~= ""@);
                }
            }
            out.push(PathMove::Into(piece.to_owned()));
            assert(moves_of(out@) =~= before.push(Some(piece@)));
        } else {
            proof {
                reveal_strlit("");
            }
        }
        i += 1;
    }
    out
}

/// The names that a project import goes through, from the project's directory.
pub fn project_parts(module: &str) -> (r: Vec<String>)
    ensures
        views(r@) == parts(module@, '.'),
{
    split(module, '.')
}

/// Where a module's file is.
pub enum FileRoute {
    /// Some steps from the directory of the importing file.
    Relative(Vec<PathMove>),
    /// Where the import says.
    Absolute,
    /// Under the project's directory, through names.
    Project(Vec<String>),
}

/// Where the file of a module is. `has_current_file` says whether the import
/// stands in a file. `found` says whether the file of a project import is
/// there, and `looked_for` is its path as it is shown.
pub fn determine_file_path(
    module: &str,
    has_current_file: bool,
    found: bool,
    looked_for: &str,
) -> (r: Result<FileRoute, ModuleResolutionError>)
    ensures
        match import_kind_of(module@) {
            ImportKind::Relative => if has_current_file {
                r matches Ok(FileRoute::Relative(moves)) && moves_of(moves@) == relative_steps(
                    module@,
                )
            } else {
                r matches Err(e) && e.code == DiagnosticCode::ImportFailure && e.message@
                    == "Cannot resolve relative import: no current file"@
            },
            ImportKind::Absolute => r == Ok::<FileRoute, ModuleResolutionError>(
                FileRoute::Absolute,
            ),
            ImportKind::Project => if found {
                r matches Ok(FileRoute::Project(names)) && views(names@) == parts(module@, '.')
            } else {
                r matches Err(e) && e.code == DiagnosticCode::ModuleNotFound && e.message@
                    == "Module not found: "@ + module@ + " (looked for "@ + looked_for@ + ")"@
            },
        },
{
    match import_kind(module) {
        ImportKind::Relative => {
            if !has_current_file {
                return Err(
                    ModuleResolutionError::from_message(
                        "Cannot resolve relative import: no current file".to_owned(),
                    ),
                );
            }
            Ok(FileRoute::Relative(relative_moves(module)))
        },
        ImportKind::Absolute => Ok(FileRoute::Absolute),
        ImportKind::Project => {
            if !found {
                let mut message = cat("Module not found: ", module);
                message.append(" (looked for ");
                message.append(looked_for);
                message.append(")");
                return Err(
                    ModuleResolutionError::new(DiagnosticCode::ModuleNotFound, message),
                );
            }
            Ok(FileRoute::Project(project_parts(module)))
        },
    }
}

/// Texts of files that positions can be found in.
pub open spec fn all_fit(files: Seq<FileModel>) -> bool {
    forall|i: int| 0 <= i < files.len() ==> fits((#[trigger] files[i]).1)
}

/// The files with one more, unless its path is there. The path is given as it
/// is shown.
pub open spec fn with_file(files: Seq<FileModel>, path: Seq<char>, text: Seq<char>) -> Seq<
    FileModel,
> {
    if is_registered(files, path) {
        files
    } else {
        files.push((path, text))
    }
}

/// Why an import that is under way cannot be started again.
pub open spec fn circular(stack: Seq<String>, module: Seq<char>) -> Seq<char> {
    "Circular import detected: "@ + joined(views(stack), " -> "@) + " -> "@ + module
}

/// The path that a built-in module is registered under.
pub open spec fn embedded_path(key: Seq<char>) -> Seq<char> {
    "<embedded>/"@ + key.map_values(
        |c: char|
            if c == '.' {
                '/'
            } else {
                c
            },
    ) + ".mux"@
}

fn virtual_path(key: &str) -> (r: String)
    ensures
        r@ == embedded_path(key@),
{
    let chars = chars_of(key);
    let ghost slashed = |c: char|
        if c == '.' {
            '/'
        } else {
            c
        };
    let mut out = "<embedded>/".to_owned();
    let mut i: usize = 0;
    assert(out@ =~= "<embedded>/"@ + chars@.take(0).map_values(slashed));
    while i < chars.len()
        invariant
            i <= chars@.len(),
            slashed == (|c: char|
                if c == '.' {
                    '/'
                } else {
                    c
                }),
            out@ == "<embedded>/"@ + chars@.take(i as int).map_values(slashed),
        decreases chars@.len() - i,
    {
        assert(chars@.take(i + 1).map_values(slashed) =~= chars@.take(i as int).map_values(
            slashed,
        ).push(slashed(chars@[i as int])));
        if chars[i] == '.' {
            out.push('/');
        } else {
            out.push(chars[i]);
        }
        assert(out@ =~= "<embedded>/"@ + chars@.take(i + 1).map_values(slashed));
        i += 1;
    }
    assert(chars@.take(i as int) =~= key@);
    out.append(".mux");
    out
}

/// Whether an import was started between two states: its name is under way,
/// and the innermost one.
pub open spec fn started(before: ModuleResolver, after: ModuleResolver, name: Seq<char>) -> bool {
    &&& after.import_stack@.len() == before.import_stack@.len() + 1
    &&& after.import_stack@.drop_last() == before.import_stack@
    &&& after.import_stack@.last()@ == name
    &&& forall|k: Seq<char>| #[trigger]
        holds(after.being_imported@, k) == (k == name || holds(before.being_imported@, k))
}

/// Whether an import was ended between two states.
pub open spec fn ended(before: ModuleResolver, after: ModuleResolver, name: Seq<char>) -> bool {
    &&& after.import_stack@ == (if before.import_stack@.len() > 0 {
        before.import_stack@.drop_last()
    } else {
        before.import_stack@
    })
    &&& forall|k: Seq<char>| #[trigger]
        holds(after.being_imported@, k) == (k != name && holds(before.being_imported@, k))
}

/// An import that is started and ended leaves no trace among the imports under
/// way. It can be started only while its name is not among them.
pub proof fn ended_import_leaves_no_trace(
    before: ModuleResolver,
    during: ModuleResolver,
    after: ModuleResolver,
    name: Seq<char>,
)
    requires
        !holds(before.being_imported@, name),
        started(before, during, name),
        ended(during, after, name),
    ensures
        after.import_stack@ == before.import_stack@,
        forall|k: Seq<char>| #[trigger]
            holds(after.being_imported@, k) == holds(before.being_imported@, k),
{
}

/// A module that was cached is found again, under each of its names.
pub proof fn cached_module_is_found(
    before: ModuleResolver,
    after: ModuleResolver,
    module: Seq<char>,
    other: Seq<char>,
    nodes: Vec<AstNode>,
)
    requires
        put(after.compiled_modules@, before.compiled_modules@, before.key(module), nodes),
        after.embedded_sources == before.embedded_sources,
        after.key(other) == after.key(module),
    ensures
        entry_at(after.compiled_modules@, after.key(other)) == Some(nodes),
{
}

/// The outcome of looking for a built-in module.
pub enum EmbeddedImport {
    /// It is none.
    NotEmbedded,
    /// It is done, and kept under a name.
    Cached(String),
    /// It was loaded.
    Loaded(Vec<AstNode>),
}

/// The outcome of looking for a module's file.
pub enum FileImport {
    /// It is done, and kept under a name.
    Cached(String),
    /// Its text has to be loaded.
    Load,
}

impl ModuleResolver {
    pub fn new(base_path: String, embedded_sources: Vec<Entry<String>>) -> (r: Self)
        ensures
            r.base_path == base_path,
            r.embedded_sources == embedded_sources,
            r.compiled_modules@.len() == 0,
            r.import_stack@.len() == 0,
            r.being_imported@.len() == 0,
            r.canonical_cache@.len() == 0,
            r.source_overrides@.len() == 0,
            r.module_file_ids@.len() == 0,
            r.diagnostics@.len() == 0,
            r.recovery_intervals.intervals@.len() == 0,
            r.emit_diagnostics,
            r.output@.len() == 0,
    {
        proof {
            reveal_strlit("");
        }
        Self {
            base_path,
            compiled_modules: Vec::new(),
            import_stack: Vec::new(),
            being_imported: Vec::new(),
            canonical_cache: Vec::new(),
            source_overrides: Vec::new(),
            module_file_ids: Vec::new(),
            diagnostics: Vec::new(),
            recovery_intervals: RecoveryIntervals::new(),
            emit_diagnostics: true,
            output: String::new(),
            embedded_sources,
        }
    }

    /// The name that a module is kept under.
    pub open spec fn key(&self, module: Seq<char>) -> Seq<char> {
        module_key(self.embedded_sources@, module)
    }

    fn resolve_embedded_key(&self, module: &str) -> (r: Option<String>)
        ensures
            match r {
                Some(key) => embedded_key(self.embedded_sources@, module@) == Some(key@),
                None => embedded_key(self.embedded_sources@, module@) is None,
            },
    {
        if find_entry(&self.embedded_sources, module).is_some() {
            return Some(module.to_owned());
        }
        match strip_prefix(module, "std.") {
            Some(short) => {
                if find_entry(&self.embedded_sources, short.as_str()).is_some() {
                    Some(short)
                } else {
                    None
                }
            },
            None => None,
        }
    }

    fn normalize_module_key(&self, module: &str) -> (r: String)
        ensures
            r@ == self.key(module@),
    {
        match self.resolve_embedded_key(module) {
            Some(key) => key,
            None => module.to_owned(),
        }
    }

    pub fn has_embedded_module(&self, module: &str) -> (r: bool)
        ensures
            r == (embedded_key(self.embedded_sources@, module@) is Some),
    {
        self.resolve_embedded_key(module).is_some()
    }

    /// Lets texts stand in for those of files.
    pub fn set_source_overrides(&mut self, overrides: Vec<Entry<String>>)
        ensures
            *final(self) == (ModuleResolver { source_overrides: overrides, ..*old(self) }),
    {
        self.source_overrides = overrides;
    }

    /// Says whether diagnostics are to be printed as they come.
    pub fn set_emit_diagnostics(&mut self, emit: bool)
        ensures
            *final(self) == (ModuleResolver { emit_diagnostics: emit, ..*old(self) }),
    {
        self.emit_diagnostics = emit;
    }

    /// The diagnostics so far, which are no longer kept.
    pub fn take_diagnostics(&mut self) -> (r: Vec<Diagnostic>)
        ensures
            r@ == old(self).diagnostics@,
            *final(self) == (ModuleResolver {
                diagnostics: final(self).diagnostics,
                ..*old(self)
            }),
            final(self).diagnostics@.len() == 0,
    {
        let mut out: Vec<Diagnostic> = Vec::new();
        out.append(&mut self.diagnostics);
        assert(out@ =~= old(self).diagnostics@);
        out
    }

    /// The recovered ranges so far, which are no longer kept.
    pub fn take_recovery_intervals(&mut self) -> (r: RecoveryIntervals)
        ensures
            r.intervals@ == old(self).recovery_intervals.intervals@,
            *final(self) == (ModuleResolver {
                recovery_intervals: final(self).recovery_intervals,
                ..*old(self)
            }),
            final(self).recovery_intervals.intervals@.len() == 0,
    {
        let mut out = RecoveryIntervals::new();
        out.intervals.append(&mut self.recovery_intervals.intervals);
        assert(out.intervals@ =~= old(self).recovery_intervals.intervals@);
        out
    }

    /// What is to be printed so far, which is no longer kept.
    pub fn take_output(&mut self) -> (r: String)
        ensures
            r@ == old(self).output@,
            *final(self) == (ModuleResolver { output: final(self).output, ..*old(self) }),
            final(self).output@.len() == 0,
    {
        let out = self.output.clone();
        self.output = String::new();
        proof {
            reveal_strlit("");
        }
        out
    }

    /// The file that a resolved module was loaded from.
    pub fn file_id_for_module(&self, module: &str) -> (r: Option<FileId>)
        ensures
            r == entry_at(self.module_file_ids@, self.key(module@)),
    {
        match find_entry(&self.module_file_ids, self.normalize_module_key(module).as_str()) {
            Some(id) => Some(*id),
            None => None,
        }
    }

    /// The nodes of a module that is done, under the name that it is kept under.
    pub fn compiled(&self, key: &str) -> (r: Option<&Vec<AstNode>>)
        ensures
            match r {
                Some(nodes) => entry_at(self.compiled_modules@, key@) == Some(*nodes),
                None => entry_at(self.compiled_modules@, key@) is None,
            },
    {
        find_entry(&self.compiled_modules, key)
    }

    /// The text that stands in for that of a file.
    pub fn source_override(&self, path: &str) -> (r: Option<&String>)
        ensures
            match r {
                Some(text) => entry_at(self.source_overrides@, path@) == Some(*text),
                None => entry_at(self.source_overrides@, path@) is None,
            },
    {
        find_entry(&self.source_overrides, path)
    }

    /// Ends an import.
    pub fn finish_import(&mut self, module: &str)
        ensures
            ended(*old(self), *final(self), old(self).key(module@)),
            *final(self) == (ModuleResolver {
                import_stack: final(self).import_stack,
                being_imported: final(self).being_imported,
                ..*old(self)
            }),
    {
        let key = self.normalize_module_key(module);
        let _ = self.import_stack.pop();
        remove_name(&mut self.being_imported, key.as_str());
    }

    /// Keeps the nodes of a module that is done.
    pub fn cache_module(&mut self, module: &str, nodes: Vec<AstNode>)
        ensures
            put(
                final(self).compiled_modules@,
                old(self).compiled_modules@,
                old(self).key(module@),
                nodes,
            ),
            *final(self) == (ModuleResolver {
                compiled_modules: final(self).compiled_modules,
                ..*old(self)
            }),
    {
        let key = self.normalize_module_key(module);
        put_entry(&mut self.compiled_modules, key.as_str(), nodes);
    }

    fn has_embedded_directory(&self, module: &str) -> (r: bool)
        ensures
            r == continues(self.embedded_sources@, module@),
    {
        let prefix = cat(module, ".");
        let mut i: usize = 0;
        while i < self.embedded_sources.len()
            invariant
                i <= self.embedded_sources@.len(),
                prefix@ == module@ + "."@,
                forall|j: int|
                    0 <= j < i ==> !(module@ + "."@).is_prefix_of(
                        #[trigger] self.embedded_sources@[j].key@,
                    ),
            decreases self.embedded_sources@.len() - i,
        {
            if starts_with(self.embedded_sources[i].key.as_str(), prefix.as_str()) {
                return true;
            }
            i += 1;
        }
        false
    }

    /// Whether a module is a file, and whether it is a directory, where
    /// `on_disk` says so of its path in the project. A built-in module is a
    /// file.
    pub fn check_module_path(&self, module: &str, on_disk: (bool, bool)) -> (r: (bool, bool))
        ensures
            r == (if embedded_key(self.embedded_sources@, module@) is Some {
                (true, false)
            } else {
                (on_disk.0, on_disk.1 || continues(self.embedded_sources@, module@))
            }),
    {
        if self.has_embedded_module(module) {
            return (true, false);
        }
        let embedded = self.has_embedded_directory(module);
        (on_disk.0, on_disk.1 || embedded)
    }

    /// The modules below a directory: the built-in ones, and `stems`, those
    /// whose files the directory holds. Each comes once, in order.
    pub fn get_submodules(&self, module: &str, stems: &Vec<String>) -> (r: Result<
        Vec<String>,
        String,
    >)
        ensures
            match r {
                Ok(names) => {
                    &&& names@.len() > 0
                    &&& rising(names@)
                    &&& forall|k: Seq<char>| #[trigger]
                        holds(names@, k) == (is_child(self.embedded_sources@, module@, k) || holds(
                            stems@,
                            k,
                        ))
                },
                Err(e) => {
                    &&& e@ == "Module directory not found: "@ + module@
                    &&& forall|k: Seq<char>|
                        !#[trigger] is_child(self.embedded_sources@, module@, k)
                    &&& stems@.len() == 0
                },
            },
    {
        let prefix = cat(module, ".");
        proof {
            reveal_strlit(".");
        }
        let ghost all = self.embedded_sources@;
        let mut names: Vec<String> = Vec::new();
        let mut i: usize = 0;
        assert forall|k: Seq<char>| #[trigger]
            holds(names@, k) == is_child(all.take(0), module@, k) by {}
        while i < self.embedded_sources.len()
            invariant
                i <= all.len(),
                all == self.embedded_sources@,
                prefix@ == module@ + "."@,
                prefix@.len() == module@.len() + 1,
                rising(names@),
                forall|k: Seq<char>| #[trigger]
                    holds(names@, k) == is_child(all.take(i as int), module@, k),
            decreases all.len() - i,
        {
            let ghost before = names@;
            let ghost front = all.take(i as int);
            let ghost more = all.take(i + 1);
            let ghost key = all[i as int].key@;
            let ghost rest_of = key.skip(module@.len() as int + 1);
            assert(more =~= front.push(all[i as int]));
            assert forall|k: Seq<char>| #[trigger]
                is_child(more, module@, k) == (is_child(front, module@, k) || (below(key, module@)
                    && parts(rest_of, '.')[0] == k)) by {
                if is_child(front, module@, k) {
                    let j = choose|j: int|
                        0 <= j < front.len() && below(#[trigger] front[j].key@, module@) && parts(
                            front[j].key@.skip(module@.len() as int + 1),
                            '.',
                        )[0] == k;
                    assert(more[j] == front[j]);
                }
                if below(key, module@) && parts(rest_of, '.')[0] == k {
                    assert(more[i as int].key@ == key);
                }
                if is_child(more, module@, k) {
                    let j = choose|j: int|
                        0 <= j < more.len() && below(#[trigger] more[j].key@, module@) && parts(
                            more[j].key@.skip(module@.len() as int + 1),
                            '.',
                        )[0] == k;
                    if j < i {
                        assert(front[j] == more[j]);
                    }
                }
            }
            match strip_prefix(self.embedded_sources[i].key.as_str(), prefix.as_str()) {
                Some(rest) => {
                    if chars_of(rest.as_str()).len() > 0 {
                        let pieces = split(rest.as_str(), '.');
                        proof {
                            parts_not_empty(rest@, '.', 0, 0);
                            assert(views(pieces@)[0] == pieces@[0]@);
                        }
                        insert_sorted(&mut names, pieces[0].as_str());
                    }
                },
                None => {},
            }
            i += 1;
        }
        assert(all.take(i as int) =~= all);
        let mut j: usize = 0;
        while j < stems.len()
            invariant
                j <= stems@.len(),
                rising(names@),
                j > 0 ==> names@.len() > 0,
                forall|k: Seq<char>| #[trigger]
                    holds(names@, k) == (is_child(all, module@, k) || holds(
                        stems@.take(j as int),
                        k,
                    )),
            decreases stems@.len() - j,
        {
            let ghost front = stems@.take(j as int);
            let ghost more = stems@.take(j + 1);
            assert(more =~= front.push(stems@[j as int]));
            assert forall|k: Seq<char>| #[trigger]
                holds(more, k) == (holds(front, k) || k == stems@[j as int]@) by {
                if holds(front, k) {
                    let a = choose|a: int| 0 <= a < front.len() && (#[trigger] front[a])@ == k;
                    assert(more[a]@ == k);
                }
                if k == stems@[j as int]@ {
                    assert(more[j as int]@ == k);
                }
                if holds(more, k) {
                    let a = choose|a: int| 0 <= a < more.len() && (#[trigger] more[a])@ == k;
                    if a < j {
                        assert(front[a]@ == k);
                    }
                }
            }
            insert_sorted(&mut names, stems[j].as_str());
            j += 1;
        }
        assert(stems@.take(j as int) =~= stems@);
        if names.len() == 0 {
            assert forall|k: Seq<char>| !#[trigger] is_child(all, module@, k) by {
                assert(!holds(names@, k));
            }
            return Err(cat("Module directory not found: ", module));
        }
        Ok(names)
    }
}

/// How loading a module's text changed a resolver and the files, and what came
/// of it.
pub open spec fn loaded(
    before: ModuleResolver,
    after: ModuleResolver,
    files: Seq<FileModel>,
    path: Seq<char>,
    text: Seq<char>,
    id: FileId,
    r: Result<Vec<AstNode>, String>,
) -> bool {
    &&& after == (ModuleResolver {
        diagnostics: after.diagnostics,
        recovery_intervals: after.recovery_intervals,
        output: after.output,
        ..before
    })
    &&& match lexing_fault(text) {
        Some(e) => {
            &&& r matches Err(message) && message@ == "Lexer error in module "@ + path
            &&& after.diagnostics@.len() == before.diagnostics@.len() + 1
            &&& after.diagnostics@.drop_last() == before.diagnostics@
            &&& reports(after.diagnostics@.last(), e.code, e.message, e.help, e.span, id)
            &&& after.recovery_intervals.intervals@ == before.recovery_intervals.intervals@
                + ranges(files[id.0 as int].1, id, seq![e.span], 1)
            &&& after.output@ == before.output@ + (if before.emit_diagnostics {
                rendered(after.diagnostics@.last(), files)
            } else {
                seq![]
            })
        },
        None => exists|tokens: Seq<Token>| #[trigger]
            tokens_of(text, tokens) && parsed(before, after, files, path, tokens, id, r),
    }
}

/// How parsing a module's tokens changed a resolver, and what came of it.
pub open spec fn parsed(
    before: ModuleResolver,
    after: ModuleResolver,
    files: Seq<FileModel>,
    path: Seq<char>,
    tokens: Seq<Token>,
    id: FileId,
    r: Result<Vec<AstNode>, String>,
) -> bool {
    let (s, nodes) = parsing(tokens);
    if s.errors.len() == 0 {
        &&& r matches Ok(n) && nodes_of(n@) == nodes
        &&& after.diagnostics@ == before.diagnostics@
        &&& after.recovery_intervals.intervals@ == before.recovery_intervals.intervals@
        &&& after.output@ == before.output@
    } else {
        let n = before.diagnostics@.len() as int;
        let new = after.diagnostics@.skip(n);
        &&& r matches Err(message) && message@ == "Parse error in module "@ + path
        &&& after.diagnostics@.len() >= n
        &&& after.diagnostics@.take(n) == before.diagnostics@
        &&& diagnoses(new, s.errors, id)
        &&& after.recovery_intervals.intervals@ == before.recovery_intervals.intervals@
            + recovered(files[id.0 as int].1, id, s)
        &&& after.output@ == before.output@ + (if before.emit_diagnostics {
            rendered_batch(new, files)
        } else {
            seq![]
        })
    }
}

impl ModuleResolver {
    /// The text of a module: what stands in for it, or what reading its file
    /// gave.
    fn read_module_source(source: Result<String, String>) -> (r: Result<String, String>)
        ensures
            match source {
                Ok(text) => r == Ok::<String, String>(text),
                Err(e) => r matches Err(message) && message@ == "Failed to open module: "@ + e@,
            },
    {
        match source {
            Ok(text) => Ok(text),
            Err(e) => Err(cat("Failed to open module: ", e.as_str())),
        }
    }

    /// The tokens of a module's text. An error is kept as a diagnostic, and
    /// printed where that is asked for.
    fn lex_module(&mut self, path: &str, file_id: FileId, files: &Files, text: &str) -> (r: Result<
        Vec<Token>,
        String,
    >)
        requires
            fits(text@),
            all_fit(files@),
            file_id.0 < files@.len(),
        ensures
            match r {
                Ok(tokens) => tokens_of(text@, tokens@) && *final(self) == *old(self),
                Err(e) => lexing_fault(text@) is Some && loaded(
                    *old(self),
                    *final(self),
                    files@,
                    path@,
                    text@,
                    file_id,
                    Err(e),
                ),
            },
    {
        match lex_text(text) {
            Ok(tokens) => Ok(tokens),
            Err(e) => {
                let diagnostic = e.to_diagnostic(file_id);
                if self.emit_diagnostics {
                    let emitter = StandardEmitter::new(ColorConfig::Auto);
                    let shown = emitter.emit(&diagnostic, files);
                    self.output.append(shown.as_str());
                }
                assert(self.output@ =~= old(self).output@ + (if old(self).emit_diagnostics {
                    rendered(diagnostic, files@)
                } else {
                    seq![]
                }));
                match files.source(file_id) {
                    Some(source) => {
                        let mut spans: Vec<Span> = Vec::new();
                        spans.push(e.span);
                        assert(spans@ =~= seq![e.span]);
                        record_spans(
                            &mut self.recovery_intervals,
                            source,
                            file_id,
                            spans.as_slice(),
                        );
                    },
                    None => {},
                }
                self.diagnostics.push(diagnostic);
                assert(self.diagnostics@.drop_last() =~= old(self).diagnostics@);
                Err(cat("Lexer error in module ", path))
            },
        }
    }

    /// Parses a module's tokens. Errors are kept as diagnostics, and printed
    /// where that is asked for.
    fn parse_module_tokens(
        &mut self,
        path: &str,
        file_id: FileId,
        files: &Files,
        tokens: &Vec<Token>,
    ) -> (r: Result<Vec<AstNode>, String>)
        requires
            all_fit(files@),
            file_id.0 < files@.len(),
        ensures
            parsed(*old(self), *final(self), files@, path@, tokens@, file_id, r),
            *final(self) == (ModuleResolver {
                diagnostics: final(self).diagnostics,
                recovery_intervals: final(self).recovery_intervals,
                output: final(self).output,
                ..*old(self)
            }),
    {
        let source = match files.source(file_id) {
            Some(source) => source,
            None => "",
        };
        let outcome = parse_tokens(source, tokens, file_id);
        let mut recovery = outcome.recovery;
        let mut new = outcome.diagnostics;
        let ghost given = new@;
        if new.len() == 0 {
            return Ok(outcome.nodes);
        }
        self.recovery_intervals.extend(recovery);
        if self.emit_diagnostics {
            let emitter = StandardEmitter::new(ColorConfig::Auto);
            let shown = emitter.emit_batch(new.as_slice(), files);
            self.output.append(shown.as_str());
        }
        assert(self.output@ =~= old(self).output@ + (if old(self).emit_diagnostics {
            rendered_batch(given, files@)
        } else {
            seq![]
        }));
        self.diagnostics.append(&mut new);
        proof {
            let n = old(self).diagnostics@.len() as int;
            assert(self.diagnostics@.take(n) =~= old(self).diagnostics@);
            assert(self.diagnostics@.skip(n) =~= given);
        }
        Err(cat("Parse error in module ", path))
    }

    /// Registers a module's text under its path and parses it. `source` is the
    /// text, or why there is none.
    pub fn parse_module(
        &mut self,
        path: &str,
        files: &mut Files,
        source: Result<String, String>,
    ) -> (r: Result<Vec<AstNode>, String>)
        requires
            old(files).wf(),
            all_fit(old(files)@),
            source matches Ok(text) ==> fits(text@),
        ensures
            final(files).wf(),
            final(files).dir() == old(files).dir(),
            all_fit(final(files)@),
            match source {
                Err(e) => {
                    &&& r matches Err(message) && message@ == "Failed to open module: "@ + e@
                    &&& *final(self) == *old(self)
                    &&& final(files)@ == old(files)@
                },
                Ok(text) => {
                    &&& final(files)@ == with_file(old(files)@, shown_path(old(files).dir(), path@), text@)
                    &&& exists|id: FileId| #[trigger]
                        registered(final(files)@, shown_path(old(files).dir(), path@), id) && loaded(
                            *old(self),
                            *final(self),
                            final(files)@,
                            path@,
                            text@,
                            id,
                            r,
                        )
                },
            },
    {
        let text = match Self::read_module_source(source) {
            Ok(text) => text,
            Err(e) => {
                return Err(e);
            },
        };
        let id = files.add(path, text.clone());
        assert(files@ == with_file(old(files)@, shown_path(old(files).dir(), path@), text@));
        assert(registered(files@, shown_path(files.dir(), path@), id));
        let tokens = match self.lex_module(path, id, files, text.as_str()) {
            Ok(tokens) => tokens,
            Err(e) => {
                return Err(e);
            },
        };
        assert(tokens_of(text@, tokens@));
        self.parse_module_tokens(path, id, files, &tokens)
    }

    /// Starts an import: its name is under way until the import is finished.
    fn mark(&mut self, module: &str)
        ensures
            started(*old(self), *final(self), module@),
            *final(self) == (ModuleResolver {
                import_stack: final(self).import_stack,
                being_imported: final(self).being_imported,
                ..*old(self)
            }),
    {
        insert_name(&mut self.being_imported, module);
        self.import_stack.push(module.to_owned());
        assert(self.import_stack@.drop_last() =~= old(self).import_stack@);
    }

    fn circular_import(&self, module: &str) -> (r: ModuleResolutionError)
        ensures
            r.code == DiagnosticCode::ImportFailure,
            r.message@ == circular(self.import_stack@, module@),
    {
        let mut message = cat(
            "Circular import detected: ",
            join(&self.import_stack, " -> ").as_str(),
        );
        message.append(" -> ");
        message.append(module);
        ModuleResolutionError::from_message(message)
    }

    /// Loads a built-in module, unless it is done. One that is under way cannot
    /// be imported again.
    pub fn resolve_embedded_module_if_any(&mut self, module: &str, files: &mut Files) -> (r: Result<
        EmbeddedImport,
        ModuleResolutionError,
    >)
        requires
            old(files).wf(),
            all_fit(old(files)@),
            forall|i: int|
                0 <= i < old(self).embedded_sources@.len() ==> fits(
                    (#[trigger] old(self).embedded_sources@[i]).value@,
                ),
        ensures
            final(files).wf(),
            final(files).dir() == old(files).dir(),
            all_fit(final(files)@),
            match embedded_key(old(self).embedded_sources@, module@) {
                None => {
                    &&& r == Ok::<EmbeddedImport, ModuleResolutionError>(
                        EmbeddedImport::NotEmbedded,
                    )
                    &&& *final(self) == *old(self)
                    &&& final(files)@ == old(files)@
                },
                Some(key) => if entry_at(old(self).compiled_modules@, key) is Some {
                    &&& r matches Ok(EmbeddedImport::Cached(k)) && k@ == key
                    &&& *final(self) == *old(self)
                    &&& final(files)@ == old(files)@
                } else if holds(old(self).being_imported@, key) {
                    &&& r matches Err(e) && e.code == DiagnosticCode::ImportFailure && e.message@
                        == circular(old(self).import_stack@, key)
                    &&& *final(self) == *old(self)
                    &&& final(files)@ == old(files)@
                } else {
                    let text = entry_at(old(self).embedded_sources@, key)->0@;
                    let path = embedded_path(key);
                    &&& final(files)@ == with_file(old(files)@, shown_path(old(files).dir(), path), text)
                    &&& started(*old(self), *final(self), key)
                    &&& final(self).canonical_cache == old(self).canonical_cache
                    &&& exists|id: FileId| #[trigger]
                        registered(final(files)@, shown_path(old(files).dir(), path), id) && match r {
                            Ok(EmbeddedImport::Loaded(nodes)) => {
                                &&& loaded_aside(
                                    *old(self),
                                    *final(self),
                                    final(files)@,
                                    path,
                                    text,
                                    id,
                                    Ok(nodes),
                                )
                                &&& put(
                                    final(self).module_file_ids@,
                                    old(self).module_file_ids@,
                                    key,
                                    id,
                                )
                            },
                            Ok(_) => false,
                            Err(e) => {
                                &&& e.code == DiagnosticCode::ImportFailure
                                &&& loaded_aside(
                                    *old(self),
                                    *final(self),
                                    final(files)@,
                                    path,
                                    text,
                                    id,
                                    Err(e.message),
                                )
                                &&& final(self).module_file_ids == old(self).module_file_ids
                            },
                        }
                },
            },
    {
        let key = match self.resolve_embedded_key(module) {
            Some(key) => key,
            None => {
                return Ok(EmbeddedImport::NotEmbedded);
            },
        };
        if find_entry(&self.compiled_modules, key.as_str()).is_some() {
            return Ok(EmbeddedImport::Cached(key));
        }
        if has(&self.being_imported, key.as_str()) {
            return Err(self.circular_import(key.as_str()));
        }
        let text = match find_entry(&self.embedded_sources, key.as_str()) {
            Some(text) => text.clone(),
            None => String::new(),
        };
        proof {
            entry_is_in(self.embedded_sources@, key@);
        }
        self.mark(key.as_str());
        let ghost marked = *self;
        let path = virtual_path(key.as_str());
        let r = self.parse_module(path.as_str(), files, Ok(text));
        let ghost id = choose|id: FileId| #[trigger]
            registered(files@, shown_path(files.dir(), path@), id) && loaded(
                marked,
                *self,
                files@,
                path@,
                text@,
                id,
                r,
            );
        match r {
            Ok(nodes) => {
                match files.id_for_path(path.as_str()) {
                    Some(found) => {
                        proof {
                            path_has_one_id(files, shown_path(files.dir(), path@), found, id);
                        }
                        put_entry(&mut self.module_file_ids, key.as_str(), found);
                    },
                    None => {
                        assert(same_path(files@[id.0 as int].0, shown_path(files.dir(), path@)));
                    },
                }
                assert(registered(files@, shown_path(files.dir(), path@), id));
                Ok(EmbeddedImport::Loaded(nodes))
            },
            Err(e) => {
                assert(registered(files@, shown_path(files.dir(), path@), id));
                Err(ModuleResolutionError::from_message(e))
            },
        }
    }

    /// Starts the import of a module from its file, where `canonical` is the
    /// file's path without links and detours, or why there is none.
    pub fn begin_file_import(&mut self, module: &str, canonical: &Result<String, String>) -> (r: Result<
        FileImport,
        ModuleResolutionError,
    >)
        ensures
            match *canonical {
                Err(e) => {
                    &&& r matches Err(error) && error.code == DiagnosticCode::ImportFailure
                        && error.message@ == "Cannot resolve module path "@ + module@ + ": "@ + e@
                    &&& *final(self) == *old(self)
                },
                Ok(path) => match old(self).done_under(path@) {
                    Some(key) => {
                        &&& r matches Ok(FileImport::Cached(k)) && k@ == key
                        &&& *final(self) == *old(self)
                    },
                    None => if holds(old(self).being_imported@, module@) {
                        &&& r matches Err(error) && error.code == DiagnosticCode::ImportFailure
                            && error.message@ == circular(old(self).import_stack@, module@)
                        &&& *final(self) == *old(self)
                    } else {
                        &&& r == Ok::<FileImport, ModuleResolutionError>(FileImport::Load)
                        &&& started(*old(self), *final(self), module@)
                        &&& *final(self) == (ModuleResolver {
                            import_stack: final(self).import_stack,
                            being_imported: final(self).being_imported,
                            ..*old(self)
                        })
                    },
                },
            },
    {
        let path = match canonical {
            Ok(path) => path,
            Err(e) => {
                let mut message = cat("Cannot resolve module path ", module);
                message.append(": ");
                message.append(e.as_str());
                return Err(ModuleResolutionError::from_message(message));
            },
        };
        match find_entry(&self.canonical_cache, path.as_str()) {
            Some(key) => {
                if find_entry(&self.compiled_modules, key.as_str()).is_some() {
                    return Ok(FileImport::Cached(key.clone()));
                }
            },
            None => {},
        }
        if has(&self.being_imported, module) {
            return Err(self.circular_import(module));
        }
        self.mark(module);
        Ok(FileImport::Load)
    }

    /// The name under which the module of a file is done.
    pub open spec fn done_under(&self, path: Seq<char>) -> Option<Seq<char>> {
        match entry_at(self.canonical_cache@, path) {
            Some(key) => if entry_at(self.compiled_modules@, key@) is Some {
                Some(key@)
            } else {
                None
            },
            None => None,
        }
    }

    /// Loads a module from its file: `path` is the file's path without links
    /// and detours, `source` its text or why there is none.
    pub fn resolve_import_path(
        &mut self,
        module: &str,
        path: &str,
        files: &mut Files,
        source: Result<String, String>,
    ) -> (r: Result<Vec<AstNode>, ModuleResolutionError>)
        requires
            old(files).wf(),
            all_fit(old(files)@),
            source matches Ok(text) ==> fits(text@),
        ensures
            final(files).wf(),
            final(files).dir() == old(files).dir(),
            all_fit(final(files)@),
            match source {
                Err(e) => {
                    &&& r matches Err(error) && error.code == DiagnosticCode::ImportFailure
                        && error.message@ == "Failed to open module: "@ + e@
                    &&& *final(self) == *old(self)
                    &&& final(files)@ == old(files)@
                },
                Ok(text) => {
                    &&& final(files)@ == with_file(old(files)@, shown_path(old(files).dir(), path@), text@)
                    &&& exists|id: FileId| #[trigger]
                        registered(final(files)@, shown_path(old(files).dir(), path@), id) && match r {
                            Ok(nodes) => {
                                &&& final(self).import_stack == old(self).import_stack
                                &&& final(self).being_imported == old(self).being_imported
                                &&& loaded_aside(
                                    *old(self),
                                    *final(self),
                                    final(files)@,
                                    path@,
                                    text@,
                                    id,
                                    Ok(nodes),
                                )
                                &&& put(
                                    final(self).module_file_ids@,
                                    old(self).module_file_ids@,
                                    module@,
                                    id,
                                )
                                &&& exists|m: String| m@ == module@ && #[trigger] put(
                                    final(self).canonical_cache@,
                                    old(self).canonical_cache@,
                                    path@,
                                    m,
                                )
                            },
                            Err(error) => {
                                &&& error.code == DiagnosticCode::ImportFailure
                                &&& loaded(
                                    *old(self),
                                    *final(self),
                                    final(files)@,
                                    path@,
                                    text@,
                                    id,
                                    Err(error.message),
                                )
                            },
                        }
                },
            },
    {
        let r = self.parse_module(path, files, source);
        let ghost after = *self;
        match r {
            Ok(nodes) => {
                let ghost text = source->Ok_0@;
                let ghost id = choose|id: FileId| #[trigger]
                    registered(files@, shown_path(files.dir(), path@), id) && loaded(
                        *old(self),
                        after,
                        files@,
                        path@,
                        text,
                        id,
                        r,
                    );
                match files.id_for_path(path) {
                    Some(found) => {
                        proof {
                            path_has_one_id(files, shown_path(files.dir(), path@), found, id);
                        }
                        put_entry(&mut self.module_file_ids, module, found);
                    },
                    None => {
                        assert(same_path(files@[id.0 as int].0, shown_path(files.dir(), path@)));
                    },
                }
                let name = module.to_owned();
                put_entry(&mut self.canonical_cache, path, name);
                assert(put(self.canonical_cache@, old(self).canonical_cache@, path@, name));
                assert(registered(files@, shown_path(files.dir(), path@), id));
                Ok(nodes)
            },
            Err(e) => Err(ModuleResolutionError::from_message(e)),
        }
    }
}

/// Loading, whatever else the import changed: the imports under way and the
/// tables of paths.
pub open spec fn loaded_aside(
    before: ModuleResolver,
    after: ModuleResolver,
    files: Seq<FileModel>,
    path: Seq<char>,
    text: Seq<char>,
    id: FileId,
    r: Result<Vec<AstNode>, String>,
) -> bool {
    loaded(
        ModuleResolver {
            import_stack: after.import_stack,
            being_imported: after.being_imported,
            module_file_ids: after.module_file_ids,
            canonical_cache: after.canonical_cache,
            ..before
        },
        after,
        files,
        path,
        text,
        id,
        r,
    )
}

proof fn entry_is_in(s: Seq<Entry<String>>, key: Seq<char>)
    requires
        entry_at(s, key) is Some,
    ensures
        exists|i: int| 0 <= i < s.len() && (#[trigger] s[i]).value == entry_at(s, key)->0,
    decreases s.len(),
{
    if s[0].key@ == key {
    } else {
        entry_is_in(s.drop_first(), key);
        let i = choose|i: int|
            0 <= i < s.drop_first().len() && (#[trigger] s.drop_first()[i]).value == entry_at(
                s.drop_first(),
                key,
            )->0;
        assert(s[i + 1].value == s.drop_first()[i].value);
    }
}

proof fn parts_not_empty(s: Seq<char>, sep: char, from: int, p: int)
    ensures
        crate::table::parts_from(s, sep, from, p).len() > 0,
    decreases s.len() - p,
{
    if 0 <= p < s.len() {
        parts_not_empty(s, sep, p + 1, p + 1);
        parts_not_empty(s, sep, from, p + 1);
    }
}

} // verus!
