//! File tracking for multi-file diagnostics.

use crate::paths::{
    are_same_path, normalized_path, same_path, shown_path, shown_path_stays, text_view,
};
use vstd::prelude::*;

verus! {

/// Unique identifier for a source file.
#[derive(Debug, Clone, Copy, PartialEq, Eq, Hash, PartialOrd, Ord, Structural)]
pub struct FileId(pub usize);

/// A source file: its displayed path and its text.
#[derive(Debug, Clone)]
pub struct FileInfo {
    pub path: String,
    pub source: String,
}

/// Manages source files for diagnostic reporting.
pub struct Files {
    pub files: Vec<FileInfo>,
    /// The working directory, where there is one: paths in it are shown from
    /// there.
    pub directory: Option<String>,
}

/// A file as a mathematical value: its path and its text.
pub type FileModel = (Seq<char>, Seq<char>);

impl View for Files {
    type V = Seq<FileModel>;

    open spec fn view(&self) -> Seq<FileModel> {
        self.files@.map_values(|f: FileInfo| (f.path@, f.source@))
    }
}

/// The file registered under a path, which is given as it is shown.
pub open spec fn registered(files: Seq<FileModel>, path: Seq<char>, id: FileId) -> bool {
    id.0 < files.len() && same_path(files[id.0 as int].0, path)
}

/// Whether a path is registered at all.
pub open spec fn is_registered(files: Seq<FileModel>, path: Seq<char>) -> bool {
    exists|i: int| 0 <= i < files.len() && same_path((#[trigger] files[i]).0, path)
}

impl Files {
    /// No path is registered twice, and every path is registered as it is
    /// shown.
    pub open spec fn wf(&self) -> bool {
        &&& forall|i: int, j: int|
            0 <= i < j < self@.len() ==> !same_path(
                (#[trigger] self@[i]).0,
                (#[trigger] self@[j]).0,
            )
        &&& forall|i: int|
            0 <= i < self@.len() ==> shown_path(self.dir(), (#[trigger] self@[i]).0) == self@[i].0
    }

    /// The working directory.
    pub open spec fn dir(&self) -> Option<Seq<char>> {
        text_view(self.directory)
    }

    /// A registry outside of any directory: paths are shown as they are.
    pub fn new() -> (r: Self)
        ensures
            r.wf(),
            r@ == Seq::<FileModel>::empty(),
            r.dir() is None,
    {
        let r = Self { files: Vec::new(), directory: None };
        assert(r@ =~= seq![]);
        r
    }

    /// A registry in a working directory.
    pub fn in_directory(directory: String) -> (r: Self)
        ensures
            r.wf(),
            r@ == Seq::<FileModel>::empty(),
            r.dir() == Some(directory@),
    {
        let r = Self { files: Vec::new(), directory: Some(directory) };
        assert(r@ =~= seq![]);
        r
    }

    fn find(&self, path: &str) -> (r: Option<FileId>)
        ensures
            match r {
                Some(id) => registered(self@, path@, id),
                None => !is_registered(self@, path@),
            },
    {
        let mut i: usize = 0;
        while i < self.files.len()
            invariant
                i <= self.files@.len(),
                forall|j: int| 0 <= j < i ==> !same_path((#[trigger] self@[j]).0, path@),
            decreases self.files@.len() - i,
        {
            assert(self@[i as int].0 == self.files@[i as int].path@);
            if are_same_path(self.files[i].path.as_str(), path) {
                return Some(FileId(i));
            }
            i += 1;
        }
        None
    }

    /// The file registered under a path, where there is one.
    pub fn id_for_path(&self, path: &str) -> (r: Option<FileId>)
        ensures
            match r {
                Some(id) => registered(self@, shown_path(self.dir(), path@), id),
                None => !is_registered(self@, shown_path(self.dir(), path@)),
            },
    {
        self.find(normalized_path(&self.directory, path).as_str())
    }

    /// Adds a file and gives its ID. A path that is already registered keeps
    /// its ID and its text.
    pub fn add(&mut self, path: &str, source: String) -> (r: FileId)
        requires
            old(self).wf(),
        ensures
            final(self).wf(),
            final(self).dir() == old(self).dir(),
            ({
                let shown = shown_path(old(self).dir(), path@);
                &&& registered(final(self)@, shown, r)
                &&& is_registered(old(self)@, shown) ==> final(self)@ == old(self)@
                &&& !is_registered(old(self)@, shown) ==> final(self)@ == old(self)@.push(
                    (shown, source@),
                )
            }),
    {
        let shown = normalized_path(&self.directory, path);
        match self.find(shown.as_str()) {
            Some(id) => id,
            None => {
                let id = FileId(self.files.len());
                let ghost text = shown@;
                self.files.push(FileInfo { path: shown, source });
                proof {
                    shown_path_stays(old(self).dir(), path@);
                    assert(self@ =~= old(self)@.push((text, source@)));
                    assert forall|i: int, j: int| 0 <= i < j < self@.len() implies !same_path(
                        (#[trigger] self@[i]).0,
                        (#[trigger] self@[j]).0,
                    ) by {
                        assert(self@[i] == old(self)@[i]);
                        if j < old(self)@.len() {
                            assert(self@[j] == old(self)@[j]);
                        }
                    }
                    assert forall|i: int| 0 <= i < self@.len() implies shown_path(
                        self.dir(),
                        (#[trigger] self@[i]).0,
                    ) == self@[i].0 by {
                        if i < old(self)@.len() {
                            assert(self@[i] == old(self)@[i]);
                        }
                    }
                }
                id
            },
        }
    }

    /// The number of registered files.
    pub fn len(&self) -> (r: usize)
        ensures
            r == self@.len(),
    {
        self.files.len()
    }

    /// The file with an ID.
    pub fn get(&self, id: FileId) -> (r: Option<&FileInfo>)
        ensures
            match r {
                Some(f) => id.0 < self@.len() && self@[id.0 as int] == (f.path@, f.source@),
                None => id.0 >= self@.len(),
            },
    {
        if id.0 < self.files.len() {
            Some(&self.files[id.0])
        } else {
            None
        }
    }

    /// The source text registered for a file.
    pub fn source(&self, id: FileId) -> (r: Option<&str>)
        ensures
            match r {
                Some(s) => id.0 < self@.len() && self@[id.0 as int].1 == s@,
                None => id.0 >= self@.len(),
            },
    {
        match self.get(id) {
            Some(file) => Some(file.source.as_str()),
            None => None,
        }
    }

    /// The displayed path registered for a file.
    pub fn path(&self, id: FileId) -> (r: Option<&str>)
        ensures
            match r {
                Some(s) => id.0 < self@.len() && self@[id.0 as int].0 == s@,
                None => id.0 >= self@.len(),
            },
    {
        match self.get(id) {
            Some(file) => Some(file.path.as_str()),
            None => None,
        }
    }

    /// All registered files in registration order.
    pub fn iter(&self) -> (r: Vec<(FileId, &str, &str)>)
        ensures
            r@.len() == self@.len(),
            forall|i: int|
                0 <= i < r@.len() ==> (#[trigger] r@[i]).0.0 == i && (r@[i].1@, r@[i].2@)
                    == self@[i],
    {
        let mut out: Vec<(FileId, &str, &str)> = Vec::new();
        let mut i: usize = 0;
        while i < self.files.len()
            invariant
                i == out@.len() <= self.files@.len(),
                forall|j: int|
                    0 <= j < i ==> (#[trigger] out@[j]).0.0 == j && (out@[j].1@, out@[j].2@)
                        == self@[j],
            decreases self.files@.len() - i,
        {
            let file = &self.files[i];
            out.push((FileId(i), file.path.as_str(), file.source.as_str()));
            i += 1;
        }
        out
    }
}

impl Default for Files {
    fn default() -> (r: Self)
        ensures
            r.wf(),
            r@ == Seq::<FileModel>::empty(),
            r.dir() is None,
    {
        Self::new()
    }
}

/// An ID stays valid: files that are added later change neither its path nor
/// its text.
pub proof fn ids_are_stable(files: Seq<FileModel>, added: FileModel, id: FileId)
    requires
        id.0 < files.len(),
    ensures
        files.push(added)[id.0 as int] == files[id.0 as int],
{
}

/// In a well-formed registry a path has one ID.
pub proof fn path_has_one_id(files: &Files, path: Seq<char>, a: FileId, b: FileId)
    requires
        files.wf(),
        registered(files@, path, a),
        registered(files@, path, b),
    ensures
        a == b,
{
    if a.0 < b.0 {
        assert(!same_path(files@[a.0 as int].0, files@[b.0 as int].0));
    } else if b.0 < a.0 {
        assert(!same_path(files@[b.0 as int].0, files@[a.0 as int].0));
    }
}

/// A file is found under the path that it is shown with.
pub proof fn shown_path_finds_the_file(files: &Files, id: FileId)
    requires
        files.wf(),
        id.0 < files@.len(),
    ensures
        registered(files@, shown_path(files.dir(), files@[id.0 as int].0), id),
{
    let path = files@[id.0 as int].0;
    assert(shown_path(files.dir(), path) == path);
}

/// A file is found under every text of the path that it was added with, and
/// texts of other paths do not find it.
pub proof fn file_is_found_by_its_path(
    files: &Files,
    added: Seq<char>,
    asked: Seq<char>,
    id: FileId,
)
    requires
        registered(files@, shown_path(files.dir(), added), id),
    ensures
        same_path(added, asked) ==> registered(files@, shown_path(files.dir(), asked), id),
        registered(files@, shown_path(files.dir(), asked), id) == same_path(
            shown_path(files.dir(), added),
            shown_path(files.dir(), asked),
        ),
{
    if same_path(added, asked) {
        crate::paths::same_paths_are_shown_alike(files.dir(), added, asked);
    }
}

} // verus!
