//! Edits to files: what an operation that changes code proposes.

use crate::path;
use crate::view;
use vstd::prelude::*;

verus! {

/// A point in a file: a line and a character in it, both from zero.
#[derive(Clone, Copy, Debug, PartialEq, Eq, Structural)]
pub struct Position {
    /// The line.
    pub line: u32,
    /// The character in the line.
    pub character: u32,
}

/// A stretch of a file, from one point up to another.
#[derive(Clone, Copy, Debug, PartialEq, Eq, Structural)]
pub struct Range {
    /// The first point.
    pub start: Position,
    /// The point after the last.
    pub end: Position,
}

impl Position {
    /// A point.
    pub fn new(line: u32, character: u32) -> (r: Position)
        ensures
            r == (Position { line, character }),
    {
        Position { line, character }
    }
}

impl Range {
    /// A stretch.
    pub fn new(start: Position, end: Position) -> (r: Range)
        ensures
            r == (Range { start, end }),
    {
        Range { start, end }
    }
}

/// How a line's characters are counted.
#[derive(Clone, Copy, Debug, PartialEq, Eq, Structural)]
pub enum PositionEncoding {
    /// In bytes.
    Utf8,
    /// In units of sixteen bits.
    Utf16,
}

/// A replacement of a stretch of a file by a text.
#[derive(Clone, Debug, PartialEq, Eq)]
pub struct TextEdit {
    /// The stretch.
    pub range: Range,
    /// The text.
    pub new_text: String,
}

/// The replacements in one file.
#[derive(Clone, Debug, PartialEq, Eq)]
pub struct FileEdit {
    /// The file.
    pub path: String,
    /// The replacements.
    pub edits: Vec<TextEdit>,
}

/// A change to a file as a whole.
#[derive(Clone, Debug, PartialEq, Eq)]
pub enum FileOperation {
    /// A file comes to be.
    Create {
        /// The file.
        path: String,
    },
    /// A file gets another name.
    Rename {
        /// The name it had.
        from: String,
        /// The name it gets.
        to: String,
    },
    /// A file goes away.
    Delete {
        /// The file.
        path: String,
    },
}

/// Edits to the files of a working copy.
#[derive(Clone, Debug, PartialEq, Eq)]
pub struct WorkspaceEdit {
    /// How positions count characters.
    pub encoding: PositionEncoding,
    /// The replacements, file by file.
    pub files: Vec<FileEdit>,
    /// The changes to files as a whole, in order.
    pub file_ops: Vec<FileOperation>,
}

/// What a replacement is.
pub struct TextEditView {
    /// The stretch.
    pub range: Range,
    /// The text.
    pub new_text: Seq<char>,
}

/// What the replacements in one file are.
#[verifier::ext_equal]
pub struct FileEditView {
    /// The file.
    pub path: Seq<char>,
    /// The replacements.
    pub edits: Seq<TextEditView>,
}

/// What a change to a file as a whole is.
#[verifier::ext_equal]
pub enum FileOperationView {
    /// A file comes to be.
    Create {
        /// The file.
        path: Seq<char>,
    },
    /// A file gets another name.
    Rename {
        /// The name it had.
        from: Seq<char>,
        /// The name it gets.
        to: Seq<char>,
    },
    /// A file goes away.
    Delete {
        /// The file.
        path: Seq<char>,
    },
}

/// What edits to the files of a working copy are.
#[verifier::ext_equal]
pub struct WorkspaceEditView {
    /// How positions count characters.
    pub encoding: PositionEncoding,
    /// The replacements, file by file.
    pub files: Seq<FileEditView>,
    /// The changes to files as a whole, in order.
    pub file_ops: Seq<FileOperationView>,
}

impl View for TextEdit {
    type V = TextEditView;

    open spec fn view(&self) -> TextEditView {
        TextEditView { range: self.range, new_text: self.new_text@ }
    }
}

impl View for FileEdit {
    type V = FileEditView;

    open spec fn view(&self) -> FileEditView {
        FileEditView { path: self.path@, edits: view::each(self.edits@) }
    }
}

impl View for FileOperation {
    type V = FileOperationView;

    open spec fn view(&self) -> FileOperationView {
        match *self {
            FileOperation::Create { path } => FileOperationView::Create { path: path@ },
            FileOperation::Rename { from, to } => FileOperationView::Rename {
                from: from@,
                to: to@,
            },
            FileOperation::Delete { path } => FileOperationView::Delete { path: path@ },
        }
    }
}

impl View for WorkspaceEdit {
    type V = WorkspaceEditView;

    open spec fn view(&self) -> WorkspaceEditView {
        WorkspaceEditView {
            encoding: self.encoding,
            files: view::each(self.files@),
            file_ops: view::each(self.file_ops@),
        }
    }
}

// ---------------------------------------------------------------------------
// Moving paths from one root to another
// ---------------------------------------------------------------------------

/// A path moved from one root to another; one outside the first root stays.
pub open spec fn moved(p: Seq<char>, from: Seq<char>, to: Seq<char>) -> Seq<char> {
    match path::rest_under(p, from) {
        Some(rest) => path::joined(to, rest),
        None => p,
    }
}

/// Moves a path from one root to another, if it lies under the first.
pub fn retarget_path(p: &str, from_root: &str, to_root: &str) -> (r: String)
    ensures
        r@ == moved(p@, from_root@, to_root@),
{
    match path::strip_prefix(p, from_root) {
        Some(rest) => path::join(to_root, rest.as_str()),
        None => p.to_owned(),
    }
}

/// A path that lies under the root it is moved from ends up, component by
/// component, in the same place under the other root.
pub proof fn moved_keeps_relative_components(p: Seq<char>, from: Seq<char>, to: Seq<char>)
    requires
        path::components(from).len() > 0,
        path::under(p, from),
    ensures
        path::components(moved(p, from, to)) == path::components(to) + path::components(p).skip(
            path::components(from).len() as int,
        ),
        path::under(moved(p, from, to), to),
{
    let n = path::components(from).len() as int;
    path::rest_has_later_components(p, n);
    path::join_appends_components(to, path::rest_from(p, n));
    let all = path::components(moved(p, from, to));
    assert(all.subrange(0, path::components(to).len() as int) =~= path::components(to));
}

/// A path outside the root it would be moved from stays as it is.
pub proof fn moved_leaves_foreign_paths(p: Seq<char>, from: Seq<char>, to: Seq<char>)
    requires
        !path::under(p, from),
    ensures
        moved(p, from, to) == p,
{
}

/// Moving a path to another root and back gives a path with the same
/// components.
pub proof fn moved_there_and_back(p: Seq<char>, from: Seq<char>, to: Seq<char>)
    requires
        path::components(from).len() > 0,
        path::components(to).len() > 0,
        path::under(p, from),
    ensures
        path::components(moved(moved(p, from, to), to, from)) == path::components(p),
{
    moved_keeps_relative_components(p, from, to);
    let there = moved(p, from, to);
    moved_keeps_relative_components(there, to, from);
    let n = path::components(from).len() as int;
    let m = path::components(to).len() as int;
    assert(path::components(there).skip(m) =~= path::components(p).skip(n));
    assert(path::components(from) + path::components(p).skip(n) =~= path::components(p)) by {
        assert(path::components(from) =~= path::components(p).subrange(0, n));
    }
}

/// A change to a file with its paths moved from one root to another.
pub open spec fn operation_moved(
    op: FileOperationView,
    from_root: Seq<char>,
    to_root: Seq<char>,
) -> FileOperationView {
    match op {
        FileOperationView::Create { path } => FileOperationView::Create {
            path: moved(path, from_root, to_root),
        },
        FileOperationView::Rename { from, to } => FileOperationView::Rename {
            from: moved(from, from_root, to_root),
            to: moved(to, from_root, to_root),
        },
        FileOperationView::Delete { path } => FileOperationView::Delete {
            path: moved(path, from_root, to_root),
        },
    }
}

/// An edit with all its paths moved from one root to another.
pub open spec fn edit_moved(
    edit: WorkspaceEditView,
    from_root: Seq<char>,
    to_root: Seq<char>,
) -> WorkspaceEditView {
    WorkspaceEditView {
        encoding: edit.encoding,
        files: Seq::new(
            edit.files.len(),
            |i: int|
                FileEditView {
                    path: moved(edit.files[i].path, from_root, to_root),
                    edits: edit.files[i].edits,
                },
        ),
        file_ops: Seq::new(
            edit.file_ops.len(),
            |i: int| operation_moved(edit.file_ops[i], from_root, to_root),
        ),
    }
}

impl WorkspaceEdit {
    /// An edit that changes nothing.
    pub fn empty() -> (r: WorkspaceEdit)
        ensures
            r@ == (WorkspaceEditView {
                encoding: PositionEncoding::Utf16,
                files: Seq::empty(),
                file_ops: Seq::empty(),
            }),
    {
        let r = WorkspaceEdit {
            encoding: PositionEncoding::Utf16,
            files: Vec::new(),
            file_ops: Vec::new(),
        };
        assert(view::each(r.files@) =~= Seq::empty());
        assert(view::each(r.file_ops@) =~= Seq::empty());
        r
    }

    /// Whether the edit changes nothing.
    pub fn is_empty(&self) -> (r: bool)
        ensures
            r == (self@.files.len() == 0 && self@.file_ops.len() == 0),
    {
        self.files.len() == 0 && self.file_ops.len() == 0
    }

    /// Moves every path of the edit from one root to another.
    pub fn retarget(&mut self, from_root: &str, to_root: &str)
        ensures
            final(self)@ == edit_moved(old(self)@, from_root@, to_root@),
    {
        let ghost before = self@;
        let mut i: usize = 0;
        while i < self.files.len()
            invariant
                i <= self.files@.len(),
                self.files@.len() == before.files.len(),
                self.encoding == before.encoding,
                view::each(self.file_ops@) == before.file_ops,
                forall|k: int|
                    0 <= k < i ==> (#[trigger] self.files@[k])@ == edit_moved(
                        before,
                        from_root@,
                        to_root@,
                    ).files[k],
                forall|k: int|
                    i <= k < self.files@.len() ==> (#[trigger] self.files@[k])@ == before.files[k],
            decreases self.files@.len() - i,
        {
            let to = retarget_path(self.files[i].path.as_str(), from_root, to_root);
            assert(self.files@[i as int]@ == before.files[i as int]);
            self.files[i].path = to;
            i += 1;
        }
        i = 0;
        while i < self.file_ops.len()
            invariant
                i <= self.file_ops@.len(),
                self.file_ops@.len() == before.file_ops.len(),
                self.files@.len() == before.files.len(),
                self.encoding == before.encoding,
                forall|k: int|
                    0 <= k < self.files@.len() ==> (#[trigger] self.files@[k])@ == edit_moved(
                        before,
                        from_root@,
                        to_root@,
                    ).files[k],
                forall|k: int|
                    0 <= k < i ==> (#[trigger] self.file_ops@[k])@ == edit_moved(
                        before,
                        from_root@,
                        to_root@,
                    ).file_ops[k],
                forall|k: int|
                    i <= k < self.file_ops@.len() ==> (#[trigger] self.file_ops@[k])@
                        == before.file_ops[k],
            decreases self.file_ops@.len() - i,
        {
            assert(self.file_ops@[i as int]@ == before.file_ops[i as int]);
            let op = match &self.file_ops[i] {
                FileOperation::Create { path } => FileOperation::Create {
                    path: retarget_path(path.as_str(), from_root, to_root),
                },
                FileOperation::Rename { from, to } => FileOperation::Rename {
                    from: retarget_path(from.as_str(), from_root, to_root),
                    to: retarget_path(to.as_str(), from_root, to_root),
                },
                FileOperation::Delete { path } => FileOperation::Delete {
                    path: retarget_path(path.as_str(), from_root, to_root),
                },
            };
            assert(op@ == operation_moved(before.file_ops[i as int], from_root@, to_root@));
            self.file_ops[i] = op;
            i += 1;
        }
        assert(self@.files =~= edit_moved(before, from_root@, to_root@).files);
        assert(self@.file_ops =~= edit_moved(before, from_root@, to_root@).file_ops);
    }
}

} // verus!
