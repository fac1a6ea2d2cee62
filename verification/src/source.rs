//! Quoting source text beside the places that results point at.

use crate::edit::Range;
use crate::json;
use crate::json::Json;
use crate::json::JsonView;
use crate::json::Object;
use crate::path;
use crate::text;
use crate::uri;
use crate::view;
use vstd::prelude::*;

verus! {

/// The most characters of one line that a result carries.
pub const MAX_TEXT_CHARS: usize = 500;

/// The most lines that may be asked for on either side of a place.
pub const MAX_CONTEXT_LINES: usize = 10;

/// Where quoted text comes from, and how much of it is quoted.
///
/// A place in a file says little to a reader who has not opened the file, so
/// each place a query reports carries the text that stands there. The text
/// comes from `content_root`: the working copy a query is answered for, which
/// need not be the checkout at `root` that places are reported against.
#[derive(Debug)]
pub struct Source {
    root: String,
    content_root: String,
    context_lines: usize,
    files: Vec<(String, Option<String>)>,
}

/// What a source is.
#[verifier::ext_equal]
pub struct SourceView {
    /// What reported paths are relative to.
    pub root: Seq<char>,
    /// The checkout that text is quoted from.
    pub content_root: Seq<char>,
    /// How many lines are quoted around a place.
    pub context_lines: int,
    /// The files that were read, with their text; none for one that could not
    /// be read.
    pub files: Seq<(Seq<char>, Option<Seq<char>>)>,
}

/// What files that were read are.
spec fn files_view(files: Seq<(String, Option<String>)>) -> Seq<(Seq<char>, Option<Seq<char>>)> {
    Seq::new(files.len(), |i: int| (files[i].0@, view::maybe(files[i].1)))
}

impl View for Source {
    type V = SourceView;

    closed spec fn view(&self) -> SourceView {
        SourceView {
            root: self.root@,
            content_root: self.content_root@,
            context_lines: self.context_lines as int,
            files: files_view(self.files@),
        }
    }
}

/// The text of a file among those read; the first reading counts.
pub open spec fn text_of_file(
    files: Seq<(Seq<char>, Option<Seq<char>>)>,
    file: Seq<char>,
    i: int,
) -> Option<Option<Seq<char>>>
    decreases files.len() - i,
{
    if i < 0 || i >= files.len() {
        None
    } else if files[i].0 == file {
        Some(files[i].1)
    } else {
        text_of_file(files, file, i + 1)
    }
}

impl SourceView {
    /// The path under which a URI is reported: relative where it lies inside
    /// the root.
    pub open spec fn reported(self, uri: Seq<char>) -> Seq<char> {
        let p = uri::path_of(uri);
        match path::rest_under(p, self.root) {
            Some(rest) => rest,
            None => p,
        }
    }

    /// The file that the text of a URI is quoted from: the same relative path
    /// in the checkout that is quoted.
    pub open spec fn quoted_from(self, uri: Seq<char>) -> Seq<char> {
        let p = uri::path_of(uri);
        match path::rest_under(p, self.root) {
            Some(rest) => path::joined(self.content_root, rest),
            None => p,
        }
    }

    /// The text of a URI, where it was read.
    pub open spec fn content(self, uri: Seq<char>) -> Option<Seq<char>> {
        match text_of_file(self.files, self.quoted_from(uri), 0) {
            Some(found) => found,
            None => None,
        }
    }
}

/// A line as a result carries it: cut, with an ellipsis, where it is long.
pub open spec fn capped(line: Seq<char>) -> Seq<char> {
    if line.len() <= MAX_TEXT_CHARS {
        line
    } else {
        line.take(MAX_TEXT_CHARS as int).push('\u{2026}')
    }
}

/// The lines from `first` to `last` as a result carries them.
pub open spec fn quoted(lines: Seq<Seq<char>>, first: int, last: int) -> Seq<char> {
    text::joined(
        Seq::new((last + 1 - first) as nat, |i: int| capped(lines[first + i])),
        "\n"@,
    )
}

/// The smaller of two numbers.
pub open spec fn least(a: int, b: int) -> int {
    if a < b {
        a
    } else {
        b
    }
}

/// The last line a range covers. One that ends before the first character of a
/// line does not reach that line.
pub open spec fn last_line(range: Range) -> int {
    if range.end.line > range.start.line && range.end.character == 0 {
        range.end.line - 1
    } else if range.end.line > range.start.line {
        range.end.line as int
    } else {
        range.start.line as int
    }
}

/// An entry with the text that stands at a range, and the lines around it
/// where they are asked for. Without the text, or for a range past its end,
/// the entry stays as it is.
pub open spec fn annotated(
    entry: Map<Seq<char>, JsonView>,
    content: Option<Seq<char>>,
    range: Range,
    context_lines: int,
) -> Map<Seq<char>, JsonView> {
    match content {
        None => entry,
        Some(content) => {
            let lines = text::lines_of(content);
            let first = range.start.line as int;
            if first >= lines.len() {
                entry
            } else {
                let last = least(last_line(range), lines.len() - 1);
                let with_text = entry.insert("text"@, JsonView::Text(quoted(lines, first, last)));
                if context_lines > 0 {
                    let from = if first > context_lines {
                        first - context_lines
                    } else {
                        0
                    };
                    let to = least(last + context_lines, lines.len() - 1);
                    with_text.insert(
                        "context"@,
                        JsonView::Text(quoted(lines, from, to)),
                    ).insert("context_start_line"@, json::num(from))
                } else {
                    with_text
                }
            }
        },
    }
}

/// Cuts a line that is long.
fn cap(line: &str) -> (r: String)
    ensures
        r@ == capped(line@),
{
    let cs = text::chars_of(line);
    if cs.len() <= MAX_TEXT_CHARS {
        line.to_owned()
    } else {
        let mut out = text::text_of(&cs, 0, MAX_TEXT_CHARS);
        assert(out@ =~= line@.take(MAX_TEXT_CHARS as int));
        out.push('\u{2026}');
        out
    }
}

/// Joins lines as a result carries them.
pub fn truncate_lines(lines: &Vec<String>, first: usize, last: usize) -> (r: String)
    requires
        first <= last < lines@.len(),
    ensures
        r@ == quoted(view::each(lines@), first as int, last as int),
{
    let mut out: Vec<String> = Vec::new();
    let count: usize = lines.len();
    let mut i: usize = first;
    while i <= last
        invariant
            first <= i <= last + 1,
            last < count == lines@.len(),
            out@.len() == i - first,
            forall|k: int| 0 <= k < out@.len() ==> (#[trigger] out@[k])@ == capped(
                lines@[first + k]@,
            ),
        decreases last + 1 - i,
    {
        out.push(cap(lines[i].as_str()));
        i += 1;
    }
    let ghost parts = Seq::new(
        (last + 1 - first) as nat,
        |k: int| capped(view::each(lines@)[first + k]),
    );
    assert(view::each(out@) =~= parts);
    text::join(&out, "\n")
}

impl Source {
    /// A source that quotes from `content_root` and reports paths relative to
    /// `root`. The number of lines around a place is held to its limit.
    pub fn new(root: &str, content_root: String, context_lines: usize) -> (r: Source)
        ensures
            r@ == (SourceView {
                root: root@,
                content_root: content_root@,
                context_lines: least(context_lines as int, MAX_CONTEXT_LINES as int),
                files: Seq::empty(),
            }),
    {
        let lines = if context_lines < MAX_CONTEXT_LINES {
            context_lines
        } else {
            MAX_CONTEXT_LINES
        };
        let r = Source {
            root: root.to_owned(),
            content_root,
            context_lines: lines,
            files: Vec::new(),
        };
        assert(files_view(r.files@) =~= Seq::empty());
        r
    }

    /// How many lines are quoted around a place.
    pub fn context_lines(&self) -> (r: usize)
        ensures
            r == self@.context_lines,
    {
        self.context_lines
    }

    /// Adds what reading a file gave: its text, or nothing. A file that was
    /// added before keeps what it had.
    pub fn provide(&mut self, file: String, content: Option<String>)
        ensures
            final(self)@ == (SourceView {
                files: old(self)@.files.push((file@, view::maybe(content))),
                ..old(self)@
            }),
    {
        let ghost before = self@.files;
        let ghost added = (file@, view::maybe(content));
        self.files.push((file, content));
        assert(self@.files =~= before.push(added));
    }

    /// The path under which a URI is reported.
    pub fn rel(&self, uri: &str) -> (r: String)
        ensures
            r@ == self@.reported(uri@),
    {
        let p = uri::uri_to_path(uri);
        match path::strip_prefix(p.as_str(), self.root.as_str()) {
            Some(rest) => rest,
            None => p,
        }
    }

    /// The file that the text of a URI is quoted from.
    pub fn read_path(&self, uri: &str) -> (r: String)
        ensures
            r@ == self@.quoted_from(uri@),
    {
        let p = uri::uri_to_path(uri);
        match path::strip_prefix(p.as_str(), self.root.as_str()) {
            Some(rest) => path::join(self.content_root.as_str(), rest.as_str()),
            None => p,
        }
    }

    /// The text of a URI, where it was read.
    pub fn content(&self, uri: &str) -> (r: Option<&String>)
        ensures
            view::maybe(r) == self@.content(uri@),
    {
        let file = self.read_path(uri);
        let mut i: usize = 0;
        while i < self.files.len()
            invariant
                i <= self.files@.len(),
                text_of_file(self@.files, file@, 0) == text_of_file(self@.files, file@, i as int),
                file@ == self@.quoted_from(uri@),
            decreases self.files@.len() - i,
        {
            assert(self@.files[i as int] == (self.files@[i as int].0@, view::maybe(
                self.files@[i as int].1,
            )));
            if text::same(self.files[i].0.as_str(), file.as_str()) {
                return match &self.files[i].1 {
                    Some(t) => Some(t),
                    None => None,
                };
            }
            i += 1;
        }
        None
    }

    /// Adds the text that stands at a range of a URI to an entry.
    pub fn annotate(&self, entry: Object, uri: &str, range: &Range) -> (r: Object)
        ensures
            r@ == annotated(entry@, self@.content(uri@), *range, self@.context_lines),
    {
        let content = match self.content(uri) {
            Some(content) => content,
            None => {
                return entry;
            },
        };
        let lines = text::lines(content.as_str());
        let ghost all = text::lines_of(content@);
        assert(view::each(lines@) == all);
        assert(all.len() == lines@.len());
        let first_line: u32 = range.start.line;
        let end_line: u32 = range.end.line;
        let covered: u32 = if end_line > first_line && range.end.character == 0 {
            end_line - 1
        } else if end_line > first_line {
            end_line
        } else {
            first_line
        };
        assert(covered == last_line(*range));
        if first_line as usize >= lines.len() {
            return entry;
        }
        let first: usize = first_line as usize;
        let last: usize = if (covered as usize) < lines.len() - 1 {
            covered as usize
        } else {
            lines.len() - 1
        };
        let annotated_entry = entry.with("text", Json::Text(truncate_lines(&lines, first, last)));
        if self.context_lines > 0 {
            let from: usize = if first > self.context_lines {
                first - self.context_lines
            } else {
                0
            };
            let to: usize = if self.context_lines < lines.len() - 1 - last {
                last + self.context_lines
            } else {
                lines.len() - 1
            };
            annotated_entry.with("context", Json::Text(truncate_lines(&lines, from, to))).with(
                "context_start_line",
                Json::number(from as u64),
            )
        } else {
            annotated_entry
        }
    }
}

// ---------------------------------------------------------------------------
// What quoting promises
// ---------------------------------------------------------------------------

/// Quoting adds to an entry and takes nothing from it. An entry whose file
/// cannot be read, or that lies past the end of its file, stays as it is.
pub proof fn quoting_never_changes_the_place(
    entry: Map<Seq<char>, JsonView>,
    content: Option<Seq<char>>,
    range: Range,
    context_lines: int,
    key: Seq<char>,
)
    ensures
        ({
            let after = annotated(entry, content, range, context_lines);
            let is_text = key == "text"@ || key == "context"@ || key == "context_start_line"@;
            &&& !is_text ==> after.contains_key(key) == entry.contains_key(key)
            &&& !is_text && entry.contains_key(key) ==> after[key] == entry[key]
            &&& content is None ==> after == entry
            &&& content is Some && range.start.line >= text::lines_of(content->Some_0).len()
                ==> after == entry
        }),
{
}

/// No line of a result is longer than the limit and the mark of what was cut.
pub proof fn lines_are_held_to_the_limit(line: Seq<char>)
    ensures
        capped(line).len() <= MAX_TEXT_CHARS + 1,
        line.len() <= MAX_TEXT_CHARS ==> capped(line) == line,
        line.len() > MAX_TEXT_CHARS ==> capped(line).last() == '\u{2026}' && line.take(
            MAX_TEXT_CHARS as int,
        ) == capped(line).drop_last(),
{
    if line.len() > MAX_TEXT_CHARS {
        assert(capped(line).drop_last() =~= line.take(MAX_TEXT_CHARS as int));
    }
}

} // verus!
