//! Quotes: the source that stands at a place, as a report carries it.

use crate::edit::Range;
use crate::json::JsonView;
use crate::laws::shapes;
use crate::path;
use crate::source;
use crate::source::SourceView;
use crate::text;
use crate::ts_ops;
use crate::uri;
use vstd::prelude::*;

verus! {

/// The lines of a text are what stands between its line ends: a text up to a
/// line end is one line, whatever follows is read on its own, and a return in
/// front of the line end does not count.
pub proof fn lines_stand_between_line_ends(line: Seq<char>, rest: Seq<char>)
    requires
        forall|i: int| 0 <= i < line.len() ==> line[i] != '\n',
    ensures
        line.len() > 0 ==> text::lines_of(line) == seq![line],
        text::lines_of(Seq::empty()).len() == 0,
        (line.len() == 0 || line.last() != '\r') ==> text::lines_of(line.push('\n') + rest)
            == seq![line] + text::lines_of(rest),
        line.len() > 0 && line.last() == '\r' ==> text::lines_of(line.push('\n') + rest)
            == seq![line.drop_last()] + text::lines_of(rest),
{
    let all = line.push('\n') + rest;
    let n = line.len() as int;
    first_end(line, 0, n);
    assert(line.skip(0) =~= line);
    assert forall|k: int| 0 <= k < n implies all[k] != '\n' by {
        assert(all[k] == line[k]);
    }
    assert(all[n] == '\n');
    first_end(all, 0, n);
    assert(all.subrange(0, n) =~= line);
    lines_after(line.push('\n'), rest, 0);
}

proof fn first_end(s: Seq<char>, i: int, j: int)
    requires
        0 <= i <= j <= s.len(),
        forall|k: int| i <= k < j ==> s[k] != '\n',
        j < s.len() ==> s[j] == '\n',
    ensures
        text::next_of(s, '\n', i) == j,
    decreases j - i,
{
    if i < j {
        first_end(s, i + 1, j);
    }
}

proof fn end_after(x: Seq<char>, y: Seq<char>, k: int)
    requires
        0 <= k <= y.len(),
    ensures
        text::next_of(x + y, '\n', x.len() + k) == x.len() + text::next_of(y, '\n', k),
    decreases y.len() - k,
{
    if k < y.len() {
        assert((x + y)[x.len() + k] == y[k]);
        if y[k] != '\n' {
            end_after(x, y, k + 1);
        }
    }
}

proof fn lines_after(x: Seq<char>, y: Seq<char>, k: int)
    requires
        0 <= k <= y.len(),
    ensures
        text::lines_from(x + y, x.len() + k) == text::lines_from(y, k),
    decreases y.len() - k,
{
    if k < y.len() {
        end_after(x, y, k);
        text::next_of_bounds(y, '\n', k);
        let j = text::next_of(y, '\n', k);
        if j < y.len() {
            assert((x + y).subrange(x.len() + k, x.len() + j) =~= y.subrange(k, j));
            lines_after(x, y, j + 1);
        } else {
            assert((x + y).skip(x.len() + k) =~= y.skip(k));
        }
    }
}

/// A quote of one line is that line, and one more line is quoted after a line
/// end.
pub proof fn quotes_are_whole_lines(lines: Seq<Seq<char>>, first: int, last: int)
    requires
        0 <= first <= last,
        last + 1 < lines.len(),
    ensures
        lines[first].len() <= source::MAX_TEXT_CHARS ==> source::quoted(lines, first, first)
            == lines[first],
        lines[last + 1].len() <= source::MAX_TEXT_CHARS ==> source::quoted(lines, first, last + 1)
            == source::quoted(lines, first, last) + "\n"@ + lines[last + 1],
        source::quoted(lines, first, last + 1) == source::quoted(lines, first, last) + "\n"@
            + source::capped(lines[last + 1]),
        source::quoted(lines, first, first) == source::capped(lines[first]),
{
    let one = Seq::new(1, |i: int| source::capped(lines[first + i]));
    let some = Seq::new((last + 1 - first) as nat, |i: int| source::capped(lines[first + i]));
    let more = Seq::new((last + 2 - first) as nat, |i: int| source::capped(lines[first + i]));
    assert(more.drop_last() =~= some);
    assert(one.len() == 1);
}

/// A place is quoted from its first line to its last, as far as the text goes. A
/// range that ends before the first character of a line leaves that line out.
pub proof fn places_are_quoted_by_their_lines(
    entry: Map<Seq<char>, JsonView>,
    content: Seq<char>,
    range: Range,
    around: int,
)
    requires
        range.start.line < text::lines_of(content).len(),
        text::lines_of(content).len() <= u64::MAX,
        0 <= around,
    ensures
        ({
            let lines = text::lines_of(content);
            let after = JsonView::Object(source::annotated(entry, Some(content), range, around));
            let first = range.start.line as int;
            let end = range.end.line as int;
            let reached = if end <= first {
                first
            } else if range.end.character == 0 {
                end - 1
            } else {
                end
            };
            let last = if reached < lines.len() {
                reached
            } else {
                lines.len() - 1
            };
            &&& after.text_at("text"@) == Some(source::quoted(lines, first, last))
            &&& around == 0 ==> after.get("context"@) == JsonView::Object(entry).get("context"@)
                && after.get("context_start_line"@) == JsonView::Object(entry).get(
                "context_start_line"@,
            )
            &&& around > 0 ==> exists|from: int, to: int|
                {
                    &&& 0 <= from <= first
                    &&& last <= to < lines.len()
                    &&& (from == first - around || (from == 0 && first < around))
                    &&& (to == last + around || (to == lines.len() - 1 && lines.len() - 1 < last
                        + around))
                    &&& after.text_at("context"@) == Some(#[trigger] source::quoted(lines, from, to))
                    &&& after.count_at("context_start_line"@) == Some(from as u64)
                }
        }),
{
    shapes::report_keys();
    let lines = text::lines_of(content);
    let first = range.start.line as int;
    let last = source::least(source::last_line(range), lines.len() - 1);
    if around > 0 {
        let from = if first > around {
            first - around
        } else {
            0
        };
        let to = source::least(last + around, lines.len() - 1);
        let after = JsonView::Object(source::annotated(entry, Some(content), range, around));
        assert(after.text_at("context"@) == Some(source::quoted(lines, from, to)));
    }
}

/// A file is told by its path from the root of the project; one outside by its
/// own path.
pub proof fn files_are_told_from_the_root(s: SourceView, u: Seq<char>)
    requires
        path::components(s.root).len() > 0,
    ensures
        path::under(uri::path_of(u), s.root) ==> path::components(s.reported(u))
            == path::components(uri::path_of(u)).skip(path::components(s.root).len() as int),
        path::under(uri::path_of(u), s.root) ==> path::components(s.quoted_from(u))
            == path::components(s.content_root) + path::components(s.reported(u)),
        !path::under(uri::path_of(u), s.root) ==> s.reported(u) == uri::path_of(u)
            && s.quoted_from(u) == uri::path_of(u),
{
    let p = uri::path_of(u);
    let n = path::components(s.root).len() as int;
    if path::under(p, s.root) {
        path::rest_has_later_components(p, n);
        path::join_appends_components(s.content_root, path::rest_from(p, n));
    }
}

/// The text of a file is the one that was given for the path it is quoted from:
/// what is given for another path changes nothing, and what was given first
/// stays.
pub proof fn texts_are_found_by_their_path(
    s: SourceView,
    file: Seq<char>,
    given: Option<Seq<char>>,
    u: Seq<char>,
)
    ensures
        ({
            let more = SourceView { files: s.files.push((file, given)), ..s };
            let known = exists|i: int|
                0 <= i < s.files.len() && (#[trigger] s.files[i]).0 == s.quoted_from(u);
            &&& file != s.quoted_from(u) ==> more.content(u) == s.content(u)
            &&& known ==> more.content(u) == s.content(u)
            &&& !known && file == s.quoted_from(u) ==> more.content(u) == given
            &&& !known ==> s.content(u) is None
        }),
{
    given_last(s.files, (file, given), s.quoted_from(u), 0);
}

proof fn given_last(
    files: Seq<(Seq<char>, Option<Seq<char>>)>,
    added: (Seq<char>, Option<Seq<char>>),
    file: Seq<char>,
    i: int,
)
    requires
        0 <= i <= files.len(),
    ensures
        ({
            let known = exists|k: int| i <= k < files.len() && (#[trigger] files[k]).0 == file;
            let found = source::text_of_file(files, file, i);
            &&& known <==> found is Some
            &&& source::text_of_file(files.push(added), file, i) == (if known {
                found
            } else if added.0 == file {
                Some(added.1)
            } else {
                None
            })
        }),
    decreases files.len() - i,
{
    let more = files.push(added);
    if i < files.len() {
        assert(more[i] == files[i]);
        given_last(files, added, file, i + 1);
        if files[i].0 == file {
            assert(exists|k: int| i <= k < files.len() && (#[trigger] files[k]).0 == file);
        }
    } else {
        assert(more[i] == added);
        assert(source::text_of_file(more, file, i + 1) is None);
    }
}

/// A URI for a file holds the path of the file as it is, save characters that
/// are written as escapes.
pub proof fn plain_uris_are_their_paths(p: Seq<char>)
    requires
        forall|i: int| 0 <= i < p.len() ==> p[i] != '%',
    ensures
        uri::path_of("file://"@ + p) == p,
{
    let prefix = "file://"@;
    assert((prefix + p).subrange(0, prefix.len() as int) =~= prefix);
    assert((prefix + p).skip(prefix.len() as int) =~= p);
    nothing_to_unescape(p, 0);
    assert(p.skip(0) =~= p);
}

proof fn nothing_to_unescape(p: Seq<char>, i: int)
    requires
        0 <= i <= p.len(),
        forall|k: int| 0 <= k < p.len() ==> p[k] != '%',
    ensures
        uri::unescaped(p, i) == p.skip(i),
    decreases p.len() - i,
{
    if i < p.len() {
        nothing_to_unescape(p, i + 1);
        assert(seq![p[i]] + p.skip(i + 1) =~= p.skip(i));
    } else {
        assert(p.skip(i) =~= Seq::empty());
    }
}

/// A caller gets as many lines around a place as it asks for, but no more than
/// ten on each side, and none where it asks for none. A line is quoted up to five
/// hundred characters.
pub proof fn callers_say_how_much_is_quoted(params: JsonView)
    ensures
        params.count_at("context_lines"@) is None ==> ts_ops::lines_wanted(params) == 0,
        params.count_at("context_lines"@) is Some && params.count_at("context_lines"@)->Some_0
            <= usize::MAX ==> ts_ops::lines_wanted(params) == params.count_at(
            "context_lines"@,
        )->Some_0,
        forall|n: int| #[trigger]
            source::least(n, source::MAX_CONTEXT_LINES as int) == (if n < 10 {
                n
            } else {
                10
            }),
        source::MAX_TEXT_CHARS == 500,
{
}

} // verus!
