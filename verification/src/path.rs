//! Slash-separated file paths, held as plain text.
//!
//! A path is read as a sequence of components: the root `/` of an absolute
//! path, then the pieces between slashes. Empty pieces and `.` pieces do not
//! count, save a `.` that a relative path starts with.

use crate::text;
use crate::view;
use vstd::prelude::*;

verus! {

// ---------------------------------------------------------------------------
// Components
// ---------------------------------------------------------------------------

/// The first slash at or after position `i`, or the end of the text.
pub open spec fn next_slash(p: Seq<char>, i: int) -> int
    decreases p.len() - i,
{
    if i < 0 || i >= p.len() {
        p.len() as int
    } else if p[i] == '/' {
        i
    } else {
        next_slash(p, i + 1)
    }
}

/// A piece between slashes that counts as a component.
pub open spec fn counts(piece: Seq<char>) -> bool {
    piece.len() > 0 && piece != seq!['.']
}

/// Where the components of `p` from position `i` on begin and end.
pub open spec fn spans_from(p: Seq<char>, i: int) -> Seq<(int, int)>
    decreases p.len() - i,
{
    if i < 0 || i > p.len() {
        Seq::empty()
    } else {
        let j = next_slash(p, i);
        let own = if counts(p.subrange(i, j)) {
            seq![(i, j)]
        } else {
            Seq::empty()
        };
        if j < p.len() {
            proof {
                next_slash_bounds(p, i);
            }
            own + spans_from(p, j + 1)
        } else {
            own
        }
    }
}

/// Whether a relative path starts with a `.` component.
pub open spec fn starts_here(p: Seq<char>) -> bool {
    p.len() > 0 && p[0] == '.' && (p.len() == 1 || p[1] == '/')
}

/// Where the components of `p` begin and end.
pub open spec fn spans(p: Seq<char>) -> Seq<(int, int)> {
    if p.len() > 0 && p[0] == '/' {
        seq![(0, 1)] + spans_from(p, 1)
    } else if starts_here(p) {
        seq![(0, 1)] + spans_from(p, 2)
    } else {
        spans_from(p, 0)
    }
}

/// The components of a path: `/` for the root, and the text of each other.
pub open spec fn components(p: Seq<char>) -> Seq<Seq<char>> {
    Seq::new(spans(p).len(), |k: int| p.subrange(spans(p)[k].0, spans(p)[k].1))
}

/// A component that names an entry of a directory.
pub open spec fn is_name(component: Seq<char>) -> bool {
    component != seq!['/'] && component != seq!['.'] && component != seq!['.', '.']
}

/// The next slash is where the scan stops, with no slash before it.
pub proof fn next_slash_bounds(p: Seq<char>, i: int)
    requires
        0 <= i <= p.len(),
    ensures
        i <= next_slash(p, i) <= p.len(),
        next_slash(p, i) < p.len() ==> p[next_slash(p, i)] == '/',
        forall|k: int| i <= k < next_slash(p, i) ==> p[k] != '/',
    decreases p.len() - i,
{
    if i < p.len() && p[i] != '/' {
        next_slash_bounds(p, i + 1);
    }
}

proof fn next_slash_is(p: Seq<char>, i: int, j: int)
    requires
        0 <= i <= j <= p.len(),
        forall|k: int| i <= k < j ==> p[k] != '/',
        j < p.len() ==> p[j] == '/',
    ensures
        next_slash(p, i) == j,
    decreases j - i,
{
    if i < j {
        next_slash_is(p, i + 1, j);
    }
}

/// Every span lies inside the text, at or after the starting position, and
/// holds a piece that counts.
proof fn spans_from_bounds(p: Seq<char>, i: int)
    requires
        0 <= i <= p.len(),
    ensures
        forall|k: int|
            0 <= k < spans_from(p, i).len() ==> {
                let s = #[trigger] spans_from(p, i)[k];
                &&& i <= s.0 < s.1 <= p.len()
                &&& counts(p.subrange(s.0, s.1))
                &&& s.1 == next_slash(p, s.0)
            },
    decreases p.len() - i,
{
    next_slash_bounds(p, i);
    let j = next_slash(p, i);
    let own: Seq<(int, int)> = if counts(p.subrange(i, j)) {
        seq![(i, j)]
    } else {
        Seq::empty()
    };
    if j < p.len() {
        spans_from_bounds(p, j + 1);
        assert forall|k: int| 0 <= k < spans_from(p, i).len() implies {
            let s = #[trigger] spans_from(p, i)[k];
            &&& i <= s.0 < s.1 <= p.len()
            &&& counts(p.subrange(s.0, s.1))
            &&& s.1 == next_slash(p, s.0)
        } by {
            if k >= own.len() {
                assert(spans_from(p, i)[k] == spans_from(p, j + 1)[k - own.len()]);
            } else {
                assert(spans_from(p, i)[k] == (i, j));
            }
        }
    } else {
        assert(spans_from(p, i) == own);
    }
}

proof fn spans_bounds(p: Seq<char>)
    ensures
        forall|k: int|
            0 <= k < spans(p).len() ==> {
                let s = #[trigger] spans(p)[k];
                0 <= s.0 < s.1 <= p.len()
            },
{
    if p.len() > 0 && p[0] == '/' {
        spans_from_bounds(p, 1);
    } else if starts_here(p) {
        if p.len() > 1 {
            spans_from_bounds(p, 2);
        }
    } else {
        spans_from_bounds(p, 0);
    }
}

/// Finds the first slash at or after `i`.
fn find_slash(p: &Vec<char>, i: usize) -> (j: usize)
    requires
        i <= p@.len(),
    ensures
        i <= j <= p@.len(),
        j == next_slash(p@, i as int),
{
    let mut j: usize = i;
    while j < p.len() && p[j] != '/'
        invariant
            i <= j <= p@.len(),
            next_slash(p@, i as int) == next_slash(p@, j as int),
        decreases p@.len() - j,
    {
        j += 1;
    }
    j
}

/// The spans of a path, as positions in its characters.
pub open spec fn as_ints(s: Seq<(usize, usize)>) -> Seq<(int, int)> {
    Seq::new(s.len(), |k: int| (s[k].0 as int, s[k].1 as int))
}

/// Whether a piece counts as a component.
fn piece_counts(p: &Vec<char>, from: usize, to: usize) -> (r: bool)
    requires
        from <= to <= p@.len(),
    ensures
        r == counts(p@.subrange(from as int, to as int)),
{
    let ghost piece = p@.subrange(from as int, to as int);
    if to == from {
        return false;
    }
    assert(piece.len() == to - from);
    if to - from == 1 && p[from] == '.' {
        assert(piece =~= seq!['.']);
        false
    } else {
        assert(to - from == 1 ==> piece[0] != '.');
        assert(seq!['.'][0] == '.');
        true
    }
}

/// Finds the components of a path.
fn find_spans(p: &Vec<char>) -> (r: Vec<(usize, usize)>)
    ensures
        as_ints(r@) == spans(p@),
{
    let mut out: Vec<(usize, usize)> = Vec::new();
    let mut i: usize = 0;
    if p.len() > 0 && p[0] == '/' {
        out.push((0, 1));
        i = 1;
    } else if p.len() > 0 && p[0] == '.' && (p.len() == 1 || p[1] == '/') {
        out.push((0, 1));
        if p.len() == 1 {
            assert(as_ints(out@) =~= spans(p@));
            return out;
        }
        i = 2;
    }
    assert(as_ints(out@) + spans_from(p@, i as int) =~= spans(p@));
    loop
        invariant
            i <= p@.len(),
            as_ints(out@) + spans_from(p@, i as int) == spans(p@),
        decreases p@.len() - i,
    {
        let j = find_slash(p, i);
        let ghost before = out@;
        if piece_counts(p, i, j) {
            out.push((i, j));
            assert(as_ints(out@) =~= as_ints(before).push((i as int, j as int)));
        }
        if j == p.len() {
            assert(as_ints(out@) =~= spans(p@));
            return out;
        }
        assert(as_ints(out@) + spans_from(p@, j + 1) =~= as_ints(before) + spans_from(
            p@,
            i as int,
        ));
        i = j + 1;
    }
}

/// The components of a path, in order.
pub fn component_texts(p: &str) -> (r: Vec<String>)
    ensures
        r@.len() == components(p@).len(),
        forall|k: int| 0 <= k < r@.len() ==> (#[trigger] r@[k])@ == components(p@)[k],
{
    let cs = text::chars_of(p);
    let found = find_spans(&cs);
    proof {
        spans_bounds(p@);
    }
    let mut out: Vec<String> = Vec::new();
    let mut k: usize = 0;
    while k < found.len()
        invariant
            k <= found@.len(),
            cs@ == p@,
            as_ints(found@) == spans(p@),
            out@.len() == k,
            forall|m: int|
                0 <= m < spans(p@).len() ==> {
                    let s = #[trigger] spans(p@)[m];
                    0 <= s.0 < s.1 <= p@.len()
                },
            forall|m: int| 0 <= m < out@.len() ==> (#[trigger] out@[m])@ == components(p@)[m],
        decreases found@.len() - k,
    {
        assert(spans(p@)[k as int] == (found@[k as int].0 as int, found@[k as int].1 as int));
        out.push(text::text_of(&cs, found[k].0, found[k].1));
        k += 1;
    }
    out
}

// ---------------------------------------------------------------------------
// Reading a path
// ---------------------------------------------------------------------------

/// A path that starts at the root.
pub open spec fn is_rooted(p: Seq<char>) -> bool {
    p.len() > 0 && p[0] == '/'
}

/// Whether a path starts at the root.
pub fn is_absolute(p: &str) -> (r: bool)
    ensures
        r == is_rooted(p@),
{
    let cs = text::chars_of(p);
    cs.len() > 0 && cs[0] == '/'
}

/// The name a path ends in, if its last component is one.
pub open spec fn file_name_of(p: Seq<char>) -> Option<Seq<char>> {
    let c = components(p);
    if c.len() > 0 && is_name(c.last()) {
        Some(c.last())
    } else {
        None
    }
}

/// The name a path ends in.
pub fn file_name(p: &str) -> (r: Option<String>)
    ensures
        view::maybe(r) == file_name_of(p@),
{
    let cs = text::chars_of(p);
    let found = find_spans(&cs);
    proof {
        spans_bounds(p@);
    }
    if found.len() == 0 {
        return None;
    }
    let last = found.len() - 1;
    assert(spans(p@)[last as int] == (found@[last as int].0 as int, found@[last as int].1 as int));
    let name = text::text_of(&cs, found[last].0, found[last].1);
    assert(name@ == components(p@).last());
    proof {
        reveal_strlit("/");
        reveal_strlit(".");
        reveal_strlit("..");
    }
    assert("/"@ =~= seq!['/']);
    assert("."@ =~= seq!['.']);
    assert(".."@ =~= seq!['.', '.']);
    if text::same(name.as_str(), "/") || text::same(name.as_str(), ".") || text::same(
        name.as_str(),
        "..",
    ) {
        None
    } else {
        Some(name)
    }
}

/// The place of the last dot before position `i`, if there is one.
pub open spec fn last_dot(s: Seq<char>, i: int) -> Option<int>
    decreases i,
{
    if i <= 0 {
        None
    } else if s[i - 1] == '.' {
        Some(i - 1)
    } else {
        last_dot(s, i - 1)
    }
}

/// What follows the last dot of a file's name. A dot the name starts with, if
/// it is the last, does not begin an extension.
pub open spec fn extension_of(p: Seq<char>) -> Option<Seq<char>> {
    match file_name_of(p) {
        Some(name) => match last_dot(name, name.len() as int) {
            Some(d) => if d == 0 {
                None
            } else {
                Some(name.skip(d + 1))
            },
            None => None,
        },
        None => None,
    }
}

/// What follows the last dot of a file's name.
pub fn extension(p: &str) -> (r: Option<String>)
    ensures
        view::maybe(r) == extension_of(p@),
{
    let name = match file_name(p) {
        Some(name) => name,
        None => {
            return None;
        },
    };
    let cs = text::chars_of(name.as_str());
    let mut i: usize = cs.len();
    while i > 0
        invariant
            i <= cs@.len(),
            cs@ == name@,
            file_name_of(p@) == Some(name@),
            last_dot(name@, name@.len() as int) == last_dot(name@, i as int),
        decreases i,
    {
        if cs[i - 1] == '.' {
            if i == 1 {
                return None;
            }
            assert(name@.skip(i as int) =~= cs@.subrange(i as int, cs@.len() as int));
            return Some(text::text_of(&cs, i, cs.len()));
        }
        i -= 1;
    }
    None
}

/// The text of a path up to the end of its first `k` components.
pub open spec fn first_components(p: Seq<char>, k: int) -> Seq<char> {
    if k <= 0 {
        Seq::empty()
    } else {
        p.take(spans(p)[k - 1].1)
    }
}

/// The path without its last component; none for the root and the empty path.
pub open spec fn parent_of(p: Seq<char>) -> Option<Seq<char>> {
    let c = components(p);
    if c.len() == 0 || c.last() == seq!['/'] {
        None
    } else {
        Some(first_components(p, c.len() - 1))
    }
}

/// The path without its last component.
pub fn parent(p: &str) -> (r: Option<String>)
    ensures
        view::maybe(r) == parent_of(p@),
{
    let cs = text::chars_of(p);
    let found = find_spans(&cs);
    proof {
        spans_bounds(p@);
    }
    if found.len() == 0 {
        return None;
    }
    let last = found.len() - 1;
    assert(spans(p@)[last as int] == (found@[last as int].0 as int, found@[last as int].1 as int));
    let (from, to) = found[last];
    let ghost piece = p@.subrange(from as int, to as int);
    if to - from == 1 && cs[from] == '/' {
        assert(piece =~= seq!['/']);
        return None;
    }
    assert(piece != seq!['/']) by {
        if piece == seq!['/'] {
            assert(piece.len() == 1);
            assert(piece[0] == '/');
        }
    }
    if last == 0 {
        let none = String::new();
        assert(none@ =~= first_components(p@, 0));
        return Some(none);
    }
    assert(spans(p@)[last - 1] == (found@[last - 1].0 as int, found@[last - 1].1 as int));
    let end = found[last - 1].1;
    assert(p@.take(end as int) =~= p@.subrange(0, end as int));
    Some(text::text_of(&cs, 0, end))
}

/// Whether the components of one path are the first components of another.
pub open spec fn under(p: Seq<char>, base: Seq<char>) -> bool {
    components(base).is_prefix_of(components(p))
}

/// The text of a path from its component `k` to its last.
pub open spec fn rest_from(p: Seq<char>, k: int) -> Seq<char> {
    if k >= spans(p).len() {
        Seq::empty()
    } else {
        p.subrange(spans(p)[k].0, spans(p).last().1)
    }
}

/// What is left of a path after the components of a base it lies under.
pub open spec fn rest_under(p: Seq<char>, base: Seq<char>) -> Option<Seq<char>> {
    if under(p, base) {
        Some(rest_from(p, components(base).len() as int))
    } else {
        None
    }
}

/// Whether a path lies under a base, component by component.
pub fn starts_with(p: &str, base: &str) -> (r: bool)
    ensures
        r == under(p@, base@),
{
    let a = component_texts(p);
    let b = component_texts(base);
    if b.len() > a.len() {
        return false;
    }
    let mut k: usize = 0;
    while k < b.len()
        invariant
            k <= b@.len() <= a@.len(),
            a@.len() == components(p@).len(),
            b@.len() == components(base@).len(),
            forall|m: int| 0 <= m < a@.len() ==> (#[trigger] a@[m])@ == components(p@)[m],
            forall|m: int| 0 <= m < b@.len() ==> (#[trigger] b@[m])@ == components(base@)[m],
            forall|m: int| 0 <= m < k ==> components(base@)[m] == components(p@)[m],
        decreases b@.len() - k,
    {
        if !text::same(a[k].as_str(), b[k].as_str()) {
            assert(a@[k as int]@ != b@[k as int]@);
            return false;
        }
        assert(a@[k as int]@ == b@[k as int]@);
        k += 1;
    }
    assert(components(base@) =~= components(p@).subrange(0, components(base@).len() as int));
    true
}

/// What is left of a path after a base it lies under.
pub fn strip_prefix(p: &str, base: &str) -> (r: Option<String>)
    ensures
        view::maybe(r) == rest_under(p@, base@),
{
    if !starts_with(p, base) {
        return None;
    }
    let cs = text::chars_of(p);
    let bs = text::chars_of(base);
    let found = find_spans(&cs);
    let skipped = find_spans(&bs);
    proof {
        spans_bounds(p@);
    }
    assert(skipped@.len() == as_ints(skipped@).len());
    assert(found@.len() == as_ints(found@).len());
    if skipped.len() >= found.len() {
        let none = String::new();
        assert(none@ =~= Seq::<char>::empty());
        return Some(none);
    }
    let k = skipped.len();
    let last = found.len() - 1;
    assert(spans(p@)[last as int] == (found@[last as int].0 as int, found@[last as int].1 as int));
    assert(spans(p@)[k as int] == (found@[k as int].0 as int, found@[k as int].1 as int));
    proof {
        spans_ordered(p@, k as int, last as int);
    }
    Some(text::text_of(&cs, found[k].0, found[last].1))
}

proof fn spans_from_ordered(p: Seq<char>, i: int, a: int, b: int)
    requires
        0 <= i <= p.len(),
        0 <= a <= b < spans_from(p, i).len(),
    ensures
        spans_from(p, i)[a].0 <= spans_from(p, i)[b].0,
        a < b ==> spans_from(p, i)[a].1 < spans_from(p, i)[b].0,
    decreases p.len() - i,
{
    next_slash_bounds(p, i);
    let j = next_slash(p, i);
    let own: Seq<(int, int)> = if counts(p.subrange(i, j)) {
        seq![(i, j)]
    } else {
        Seq::empty()
    };
    if j < p.len() {
        spans_from_bounds(p, j + 1);
        if a >= own.len() {
            spans_from_ordered(p, j + 1, a - own.len(), b - own.len());
        } else if b >= own.len() {
            assert(spans_from(p, i)[b] == spans_from(p, j + 1)[b - own.len()]);
        }
    }
}

/// The spans of a path stand in order and do not overlap.
proof fn spans_ordered(p: Seq<char>, a: int, b: int)
    requires
        0 <= a <= b < spans(p).len(),
    ensures
        spans(p)[a].0 <= spans(p)[b].0,
        spans(p)[a].1 <= spans(p)[b].1,
        a < b ==> spans(p)[a].1 <= spans(p)[b].0,
{
    spans_bounds(p);
    if is_rooted(p) {
        spans_from_bounds(p, 1);
        if a > 0 {
            spans_from_ordered(p, 1, a - 1, b - 1);
        } else if b > 0 {
            assert(spans(p)[b] == spans_from(p, 1)[b - 1]);
        }
    } else if starts_here(p) {
        if p.len() > 1 {
            spans_from_bounds(p, 2);
            if a > 0 {
                spans_from_ordered(p, 2, a - 1, b - 1);
            } else if b > 0 {
                assert(spans(p)[b] == spans_from(p, 2)[b - 1]);
            }
        }
    } else {
        spans_from_bounds(p, 0);
        spans_from_ordered(p, 0, a, b);
    }
}

// ---------------------------------------------------------------------------
// Making a path
// ---------------------------------------------------------------------------

/// One path placed under another. An absolute path replaces the base.
pub open spec fn joined(base: Seq<char>, p: Seq<char>) -> Seq<char> {
    if is_rooted(p) {
        p
    } else if base.len() == 0 || base.last() == '/' {
        base + p
    } else {
        base.push('/') + p
    }
}

/// Places one path under another.
pub fn join(base: &str, p: &str) -> (r: String)
    ensures
        r@ == joined(base@, p@),
{
    if is_absolute(p) {
        return p.to_owned();
    }
    let cs = text::chars_of(base);
    if cs.len() == 0 || cs[cs.len() - 1] == '/' {
        text::cat(base, p)
    } else {
        let r = text::cat3(base, "/", p);
        proof {
            reveal_strlit("/");
        }
        assert(base@ + "/"@ =~= base@.push('/'));
        r
    }
}

// ---------------------------------------------------------------------------
// How joining and stripping act on components
// ---------------------------------------------------------------------------

/// Spans moved along by `d`.
spec fn shifted(s: Seq<(int, int)>, d: int) -> Seq<(int, int)> {
    Seq::new(s.len(), |k: int| (s[k].0 + d, s[k].1 + d))
}

/// The spans in a text after a prefix are those of the text alone, moved along.
proof fn spans_after_prefix(x: Seq<char>, q: Seq<char>, k: int)
    requires
        0 <= k <= q.len(),
    ensures
        spans_from(x + q, x.len() + k) =~= shifted(spans_from(q, k), x.len() as int),
    decreases q.len() - k,
{
    let full = x + q;
    let n = x.len() as int;
    next_slash_bounds(q, k);
    let j = next_slash(q, k);
    assert forall|m: int| n + k <= m < n + j implies full[m] != '/' by {
        assert(full[m] == q[m - n]);
    }
    assert(j < q.len() ==> full[n + j] == q[j]);
    next_slash_is(full, n + k, n + j);
    assert(full.subrange(n + k, n + j) =~= q.subrange(k, j));
    if j < q.len() {
        spans_after_prefix(x, q, j + 1);
    }
}

/// The spans of a text followed by a slash and more.
proof fn spans_before_slash(p: Seq<char>, q: Seq<char>, i: int)
    requires
        0 <= i <= p.len(),
    ensures
        spans_from(p.push('/') + q, i) =~= spans_from(p, i) + shifted(
            spans_from(q, 0),
            p.len() as int + 1,
        ),
    decreases p.len() - i,
{
    let full = p.push('/') + q;
    next_slash_bounds(p, i);
    let j = next_slash(p, i);
    assert forall|m: int| i <= m < j implies full[m] != '/' by {
        assert(full[m] == p[m]);
    }
    assert(full[j] == '/');
    next_slash_is(full, i, j);
    assert(full.subrange(i, j) =~= p.subrange(i, j));
    if j < p.len() {
        spans_before_slash(p, q, j + 1);
    } else {
        spans_after_prefix(p.push('/'), q, 0);
    }
}

/// The pieces of a text that count as components wherever it stands in a path.
spec fn pieces(q: Seq<char>) -> Seq<Seq<char>> {
    Seq::new(
        spans_from(q, 0).len(),
        |k: int| q.subrange(spans_from(q, 0)[k].0, spans_from(q, 0)[k].1),
    )
}

/// A relative path has no components but its pieces and a leading `.`.
proof fn components_are_pieces(q: Seq<char>)
    requires
        !is_rooted(q),
    ensures
        components(q) == if starts_here(q) {
            seq![seq!['.']] + pieces(q)
        } else {
            pieces(q)
        },
{
    if starts_here(q) {
        next_slash_is(q, 0, 1);
        assert(q.subrange(0, 1) =~= seq!['.']);
        if q.len() > 1 {
            assert(spans_from(q, 0) =~= spans_from(q, 2));
        } else {
            assert(spans_from(q, 0) =~= Seq::empty());
        }
    }
    assert(components(q) =~= if starts_here(q) {
        seq![seq!['.']] + pieces(q)
    } else {
        pieces(q)
    });
}

/// The components of a text followed by a slash and more.
proof fn components_before_slash(p: Seq<char>, q: Seq<char>)
    requires
        p.len() > 0,
    ensures
        components(p.push('/') + q) =~= components(p) + pieces(q),
{
    let full = p.push('/') + q;
    let n = p.len() + 1;
    assert(full[0] == p[0]);
    assert(p.len() > 1 ==> full[1] == p[1]);
    assert(p.len() == 1 ==> full[1] == '/');
    if is_rooted(p) {
        spans_before_slash(p, q, 1);
    } else if starts_here(p) {
        if p.len() == 1 {
            spans_after_prefix(p.push('/'), q, 0);
            assert(spans_from(p, 2) =~= Seq::empty());
        } else {
            spans_before_slash(p, q, 2);
        }
    } else {
        spans_before_slash(p, q, 0);
    }
    let tail = shifted(spans_from(q, 0), n as int);
    assert(spans(full) =~= spans(p) + tail);
    spans_bounds(p);
    spans_from_bounds(q, 0);
    assert forall|k: int| 0 <= k < components(full).len() implies #[trigger] components(full)[k]
        == (components(p) + pieces(q))[k] by {
        if k < spans(p).len() {
            let s = spans(p)[k];
            assert(full.subrange(s.0, s.1) =~= p.subrange(s.0, s.1));
        } else {
            let s = spans_from(q, 0)[k - spans(p).len()];
            assert(spans(full)[k] == (s.0 + n, s.1 + n));
            assert(full.subrange(s.0 + n, s.1 + n) =~= q.subrange(s.0, s.1));
        }
    }
}

/// A slash at the end of a text adds no component.
proof fn components_with_slash(p: Seq<char>)
    requires
        p.len() > 0,
    ensures
        components(p.push('/')) =~= components(p),
{
    let none = Seq::<char>::empty();
    assert(p.push('/') + none =~= p.push('/'));
    assert(none.subrange(0, 0) =~= none);
    assert(spans_from(none, 0) =~= Seq::empty());
    components_before_slash(p, none);
}

/// An empty path has no components.
proof fn no_components(p: Seq<char>)
    requires
        p.len() == 0,
    ensures
        components(p) =~= Seq::empty(),
{
    assert(p.subrange(0, 0).len() == 0);
}

/// Joining a relative path onto a base puts its pieces after the components of
/// the base.
proof fn join_appends_pieces(base: Seq<char>, p: Seq<char>)
    requires
        !is_rooted(p),
        base.len() > 0,
    ensures
        components(joined(base, p)) == components(base) + pieces(p),
{
    if base.last() == '/' {
        let front = base.drop_last();
        assert(base =~= front.push('/'));
        if front.len() > 0 {
            components_before_slash(front, p);
            components_with_slash(front);
        } else {
            let full = base + p;
            assert(full[0] == '/');
            spans_after_prefix(base, p, 0);
            assert(spans_from(base, 1) =~= Seq::empty()) by {
                assert(base.subrange(1, 1).len() == 0);
            }
            assert(spans(base) =~= seq![(0, 1)]);
            assert(spans(full) =~= seq![(0int, 1int)] + shifted(spans_from(p, 0), 1));
            spans_from_bounds(p, 0);
            assert forall|k: int| 0 <= k < components(full).len() implies #[trigger] components(
                full,
            )[k] == (components(base) + pieces(p))[k] by {
                if k == 0 {
                    assert(full.subrange(0, 1) =~= base.subrange(0, 1));
                } else {
                    let s = spans_from(p, 0)[k - 1];
                    assert(full.subrange(s.0 + 1, s.1 + 1) =~= p.subrange(s.0, s.1));
                }
            }
            assert(components(full) =~= components(base) + pieces(p));
        }
    } else {
        components_before_slash(base, p);
    }
}

/// Joining a relative path onto a base puts its components after those of the
/// base. A leading `.` of the joined path would be dropped, so it is left out.
pub proof fn join_appends_components(base: Seq<char>, p: Seq<char>)
    requires
        !is_rooted(p),
        !starts_here(p),
    ensures
        components(joined(base, p)) == components(base) + components(p),
{
    if base.len() == 0 {
        assert(joined(base, p) =~= p);
        no_components(base);
        assert(components(base) + components(p) =~= components(p));
    } else {
        components_are_pieces(p);
        join_appends_pieces(base, p);
    }
}

/// The spans from a position are those from where the first of them begins.
proof fn spans_from_first(p: Seq<char>, i: int)
    requires
        0 <= i <= p.len(),
        spans_from(p, i).len() > 0,
    ensures
        spans_from(p, i) == spans_from(p, spans_from(p, i)[0].0),
    decreases p.len() - i,
{
    next_slash_bounds(p, i);
    let j = next_slash(p, i);
    if !counts(p.subrange(i, j)) {
        assert(spans_from(p, i) =~= spans_from(p, j + 1));
        spans_from_first(p, j + 1);
    }
}

/// The spans from the `k`th on are those from where the `k`th begins.
proof fn spans_from_nth(p: Seq<char>, i: int, k: int)
    requires
        0 <= i <= p.len(),
        0 <= k < spans_from(p, i).len(),
    ensures
        spans_from(p, i).skip(k) == spans_from(p, spans_from(p, i)[k].0),
    decreases p.len() - i,
{
    next_slash_bounds(p, i);
    let j = next_slash(p, i);
    if k == 0 {
        spans_from_first(p, i);
        assert(spans_from(p, i).skip(0) =~= spans_from(p, i));
    } else if counts(p.subrange(i, j)) {
        assert(spans_from(p, i).skip(k) =~= spans_from(p, j + 1).skip(k - 1));
        spans_from_nth(p, j + 1, k - 1);
    } else {
        assert(spans_from(p, i) =~= spans_from(p, j + 1));
        spans_from_nth(p, j + 1, k);
    }
}

/// Cutting a text after its last span keeps the spans.
proof fn spans_cut(p: Seq<char>, i: int)
    requires
        0 <= i <= p.len(),
        spans_from(p, i).len() > 0,
    ensures
        spans_from(p.take(spans_from(p, i).last().1), i) == spans_from(p, i),
    decreases p.len() - i,
{
    let all = spans_from(p, i);
    let end = all.last().1;
    let cut = p.take(end);
    spans_from_bounds(p, i);
    next_slash_bounds(p, i);
    let j = next_slash(p, i);
    let own: Seq<(int, int)> = if counts(p.subrange(i, j)) {
        seq![(i, j)]
    } else {
        Seq::empty()
    };
    assert(all[all.len() - 1].1 == end);
    if j < p.len() && spans_from(p, j + 1).len() > 0 {
        let rest = spans_from(p, j + 1);
        assert(all.last() == rest.last());
        spans_from_bounds(p, j + 1);
        assert(rest[rest.len() - 1].0 >= j + 1);
        spans_cut(p, j + 1);
        next_slash_is(cut, i, j);
        assert(cut.subrange(i, j) =~= p.subrange(i, j));
        assert(spans_from(cut, i) =~= own + spans_from(cut, j + 1));
    } else {
        assert(all =~= own);
        assert(end == j);
        next_slash_is(cut, i, j);
        assert(cut.subrange(i, j) =~= p.subrange(i, j));
    }
}

/// The spans of a path from the `k`th on, found again from where it begins.
proof fn spans_nth(p: Seq<char>, k: int)
    requires
        0 < k < spans(p).len(),
    ensures
        0 <= spans(p)[k].0 < spans(p)[k].1 <= p.len(),
        spans(p).skip(k) == spans_from(p, spans(p)[k].0),
        counts(p.subrange(spans(p)[k].0, spans(p)[k].1)),
        spans(p)[k].1 == next_slash(p, spans(p)[k].0),
{
    let start: int = if is_rooted(p) {
        1
    } else if starts_here(p) {
        2
    } else {
        0
    };
    let lead: int = if is_rooted(p) || starts_here(p) {
        1
    } else {
        0
    };
    assert(spans(p).skip(lead) =~= spans_from(p, start));
    let m = k - lead;
    assert(spans_from(p, start)[m] == spans(p)[k]);
    spans_from_bounds(p, start);
    spans_from_nth(p, start, m);
    assert(spans(p).skip(k) =~= spans_from(p, start).skip(m));
}

/// The piece a path goes on with is no `.` and has no slash in front.
proof fn rest_starts_with_component(p: Seq<char>, k: int)
    requires
        0 < k < spans(p).len(),
    ensures
        !is_rooted(rest_from(p, k)),
        !starts_here(rest_from(p, k)),
{
    let r = rest_from(p, k);
    let a = spans(p)[k].0;
    let b = spans(p)[k].1;
    spans_nth(p, k);
    spans_ordered(p, k, spans(p).len() - 1);
    spans_bounds(p);
    next_slash_bounds(p, a);
    assert(r[0] == p[a]);
    if starts_here(r) {
        if r.len() > 1 {
            assert(r[1] == p[a + 1]);
            next_slash_is(p, a, a + 1);
        }
        assert(b == a + 1);
        assert(p.subrange(a, b) =~= seq!['.']);
    }
}

/// What is left after the first components of a path has the components that
/// follow them.
pub proof fn rest_has_later_components(p: Seq<char>, k: int)
    requires
        0 < k <= components(p).len(),
    ensures
        components(rest_from(p, k)) == components(p).skip(k),
        !is_rooted(rest_from(p, k)),
        !starts_here(rest_from(p, k)),
{
    let r = rest_from(p, k);
    if k == spans(p).len() {
        assert(r.len() == 0);
        assert(r.subrange(0, 0).len() == 0);
        assert(spans(r) =~= Seq::empty());
        assert(components(r) =~= components(p).skip(k));
    } else {
        let a = spans(p)[k].0;
        let end = spans(p).last().1;
        spans_nth(p, k);
        rest_starts_with_component(p, k);
        assert(spans_from(p, a).last() == spans(p).last());
        spans_cut(p, a);
        let cut = p.take(end);
        spans_ordered(p, k, spans(p).len() - 1);
        spans_bounds(p);
        assert(cut =~= cut.take(a) + r);
        spans_after_prefix(cut.take(a), r, 0);
        assert(shifted(spans_from(r, 0), a) == spans(p).skip(k));
        assert(spans(r).len() == spans(p).len() - k);
        spans_from_bounds(r, 0);
        assert forall|x: int| 0 <= x < components(r).len() implies #[trigger] components(r)[x]
            == components(p).skip(k)[x] by {
            let s = spans(r)[x];
            assert(shifted(spans_from(r, 0), a)[x] == spans(p).skip(k)[x]);
            assert(spans(p)[k + x] == (s.0 + a, s.1 + a));
            assert(r.subrange(s.0, s.1) =~= p.subrange(s.0 + a, s.1 + a));
        }
        assert(components(r) =~= components(p).skip(k));
    }
}

// ---------------------------------------------------------------------------
// Resolving a path
// ---------------------------------------------------------------------------

/// Where one more component leads: `.` stays, `..` goes back one component but
/// never above the root, and a name goes on.
pub open spec fn entered(c: Seq<Seq<char>>, next: Seq<char>) -> Seq<Seq<char>> {
    if next == seq!['.'] {
        c
    } else if next != seq!['.', '.'] || c.len() == 0 || c.last() == seq!['.', '.'] {
        c.push(next)
    } else if c.last() == seq!['/'] {
        c
    } else {
        c.drop_last()
    }
}

/// Components with every `.` dropped, and every `..` taken together with the
/// component it goes back over. What is left of `..` stands in front. Symbolic
/// links are not followed.
pub open spec fn resolved(c: Seq<Seq<char>>) -> Seq<Seq<char>>
    decreases c.len(),
{
    if c.len() == 0 {
        Seq::empty()
    } else {
        entered(resolved(c.drop_last()), c.last())
    }
}

/// Whether components lead above where they start.
pub open spec fn climbs(c: Seq<Seq<char>>) -> bool {
    resolved(c).contains(seq!['.', '.'])
}

/// Whether a path leads to a directory or to something in it, once both are
/// resolved. A path from the root and one that is not have nothing to do with
/// each other.
pub open spec fn within(p: Seq<char>, dir: Seq<char>) -> bool {
    let base = resolved(components(dir));
    let full = resolved(components(p));
    &&& is_rooted(p) == is_rooted(dir)
    &&& base.is_prefix_of(full)
    &&& full.len() > base.len() ==> full[base.len() as int] != seq!['.', '.']
}

/// The components of a path, resolved.
fn resolved_texts(p: &str) -> (r: Vec<String>)
    ensures
        view::each(r@) == resolved(components(p@)),
{
    let all = component_texts(p);
    let mut out: Vec<String> = Vec::new();
    let mut k: usize = 0;
    proof {
        reveal_strlit(".");
        reveal_strlit("..");
        reveal_strlit("/");
        assert("."@ =~= seq!['.']);
        assert(".."@ =~= seq!['.', '.']);
        assert("/"@ =~= seq!['/']);
        assert(components(p@).take(0) =~= Seq::empty());
        assert(view::each(out@) =~= Seq::empty());
    }
    while k < all.len()
        invariant
            k <= all@.len() == components(p@).len(),
            forall|m: int| 0 <= m < all@.len() ==> (#[trigger] all@[m])@ == components(p@)[m],
            view::each(out@) == resolved(components(p@).take(k as int)),
            "."@ == seq!['.'],
            ".."@ == seq!['.', '.'],
            "/"@ == seq!['/'],
        decreases all@.len() - k,
    {
        broadcast use view::each_push;

        let next = &all[k];
        let ghost before = view::each(out@);
        assert(components(p@).take(k + 1).drop_last() =~= components(p@).take(k as int));
        assert(next@ == components(p@).take(k + 1).last());
        if !text::same(next.as_str(), ".") {
            let n = out.len();
            if !text::same(next.as_str(), "..") || n == 0 || text::same(out[n - 1].as_str(), "..") {
                out.push(next.clone());
            } else if !text::same(out[n - 1].as_str(), "/") {
                let _ = out.pop();
                assert(view::each(out@) =~= before.drop_last());
            }
        }
        k += 1;
    }
    assert(components(p@).take(k as int) =~= components(p@));
    out
}

/// Whether a path leads to a directory or to something in it.
pub fn is_within(p: &str, dir: &str) -> (r: bool)
    ensures
        r == within(p@, dir@),
{
    if is_absolute(p) != is_absolute(dir) {
        return false;
    }
    let full = resolved_texts(p);
    let base = resolved_texts(dir);
    let ghost f = resolved(components(p@));
    let ghost b = resolved(components(dir@));
    if base.len() > full.len() {
        return false;
    }
    let mut k: usize = 0;
    while k < base.len()
        invariant
            k <= base@.len() <= full@.len(),
            view::each(full@) == f,
            view::each(base@) == b,
            f == resolved(components(p@)),
            b == resolved(components(dir@)),
            forall|m: int| 0 <= m < k ==> b[m] == f[m],
        decreases base@.len() - k,
    {
        assert(f[k as int] == full@[k as int]@ && b[k as int] == base@[k as int]@);
        if !text::same(full[k].as_str(), base[k].as_str()) {
            assert(f.subrange(0, b.len() as int)[k as int] != b[k as int]);
            return false;
        }
        k += 1;
    }
    assert(b =~= f.subrange(0, b.len() as int));
    proof {
        reveal_strlit("..");
        assert(".."@ =~= seq!['.', '.']);
    }
    assert(k < full@.len() ==> f[k as int] == full@[k as int]@);
    full.len() == k || !text::same(full[k].as_str(), "..")
}

/// What resolves alike, resolves alike with the same components after it.
proof fn resolved_alike(a: Seq<Seq<char>>, b: Seq<Seq<char>>, c: Seq<Seq<char>>)
    requires
        resolved(a) == resolved(b),
    ensures
        resolved(a + c) == resolved(b + c),
    decreases c.len(),
{
    if c.len() == 0 {
        assert(a + c =~= a && b + c =~= b);
    } else {
        resolved_alike(a, b, c.drop_last());
        assert((a + c).drop_last() =~= a + c.drop_last());
        assert((b + c).drop_last() =~= b + c.drop_last());
    }
}

/// Resolving leaves no component that was not there.
proof fn resolved_are_components(c: Seq<Seq<char>>)
    ensures
        forall|i: int| 0 <= i < resolved(c).len() ==> c.contains(#[trigger] resolved(c)[i]),
    decreases c.len(),
{
    if c.len() > 0 {
        let front = resolved(c.drop_last());
        resolved_are_components(c.drop_last());
        assert forall|i: int| 0 <= i < resolved(c).len() implies c.contains(
            #[trigger] resolved(c)[i],
        ) by {
            if i < front.len() && resolved(c)[i] == front[i] {
                let k = choose|k: int| 0 <= k < c.drop_last().len() && c.drop_last()[k] == front[i];
                assert(c[k] == front[i]);
            } else {
                assert(resolved(c)[i] == c[c.len() - 1]);
            }
        }
    }
}

/// Components that do not lead above where they start resolve on their own,
/// whatever is in front of them.
pub proof fn resolving_goes_on(a: Seq<Seq<char>>, c: Seq<Seq<char>>)
    requires
        !climbs(c),
        !c.contains(seq!['/']),
    ensures
        resolved(a + c) == resolved(a) + resolved(c),
    decreases c.len(),
{
    if c.len() == 0 {
        assert(a + c =~= a);
        assert(resolved(a) + resolved(c) =~= resolved(a));
    } else {
        let up = seq!['.', '.'];
        let front = resolved(c.drop_last());
        if front.contains(up) {
            let i = choose|i: int| 0 <= i < front.len() && front[i] == up;
            assert(front.last() != up ==> i < front.len() - 1);
            assert(resolved(c)[i] == up);
        }
        assert forall|i: int| 0 <= i < c.drop_last().len() implies c.drop_last()[i] != seq![
            '/',
        ] by {
            assert(c.contains(c[i]));
        }
        resolving_goes_on(a, c.drop_last());
        assert((a + c).drop_last() =~= a + c.drop_last());
        assert((a + c).last() == c.last());
        let whole = resolved(a) + front;
        if front.len() > 0 {
            resolved_are_components(c.drop_last());
            assert(c.drop_last().contains(front[front.len() - 1]));
            assert(whole.last() == front.last());
            assert(front.contains(front.last()));
            assert(whole.drop_last() =~= resolved(a) + front.drop_last());
        }
        assert(whole.push(c.last()) =~= resolved(a) + front.push(c.last()));
        if c.last() == up && front.len() == 0 {
            assert(resolved(c)[0] == up);
        }
    }
}

/// No component but the first is the root, and the first only of a path that
/// starts there.
pub proof fn root_comes_first(p: Seq<char>, k: int)
    requires
        0 <= k < components(p).len(),
        k > 0 || !is_rooted(p),
    ensures
        components(p)[k] != seq!['/'],
{
    let s = spans(p)[k];
    if is_rooted(p) {
        spans_from_bounds(p, 1);
        assert(spans(p)[k] == spans_from(p, 1)[k - 1]);
        next_slash_bounds(p, s.0);
    } else if starts_here(p) {
        if k > 0 {
            assert(p.len() > 1);
            spans_from_bounds(p, 2);
            assert(spans(p)[k] == spans_from(p, 2)[k - 1]);
            next_slash_bounds(p, s.0);
        }
    } else {
        spans_from_bounds(p, 0);
        next_slash_bounds(p, s.0);
    }
    assert(components(p)[k][0] == p[s.0]);
}

/// A relative path joined onto a base leads where its components lead from the
/// base.
pub proof fn join_resolves(base: Seq<char>, p: Seq<char>)
    requires
        !is_rooted(p),
    ensures
        resolved(components(joined(base, p))) == resolved(components(base) + components(p)),
{
    if !starts_here(p) {
        join_appends_components(base, p);
    } else if base.len() == 0 {
        no_components(base);
        assert(joined(base, p) =~= p);
        assert(components(base) + components(p) =~= components(p));
    } else {
        let all = components(base);
        components_are_pieces(p);
        join_appends_pieces(base, p);
        assert(all.push(seq!['.']).drop_last() =~= all);
        resolved_alike(all, all.push(seq!['.']), pieces(p));
        assert(all.push(seq!['.']) + pieces(p) =~= all + components(p));
    }
}

/// A path that does not lead above where it starts stays within the directory
/// it is joined onto.
pub proof fn joined_stays_within(dir: Seq<char>, p: Seq<char>)
    requires
        !is_rooted(p),
        !climbs(components(p)),
    ensures
        within(joined(dir, p), dir),
{
    let c = components(p);
    assert forall|k: int| 0 <= k < c.len() implies c[k] != seq!['/'] by {
        root_comes_first(p, k);
    }
    join_resolves(dir, p);
    resolving_goes_on(components(dir), c);
    let base = resolved(components(dir));
    let full = resolved(components(joined(dir, p)));
    assert(full == base + resolved(c));
    assert(full.subrange(0, base.len() as int) =~= base);
    if full.len() > base.len() {
        assert(resolved(c).contains(resolved(c)[0]));
    }
}

// ---------------------------------------------------------------------------
// Equal paths, and paths in order
// ---------------------------------------------------------------------------

/// Whether two paths have the same components.
pub fn same(a: &str, b: &str) -> (r: bool)
    ensures
        r == (components(a@) == components(b@)),
{
    let x = component_texts(a);
    let y = component_texts(b);
    if x.len() != y.len() {
        return false;
    }
    let mut k: usize = 0;
    while k < x.len()
        invariant
            k <= x@.len() == y@.len(),
            x@.len() == components(a@).len(),
            y@.len() == components(b@).len(),
            forall|m: int| 0 <= m < x@.len() ==> (#[trigger] x@[m])@ == components(a@)[m],
            forall|m: int| 0 <= m < y@.len() ==> (#[trigger] y@[m])@ == components(b@)[m],
            forall|m: int| 0 <= m < k ==> components(a@)[m] == components(b@)[m],
        decreases x@.len() - k,
    {
        if !text::same(x[k].as_str(), y[k].as_str()) {
            assert(x@[k as int]@ != y@[k as int]@);
            return false;
        }
        assert(x@[k as int]@ == y@[k as int]@);
        k += 1;
    }
    assert(components(a@) =~= components(b@));
    true
}

/// The rank of a kind of component: the root, the directory itself, its parent,
/// then names.
pub open spec fn rank(component: Seq<char>) -> int {
    if component == "/"@ {
        0
    } else if component == "."@ {
        1
    } else if component == ".."@ {
        2
    } else {
        3
    }
}

/// Whether one component comes before another: by rank, then by its text.
pub open spec fn component_before(a: Seq<char>, b: Seq<char>) -> bool {
    if rank(a) != rank(b) {
        rank(a) < rank(b)
    } else {
        text::before(a, b)
    }
}

/// Whether one path comes before another: at the first component in which they
/// differ, or by being a proper beginning of it.
pub open spec fn components_before(a: Seq<Seq<char>>, b: Seq<Seq<char>>) -> bool
    decreases a.len(),
{
    if b.len() == 0 {
        false
    } else if a.len() == 0 {
        true
    } else if a[0] != b[0] {
        component_before(a[0], b[0])
    } else {
        components_before(a.skip(1), b.skip(1))
    }
}

fn component_rank(component: &str) -> (r: u8)
    ensures
        r == rank(component@),
{
    if text::same(component, "/") {
        0
    } else if text::same(component, ".") {
        1
    } else if text::same(component, "..") {
        2
    } else {
        3
    }
}

/// Whether one path comes before another.
pub fn is_before(a: &str, b: &str) -> (r: bool)
    ensures
        r == components_before(components(a@), components(b@)),
{
    let x = component_texts(a);
    let y = component_texts(b);
    let ghost p = components(a@);
    let ghost q = components(b@);
    let mut k: usize = 0;
    assert(p.skip(0) =~= p);
    assert(q.skip(0) =~= q);
    loop
        invariant
            k <= x@.len(),
            k <= y@.len(),
            x@.len() == p.len(),
            y@.len() == q.len(),
            forall|m: int| 0 <= m < x@.len() ==> (#[trigger] x@[m])@ == p[m],
            forall|m: int| 0 <= m < y@.len() ==> (#[trigger] y@[m])@ == q[m],
            components_before(p, q) == components_before(p.skip(k as int), q.skip(k as int)),
            p == components(a@),
            q == components(b@),
        decreases x@.len() - k,
    {
        if k == y.len() {
            return false;
        }
        if k == x.len() {
            return true;
        }
        assert(p.skip(k as int)[0] == x@[k as int]@);
        assert(q.skip(k as int)[0] == y@[k as int]@);
        if !text::same(x[k].as_str(), y[k].as_str()) {
            let m = component_rank(x[k].as_str());
            let n = component_rank(y[k].as_str());
            if m != n {
                return m < n;
            }
            return text::is_before(x[k].as_str(), y[k].as_str());
        }
        assert(p.skip(k as int).skip(1) =~= p.skip(k + 1));
        assert(q.skip(k as int).skip(1) =~= q.skip(k + 1));
        k += 1;
    }
}

/// Paths in order with one more put in its place. One that is the same as a
/// path there already is left out.
pub open spec fn placed(list: Seq<Seq<char>>, p: Seq<char>) -> Seq<Seq<char>>
    decreases list.len(),
{
    if list.len() == 0 {
        seq![p]
    } else if components_before(components(list[0]), components(p)) {
        seq![list[0]] + placed(list.skip(1), p)
    } else if components(list[0]) == components(p) {
        list
    } else {
        seq![p] + list
    }
}

/// Paths in order, each once: of those that are the same, the first.
pub open spec fn in_order(all: Seq<Seq<char>>) -> Seq<Seq<char>>
    decreases all.len(),
{
    if all.len() == 0 {
        Seq::empty()
    } else {
        placed(in_order(all.drop_last()), all.last())
    }
}

/// Puts a path in its place.
fn place(list: &mut Vec<String>, p: String)
    ensures
        view::each(final(list)@) == placed(view::each(old(list)@), p@),
{
    let ghost all = view::each(list@);
    let mut i: usize = 0;
    assert(all.take(0) + placed(all.skip(0), p@) =~= placed(all, p@)) by {
        assert(all.skip(0) =~= all);
    }
    while i < list.len() && is_before(list[i].as_str(), p.as_str())
        invariant
            i <= list@.len(),
            all == view::each(list@),
            placed(all, p@) == all.take(i as int) + placed(all.skip(i as int), p@),
        decreases list@.len() - i,
    {
        assert(all.skip(i as int)[0] == list@[i as int]@);
        assert(all.skip(i as int).skip(1) =~= all.skip(i + 1));
        assert(all.take(i as int) + (seq![all[i as int]] + placed(all.skip(i + 1), p@))
            =~= all.take(i + 1) + placed(all.skip(i + 1), p@));
        i += 1;
    }
    if i < list.len() {
        assert(all.skip(i as int)[0] == list@[i as int]@);
        if same(list[i].as_str(), p.as_str()) {
            assert(all.take(i as int) + all.skip(i as int) =~= all);
            return;
        }
    }
    let ghost before = list@;
    let ghost added = p;
    list.insert(i, p);
    assert(view::each(list@) =~= all.take(i as int) + (seq![added@] + all.skip(i as int)));
    assert(i == before.len() ==> seq![added@] + all.skip(i as int) =~= seq![added@]);
}

/// Puts paths in order and leaves out those that are the same as another.
pub fn sorted(paths: &Vec<String>) -> (r: Vec<String>)
    ensures
        view::each(r@) == in_order(view::each(paths@)),
{
    let ghost all = view::each(paths@);
    let mut out: Vec<String> = Vec::new();
    let mut i: usize = 0;
    assert(view::each(out@) =~= in_order(all.take(0)));
    while i < paths.len()
        invariant
            i <= paths@.len(),
            all == view::each(paths@),
            view::each(out@) == in_order(all.take(i as int)),
        decreases paths@.len() - i,
    {
        place(&mut out, paths[i].clone());
        assert(all.take(i + 1).drop_last() =~= all.take(i as int));
        i += 1;
    }
    assert(all.take(all.len() as int) =~= all);
    out
}

// ---------------------------------------------------------------------------
// Directories above a path
// ---------------------------------------------------------------------------

/// A path's parent is shorter than the path.
pub proof fn parent_is_shorter(p: Seq<char>)
    ensures
        parent_of(p) is Some ==> parent_of(p)->Some_0.len() < p.len(),
{
    if parent_of(p) is Some {
        let n = spans(p).len() as int;
        spans_bounds(p);
        assert(spans(p)[n - 1].1 <= p.len());
        if n > 1 {
            spans_ordered(p, n - 2, n - 1);
            assert(spans(p)[n - 2].1 <= p.len());
        }
    }
}

/// The directories above a path, from the nearest on.
pub open spec fn directories_above(p: Seq<char>) -> Seq<Seq<char>>
    decreases p.len(),
{
    match parent_of(p) {
        Some(dir) => {
            proof {
                parent_is_shorter(p);
            }
            if dir.len() < p.len() {
                seq![dir] + directories_above(dir)
            } else {
                Seq::empty()
            }
        },
        None => Seq::empty(),
    }
}

/// The directories above a path, from the nearest on.
pub fn ancestors(p: &str) -> (r: Vec<String>)
    ensures
        view::each(r@) == directories_above(p@),
{
    let mut out: Vec<String> = Vec::new();
    let mut at = p.to_owned();
    assert(view::each(out@) + directories_above(at@) =~= directories_above(p@));
    loop
        invariant
            view::each(out@) + directories_above(at@) == directories_above(p@),
        decreases at@.len(),
    {
        proof {
            parent_is_shorter(at@);
        }
        match parent(at.as_str()) {
            Some(dir) => {
                let ghost done = out@;
                let ghost here = at@;
                let next = dir.clone();
                out.push(dir);
                at = next;
                assert(view::each(out@) =~= view::each(done).push(at@));
                assert(view::each(out@) + directories_above(at@) =~= view::each(done)
                    + directories_above(here));
            },
            None => {
                assert(view::each(out@) =~= directories_above(p@));
                return out;
            },
        }
    }
}

} // verus!
