//! `file://` URIs and the paths they stand for.

use crate::text;
use vstd::prelude::*;

verus! {

/// The value of a hexadecimal digit, in either case.
pub open spec fn hex_value(c: char) -> Option<int> {
    let n = c as int;
    if '0' as int <= n <= '9' as int {
        Some(n - '0' as int)
    } else if 'a' as int <= n <= 'f' as int {
        Some(n - 'a' as int + 10)
    } else if 'A' as int <= n <= 'F' as int {
        Some(n - 'A' as int + 10)
    } else {
        None
    }
}

/// The number that two characters write in hexadecimal. The first may be a
/// plus sign.
pub open spec fn hex_pair(hi: char, lo: char) -> Option<int> {
    match (hex_value(hi), hex_value(lo)) {
        (Some(h), Some(l)) => Some(16 * h + l),
        (None, Some(l)) => if hi == '+' {
            Some(l)
        } else {
            None
        },
        _ => None,
    }
}

/// The characters from position `i` on, with each escape replaced by the
/// character of its number. What does not read as an escape stays; the two
/// characters after its percent sign are not looked at again.
pub open spec fn unescaped(s: Seq<char>, i: int) -> Seq<char>
    decreases s.len() - i,
{
    if i < 0 || i >= s.len() {
        Seq::empty()
    } else if s[i] != '%' {
        seq![s[i]] + unescaped(s, i + 1)
    } else if i + 2 < s.len() {
        match hex_pair(s[i + 1], s[i + 2]) {
            Some(b) => seq![b as char] + unescaped(s, i + 3),
            None => s.subrange(i, i + 3) + unescaped(s, i + 3),
        }
    } else {
        s.skip(i)
    }
}

/// A text without a prefix, where it starts with it.
pub open spec fn stripped(s: Seq<char>, prefix: Seq<char>) -> Seq<char> {
    if prefix.is_prefix_of(s) {
        s.skip(prefix.len() as int)
    } else {
        s
    }
}

/// The path a URI stands for.
pub open spec fn path_of(uri: Seq<char>) -> Seq<char> {
    unescaped(stripped(uri, "file://"@), 0)
}

/// The value of a hexadecimal digit.
fn hex_digit(c: char) -> (r: Option<u8>)
    ensures
        match r {
            Some(v) => hex_value(c) == Some(v as int) && v < 16,
            None => hex_value(c) is None,
        },
{
    let n: u32 = c as u32;
    if 48 <= n && n <= 57 {
        Some((n - 48) as u8)
    } else if 97 <= n && n <= 102 {
        Some((n - 97 + 10) as u8)
    } else if 65 <= n && n <= 70 {
        Some((n - 65 + 10) as u8)
    } else {
        None
    }
}

/// The number that two characters write in hexadecimal.
fn hex_byte(hi: char, lo: char) -> (r: Option<u8>)
    ensures
        match r {
            Some(v) => hex_pair(hi, lo) == Some(v as int),
            None => hex_pair(hi, lo) is None,
        },
{
    match (hex_digit(hi), hex_digit(lo)) {
        (Some(h), Some(l)) => Some(h * 16 + l),
        (None, Some(l)) => if hi == '+' {
            Some(l)
        } else {
            None
        },
        _ => None,
    }
}

/// Whether a text starts with another.
pub fn has_prefix(s: &Vec<char>, prefix: &Vec<char>) -> (r: bool)
    ensures
        r == prefix@.is_prefix_of(s@),
{
    if prefix.len() > s.len() {
        return false;
    }
    let mut i: usize = 0;
    while i < prefix.len()
        invariant
            i <= prefix@.len() <= s@.len(),
            forall|k: int| 0 <= k < i ==> s@[k] == prefix@[k],
        decreases prefix@.len() - i,
    {
        if s[i] != prefix[i] {
            return false;
        }
        i += 1;
    }
    assert(prefix@ =~= s@.subrange(0, prefix@.len() as int));
    true
}

/// Turns a `file://` URI back into the path it stands for.
pub fn uri_to_path(uri: &str) -> (r: String)
    ensures
        r@ == path_of(uri@),
{
    let cs = text::chars_of(uri);
    let prefix = text::chars_of("file://");
    let start: usize = if has_prefix(&cs, &prefix) {
        prefix.len()
    } else {
        0
    };
    let ghost rest = stripped(uri@, "file://"@);
    assert(rest =~= cs@.skip(start as int));
    let mut out: Vec<char> = Vec::new();
    let mut i: usize = start;
    assert(out@ + unescaped(rest, 0) =~= path_of(uri@));
    while i < cs.len()
        invariant
            start <= i <= cs@.len(),
            rest == cs@.skip(start as int),
            out@ + unescaped(rest, i - start) == path_of(uri@),
        decreases cs@.len() - i,
    {
        let ghost at = i - start;
        let ghost done = out@;
        let c = cs[i];
        assert(rest[at] == c);
        if c != '%' {
            out.push(c);
            assert(out@ + unescaped(rest, at + 1) =~= done + unescaped(rest, at));
            i += 1;
        } else if cs.len() - i > 2 {
            let hi = cs[i + 1];
            let lo = cs[i + 2];
            assert(rest[at + 1] == hi && rest[at + 2] == lo);
            match hex_byte(hi, lo) {
                Some(b) => {
                    out.push(b as char);
                },
                None => {
                    out.push('%');
                    out.push(hi);
                    out.push(lo);
                    assert(rest.subrange(at, at + 3) =~= seq!['%', hi, lo]);
                },
            }
            assert(out@ + unescaped(rest, at + 3) =~= done + unescaped(rest, at));
            i += 3;
        } else {
            while i < cs.len()
                invariant
                    start <= i <= cs@.len(),
                    rest == cs@.skip(start as int),
                    out@ + rest.skip(i - start) == path_of(uri@),
                decreases cs@.len() - i,
            {
                let ghost now = out@;
                out.push(cs[i]);
                assert(out@ + rest.skip(i + 1 - start) =~= now + rest.skip(i - start));
                i += 1;
            }
            assert(unescaped(rest, i - start) =~= Seq::empty());
            assert(rest.skip(i - start) =~= Seq::empty());
        }
    }
    assert(out@ =~= path_of(uri@));
    text::whole_text(&out)
}

// ---------------------------------------------------------------------------
// From a path to a URI
// ---------------------------------------------------------------------------

/// How a character of a path is written in a URI.
pub open spec fn escaped_char(c: char) -> Seq<char> {
    if c == '%' {
        seq!['%', '2', '5']
    } else if c == ' ' {
        seq!['%', '2', '0']
    } else if c == '#' {
        seq!['%', '2', '3']
    } else if c == '?' {
        seq!['%', '3', 'F']
    } else {
        seq![c]
    }
}

/// How a path is written in a URI.
pub open spec fn escaped(p: Seq<char>) -> Seq<char>
    decreases p.len(),
{
    if p.len() == 0 {
        Seq::empty()
    } else {
        escaped_char(p[0]) + escaped(p.skip(1))
    }
}

/// The `file://` URI of a path.
pub open spec fn file_uri(p: Seq<char>) -> Seq<char> {
    "file://"@ + escaped(p)
}

/// The `file://` URI of a path. The characters that end a URI's path or begin
/// an escape, and spaces, are escaped.
pub fn path_to_file_uri(p: &str) -> (r: String)
    ensures
        r@ == file_uri(p@),
{
    let cs = text::chars_of(p);
    let mut out = "file://".to_owned();
    let mut i: usize = 0;
    assert(p@.skip(0) =~= p@);
    while i < cs.len()
        invariant
            i <= cs@.len(),
            cs@ == p@,
            out@ + escaped(p@.skip(i as int)) == file_uri(p@),
        decreases cs@.len() - i,
    {
        let c = cs[i];
        let ghost done = out@;
        let ghost rest = p@.skip(i as int);
        assert(rest[0] == c);
        assert(rest.skip(1) =~= p@.skip(i + 1));
        if c == '%' {
            out.push('%');
            out.push('2');
            out.push('5');
        } else if c == ' ' {
            out.push('%');
            out.push('2');
            out.push('0');
        } else if c == '#' {
            out.push('%');
            out.push('2');
            out.push('3');
        } else if c == '?' {
            out.push('%');
            out.push('3');
            out.push('F');
        } else {
            out.push(c);
        }
        assert(out@ =~= done + escaped_char(c));
        assert(out@ + escaped(p@.skip(i + 1)) =~= done + escaped(rest));
        i += 1;
    }
    assert(escaped(p@.skip(i as int)) =~= Seq::empty());
    assert(out@ =~= file_uri(p@));
    out
}

proof fn unescaped_after_prefix(x: Seq<char>, y: Seq<char>, k: int)
    requires
        0 <= k,
    ensures
        unescaped(x + y, x.len() + k) == unescaped(y, k),
    decreases y.len() - k,
{
    let n = x.len() as int;
    let full = x + y;
    if k < y.len() {
        assert(full[n + k] == y[k]);
        if y[k] != '%' {
            unescaped_after_prefix(x, y, k + 1);
        } else if k + 2 < y.len() {
            assert(full[n + k + 1] == y[k + 1] && full[n + k + 2] == y[k + 2]);
            assert(full.subrange(n + k, n + k + 3) =~= y.subrange(k, k + 3));
            unescaped_after_prefix(x, y, k + 3);
        } else {
            assert(full.skip(n + k) =~= y.skip(k));
        }
    }
}

proof fn escaped_reads_back(p: Seq<char>)
    ensures
        unescaped(escaped(p), 0) == p,
    decreases p.len(),
{
    let e = escaped(p);
    if p.len() == 0 {
        assert(e.len() == 0);
        assert(p =~= Seq::empty());
    } else {
        let c = p[0];
        let head = escaped_char(c);
        let tail = escaped(p.skip(1));
        escaped_reads_back(p.skip(1));
        assert(e == head + tail);
        unescaped_after_prefix(head, tail, 0);
        assert(e[0] == head[0]);
        if head.len() == 3 {
            assert(e[1] == head[1] && e[2] == head[2]);
            assert(hex_pair(e[1], e[2]) == Some(c as int));
        }
        assert(unescaped(e, 0) =~= seq![c] + p.skip(1));
        assert(seq![c] + p.skip(1) =~= p);
    }
}

/// The URI of a path stands for that path.
pub proof fn file_uri_reads_back(p: Seq<char>)
    ensures
        path_of(file_uri(p)) == p,
{
    let prefix = "file://"@;
    let uri = file_uri(p);
    assert(uri.subrange(0, prefix.len() as int) =~= prefix);
    assert(uri.skip(prefix.len() as int) =~= escaped(p));
    escaped_reads_back(p);
}

// ---------------------------------------------------------------------------
// The path of a URI
// ---------------------------------------------------------------------------

/// Where the query string or fragment of a URI begins, from position `i` on.
pub open spec fn path_end(uri: Seq<char>, i: int) -> int
    decreases uri.len() - i,
{
    if i < 0 || i >= uri.len() {
        uri.len() as int
    } else if uri[i] == '?' || uri[i] == '#' {
        i
    } else {
        path_end(uri, i + 1)
    }
}

/// A URI without its query string and fragment.
pub fn uri_path(uri: &str) -> (r: String)
    ensures
        r@ == uri@.take(path_end(uri@, 0)),
{
    let cs = text::chars_of(uri);
    let mut i: usize = 0;
    while i < cs.len() && cs[i] != '?' && cs[i] != '#'
        invariant
            i <= cs@.len(),
            cs@ == uri@,
            path_end(uri@, 0) == path_end(uri@, i as int),
        decreases cs@.len() - i,
    {
        i += 1;
    }
    assert(uri@.take(i as int) =~= cs@.subrange(0, i as int));
    text::text_of(&cs, 0, i)
}

} // verus!
