//! Between the URIs and places of an editor and the paths and results of the
//! remote server.

use crate::edit::Position;
use crate::edit::Range;
use crate::json;
use crate::json::Json;
use crate::json::JsonView;
use crate::path;
use crate::text;
use crate::uri;
use crate::view;
use crate::wire::Location;
use crate::wire::LocationView;
use vstd::prelude::*;

verus! {

// ---------------------------------------------------------------------------
// From a URI to a path
// ---------------------------------------------------------------------------

/// The value of a byte that is a hexadecimal digit.
pub open spec fn digit_value(b: u8) -> Option<int> {
    uri::hex_value(b as char)
}

/// The bytes from position `i` on, with each percent sign and two hexadecimal
/// digits replaced by the byte they write.
pub open spec fn unescaped(s: Seq<u8>, i: int) -> Seq<u8>
    decreases s.len() - i,
{
    if i < 0 || i >= s.len() {
        Seq::empty()
    } else if s[i] == 0x25 && i + 2 < s.len() && digit_value(s[i + 1]) is Some && digit_value(
        s[i + 2],
    ) is Some {
        seq![(16 * digit_value(s[i + 1])->Some_0 + digit_value(s[i + 2])->Some_0) as u8]
            + unescaped(s, i + 3)
    } else {
        seq![s[i]] + unescaped(s, i + 1)
    }
}

/// `percent_encoding::percent_decode_str` and `decode_utf8`: every percent sign
/// that two hexadecimal digits follow stands for a byte. There is a result where
/// the bytes are UTF-8, and it is the text they encode.
#[verifier::external_body]
fn percent_decode(s: &str) -> (r: Option<String>)
    ensures
        match r {
            Some(t) => vstd::utf8::encode_utf8(t@) == unescaped(vstd::utf8::encode_utf8(s@), 0),
            None => !vstd::utf8::valid_utf8(unescaped(vstd::utf8::encode_utf8(s@), 0)),
        },
{
    percent_encoding::percent_decode_str(s).decode_utf8().ok().map(|t| t.into_owned())
}

/// The text that bytes encode once their escapes are replaced, where they do.
pub open spec fn percent_decoded(s: Seq<char>) -> Option<Seq<char>> {
    let bytes = unescaped(vstd::utf8::encode_utf8(s), 0);
    if vstd::utf8::valid_utf8(bytes) {
        Some(vstd::utf8::decode_utf8(bytes))
    } else {
        None
    }
}

/// The part of a `file://` URI that is its path: what follows the host.
pub open spec fn after_host(uri: Seq<char>) -> Option<Seq<char>> {
    let prefix = "file://"@;
    if prefix.is_prefix_of(uri) {
        let rest = uri.skip(prefix.len() as int);
        let slash = text::next_of(rest, '/', 0);
        if slash < rest.len() {
            Some(rest.skip(slash))
        } else {
            Some("/"@)
        }
    } else {
        None
    }
}

/// The path that a `file://` URI stands for.
pub open spec fn path_in(uri: Seq<char>) -> Option<Seq<char>> {
    match after_host(uri) {
        Some(p) => percent_decoded(p),
        None => None,
    }
}

/// The path that a `file://` URI stands for; none for another URI, or where the
/// path is not UTF-8.
pub fn uri_to_path(uri: &str) -> (r: Option<String>)
    ensures
        view::maybe(r) == path_in(uri@),
{
    let cs = text::chars_of(uri);
    let prefix = text::chars_of("file://");
    if !uri::has_prefix(&cs, &prefix) {
        return None;
    }
    let ghost rest = uri@.skip(prefix@.len() as int);
    let start = prefix.len();
    let mut at: usize = start;
    while at < cs.len() && cs[at] != '/'
        invariant
            start <= at <= cs@.len(),
            rest == cs@.skip(start as int),
            text::next_of(rest, '/', 0) == text::next_of(rest, '/', at - start),
        decreases cs@.len() - at,
    {
        assert(rest[at - start] == cs@[at as int]);
        at += 1;
    }
    let tail = if at < cs.len() {
        assert(rest[at - start] == cs@[at as int]);
        assert(rest.skip(at - start) =~= cs@.subrange(at as int, cs@.len() as int));
        text::text_of(&cs, at, cs.len())
    } else {
        "/".to_owned()
    };
    assert(after_host(uri@) == Some(tail@));
    let decoded = percent_decode(tail.as_str());
    proof {
        if decoded is Some {
            vstd::utf8::encode_utf8_valid_utf8(decoded->Some_0@);
            vstd::utf8::encode_utf8_decode_utf8(decoded->Some_0@);
        }
    }
    decoded
}

// ---------------------------------------------------------------------------
// From a path to a URI
// ---------------------------------------------------------------------------

/// A hexadecimal digit in upper case.
pub open spec fn upper_hex(n: int) -> char {
    if n < 10 {
        ('0' as int + n) as char
    } else {
        ('A' as int + n - 10) as char
    }
}

/// How a byte is escaped.
pub open spec fn escape_of(b: u8) -> Seq<char> {
    seq!['%', upper_hex((b / 16) as int), upper_hex((b % 16) as int)]
}

/// Whether a byte of a path is escaped: control characters, what is not ASCII,
/// and what has a meaning in URIs other than in their paths. A slash is not,
/// nor a percent sign.
pub open spec fn is_escaped(b: u8) -> bool {
    ||| b < 0x20
    ||| b >= 0x7f
    ||| b == 0x20
    ||| b == 0x22
    ||| b == 0x3c
    ||| b == 0x3e
    ||| b == 0x60
    ||| b == 0x3f
    ||| b == 0x23
    ||| b == 0x7b
    ||| b == 0x7d
}

/// How a byte of a path is written.
pub open spec fn written(b: u8) -> Seq<char> {
    if is_escaped(b) {
        escape_of(b)
    } else {
        seq![b as char]
    }
}

/// How the bytes of a path are written.
pub open spec fn escaped(bytes: Seq<u8>) -> Seq<char>
    decreases bytes.len(),
{
    if bytes.len() == 0 {
        Seq::empty()
    } else {
        written(bytes[0]) + escaped(bytes.skip(1))
    }
}

/// `percent_encoding::percent_encode_byte`: a percent sign and the byte in two
/// hexadecimal digits, in upper case.
#[verifier::external_body]
fn percent_encode_byte(b: u8) -> (r: &'static str)
    ensures
        r@ == escape_of(b),
{
    percent_encoding::percent_encode_byte(b)
}

/// The URI of a path: of an absolute one, and of any other as though it stood
/// under the root.
pub open spec fn uri_text(p: Seq<char>) -> Seq<char> {
    let path = escaped(vstd::utf8::encode_utf8(p));
    if path.len() > 0 && path[0] == '/' {
        "file://"@ + path
    } else {
        "file:///"@ + path
    }
}

/// Whether a text is a URI reference.
pub uninterp spec fn is_uri(s: Seq<char>) -> bool;

/// Parsing a text as a `Uri` of `lsp_types`. The grammar of URIs is not spelled
/// out; whether a text meets it is given a name. A URI keeps the text that it
/// was parsed from. The parser takes no more bytes than a signed number of
/// thirty-two bits counts.
#[verifier::external_body]
fn parse_uri(s: &str) -> (r: Option<String>)
    requires
        vstd::utf8::encode_utf8(s@).len() <= i32::MAX,
    ensures
        r is Some == is_uri(s@),
        r is Some ==> r->Some_0@ == s@,
{
    s.parse::<tower_lsp_server::lsp_types::Uri>().ok().map(|u| u.as_str().to_owned())
}

/// Whether the URI of a path is short enough to be parsed.
pub open spec fn uri_fits(p: Seq<char>) -> bool {
    uri_text(p).len() <= i32::MAX
}

proof fn escaped_is_ascii(bytes: Seq<u8>)
    ensures
        vstd::utf8::is_ascii_chars(escaped(bytes)),
    decreases bytes.len(),
{
    if bytes.len() > 0 {
        escaped_is_ascii(bytes.skip(1));
        let w = written(bytes[0]);
        assert forall|i: int| 0 <= i < w.len() implies 0 <= (#[trigger] w[i]) as nat && (
        w[i] as nat) < 128 by {
        }
        assert(vstd::utf8::is_ascii_chars(w));
        let all = escaped(bytes);
        let rest = escaped(bytes.skip(1));
        vstd::utf8::is_ascii_chars_concat(all, w, rest);
    }
}

/// The bytes of a URI are as many as its characters.
proof fn uri_text_is_ascii(p: Seq<char>)
    ensures
        vstd::utf8::is_ascii_chars(uri_text(p)),
        vstd::utf8::encode_utf8(uri_text(p)).len() == uri_text(p).len(),
{
    let path = escaped(vstd::utf8::encode_utf8(p));
    escaped_is_ascii(vstd::utf8::encode_utf8(p));
    reveal_strlit("file://");
    reveal_strlit("file:///");
    assert(vstd::utf8::is_ascii_chars("file://"@));
    assert(vstd::utf8::is_ascii_chars("file:///"@));
    vstd::utf8::is_ascii_chars_concat("file://"@ + path, "file://"@, path);
    vstd::utf8::is_ascii_chars_concat("file:///"@ + path, "file:///"@, path);
    vstd::utf8::is_ascii_chars_encode_utf8(uri_text(p));
}

/// Whether a byte of a path is escaped.
fn must_escape(b: u8) -> (r: bool)
    ensures
        r == is_escaped(b),
{
    b < 0x20 || b >= 0x7f || b == 0x20 || b == 0x22 || b == 0x3c || b == 0x3e || b == 0x60 || b
        == 0x3f || b == 0x23 || b == 0x7b || b == 0x7d
}

/// Writes the URI of a path.
fn write_uri(p: &str) -> (r: String)
    ensures
        r@ == uri_text(p@),
{
    let bytes = p.as_bytes();
    let ghost all = vstd::utf8::encode_utf8(p@);
    let mut out: Vec<char> = Vec::new();
    let mut i: usize = 0;
    assert(all.skip(0) =~= all);
    assert(out@ + escaped(all) =~= escaped(all));
    while i < bytes.len()
        invariant
            i <= bytes@.len(),
            bytes@ == all,
            out@ + escaped(all.skip(i as int)) == escaped(all),
        decreases bytes@.len() - i,
    {
        let b: u8 = bytes[i];
        let ghost done = out@;
        let ghost rest = all.skip(i as int);
        assert(rest[0] == b);
        assert(rest.skip(1) =~= all.skip(i + 1));
        if must_escape(b) {
            let mut three = text::chars_of(percent_encode_byte(b));
            out.append(&mut three);
        } else {
            out.push(b as char);
        }
        assert(out@ =~= done + written(b));
        assert(out@ + escaped(all.skip(i + 1)) =~= done + escaped(rest));
        i += 1;
    }
    assert(escaped(all.skip(i as int)) =~= Seq::empty());
    assert(out@ =~= escaped(all));
    let encoded = text::whole_text(&out);
    if out.len() > 0 && out[0] == '/' {
        text::cat("file://", encoded.as_str())
    } else {
        text::cat("file:///", encoded.as_str())
    }
}

/// Whether the URI of a path is short enough to be parsed.
pub fn can_make_uri(p: &str) -> (r: bool)
    ensures
        r == uri_fits(p@),
{
    text::chars_of(write_uri(p).as_str()).len() <= 0x7fff_ffff
}

/// The `file://` URI of a path; none where the text is not a URI.
pub fn path_to_uri(p: &str) -> (r: Option<String>)
    requires
        uri_fits(p@),
    ensures
        view::maybe(r) == (if is_uri(uri_text(p@)) {
            Some(uri_text(p@))
        } else {
            None
        }),
{
    let s = write_uri(p);
    proof {
        uri_text_is_ascii(p@);
    }
    parse_uri(s.as_str())
}

// ---------------------------------------------------------------------------
// There and back
// ---------------------------------------------------------------------------

/// Bytes in which no percent sign has two hexadecimal digits after it.
pub open spec fn holds_no_escape(bytes: Seq<u8>) -> bool {
    forall|i: int|
        0 <= i && i + 2 < bytes.len() && #[trigger] bytes[i] == 0x25 ==> digit_value(
            bytes[i + 1],
        ) is None || digit_value(bytes[i + 2]) is None
}

/// The bytes of how bytes of a path are written.
spec fn escaped_bytes(bytes: Seq<u8>) -> Seq<u8>
    decreases bytes.len(),
{
    if bytes.len() == 0 {
        Seq::empty()
    } else {
        as_bytes(written(bytes[0])) + escaped_bytes(bytes.skip(1))
    }
}

/// Characters as bytes, for characters of one byte.
spec fn as_bytes(s: Seq<char>) -> Seq<u8> {
    Seq::new(s.len(), |i: int| s[i] as u8)
}

proof fn escaped_as_bytes(bytes: Seq<u8>)
    ensures
        as_bytes(escaped(bytes)) == escaped_bytes(bytes),
        vstd::utf8::encode_utf8(escaped(bytes)) == escaped_bytes(bytes),
    decreases bytes.len(),
{
    escaped_is_ascii(bytes);
    vstd::utf8::is_ascii_chars_encode_utf8(escaped(bytes));
    if bytes.len() > 0 {
        escaped_as_bytes(bytes.skip(1));
        assert(as_bytes(escaped(bytes)) =~= as_bytes(written(bytes[0])) + as_bytes(
            escaped(bytes.skip(1)),
        ));
    } else {
        assert(as_bytes(escaped(bytes)) =~= Seq::empty());
    }
    assert(vstd::utf8::encode_utf8(escaped(bytes)) =~= as_bytes(escaped(bytes)));
}

proof fn upper_hex_reads_back(n: int)
    requires
        0 <= n < 16,
    ensures
        digit_value(upper_hex(n) as u8) == Some(n),
{
}

/// Replacing escapes after a prefix looks at what follows the prefix only.
proof fn unescaped_after(x: Seq<u8>, y: Seq<u8>, k: int)
    requires
        0 <= k,
    ensures
        unescaped(x + y, x.len() + k) == unescaped(y, k),
    decreases y.len() - k,
{
    let n = x.len() as int;
    let full = x + y;
    if k < y.len() {
        assert(full[n + k] == y[k]);
        if k + 2 < y.len() {
            assert(full[n + k + 1] == y[k + 1] && full[n + k + 2] == y[k + 2]);
            unescaped_after(x, y, k + 3);
        }
        unescaped_after(x, y, k + 1);
    }
}

/// What follows a byte of a path, as it is written, starts with two digits only
/// where the path itself goes on with two.
proof fn digits_are_the_paths_own(bytes: Seq<u8>)
    ensures
        ({
            let e = escaped_bytes(bytes);
            e.len() >= 2 && digit_value(e[0]) is Some && digit_value(e[1]) is Some
                ==> bytes.len() >= 2 && digit_value(bytes[0]) is Some && digit_value(
                bytes[1],
            ) is Some
        }),
{
    let e = escaped_bytes(bytes);
    if bytes.len() > 0 {
        let first = as_bytes(written(bytes[0]));
        assert(e[0] == first[0]);
        if is_escaped(bytes[0]) {
            assert(first[0] == 0x25);
            assert(digit_value(e[0]) is None);
        } else {
            assert(first.len() == 1 && first[0] == bytes[0]);
            let rest = bytes.skip(1);
            if rest.len() > 0 {
                let second = as_bytes(written(rest[0]));
                assert(e[1] == escaped_bytes(rest)[0]);
                assert(escaped_bytes(rest)[0] == second[0]);
                if is_escaped(rest[0]) {
                    assert(second[0] == 0x25);
                    assert(digit_value(e[1]) is None);
                } else {
                    assert(second[0] == rest[0]);
                }
            } else {
                assert(escaped_bytes(rest).len() == 0);
            }
        }
    }
}

proof fn escape_reads_back(b: u8, tail: Seq<u8>)
    ensures
        unescaped(as_bytes(escape_of(b)) + tail, 0) == seq![b] + unescaped(tail, 0),
{
    let head = as_bytes(escape_of(b));
    let e = head + tail;
    upper_hex_reads_back((b / 16) as int);
    upper_hex_reads_back((b % 16) as int);
    unescaped_after(head, tail, 0);
    assert(e[0] == 0x25);
    assert(e[1] == upper_hex((b / 16) as int) as u8);
    assert(e[2] == upper_hex((b % 16) as int) as u8);
    assert(16 * (b / 16) + b % 16 == b);
}

proof fn plain_byte_reads_back(b: u8, tail: Seq<u8>)
    requires
        b == 0x25 && tail.len() >= 2 ==> digit_value(tail[0]) is None || digit_value(
            tail[1],
        ) is None,
    ensures
        unescaped(seq![b] + tail, 0) == seq![b] + unescaped(tail, 0),
{
    let e = seq![b] + tail;
    unescaped_after(seq![b], tail, 0);
    assert(e[0] == b);
    if tail.len() >= 2 {
        assert(e[1] == tail[0] && e[2] == tail[1]);
    }
}

proof fn rest_holds_no_escape(bytes: Seq<u8>)
    requires
        bytes.len() > 0,
        holds_no_escape(bytes),
    ensures
        holds_no_escape(bytes.skip(1)),
{
    let rest = bytes.skip(1);
    assert forall|i: int| 0 <= i && i + 2 < rest.len() && #[trigger] rest[i] == 0x25 implies
        digit_value(rest[i + 1]) is None || digit_value(rest[i + 2]) is None by {
        assert(bytes[i + 1] == rest[i]);
        assert(bytes[i + 2] == rest[i + 1]);
        assert(bytes[i + 3] == rest[i + 2]);
    }
}

proof fn written_bytes_read_back(bytes: Seq<u8>)
    requires
        holds_no_escape(bytes),
    ensures
        unescaped(escaped_bytes(bytes), 0) == bytes,
    decreases bytes.len(),
{
    if bytes.len() == 0 {
        assert(bytes =~= Seq::empty());
    } else {
        let b = bytes[0];
        let rest = bytes.skip(1);
        let tail = escaped_bytes(rest);
        rest_holds_no_escape(bytes);
        written_bytes_read_back(rest);
        if is_escaped(b) {
            escape_reads_back(b, tail);
        } else {
            assert(as_bytes(written(b)) =~= seq![b]);
            digits_are_the_paths_own(rest);
            if b == 0x25 && tail.len() >= 2 && digit_value(tail[0]) is Some && digit_value(
                tail[1],
            ) is Some {
                assert(bytes[1] == rest[0] && bytes[2] == rest[1]);
            }
            plain_byte_reads_back(b, tail);
        }
        assert(seq![b] + rest =~= bytes);
    }
}

/// The URI of an absolute path stands for that path, unless the path itself
/// holds what reads as an escape.
pub proof fn uri_reads_back(p: Seq<char>)
    requires
        path::is_rooted(p),
        holds_no_escape(vstd::utf8::encode_utf8(p)),
    ensures
        path_in(uri_text(p)) == Some(p),
{
    let bytes = vstd::utf8::encode_utf8(p);
    let e = escaped(bytes);
    let prefix = "file://"@;
    rooted_bytes(p);
    assert(bytes[0] == 0x2f);
    assert(written(bytes[0]) =~= seq!['/']);
    assert(e[0] == '/');
    let u = uri_text(p);
    assert(u == prefix + e);
    assert(u.subrange(0, prefix.len() as int) =~= prefix);
    let rest = u.skip(prefix.len() as int);
    assert(rest =~= e);
    assert(text::next_of(rest, '/', 0) == 0);
    assert(rest.skip(0) =~= e);
    assert(after_host(u) == Some(e));
    escaped_as_bytes(bytes);
    written_bytes_read_back(bytes);
    vstd::utf8::encode_utf8_valid_utf8(p);
    vstd::utf8::encode_utf8_decode_utf8(p);
}

/// An absolute path starts with the byte of a slash.
proof fn rooted_bytes(p: Seq<char>)
    requires
        path::is_rooted(p),
    ensures
        vstd::utf8::encode_utf8(p).len() > 0,
        vstd::utf8::encode_utf8(p)[0] == 0x2f,
{
    let first = seq!['/'];
    assert(vstd::utf8::encode_scalar('/' as u32).len() > 0) by {
        vstd::utf8::is_ascii_chars_encode_utf8(first);
    }
    vstd::utf8::is_ascii_chars_encode_utf8(first);
    assert(vstd::utf8::encode_utf8(first)[0] == 0x2f);
    assert(first.drop_first() =~= Seq::empty());
    assert(vstd::utf8::encode_utf8(Seq::<char>::empty()) =~= Seq::empty());
}

// ---------------------------------------------------------------------------
// Usages
// ---------------------------------------------------------------------------

/// A line or character of a result; zero where it has none. What is beyond
/// thirty-two bits is lost.
pub open spec fn coordinate(v: JsonView, key: Seq<char>) -> u32 {
    match v.count_at(key) {
        Some(n) => n as u32,
        None => 0,
    }
}

/// A point of a result.
pub open spec fn position_in(v: JsonView, line_key: Seq<char>, char_key: Seq<char>) -> Position {
    Position { line: coordinate(v, line_key), character: coordinate(v, char_key) }
}

fn read_coordinate(v: &Json, key: &str) -> (r: u32)
    ensures
        r == coordinate(v@, key@),
{
    match v.u64_at(key) {
        Some(n) => #[verifier::truncate]
        (n as u32),
        None => 0,
    }
}

/// A point of a result.
pub fn read_position(v: &Json, line_key: &str, char_key: &str) -> (r: Position)
    ensures
        r == position_in(v@, line_key@, char_key@),
{
    Position { line: read_coordinate(v, line_key), character: read_coordinate(v, char_key) }
}

/// The file of a usage, in the working copy.
pub open spec fn usage_file(usage: JsonView, workspace: Seq<char>) -> Option<Seq<char>> {
    match usage.text_at("file"@) {
        Some(f) => Some(path::joined(workspace, f)),
        None => None,
    }
}

/// The place of a usage; none where it names no file, or its file has no URI.
pub open spec fn usage_place(usage: JsonView, workspace: Seq<char>) -> Option<LocationView> {
    match usage_file(usage, workspace) {
        Some(file) => if is_uri(uri_text(file)) {
            Some(
                LocationView {
                    uri: uri_text(file),
                    range: Range {
                        start: position_in(usage, "start_line"@, "start_character"@),
                        end: position_in(usage, "end_line"@, "end_character"@),
                    },
                },
            )
        } else {
            None
        },
        None => None,
    }
}

/// The usages that a result holds.
pub open spec fn usages_of(value: JsonView) -> Seq<JsonView> {
    match value.items_at("usages"@) {
        Some(s) => s,
        None => Seq::empty(),
    }
}

/// The places of some usages.
pub open spec fn usage_places(usages: Seq<JsonView>, workspace: Seq<char>) -> Seq<
    Option<LocationView>,
> {
    Seq::new(usages.len(), |i: int| usage_place(usages[i], workspace))
}

/// Whether the URIs of the files of all usages are short enough to be parsed.
pub open spec fn usages_fit(usages: Seq<JsonView>, workspace: Seq<char>) -> bool {
    forall|i: int|
        0 <= i < usages.len() ==> (usage_file(#[trigger] usages[i], workspace) is Some ==> uri_fits(
            usage_file(usages[i], workspace)->Some_0,
        ))
}

/// Turns the usages of a result into places. Their files are relative to the
/// working copy.
pub fn usages_to_locations(value: &Json, workspace_path: &str) -> (r: Vec<Location>)
    requires
        usages_fit(usages_of(value@), workspace_path@),
    ensures
        view::each(r@) == view::kept(usage_places(usages_of(value@), workspace_path@)),
{
    let ghost wanted = usage_places(usages_of(value@), workspace_path@);
    let mut out: Vec<Location> = Vec::new();
    assert(view::each(out@) =~= Seq::empty());
    let usages = match value.array_at("usages") {
        Some(usages) => usages,
        None => {
            assert(view::kept(wanted) =~= Seq::empty());
            return out;
        },
    };
    let ghost all = json::list_view(usages@);
    let mut i: usize = 0;
    assert(view::each(out@) =~= view::kept(wanted.take(0)));
    while i < usages.len()
        invariant
            i <= usages@.len(),
            all == json::list_view(usages@),
            wanted == usage_places(all, workspace_path@),
            usages_fit(all, workspace_path@),
            view::each(out@) == view::kept(wanted.take(i as int)),
        decreases usages@.len() - i,
    {
        broadcast use view::each_push;

        let usage = &usages[i];
        assert(all[i as int] == usage@);
        proof {
            view::kept_step(wanted, i as int);
        }
        if let Some(f) = usage.str_at("file") {
            let file = path::join(workspace_path, f);
            assert(usage_file(all[i as int], workspace_path@) == Some(file@));
            if let Some(uri) = path_to_uri(file.as_str()) {
                let start = read_position(usage, "start_line", "start_character");
                let end = read_position(usage, "end_line", "end_character");
                out.push(Location { uri, range: Range { start, end } });
            }
        }
        i += 1;
    }
    assert(wanted.take(all.len() as int) =~= wanted);
    out
}

/// Whether the usages of a result can be turned into places.
pub fn can_locate(value: &Json, workspace_path: &str) -> (r: bool)
    ensures
        r == usages_fit(usages_of(value@), workspace_path@),
{
    if let Some(usages) = value.array_at("usages") {
        let ghost all = json::list_view(usages@);
        let mut i: usize = 0;
        while i < usages.len()
            invariant
                i <= usages@.len(),
                all == json::list_view(usages@),
                all == usages_of(value@),
                forall|k: int|
                    0 <= k < i ==> (usage_file(#[trigger] all[k], workspace_path@) is Some
                        ==> uri_fits(usage_file(all[k], workspace_path@)->Some_0)),
            decreases usages@.len() - i,
        {
            assert(all[i as int] == usages@[i as int]@);
            if let Some(f) = usages[i].str_at("file") {
                let file = path::join(workspace_path, f);
                assert(usage_file(all[i as int], workspace_path@) == Some(file@));
                if !can_make_uri(file.as_str()) {
                    return false;
                }
            }
            i += 1;
        }
    }
    true
}

} // verus!
