//! Texts: how they are ordered and how numbers are written in them.

use crate::text;
use vstd::prelude::*;

verus! {

/// Texts are ordered by their first character that differs; a text comes before
/// what it is the beginning of.
pub proof fn texts_are_ordered_by_the_first_difference(
    a: Seq<char>,
    b: Seq<char>,
    x: char,
    y: char,
)
    ensures
        (x as int) < (y as int) ==> text::before(seq![x] + a, seq![y] + b) && !text::before(
            seq![y] + b,
            seq![x] + a,
        ),
        text::before(seq![x] + a, seq![x] + b) == text::before(a, b),
        text::before(Seq::empty(), seq![y] + b),
        !text::before(a, Seq::empty()),
{
    let p = seq![x] + a;
    let q = seq![y] + b;
    let r = seq![x] + b;
    assert(p[0] == x && q[0] == y && r[0] == x);
    assert(p.skip(1) =~= a);
    assert(r.skip(1) =~= b);
}

/// A number is written with its leading digits first and its last digit last.
pub proof fn numbers_are_written_digit_by_digit(n: nat, d: nat)
    requires
        d < 10,
    ensures
        text::decimal(d) == seq![(('0' as u32) + d) as char],
        n > 0 ==> text::decimal(10 * n + d) == text::decimal(n).push((('0' as u32) + d) as char),
{
    if n > 0 {
        assert((10 * n + d) / 10 == n);
        assert((10 * n + d) % 10 == d);
    }
}

} // verus!
