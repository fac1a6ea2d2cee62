//! What collections of values are, given what each value is.

use vstd::prelude::*;

verus! {

/// What each value of a sequence is.
pub open spec fn each<T: View>(s: Seq<T>) -> Seq<T::V> {
    Seq::new(s.len(), |i: int| s[i]@)
}

/// What an optional value is.
pub open spec fn maybe<T: View>(o: Option<T>) -> Option<T::V> {
    match o {
        Some(v) => Some(v@),
        None => None,
    }
}

/// What something that can fail gives, if it does not.
pub open spec fn gained<T: View, E>(r: Result<T, E>) -> Option<T::V> {
    match r {
        Ok(v) => Some(v@),
        Err(_) => None,
    }
}

/// Adding a value to the end adds what it is.
pub broadcast proof fn each_push<T: View>(s: Seq<T>, v: T)
    ensures
        #[trigger] each(s.push(v)) == each(s).push(v@),
{
    assert(each(s.push(v)) =~= each(s).push(v@));
}

/// The values that are there, in order.
pub open spec fn kept<T>(s: Seq<Option<T>>) -> Seq<T>
    decreases s.len(),
{
    if s.len() == 0 {
        Seq::empty()
    } else {
        match s.last() {
            Some(v) => kept(s.drop_last()).push(v),
            None => kept(s.drop_last()),
        }
    }
}

/// One more value of a sequence counts where it is there.
pub proof fn kept_step<T>(s: Seq<Option<T>>, i: int)
    requires
        0 <= i < s.len(),
    ensures
        kept(s.take(i + 1)) == (match s[i] {
            Some(v) => kept(s.take(i)).push(v),
            None => kept(s.take(i)),
        }),
{
    assert(s.take(i + 1).drop_last() =~= s.take(i));
}

/// A value that is there is among those kept.
pub proof fn kept_contains<T>(s: Seq<Option<T>>, i: int)
    requires
        0 <= i < s.len(),
        s[i] is Some,
    ensures
        kept(s).contains(s[i]->Some_0),
    decreases s.len(),
{
    let front = s.drop_last();
    if i == s.len() - 1 {
        assert(kept(s)[kept(s).len() - 1] == s[i]->Some_0);
    } else {
        kept_contains(front, i);
        let k = choose|k: int| 0 <= k < kept(front).len() && kept(front)[k] == s[i]->Some_0;
        assert(front[i] == s[i]);
        assert(kept(s)[k] == s[i]->Some_0);
    }
}

} // verus!
