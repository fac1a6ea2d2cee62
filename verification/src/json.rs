//! JSON values: the documents that tools, providers and editors exchange.

use crate::text;
use crate::view;
use vstd::prelude::*;

verus! {

/// A JSON number. A number that is neither an unsigned nor a negative integer
/// is kept as it was written.
#[derive(Debug)]
pub enum Number {
    /// An integer that is not negative.
    Unsigned(u64),
    /// A negative integer.
    Negative(i64),
    /// Any other number, as it was written.
    Decimal(String),
}

/// A JSON value.
#[derive(Debug)]
pub enum Json {
    /// `null`
    Null,
    /// `true` or `false`
    Bool(bool),
    /// A number
    Number(Number),
    /// A string
    Text(String),
    /// An array
    List(Vec<Json>),
    /// An object
    Object(Object),
}

/// A JSON object: values under keys, each key once.
#[derive(Debug)]
pub struct Object {
    entries: Vec<(String, Json)>,
}

// ---------------------------------------------------------------------------
// What a value is
// ---------------------------------------------------------------------------

/// What a number is.
#[verifier::ext_equal]
pub enum NumberView {
    /// An integer that is not negative.
    Unsigned(u64),
    /// A negative integer.
    Negative(i64),
    /// Any other number, as it was written.
    Decimal(Seq<char>),
}

/// What a JSON value is: an object is a map, with no order among its keys.
#[verifier::ext_equal]
pub enum JsonView {
    /// `null`
    Null,
    /// `true` or `false`
    Bool(bool),
    /// A number
    Number(NumberView),
    /// A string
    Text(Seq<char>),
    /// An array
    List(Seq<JsonView>),
    /// An object
    Object(Map<Seq<char>, JsonView>),
}

/// What a number is.
pub open spec fn number_view(n: Number) -> NumberView {
    match n {
        Number::Unsigned(u) => NumberView::Unsigned(u),
        Number::Negative(i) => NumberView::Negative(i),
        Number::Decimal(t) => NumberView::Decimal(t@),
    }
}

/// What a value is.
pub open spec fn json_view(j: Json) -> JsonView
    decreases j,
{
    match j {
        Json::Null => JsonView::Null,
        Json::Bool(b) => JsonView::Bool(b),
        Json::Number(n) => JsonView::Number(number_view(n)),
        Json::Text(t) => JsonView::Text(t@),
        Json::List(v) => JsonView::List(list_view(v@)),
        Json::Object(o) => JsonView::Object(object_view(o)),
    }
}

/// What the values of a list are.
pub open spec fn list_view(s: Seq<Json>) -> Seq<JsonView>
    decreases s,
{
    Seq::new(
        s.len(),
        |i: int|
            if 0 <= i < s.len() {
                json_view(s[i])
            } else {
                JsonView::Null
            },
    )
}

/// What the keys of an object map to.
pub closed spec fn object_view(o: Object) -> Map<Seq<char>, JsonView>
    decreases o,
{
    entries_view(o.entries@)
}

/// What a list of entries maps its keys to.
spec fn entries_view(s: Seq<(String, Json)>) -> Map<Seq<char>, JsonView>
    decreases s,
{
    Map::new(
        |k: Seq<char>| exists|i: int| 0 <= i < s.len() && (#[trigger] s[i]).0@ == k,
        |k: Seq<char>|
            {
                let i = choose|i: int| 0 <= i < s.len() && (#[trigger] s[i]).0@ == k;
                if 0 <= i < s.len() {
                    json_view(s[i].1)
                } else {
                    JsonView::Null
                }
            },
    )
}

/// No key occurs twice.
spec fn distinct_keys(s: Seq<(String, Json)>) -> bool {
    forall|i: int, j: int|
        0 <= i < j < s.len() ==> (#[trigger] s[i]).0@ != (#[trigger] s[j]).0@
}

impl View for Json {
    type V = JsonView;

    open spec fn view(&self) -> JsonView {
        json_view(*self)
    }
}

impl View for Object {
    type V = Map<Seq<char>, JsonView>;

    open spec fn view(&self) -> Map<Seq<char>, JsonView> {
        object_view(*self)
    }
}

/// A number that is not negative.
pub open spec fn num(n: int) -> JsonView {
    JsonView::Number(NumberView::Unsigned(n as u64))
}

/// A string.
pub open spec fn txt(s: &str) -> JsonView {
    JsonView::Text(s@)
}

/// A string, or `null` where there is none.
pub open spec fn txt_or_null(s: Option<Seq<char>>) -> JsonView {
    match s {
        Some(t) => JsonView::Text(t),
        None => JsonView::Null,
    }
}

impl JsonView {
    /// The value an object holds under a key.
    pub open spec fn get(self, key: Seq<char>) -> Option<JsonView> {
        match self {
            JsonView::Object(m) => if m.contains_key(key) {
                Some(m[key])
            } else {
                None
            },
            _ => None,
        }
    }

    /// The string a value is.
    pub open spec fn text(self) -> Option<Seq<char>> {
        match self {
            JsonView::Text(t) => Some(t),
            _ => None,
        }
    }

    /// The string an object holds under a key.
    pub open spec fn text_at(self, key: Seq<char>) -> Option<Seq<char>> {
        match self.get(key) {
            Some(v) => v.text(),
            None => None,
        }
    }

    /// The non-negative integer a value is.
    pub open spec fn count(self) -> Option<u64> {
        match self {
            JsonView::Number(NumberView::Unsigned(n)) => Some(n),
            _ => None,
        }
    }

    /// The non-negative integer an object holds under a key.
    pub open spec fn count_at(self, key: Seq<char>) -> Option<u64> {
        match self.get(key) {
            Some(v) => v.count(),
            None => None,
        }
    }

    /// The boolean a value is.
    pub open spec fn flag(self) -> Option<bool> {
        match self {
            JsonView::Bool(b) => Some(b),
            _ => None,
        }
    }

    /// The boolean an object holds under a key.
    pub open spec fn flag_at(self, key: Seq<char>) -> Option<bool> {
        match self.get(key) {
            Some(v) => v.flag(),
            None => None,
        }
    }

    /// The values an array holds.
    pub open spec fn items(self) -> Option<Seq<JsonView>> {
        match self {
            JsonView::List(s) => Some(s),
            _ => None,
        }
    }

    /// The values an object holds as an array under a key.
    pub open spec fn items_at(self, key: Seq<char>) -> Option<Seq<JsonView>> {
        match self.get(key) {
            Some(v) => v.items(),
            None => None,
        }
    }
}

// ---------------------------------------------------------------------------
// Objects
// ---------------------------------------------------------------------------

proof fn entry_is_viewed(s: Seq<(String, Json)>, i: int)
    requires
        distinct_keys(s),
        0 <= i < s.len(),
    ensures
        entries_view(s).contains_key(s[i].0@),
        entries_view(s)[s[i].0@] == json_view(s[i].1),
{
    let k = s[i].0@;
    let c = choose|c: int| 0 <= c < s.len() && (#[trigger] s[c]).0@ == k;
    assert(s[c].0@ == k);
    assert(c == i);
}

impl Object {
    #[verifier::type_invariant]
    spec fn each_key_once(self) -> bool {
        distinct_keys(self.entries@)
    }

    /// An object with no keys.
    pub fn new() -> (r: Object)
        ensures
            r@ == Map::<Seq<char>, JsonView>::empty(),
    {
        let r = Object { entries: Vec::new() };
        assert(r@ =~= Map::empty());
        r
    }

    /// Where a key stands among the entries.
    fn find(&self, key: &str) -> (r: Option<usize>)
        ensures
            match r {
                Some(i) => i < self.entries@.len() && self.entries@[i as int].0@ == key@,
                None => forall|j: int|
                    0 <= j < self.entries@.len() ==> (#[trigger] self.entries@[j]).0@ != key@,
            },
    {
        let mut i: usize = 0;
        while i < self.entries.len()
            invariant
                i <= self.entries@.len(),
                forall|j: int| 0 <= j < i ==> (#[trigger] self.entries@[j]).0@ != key@,
            decreases self.entries@.len() - i,
        {
            if text::same(self.entries[i].0.as_str(), key) {
                return Some(i);
            }
            i += 1;
        }
        None
    }

    /// The value under a key.
    pub fn get(&self, key: &str) -> (r: Option<&Json>)
        ensures
            view::maybe(r) == JsonView::Object(self@).get(key@),
            r is Some ==> decreases_to!(self => r->Some_0),
    {
        proof {
            use_type_invariant(self);
        }
        match self.find(key) {
            Some(i) => {
                proof {
                    entry_is_viewed(self.entries@, i as int);
                }
                Some(&self.entries[i].1)
            },
            None => None,
        }
    }

    /// Whether a key is present.
    pub fn contains_key(&self, key: &str) -> (r: bool)
        ensures
            r == self@.contains_key(key@),
    {
        proof {
            use_type_invariant(self);
        }
        match self.find(key) {
            Some(i) => {
                proof {
                    entry_is_viewed(self.entries@, i as int);
                }
                true
            },
            None => false,
        }
    }

    /// The object with a value under a key, in place of one that was there.
    pub fn with(self, key: &str, value: Json) -> (r: Object)
        ensures
            r@ == self@.insert(key@, value@),
    {
        let less = self.without(key);
        proof {
            use_type_invariant(&less);
        }
        let ghost before = less.entries@;
        let ghost gone = less@;
        let mut entries = less.entries;
        entries.push((key.to_owned(), value));
        assert forall|i: int, j: int| 0 <= i < j < entries@.len() implies (
        #[trigger] entries@[i]).0@ != (#[trigger] entries@[j]).0@ by {
            if j == before.len() {
                entry_is_viewed(before, i);
                assert(gone.contains_key(before[i].0@));
            }
        }
        let r = Object { entries };
        assert forall|k: Seq<char>| r@.contains_key(k) == self@.insert(key@, value@).contains_key(
            k,
        ) by {
            if k == key@ {
                entry_is_viewed(r.entries@, before.len() as int);
            } else {
                if self@.contains_key(k) {
                    assert(gone.contains_key(k));
                    let i = choose|i: int| 0 <= i < before.len() && (#[trigger] before[i]).0@ == k;
                    entry_is_viewed(r.entries@, i);
                }
                if r@.contains_key(k) {
                    let i = choose|i: int|
                        0 <= i < r.entries@.len() && (#[trigger] r.entries@[i]).0@ == k;
                    entry_is_viewed(before, i);
                }
            }
        }
        assert forall|k: Seq<char>| r@.contains_key(k) implies r@[k] == self@.insert(
            key@,
            value@,
        )[k] by {
            if k == key@ {
                entry_is_viewed(r.entries@, before.len() as int);
            } else {
                let i = choose|i: int|
                    0 <= i < r.entries@.len() && (#[trigger] r.entries@[i]).0@ == k;
                entry_is_viewed(r.entries@, i);
                entry_is_viewed(before, i);
                assert(gone[k] == self@[k]);
            }
        }
        assert(r@ =~= self@.insert(key@, value@));
        r
    }

    /// The object without a key.
    pub fn without(self, key: &str) -> (r: Object)
        ensures
            r@ == self@.remove(key@),
    {
        proof {
            use_type_invariant(&self);
        }
        match self.find(key) {
            None => {
                assert(self@.remove(key@) =~= self@);
                self
            },
            Some(i) => {
                let ghost before = self.entries@;
                let mut entries = self.entries;
                let _gone = entries.remove(i);
                assert(entries@ == before.remove(i as int));
                let r = Object { entries };
                let ghost after = r.entries@;
                assert forall|k: Seq<char>| r@.contains_key(k) == self@.remove(
                    key@,
                ).contains_key(k) by {
                    if r@.contains_key(k) {
                        let j = choose|j: int|
                            0 <= j < after.len() && (#[trigger] after[j]).0@ == k;
                        let o = if j < i {
                            j
                        } else {
                            j + 1
                        };
                        assert(before[o] == after[j]);
                        entry_is_viewed(before, o);
                        assert(before[i as int].0@ == key@);
                    }
                    if self@.contains_key(k) && k != key@ {
                        let o = choose|o: int|
                            0 <= o < before.len() && (#[trigger] before[o]).0@ == k;
                        let j = if o < i {
                            o
                        } else {
                            o - 1
                        };
                        assert(before[o] == after[j]);
                        entry_is_viewed(after, j);
                    }
                }
                assert forall|k: Seq<char>| r@.contains_key(k) implies r@[k] == self@.remove(
                    key@,
                )[k] by {
                    let j = choose|j: int| 0 <= j < after.len() && (#[trigger] after[j]).0@ == k;
                    let o = if j < i {
                        j
                    } else {
                        j + 1
                    };
                    assert(before[o] == after[j]);
                    entry_is_viewed(before, o);
                    entry_is_viewed(after, j);
                }
                assert(r@ =~= self@.remove(key@));
                r
            },
        }
    }

    /// The keys of the object, each once.
    pub fn keys(&self) -> (r: Vec<String>)
        ensures
            forall|k: Seq<char>|
                #![trigger self@.contains_key(k)]
                self@.contains_key(k) <==> exists|i: int|
                    0 <= i < r@.len() && (#[trigger] r@[i])@ == k,
            forall|i: int, j: int|
                0 <= i < j < r@.len() ==> (#[trigger] r@[i])@ != (#[trigger] r@[j])@,
    {
        proof {
            use_type_invariant(self);
        }
        let mut out: Vec<String> = Vec::new();
        let mut i: usize = 0;
        while i < self.entries.len()
            invariant
                i <= self.entries@.len(),
                out@.len() == i,
                forall|j: int| 0 <= j < i ==> (#[trigger] out@[j])@ == self.entries@[j].0@,
            decreases self.entries@.len() - i,
        {
            out.push(self.entries[i].0.clone());
            i += 1;
        }
        assert forall|k: Seq<char>| #![trigger self@.contains_key(k)]
            self@.contains_key(k) <==> exists|i: int|
                0 <= i < out@.len() && (#[trigger] out@[i])@ == k by {
            if self@.contains_key(k) {
                let i = choose|i: int|
                    0 <= i < self.entries@.len() && (#[trigger] self.entries@[i]).0@ == k;
                assert(out@[i]@ == k);
            }
            if exists|i: int| 0 <= i < out@.len() && (#[trigger] out@[i])@ == k {
                let i = choose|i: int| 0 <= i < out@.len() && (#[trigger] out@[i])@ == k;
                entry_is_viewed(self.entries@, i);
            }
        }
        assert forall|i: int, j: int| 0 <= i < j < out@.len() implies (#[trigger] out@[i])@ != (
        #[trigger] out@[j])@ by {
            assert(self.entries@[i].0@ != self.entries@[j].0@);
        }
        out
    }
}

// ---------------------------------------------------------------------------
// Copies
// ---------------------------------------------------------------------------

impl Clone for Number {
    fn clone(&self) -> (r: Number)
        ensures
            number_view(r) == number_view(*self),
    {
        match self {
            Number::Unsigned(u) => Number::Unsigned(*u),
            Number::Negative(i) => Number::Negative(*i),
            Number::Decimal(t) => Number::Decimal(t.clone()),
        }
    }
}

/// A value with the same content.
fn copy_value(j: &Json) -> (r: Json)
    ensures
        r@ == j@,
    decreases j,
{
    match j {
        Json::Null => Json::Null,
        Json::Bool(b) => Json::Bool(*b),
        Json::Number(n) => Json::Number(n.clone()),
        Json::Text(t) => Json::Text(t.clone()),
        Json::List(v) => Json::List(copy_list(v)),
        Json::Object(o) => Json::Object(copy_object(o)),
    }
}

/// A list of values with the same content.
pub fn copy_list(list: &Vec<Json>) -> (r: Vec<Json>)
    ensures
        list_view(r@) == list_view(list@),
        r@.len() == list@.len(),
    decreases list,
{
    let mut out: Vec<Json> = Vec::new();
    let mut i: usize = 0;
    while i < list.len()
        invariant
            i <= list@.len(),
            out@.len() == i,
            forall|k: int| 0 <= k < i ==> (#[trigger] out@[k])@ == list@[k]@,
        decreases list@.len() - i,
    {
        let next = copy_value(&list[i]);
        out.push(next);
        i += 1;
    }
    assert forall|k: int| 0 <= k < out@.len() implies list_view(out@)[k] == list_view(list@)[k] by {
        assert(out@[k]@ == list@[k]@);
    }
    assert(list_view(out@) =~= list_view(list@));
    out
}

/// An object with the same content.
fn copy_object(o: &Object) -> (r: Object)
    ensures
        r@ == o@,
    decreases o,
{
    proof {
        use_type_invariant(o);
    }
    let mut out: Vec<(String, Json)> = Vec::new();
    let mut i: usize = 0;
    while i < o.entries.len()
        invariant
            i <= o.entries@.len(),
            out@.len() == i,
            forall|k: int|
                0 <= k < i ==> (#[trigger] out@[k]).0@ == o.entries@[k].0@ && out@[k].1@
                    == o.entries@[k].1@,
        decreases o.entries@.len() - i,
    {
        let next = copy_value(&o.entries[i].1);
        out.push((o.entries[i].0.clone(), next));
        i += 1;
    }
    let ghost from = o.entries@;
    assert(distinct_keys(out@)) by {
        assert forall|a: int, b: int| 0 <= a < b < out@.len() implies (#[trigger] out@[a]).0@ != (
        #[trigger] out@[b]).0@ by {
            assert(from[a].0@ != from[b].0@);
        }
    }
    let r = Object { entries: out };
    let ghost to = r.entries@;
    assert forall|k: Seq<char>| r@.contains_key(k) == o@.contains_key(k) by {
        if r@.contains_key(k) {
            let a = choose|a: int| 0 <= a < to.len() && (#[trigger] to[a]).0@ == k;
            assert(from[a].0@ == k);
        }
        if o@.contains_key(k) {
            let a = choose|a: int| 0 <= a < from.len() && (#[trigger] from[a]).0@ == k;
            assert(to[a].0@ == k);
        }
    }
    assert forall|k: Seq<char>| r@.contains_key(k) implies r@[k] == o@[k] by {
        let a = choose|a: int| 0 <= a < to.len() && (#[trigger] to[a]).0@ == k;
        entry_is_viewed(to, a);
        entry_is_viewed(from, a);
    }
    assert(r@ =~= o@);
    r
}

impl Clone for Json {
    fn clone(&self) -> (r: Json)
        ensures
            r@ == self@,
    {
        copy_value(self)
    }
}

impl Clone for Object {
    fn clone(&self) -> (r: Object)
        ensures
            r@ == self@,
    {
        copy_object(self)
    }
}

// ---------------------------------------------------------------------------
// Reading and building values
// ---------------------------------------------------------------------------

impl Json {
    /// The value an object holds under a key.
    pub fn get(&self, key: &str) -> (r: Option<&Json>)
        ensures
            view::maybe(r) == self@.get(key@),
            r is Some ==> decreases_to!(self => r->Some_0),
    {
        match self {
            Json::Object(o) => o.get(key),
            _ => None,
        }
    }

    /// The string a value is.
    pub fn as_str(&self) -> (r: Option<&str>)
        ensures
            view::maybe(r) == self@.text(),
    {
        match self {
            Json::Text(t) => Some(t.as_str()),
            _ => None,
        }
    }

    /// The string an object holds under a key.
    pub fn str_at(&self, key: &str) -> (r: Option<&str>)
        ensures
            view::maybe(r) == self@.text_at(key@),
    {
        match self.get(key) {
            Some(v) => v.as_str(),
            None => None,
        }
    }

    /// The non-negative integer a value is.
    pub fn as_u64(&self) -> (r: Option<u64>)
        ensures
            r == self@.count(),
    {
        match self {
            Json::Number(Number::Unsigned(n)) => Some(*n),
            _ => None,
        }
    }

    /// The non-negative integer an object holds under a key.
    pub fn u64_at(&self, key: &str) -> (r: Option<u64>)
        ensures
            r == self@.count_at(key@),
    {
        match self.get(key) {
            Some(v) => v.as_u64(),
            None => None,
        }
    }

    /// The boolean a value is.
    pub fn as_bool(&self) -> (r: Option<bool>)
        ensures
            r == self@.flag(),
    {
        match self {
            Json::Bool(b) => Some(*b),
            _ => None,
        }
    }

    /// The boolean an object holds under a key.
    pub fn bool_at(&self, key: &str) -> (r: Option<bool>)
        ensures
            r == self@.flag_at(key@),
    {
        match self.get(key) {
            Some(v) => v.as_bool(),
            None => None,
        }
    }

    /// The values an array holds.
    pub fn as_array(&self) -> (r: Option<&Vec<Json>>)
        ensures
            self@.items() == (match r {
                Some(v) => Some(list_view(v@)),
                None => None,
            }),
    {
        match self {
            Json::List(v) => Some(v),
            _ => None,
        }
    }

    /// The values an object holds as an array under a key.
    pub fn array_at(&self, key: &str) -> (r: Option<&Vec<Json>>)
        ensures
            self@.items_at(key@) == (match r {
                Some(v) => Some(list_view(v@)),
                None => None,
            }),
    {
        match self.get(key) {
            Some(v) => v.as_array(),
            None => None,
        }
    }

    /// Whether the value is an object.
    pub fn is_object(&self) -> (r: bool)
        ensures
            r == (self@ is Object),
    {
        match self {
            Json::Object(_) => true,
            _ => false,
        }
    }

    /// Whether the value is `null`.
    pub fn is_null(&self) -> (r: bool)
        ensures
            r == (self@ is Null),
    {
        match self {
            Json::Null => true,
            _ => false,
        }
    }

    /// A string value.
    pub fn text(s: &str) -> (r: Json)
        ensures
            r@ == JsonView::Text(s@),
    {
        Json::Text(s.to_owned())
    }

    /// A string value, or `null` where there is none.
    pub fn text_or_null(s: &Option<String>) -> (r: Json)
        ensures
            r@ == txt_or_null(view::maybe(*s)),
    {
        match s {
            Some(t) => Json::Text(t.clone()),
            None => Json::Null,
        }
    }

    /// A number that is not negative.
    pub fn number(n: u64) -> (r: Json)
        ensures
            r@ == num(n as int),
    {
        Json::Number(Number::Unsigned(n))
    }

    /// An object with no keys.
    pub fn empty_object() -> (r: Json)
        ensures
            r@ == JsonView::Object(Map::empty()),
    {
        Json::Object(Object::new())
    }
}

/// A list with one more value at its end.
pub fn listed(list: Vec<Json>, value: Json) -> (r: Vec<Json>)
    ensures
        list_view(r@) == list_view(list@).push(value@),
        r@ == list@.push(value),
{
    let mut out = list;
    let ghost before = out@;
    let ghost added = value;
    out.push(value);
    assert(list_view(out@) =~= list_view(before).push(added@));
    out
}

/// A list with no values.
pub fn no_values() -> (r: Vec<Json>)
    ensures
        list_view(r@) == Seq::<JsonView>::empty(),
        r@.len() == 0,
{
    let r: Vec<Json> = Vec::new();
    assert(list_view(r@) =~= Seq::empty());
    r
}

} // verus!
