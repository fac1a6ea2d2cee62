//! Operations: named actions on code, and the catalog of them.
//!
//! An operation is a refactoring, a structural replacement or a query. A
//! language contributes its own operations, under ids that languages share.

use crate::edit;
use crate::edit::Position;
use crate::edit::Range;
use crate::edit::WorkspaceEdit;
use crate::error::Error;
use crate::error::ErrorKind;
use crate::json::Json;
use crate::json::JsonView;
use crate::language;
use crate::language::Language;
use crate::project::Project;
use crate::text;
use crate::view;
use vstd::prelude::*;

verus! {

/// Whether an operation changes code or only reads it.
#[derive(Clone, Copy, Debug, PartialEq, Eq, Structural)]
pub enum OperationKind {
    /// Proposes edits, which can be looked at before they are made.
    Edit,
    /// Answers a question.
    Query,
}

/// What an operation is pointed at.
#[derive(Clone, Copy, Debug, PartialEq, Eq, Structural)]
pub enum TargetKind {
    /// A point in a file.
    Position,
    /// A stretch of a file.
    Selection,
    /// A file.
    File,
    /// The project.
    Project,
}

/// Where an operation acts.
#[derive(Clone, Debug, PartialEq, Eq)]
pub enum Target {
    /// A point in a file.
    Position {
        /// The file, relative to the project's root unless absolute.
        file: String,
        /// The point.
        position: Position,
    },
    /// A stretch of a file.
    Selection {
        /// The file, relative to the project's root unless absolute.
        file: String,
        /// The stretch.
        range: Range,
    },
    /// A file.
    File {
        /// The file, relative to the project's root unless absolute.
        file: String,
    },
    /// The project.
    Project,
}

/// What a target is.
#[verifier::ext_equal]
pub enum TargetView {
    /// A point in a file.
    Position {
        /// The file.
        file: Seq<char>,
        /// The point.
        position: Position,
    },
    /// A stretch of a file.
    Selection {
        /// The file.
        file: Seq<char>,
        /// The stretch.
        range: Range,
    },
    /// A file.
    File {
        /// The file.
        file: Seq<char>,
    },
    /// The project.
    Project,
}

impl View for Target {
    type V = TargetView;

    open spec fn view(&self) -> TargetView {
        match *self {
            Target::Position { file, position } => TargetView::Position { file: file@, position },
            Target::Selection { file, range } => TargetView::Selection { file: file@, range },
            Target::File { file } => TargetView::File { file: file@ },
            Target::Project => TargetView::Project,
        }
    }
}

impl TargetView {
    /// The file a target names.
    pub open spec fn file(self) -> Option<Seq<char>> {
        match self {
            TargetView::Position { file, .. } => Some(file),
            TargetView::Selection { file, .. } => Some(file),
            TargetView::File { file } => Some(file),
            TargetView::Project => None,
        }
    }

    /// The same target in another file; the project names none.
    pub open spec fn in_file(self, to: Seq<char>) -> TargetView {
        match self {
            TargetView::Position { position, .. } => TargetView::Position { file: to, position },
            TargetView::Selection { range, .. } => TargetView::Selection { file: to, range },
            TargetView::File { .. } => TargetView::File { file: to },
            TargetView::Project => TargetView::Project,
        }
    }

    /// The target with its file moved from one root to another.
    pub open spec fn moved(self, from_root: Seq<char>, to_root: Seq<char>) -> TargetView {
        match self.file() {
            Some(file) => self.in_file(edit::moved(file, from_root, to_root)),
            None => self,
        }
    }
}

impl Target {
    /// The file the target names.
    pub fn file(&self) -> (r: Option<&String>)
        ensures
            view::maybe(r) == self@.file(),
    {
        match self {
            Target::Position { file, .. } => Some(file),
            Target::Selection { file, .. } => Some(file),
            Target::File { file } => Some(file),
            Target::Project => None,
        }
    }

    /// Moves the target's file from one root to another, if it lies under the
    /// first. A target without a file stays as it is.
    ///
    /// A session sees the tree under `to_root`, while a caller may name the
    /// file in another checkout of the same project, under `from_root`.
    pub fn retarget(&mut self, from_root: &str, to_root: &str)
        ensures
            final(self)@ == old(self)@.moved(from_root@, to_root@),
    {
        let to = match self.file() {
            Some(file) => edit::retarget_path(file.as_str(), from_root, to_root),
            None => {
                return;
            },
        };
        self.set_file(to);
    }

    /// Puts another file in place of the one the target names.
    pub fn set_file(&mut self, to: String)
        ensures
            final(self)@ == old(self)@.in_file(to@),
    {
        match self {
            Target::Position { file, .. } => {
                *file = to;
            },
            Target::Selection { file, .. } => {
                *file = to;
            },
            Target::File { file } => {
                *file = to;
            },
            Target::Project => {},
        }
    }
}

/// What an operation says of itself.
#[derive(Debug)]
pub struct OperationDescriptor {
    /// The id, also the name of the tool it is called by.
    pub id: String,
    /// The title for readers.
    pub title: String,
    /// What it does, in one line.
    pub description: String,
    /// Whether it edits or reads.
    pub kind: OperationKind,
    /// The languages it works on.
    pub languages: Vec<Language>,
    /// What it is pointed at.
    pub target: TargetKind,
    /// The JSON Schema of the parameters it takes beside its target.
    pub params_schema: Json,
}

/// What a descriptor is.
#[verifier::ext_equal]
pub struct OperationDescriptorView {
    /// The id.
    pub id: Seq<char>,
    /// The title.
    pub title: Seq<char>,
    /// What the operation does.
    pub description: Seq<char>,
    /// Whether it edits or reads.
    pub kind: OperationKind,
    /// The languages it works on.
    pub languages: Seq<Language>,
    /// What it is pointed at.
    pub target: TargetKind,
    /// The schema of its parameters.
    pub params_schema: JsonView,
}

impl View for OperationDescriptor {
    type V = OperationDescriptorView;

    open spec fn view(&self) -> OperationDescriptorView {
        OperationDescriptorView {
            id: self.id@,
            title: self.title@,
            description: self.description@,
            kind: self.kind,
            languages: self.languages@,
            target: self.target,
            params_schema: self.params_schema@,
        }
    }
}

impl Clone for OperationDescriptor {
    fn clone(&self) -> (r: OperationDescriptor)
        ensures
            r@ == self@,
    {
        let languages = self.languages.clone();
        assert(languages@ =~= self.languages@);
        OperationDescriptor {
            id: self.id.clone(),
            title: self.title.clone(),
            description: self.description.clone(),
            kind: self.kind,
            languages,
            target: self.target,
            params_schema: self.params_schema.clone(),
        }
    }
}

impl OperationDescriptor {
    /// Whether the operation works on a language.
    pub fn applies_to(&self, language: Language) -> (r: bool)
        ensures
            r == self@.languages.contains(language),
    {
        language::contains(&self.languages, language)
    }
}

/// What running an operation gives.
#[derive(Debug)]
pub enum OperationOutcome {
    /// Edits, to look at or to make.
    Edit(WorkspaceEdit),
    /// An answer.
    Query(Json),
}

/// A request to run an operation.
#[derive(Debug)]
pub struct OperationRequest {
    /// Where to act.
    pub target: Target,
    /// The operation's own parameters.
    pub params: Json,
}

/// What an operation runs with: the project, and a session on its analysis.
#[derive(Debug)]
pub struct OperationCtx<'a, S> {
    /// The project.
    pub project: &'a Project,
    /// The session.
    pub session: S,
}

/// Where the parameters of a request say that it belongs.
#[derive(Clone, Debug, PartialEq, Eq)]
pub enum LanguageRoute {
    /// They name no language.
    Unspecified,
    /// They belong to one language's backend.
    Language(Language),
    /// They carry a handle, named here, that one backend gave out and that
    /// cannot be placed. No backend is asked, since most could not read it.
    Unplaceable(String),
}

/// What a route is.
#[verifier::ext_equal]
pub enum LanguageRouteView {
    /// No language is named.
    Unspecified,
    /// One language is named.
    Language(Language),
    /// The handle cannot be placed.
    Unplaceable(Seq<char>),
}

impl View for LanguageRoute {
    type V = LanguageRouteView;

    open spec fn view(&self) -> LanguageRouteView {
        match *self {
            LanguageRoute::Unspecified => LanguageRouteView::Unspecified,
            LanguageRoute::Language(l) => LanguageRouteView::Language(l),
            LanguageRoute::Unplaceable(h) => LanguageRouteView::Unplaceable(h@),
        }
    }
}

impl LanguageRouteView {
    /// The language a route names.
    pub open spec fn language(self) -> Option<Language> {
        match self {
            LanguageRouteView::Language(l) => Some(l),
            _ => None,
        }
    }
}

impl LanguageRoute {
    /// The language the route names, if it names one.
    pub fn language(&self) -> (r: Option<Language>)
        ensures
            r == self@.language(),
    {
        match self {
            LanguageRoute::Language(l) => Some(*l),
            _ => None,
        }
    }
}

/// A named action on code.
pub trait Operation {
    /// What the operation says of itself.
    spec fn description(&self) -> OperationDescriptorView;

    /// Where a request with some parameters belongs.
    spec fn routing(&self, params: JsonView) -> LanguageRouteView;

    /// What the operation says of itself.
    fn descriptor(&self) -> (r: OperationDescriptor)
        ensures
            r@ == self.description(),
    ;

    /// Where a request with these parameters belongs, for an operation whose
    /// target names no file. All operations under one id answer alike.
    fn route(&self, params: &Json) -> (r: LanguageRoute)
        ensures
            r@ == self.routing(params@),
    ;
}

/// An operation in the catalog, with what it says of itself.
#[derive(Debug)]
pub struct Registered<O> {
    descriptor: OperationDescriptor,
    operation: O,
}

impl<O> View for Registered<O> {
    type V = (OperationDescriptorView, O);

    closed spec fn view(&self) -> (OperationDescriptorView, O) {
        (self.descriptor@, self.operation)
    }
}

/// The catalog of operations.
#[derive(Debug)]
pub struct OperationRegistry<O> {
    operations: Vec<Registered<O>>,
}

impl<O> View for OperationRegistry<O> {
    type V = Seq<(OperationDescriptorView, O)>;

    closed spec fn view(&self) -> Seq<(OperationDescriptorView, O)> {
        view::each(self.operations@)
    }
}

/// Descriptors in the order of their ids, with one more put in its place. One
/// whose id is there already is left out.
pub open spec fn placed(
    list: Seq<OperationDescriptorView>,
    d: OperationDescriptorView,
) -> Seq<OperationDescriptorView>
    decreases list.len(),
{
    if list.len() == 0 {
        seq![d]
    } else if text::before(list[0].id, d.id) {
        seq![list[0]] + placed(list.skip(1), d)
    } else if list[0].id == d.id {
        list
    } else {
        seq![d] + list
    }
}

/// Descriptors in the order of their ids, the first of each id.
pub open spec fn by_id(all: Seq<OperationDescriptorView>) -> Seq<OperationDescriptorView>
    decreases all.len(),
{
    if all.len() == 0 {
        Seq::empty()
    } else {
        placed(by_id(all.drop_last()), all.last())
    }
}

/// The descriptors of a catalog.
pub open spec fn descriptors_in<O>(
    ops: Seq<(OperationDescriptorView, O)>,
) -> Seq<OperationDescriptorView> {
    Seq::new(ops.len(), |i: int| ops[i].0)
}

/// Whether a descriptor applies to one of some languages.
pub open spec fn applies_to_any(d: OperationDescriptorView, languages: Seq<Language>) -> bool {
    exists|i: int| 0 <= i < languages.len() && d.languages.contains(#[trigger] languages[i])
}

/// The descriptors that apply to one of some languages, in the order given.
pub open spec fn applicable(
    all: Seq<OperationDescriptorView>,
    languages: Seq<Language>,
) -> Seq<OperationDescriptorView> {
    all.filter(|d: OperationDescriptorView| applies_to_any(d, languages))
}

/// Whether a descriptor is registered under an id for a language.
pub open spec fn serves(d: OperationDescriptorView, id: Seq<char>, language: Language) -> bool {
    d.id == id && d.languages.contains(language)
}

/// The place of the first operation, from `i` on, that serves a language under
/// an id.
pub open spec fn serving_from<O>(
    ops: Seq<(OperationDescriptorView, O)>,
    id: Seq<char>,
    language: Language,
    i: int,
) -> Option<int>
    decreases ops.len() - i,
{
    if i < 0 || i >= ops.len() {
        None
    } else if serves(ops[i].0, id, language) {
        Some(i)
    } else {
        serving_from(ops, id, language, i + 1)
    }
}

/// An operation that is found serves the language under the id, and none from
/// `i` on does before it.
pub proof fn what_serves_is_listed<O>(
    ops: Seq<(OperationDescriptorView, O)>,
    id: Seq<char>,
    language: Language,
    i: int,
)
    requires
        0 <= i,
        serving_from(ops, id, language, i) is Some,
    ensures
        ({
            let found = serving_from(ops, id, language, i)->Some_0;
            &&& i <= found < ops.len()
            &&& serves(ops[found].0, id, language)
            &&& forall|k: int| i <= k < found ==> !serves((#[trigger] ops[k]).0, id, language)
        }),
    decreases ops.len() - i,
{
    if i < ops.len() && !serves(ops[i].0, id, language) {
        what_serves_is_listed(ops, id, language, i + 1);
    }
}

/// Whether a language has an operation under an id.
pub open spec fn served<O>(
    ops: Seq<(OperationDescriptorView, O)>,
    id: Seq<char>,
    language: Language,
) -> bool {
    serving_from(ops, id, language, 0) is Some
}

/// Puts a descriptor in its place.
fn place(list: &mut Vec<OperationDescriptor>, d: OperationDescriptor)
    ensures
        view::each(final(list)@) == placed(view::each(old(list)@), d@),
{
    let ghost all = view::each(list@);
    let mut i: usize = 0;
    assert(all.take(0) + placed(all.skip(0), d@) =~= placed(all, d@)) by {
        assert(all.skip(0) =~= all);
    }
    while i < list.len() && text::is_before(list[i].id.as_str(), d.id.as_str())
        invariant
            i <= list@.len(),
            all == view::each(list@),
            placed(all, d@) == all.take(i as int) + placed(all.skip(i as int), d@),
        decreases list@.len() - i,
    {
        assert(all.skip(i as int)[0] == list@[i as int]@);
        assert(all.skip(i as int).skip(1) =~= all.skip(i + 1));
        assert(all.take(i as int) + (seq![all[i as int]] + placed(all.skip(i + 1), d@))
            =~= all.take(i + 1) + placed(all.skip(i + 1), d@));
        i += 1;
    }
    if i < list.len() {
        assert(all.skip(i as int)[0] == list@[i as int]@);
        if text::same(list[i].id.as_str(), d.id.as_str()) {
            assert(all.take(i as int) + all.skip(i as int) =~= all);
            return;
        }
    }
    let ghost before = list@;
    let ghost added = d;
    list.insert(i, d);
    assert(view::each(list@) =~= all.take(i as int) + (seq![added@] + all.skip(i as int)));
    assert(i == before.len() ==> seq![added@] + all.skip(i as int) =~= seq![added@]);
}

impl<O: Operation> OperationRegistry<O> {
    /// A catalog with no operations.
    pub fn new() -> (r: OperationRegistry<O>)
        ensures
            r@ == Seq::<(OperationDescriptorView, O)>::empty(),
    {
        let r = OperationRegistry { operations: Vec::new() };
        assert(r@ =~= Seq::empty());
        r
    }

    /// Adds operations at the end.
    pub fn extend(&mut self, ops: Vec<O>)
        ensures
            final(self)@ == old(self)@ + Seq::new(
                ops@.len(),
                |i: int| (ops@[i].description(), ops@[i]),
            ),
    {
        let ghost all = ops@;
        let ghost added = Seq::new(all.len(), |i: int| (all[i].description(), all[i]));
        let ghost before = self@;
        assert(added.take(0) =~= Seq::empty());
        assert(self@ =~= before + added.take(0));
        for op in it: ops
            invariant
                it.seq() == all,
                added == Seq::new(all.len(), |i: int| (all[i].description(), all[i])),
                self@ == before + added.take(it.index()),
        {
            let ghost done = self@;
            let ghost next = op;
            let descriptor = op.descriptor();
            let ghost said = descriptor@;
            self.operations.push(Registered { descriptor, operation: op });
            assert(self@ =~= done.push((said, next)));
            assert(added.take(it.index() + 1) =~= added.take(it.index()).push(added[it.index()]));
            assert(self@ =~= before + added.take(it.index() + 1));
        }
        assert(added.take(all.len() as int) =~= added);
    }

    /// The descriptors of the catalog in the order of their ids, one for each
    /// id: the first that was added.
    pub fn descriptors(&self) -> (r: Vec<OperationDescriptor>)
        ensures
            view::each(r@) == by_id(descriptors_in(self@)),
    {
        let ghost all = descriptors_in(self@);
        let mut out: Vec<OperationDescriptor> = Vec::new();
        let mut i: usize = 0;
        assert(view::each(out@) =~= by_id(all.take(0)));
        while i < self.operations.len()
            invariant
                i <= self.operations@.len(),
                all == descriptors_in(self@),
                view::each(out@) == by_id(all.take(i as int)),
            decreases self.operations@.len() - i,
        {
            let d = self.operations[i].descriptor.clone();
            assert(d@ == all[i as int]);
            place(&mut out, d);
            assert(all.take(i + 1).drop_last() =~= all.take(i as int));
            i += 1;
        }
        assert(all.take(all.len() as int) =~= all);
        out
    }

    /// The descriptors that apply to a project, by any of its languages, in
    /// the order of their ids, one for each id.
    pub fn descriptors_for(&self, project: &Project) -> (r: Vec<OperationDescriptor>)
        ensures
            view::each(r@) == by_id(applicable(descriptors_in(self@), project@.languages)),
    {
        let ghost all = descriptors_in(self@);
        let ghost languages = project@.languages;
        let ghost wanted = |d: OperationDescriptorView| applies_to_any(d, languages);
        let mut out: Vec<OperationDescriptor> = Vec::new();
        let mut i: usize = 0;
        assert(all.take(0).filter(wanted) =~= Seq::empty()) by {
            reveal(Seq::filter);
        }
        assert(view::each(out@) =~= by_id(all.take(0).filter(wanted)));
        while i < self.operations.len()
            invariant
                i <= self.operations@.len(),
                all == descriptors_in(self@),
                languages == project@.languages,
                wanted == (|d: OperationDescriptorView| applies_to_any(d, languages)),
                view::each(out@) == by_id(all.take(i as int).filter(wanted)),
            decreases self.operations@.len() - i,
        {
            let d = &self.operations[i].descriptor;
            assert(d@ == all[i as int]);
            assert(all.take(i + 1).drop_last() =~= all.take(i as int));
            assert(all.take(i + 1).last() == all[i as int]);
            reveal(Seq::filter);
            if applies_to_one(d, &project.languages) {
                place(&mut out, d.clone());
                let ghost kept = all.take(i as int).filter(wanted);
                assert(kept.push(all[i as int]).drop_last() =~= kept);
            }
            i += 1;
        }
        assert(all.take(all.len() as int) =~= all);
        out
    }

    /// The operation that serves a language under an id.
    ///
    /// Languages share ids, so an id alone does not tell an operation: the one
    /// registered for the language whose session will run it is meant.
    pub fn resolve(&self, id: &str, language: Language) -> (r: Result<&O, Error>)
        ensures
            match r {
                Ok(op) => serving_from(self@, id@, language, 0) is Some && *op == self@[
                    serving_from(self@, id@, language, 0)->Some_0
                ].1,
                Err(e) => serving_from(self@, id@, language, 0) is None && e.kind
                    == ErrorKind::OperationNotAvailable && e.detail@ == id@,
            },
    {
        match self.find(id, language) {
            Some(i) => Ok(&self.operations[i].operation),
            None => Err(Error::new(ErrorKind::OperationNotAvailable, id.to_owned())),
        }
    }

    /// The place of the operation that serves a language under an id.
    pub fn find(&self, id: &str, language: Language) -> (r: Option<usize>)
        ensures
            match r {
                Some(i) => i < self@.len() && serving_from(self@, id@, language, 0) == Some(
                    i as int,
                ),
                None => serving_from(self@, id@, language, 0) is None,
            },
    {
        let mut i: usize = 0;
        while i < self.operations.len()
            invariant
                i <= self.operations@.len(),
                serving_from(self@, id@, language, 0) == serving_from(
                    self@,
                    id@,
                    language,
                    i as int,
                ),
            decreases self.operations@.len() - i,
        {
            let d = &self.operations[i].descriptor;
            assert(self@[i as int].0 == d@);
            if text::same(d.id.as_str(), id) && d.applies_to(language) {
                return Some(i);
            }
            i += 1;
        }
        None
    }

    /// The operation at a place of the catalog.
    pub fn at(&self, i: usize) -> (r: Option<&O>)
        ensures
            match r {
                Some(op) => i < self@.len() && *op == self@[i as int].1,
                None => i >= self@.len(),
            },
    {
        if i < self.operations.len() {
            Some(&self.operations[i].operation)
        } else {
            None
        }
    }

    /// Which of some languages have an operation under an id, in the order
    /// given.
    pub fn languages_for(&self, id: &str, languages: &Vec<Language>) -> (r: Vec<Language>)
        ensures
            r@ == languages@.filter(|l: Language| served(self@, id@, l)),
    {
        let ghost has = |l: Language| served(self@, id@, l);
        let mut out: Vec<Language> = Vec::new();
        let mut i: usize = 0;
        assert(languages@.take(0).filter(has) =~= Seq::empty()) by {
            reveal(Seq::filter);
        }
        while i < languages.len()
            invariant
                i <= languages@.len(),
                has == (|l: Language| served(self@, id@, l)),
                out@ == languages@.take(i as int).filter(has),
            decreases languages@.len() - i,
        {
            let l = languages[i];
            assert(languages@.take(i + 1).drop_last() =~= languages@.take(i as int));
            assert(languages@.take(i + 1).last() == l);
            reveal(Seq::filter);
            if self.find(id, l).is_some() {
                out.push(l);
            }
            i += 1;
        }
        assert(languages@.take(languages@.len() as int) =~= languages@);
        out
    }
}

/// Whether a descriptor applies to one of some languages.
fn applies_to_one(d: &OperationDescriptor, languages: &Vec<Language>) -> (r: bool)
    ensures
        r == applies_to_any(d@, languages@),
{
    let mut i: usize = 0;
    while i < languages.len()
        invariant
            i <= languages@.len(),
            forall|j: int| 0 <= j < i ==> !d@.languages.contains(#[trigger] languages@[j]),
        decreases languages@.len() - i,
    {
        if d.applies_to(languages[i]) {
            assert(d@.languages.contains(languages@[i as int]));
            return true;
        }
        i += 1;
    }
    false
}

// ---------------------------------------------------------------------------
// What the catalog promises
// ---------------------------------------------------------------------------

/// Descriptors stand in the order of their ids, with no id twice.
pub open spec fn strictly_by_id(list: Seq<OperationDescriptorView>) -> bool {
    forall|i: int, j: int|
        0 <= i < j < list.len() ==> text::before((#[trigger] list[i]).id, (#[trigger] list[j]).id)
}

proof fn placed_has(list: Seq<OperationDescriptorView>, d: OperationDescriptorView)
    ensures
        forall|k: int|
            0 <= k < placed(list, d).len() ==> list.contains(#[trigger] placed(list, d)[k])
                || placed(list, d)[k] == d,
        forall|k: int| 0 <= k < list.len() ==> placed(list, d).contains(#[trigger] list[k]),
        exists|k: int|
            0 <= k < placed(list, d).len() && (#[trigger] placed(list, d)[k]).id == d.id,
    decreases list.len(),
{
    let out = placed(list, d);
    if list.len() == 0 {
        assert(out[0].id == d.id);
    } else if text::before(list[0].id, d.id) {
        let rest = list.skip(1);
        let after = placed(rest, d);
        placed_has(rest, d);
        assert forall|k: int| 0 <= k < out.len() implies list.contains(#[trigger] out[k]) || out[k]
            == d by {
            if k == 0 {
                assert(out[0] == list[0]);
            } else {
                assert(out[k] == after[k - 1]);
                if rest.contains(after[k - 1]) {
                    let m = choose|m: int| 0 <= m < rest.len() && rest[m] == after[k - 1];
                    assert(list[m + 1] == after[k - 1]);
                }
            }
        }
        assert forall|k: int| 0 <= k < list.len() implies out.contains(#[trigger] list[k]) by {
            if k == 0 {
                assert(out[0] == list[0]);
            } else {
                assert(list[k] == rest[k - 1]);
                let m = choose|m: int| 0 <= m < after.len() && after[m] == rest[k - 1];
                assert(out[m + 1] == list[k]);
            }
        }
        let m = choose|m: int| 0 <= m < after.len() && (#[trigger] after[m]).id == d.id;
        assert(out[m + 1].id == d.id);
    } else if list[0].id == d.id {
        assert(out[0].id == d.id);
    } else {
        assert(out[0].id == d.id);
        assert forall|k: int| 0 <= k < list.len() implies out.contains(#[trigger] list[k]) by {
            assert(out[k + 1] == list[k]);
        }
        assert forall|k: int| 0 <= k < out.len() implies list.contains(#[trigger] out[k]) || out[k]
            == d by {
            if k > 0 {
                assert(out[k] == list[k - 1]);
            }
        }
    }
}

proof fn placed_in_order(list: Seq<OperationDescriptorView>, d: OperationDescriptorView)
    requires
        strictly_by_id(list),
    ensures
        strictly_by_id(placed(list, d)),
    decreases list.len(),
{
    let out = placed(list, d);
    if list.len() > 0 {
        if text::before(list[0].id, d.id) {
            let rest = list.skip(1);
            assert(strictly_by_id(rest)) by {
                assert forall|i: int, j: int| 0 <= i < j < rest.len() implies text::before(
                    (#[trigger] rest[i]).id,
                    (#[trigger] rest[j]).id,
                ) by {
                    assert(rest[i] == list[i + 1] && rest[j] == list[j + 1]);
                }
            }
            let after = placed(rest, d);
            placed_in_order(rest, d);
            placed_has(rest, d);
            assert forall|i: int, j: int| 0 <= i < j < out.len() implies text::before(
                (#[trigger] out[i]).id,
                (#[trigger] out[j]).id,
            ) by {
                assert(out[j] == after[j - 1]);
                if i > 0 {
                    assert(out[i] == after[i - 1]);
                } else if rest.contains(after[j - 1]) {
                    let m = choose|m: int| 0 <= m < rest.len() && rest[m] == after[j - 1];
                    assert(list[m + 1] == after[j - 1]);
                    assert(list[0] == out[0]);
                }
            }
        } else if list[0].id != d.id {
            text::before_total(list[0].id, d.id);
            assert forall|i: int, j: int| 0 <= i < j < out.len() implies text::before(
                (#[trigger] out[i]).id,
                (#[trigger] out[j]).id,
            ) by {
                assert(out[j] == list[j - 1]);
                if i > 0 {
                    assert(out[i] == list[i - 1]);
                } else if j > 1 {
                    assert(text::before(list[0].id, list[j - 1].id));
                    text::before_transitive(d.id, list[0].id, list[j - 1].id);
                }
            }
        }
    }
}

/// The listing of a catalog is in the order of the ids and names none twice.
pub proof fn listing_is_ordered(all: Seq<OperationDescriptorView>)
    ensures
        strictly_by_id(by_id(all)),
    decreases all.len(),
{
    if all.len() > 0 {
        listing_is_ordered(all.drop_last());
        placed_in_order(by_id(all.drop_last()), all.last());
    }
}

/// Every registered id is in the listing of a catalog.
pub proof fn listing_is_complete(all: Seq<OperationDescriptorView>, i: int)
    requires
        0 <= i < all.len(),
    ensures
        exists|k: int|
            0 <= k < by_id(all).len() && (#[trigger] by_id(all)[k]).id == all[i].id,
    decreases all.len(),
{
    let front = all.drop_last();
    let before = by_id(front);
    let d = all.last();
    let out = by_id(all);
    placed_has(before, d);
    if i < front.len() {
        listing_is_complete(front, i);
        let k = choose|k: int| 0 <= k < before.len() && (#[trigger] before[k]).id == front[i].id;
        assert(out.contains(before[k]));
        let m = choose|m: int| 0 <= m < out.len() && out[m] == before[k];
        assert(out[m].id == all[i].id);
    }
}

/// Everything in the listing of a catalog is registered.
pub proof fn listing_is_registered(all: Seq<OperationDescriptorView>, k: int)
    requires
        0 <= k < by_id(all).len(),
    ensures
        all.contains(by_id(all)[k]),
    decreases all.len(),
{
    let front = all.drop_last();
    let before = by_id(front);
    let out = by_id(all);
    placed_has(before, all.last());
    if before.contains(out[k]) {
        let m = choose|m: int| 0 <= m < before.len() && before[m] == out[k];
        listing_is_registered(front, m);
        let i = choose|i: int| 0 <= i < front.len() && front[i] == before[m];
        assert(all[i] == out[k]);
    } else {
        assert(all[all.len() - 1] == out[k]);
    }
}

/// An operation that is found under an id for a language is registered under
/// that id and applies to that language, and none before it does.
pub proof fn resolved_operation_serves<O>(
    ops: Seq<(OperationDescriptorView, O)>,
    id: Seq<char>,
    language: Language,
    i: int,
)
    requires
        0 <= i <= ops.len(),
    ensures
        match serving_from(ops, id, language, i) {
            Some(k) => i <= k < ops.len() && serves(ops[k].0, id, language) && forall|j: int|
                i <= j < k ==> !serves((#[trigger] ops[j]).0, id, language),
            None => forall|j: int|
                i <= j < ops.len() ==> !serves((#[trigger] ops[j]).0, id, language),
        },
    decreases ops.len() - i,
{
    if i < ops.len() && !serves(ops[i].0, id, language) {
        resolved_operation_serves(ops, id, language, i + 1);
    }
}

proof fn placed_when_new(list: Seq<OperationDescriptorView>, d: OperationDescriptorView)
    requires
        forall|k: int| 0 <= k < list.len() ==> (#[trigger] list[k]).id != d.id,
    ensures
        placed(list, d).contains(d),
    decreases list.len(),
{
    let after = placed(list, d);
    if list.len() == 0 {
        assert(after[0] == d);
    } else if text::before(list[0].id, d.id) {
        let rest = list.skip(1);
        assert forall|k: int| 0 <= k < rest.len() implies (#[trigger] rest[k]).id != d.id by {
            assert(rest[k] == list[k + 1]);
        }
        placed_when_new(rest, d);
        let m = choose|m: int| 0 <= m < placed(rest, d).len() && placed(rest, d)[m] == d;
        assert(after[m + 1] == d);
    } else {
        assert(after[0] == d);
    }
}

/// Of operations that share an id, the one that was added first is listed.
pub proof fn the_first_of_an_id_is_listed(all: Seq<OperationDescriptorView>, i: int)
    requires
        0 <= i < all.len(),
        forall|k: int| 0 <= k < i ==> (#[trigger] all[k]).id != all[i].id,
    ensures
        by_id(all).contains(all[i]),
    decreases all.len(),
{
    let front = all.drop_last();
    let known = by_id(front);
    if i < front.len() {
        assert(front[i] == all[i]);
        assert forall|k: int| 0 <= k < i implies (#[trigger] front[k]).id != front[i].id by {
            assert(front[k] == all[k]);
        }
        the_first_of_an_id_is_listed(front, i);
        placed_has(known, all.last());
        let m = choose|m: int| 0 <= m < known.len() && known[m] == all[i];
        assert(by_id(all).contains(known[m]));
    } else {
        assert forall|k: int| 0 <= k < known.len() implies (#[trigger] known[k]).id
            != all.last().id by {
            listing_is_registered(front, k);
            let m = choose|m: int| 0 <= m < front.len() && front[m] == known[k];
            assert(front[m] == all[m]);
        }
        placed_when_new(known, all.last());
    }
}

/// A project has the operations for its languages, in the order they were added.
pub proof fn projects_have_the_operations_for_their_languages(
    all: Seq<OperationDescriptorView>,
    more: OperationDescriptorView,
    languages: Seq<Language>,
)
    ensures
        ({
            let fits = exists|i: int|
                0 <= i < languages.len() && more.languages.contains(#[trigger] languages[i]);
            applicable(all.push(more), languages) == (if fits {
                applicable(all, languages).push(more)
            } else {
                applicable(all, languages)
            })
        }),
        applicable(Seq::empty(), languages).len() == 0,
{
    reveal(Seq::filter);
    assert(all.push(more).drop_last() =~= all);
}

} // verus!
