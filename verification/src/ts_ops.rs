//! The operations for TypeScript and JavaScript, which a language server
//! carries out.
//!
//! An operation says what to ask the server for, and turns the server's answer
//! into what it reports. The asking itself is done elsewhere.

use crate::convert;
use crate::edit::Position;
use crate::edit::WorkspaceEdit;
use crate::error;
use crate::error::Error;
use crate::error::ErrorKind;
use crate::error::ErrorView;
use crate::json;
use crate::json::Json;
use crate::json::JsonView;
use crate::json::Object;
use crate::language::Language;
use crate::operation::LanguageRoute;
use crate::operation::LanguageRouteView;
use crate::operation::Operation;
use crate::operation::OperationDescriptor;
use crate::operation::OperationDescriptorView;
use crate::operation::OperationKind;
use crate::operation::OperationRequest;
use crate::operation::Target;
use crate::operation::TargetKind;
use crate::operation::TargetView;
use crate::source;
use crate::source::Source;
use crate::source::SourceView;
use crate::text;
use crate::uri;
use crate::view;
use crate::wire::Malformed;
use crate::wire_edit;
use vstd::prelude::*;

verus! {

// ---------------------------------------------------------------------------
// What to ask for
// ---------------------------------------------------------------------------

/// What to ask the language server for.
#[derive(Debug)]
pub struct LspCall {
    /// The file that the server is shown first.
    pub open: Option<String>,
    /// Whether the request is about that file, so that it names it.
    pub about_file: bool,
    /// The method.
    pub method: String,
    /// The parameters, but for the document.
    pub params: Object,
}

/// What such a call is.
#[verifier::ext_equal]
pub struct LspCallView {
    /// The file that the server is shown first.
    pub open: Option<Seq<char>>,
    /// Whether the request is about that file.
    pub about_file: bool,
    /// The method.
    pub method: Seq<char>,
    /// The parameters, but for the document.
    pub params: Map<Seq<char>, JsonView>,
}

impl View for LspCall {
    type V = LspCallView;

    open spec fn view(&self) -> LspCallView {
        LspCallView {
            open: view::maybe(self.open),
            about_file: self.about_file,
            method: self.method@,
            params: self.params@,
        }
    }
}

/// A document, by its URI.
pub open spec fn document(uri: Seq<char>) -> JsonView {
    JsonView::Object(map!["uri"@ => JsonView::Text(uri)])
}

impl LspCallView {
    /// What is sent once the file is open under a URI.
    pub open spec fn sent(self, uri: Seq<char>) -> JsonView {
        JsonView::Object(
            if self.about_file {
                self.params.insert("textDocument"@, document(uri))
            } else {
                self.params
            },
        )
    }
}

impl LspCall {
    /// The parameters with the document, where the request is about one. `uri`
    /// is that of the file which was opened.
    pub fn params_for(&self, uri: &str) -> (r: Json)
        ensures
            r@ == self@.sent(uri@),
    {
        let own = self.params.clone();
        if self.about_file {
            Json::Object(
                own.with(
                    "textDocument",
                    Json::Object(Object::new().with("uri", Json::text(uri))),
                ),
            )
        } else {
            Json::Object(own)
        }
    }
}

/// A point of a request.
pub open spec fn point(p: Position) -> JsonView {
    JsonView::Object(
        map![
            "line"@ => json::num(p.line as int),
            "character"@ => json::num(p.character as int)
        ],
    )
}

fn make_point(p: Position) -> (r: Json)
    ensures
        r@ == point(p),
{
    Json::Object(
        Object::new().with("line", Json::number(p.line as u64)).with(
            "character",
            Json::number(p.character as u64),
        ),
    )
}

/// What a call that may fail to be made is.
pub open spec fn called(r: Result<LspCall, Error>) -> Result<LspCallView, ErrorView> {
    match r {
        Ok(c) => Ok(c@),
        Err(e) => Err(e@),
    }
}

/// A failure for a target or parameter that is at fault.
pub open spec fn wrong(message: Seq<char>) -> ErrorView {
    ErrorView { kind: ErrorKind::InvalidTarget, detail: message }
}

/// The failure for a target that is no position.
pub open spec fn no_position() -> ErrorView {
    wrong("this operation expects a position (file, line, character)"@)
}

/// A request at a position.
pub open spec fn call_at(
    target: TargetView,
    method: Seq<char>,
    more: Map<Seq<char>, JsonView>,
) -> Result<LspCallView, ErrorView> {
    match target {
        TargetView::Position { file, position } => Ok(
            LspCallView {
                open: Some(file),
                about_file: true,
                method,
                params: more.insert("position"@, point(position)),
            },
        ),
        _ => Err(no_position()),
    }
}

/// Makes a request at a position.
fn ask_at(target: &Target, method: &str, more: Object) -> (r: Result<LspCall, Error>)
    ensures
        called(r) == call_at(target@, method@, more@),
{
    match target {
        Target::Position { file, position } => Ok(
            LspCall {
                open: Some(file.clone()),
                about_file: true,
                method: method.to_owned(),
                params: more.with("position", make_point(*position)),
            },
        ),
        _ => Err(
            Error::new(
                ErrorKind::InvalidTarget,
                "this operation expects a position (file, line, character)".to_owned(),
            ),
        ),
    }
}

/// How many lines around each place a request asks for.
pub open spec fn lines_wanted(params: JsonView) -> usize {
    match params.count_at("context_lines"@) {
        Some(n) => n as usize,
        None => 0,
    }
}

/// How many lines around each place a request asks for.
pub fn context_lines(params: &Json) -> (r: usize)
    ensures
        r == lines_wanted(params@),
{
    match params.u64_at("context_lines") {
        Some(n) => #[verifier::truncate]
        (n as usize),
        None => 0,
    }
}

/// Where the report of a request quotes from: the working copy that it is
/// answered for, with paths relative to the project's root.
pub fn source(root: &str, content_root: String, params: &Json) -> (r: Source)
    ensures
        r@ == (SourceView {
            root: root@,
            content_root: content_root@,
            context_lines: source::least(
                lines_wanted(params@) as int,
                source::MAX_CONTEXT_LINES as int,
            ),
            files: Seq::empty(),
        }),
{
    Source::new(root, content_root, context_lines(params))
}

/// A failure of the language server.
pub fn backend(message: String) -> (r: Error)
    ensures
        r@ == (ErrorView { kind: ErrorKind::Backend, detail: message@ }),
{
    Error::new(ErrorKind::Backend, message)
}

/// The failure of the language server for an answer that is no edit.
pub open spec fn no_edit(complaint: Seq<char>) -> ErrorView {
    ErrorView { kind: ErrorKind::Backend, detail: complaint }
}

/// The edit that an answer of the language server is. `complaint` is what is
/// said of an answer that is none.
pub fn edit_in(answer: &Json, complaint: &str) -> (r: Result<WorkspaceEdit, Error>)
    ensures
        match r {
            Ok(e) => wire_edit::readable(answer@) && wire_edit::reads_as(answer@, e@),
            Err(e) => !wire_edit::readable(answer@) && e@ == no_edit(complaint@),
        },
{
    match wire_edit::to_core_workspace_edit(answer) {
        Ok(e) => Ok(e),
        Err(_) => Err(backend(complaint.to_owned())),
    }
}

// ---------------------------------------------------------------------------
// Descriptors
// ---------------------------------------------------------------------------

/// The languages of these operations.
pub open spec fn served_languages() -> Seq<Language> {
    seq![Language::TypeScript, Language::JavaScript]
}

fn languages() -> (r: Vec<Language>)
    ensures
        r@ == served_languages(),
{
    let mut out: Vec<Language> = Vec::new();
    out.push(Language::TypeScript);
    out.push(Language::JavaScript);
    assert(out@ =~= served_languages());
    out
}

/// What one of these operations says of itself.
pub open spec fn described(
    id: &str,
    title: &str,
    description: &str,
    kind: OperationKind,
    target: TargetKind,
    params_schema: JsonView,
) -> OperationDescriptorView {
    OperationDescriptorView {
        id: id@,
        title: title@,
        description: description@,
        kind,
        languages: served_languages(),
        target,
        params_schema,
    }
}

fn describe(
    id: &str,
    title: &str,
    description: &str,
    kind: OperationKind,
    target: TargetKind,
    params_schema: Json,
) -> (r: OperationDescriptor)
    ensures
        r@ == described(id, title, description, kind, target, params_schema@),
{
    OperationDescriptor {
        id: id.to_owned(),
        title: title.to_owned(),
        description: description.to_owned(),
        kind,
        languages: languages(),
        target,
        params_schema,
    }
}

/// A schema with properties.
pub open spec fn schema(properties: Map<Seq<char>, JsonView>) -> Map<Seq<char>, JsonView> {
    map!["type"@ => json::txt("object"), "properties"@ => JsonView::Object(properties)]
}

/// A schema with properties of which one is necessary.
pub open spec fn schema_requiring(
    properties: Map<Seq<char>, JsonView>,
    key: &str,
) -> JsonView {
    JsonView::Object(schema(properties).insert("required"@, JsonView::List(seq![json::txt(key)])))
}

fn make_schema(properties: Object) -> (r: Object)
    ensures
        r@ == schema(properties@),
{
    Object::new().with("type", Json::text("object")).with("properties", Json::Object(properties))
}

fn make_schema_requiring(properties: Object, key: &str) -> (r: Json)
    ensures
        r@ == schema_requiring(properties@, key),
{
    let required = json::listed(json::no_values(), Json::text(key));
    assert(json::list_view(required@) =~= seq![json::txt(key)]);
    Json::Object(make_schema(properties).with("required", Json::List(required)))
}

/// The schema of an operation that takes how many lines to quote.
pub open spec fn quoting_schema() -> JsonView {
    JsonView::Object(schema(map!["context_lines"@ => convert::context_lines_schema()]))
}

fn make_quoting_schema() -> (r: Json)
    ensures
        r@ == quoting_schema(),
{
    Json::Object(
        make_schema(Object::new().with("context_lines", convert::context_lines_param())),
    )
}

/// A property that is a text.
pub open spec fn text_property(description: &str) -> JsonView {
    JsonView::Object(
        map!["type"@ => json::txt("string"), "description"@ => json::txt(description)],
    )
}

fn make_text_property(description: &str) -> (r: Json)
    ensures
        r@ == text_property(description),
{
    Json::Object(
        Object::new().with("type", Json::text("string")).with(
            "description",
            Json::text(description),
        ),
    )
}

// ---------------------------------------------------------------------------
// Rename
// ---------------------------------------------------------------------------

/// Renames the symbol at a position, everywhere.
#[derive(Debug)]
pub struct RenameOp;

/// The text of a parameter that is not empty.
pub open spec fn named(params: JsonView, key: Seq<char>) -> Option<Seq<char>> {
    match params.text_at(key) {
        Some(t) => if t.len() == 0 {
            None
        } else {
            Some(t)
        },
        None => None,
    }
}

impl Operation for RenameOp {
    open spec fn description(&self) -> OperationDescriptorView {
        described(
            "rename",
            "Rename symbol",
            "Rename the symbol at the given position and update every reference",
            OperationKind::Edit,
            TargetKind::Position,
            schema_requiring(
                map!["new_name"@ => text_property("The new name for the symbol.")],
                "new_name",
            ),
        )
    }

    open spec fn routing(&self, params: JsonView) -> LanguageRouteView {
        LanguageRouteView::Unspecified
    }

    fn descriptor(&self) -> (r: OperationDescriptor) {
        describe(
            "rename",
            "Rename symbol",
            "Rename the symbol at the given position and update every reference",
            OperationKind::Edit,
            TargetKind::Position,
            make_schema_requiring(
                Object::new().with(
                    "new_name",
                    make_text_property("The new name for the symbol."),
                ),
                "new_name",
            ),
        )
    }

    fn route(&self, params: &Json) -> (r: LanguageRoute) {
        LanguageRoute::Unspecified
    }
}

/// What is asked for to rename a symbol.
pub open spec fn rename_call(target: TargetView, params: JsonView) -> Result<
    LspCallView,
    ErrorView,
> {
    match call_at(target, "textDocument/rename"@, Map::empty()) {
        Err(e) => Err(e),
        Ok(_) => match named(params, "new_name"@) {
            None => Err(wrong("`new_name` is required"@)),
            Some(name) => call_at(
                target,
                "textDocument/rename"@,
                map!["newName"@ => JsonView::Text(name)],
            ),
        },
    }
}

impl RenameOp {
    /// What to ask for.
    pub fn ask(&self, req: &OperationRequest) -> (r: Result<LspCall, Error>)
        ensures
            called(r) == rename_call(req.target@, req.params@),
    {
        if let Err(e) = ask_at(&req.target, "textDocument/rename", Object::new()) {
            return Err(e);
        }
        if let Some(name) = req.params.str_at("new_name") {
            if !text::is_empty(name) {
                return ask_at(
                    &req.target,
                    "textDocument/rename",
                    Object::new().with("newName", Json::text(name)),
                );
            }
        }
        Err(Error::new(ErrorKind::InvalidTarget, "`new_name` is required".to_owned()))
    }
}

// ---------------------------------------------------------------------------
// Searches
// ---------------------------------------------------------------------------

/// Searches the project for symbols by name.
#[derive(Debug)]
pub struct SymbolSearchOp;

impl Operation for SymbolSearchOp {
    open spec fn description(&self) -> OperationDescriptorView {
        described(
            "symbol-search",
            "Symbol search",
            "Search for symbols across the project by name query.",
            OperationKind::Query,
            TargetKind::Project,
            schema_requiring(
                map![
                    "query"@ => text_property("Partial or full symbol name to search for."),
                    "context_lines"@ => convert::context_lines_schema(),
                    "limit"@ => JsonView::Object(
                        map![
                            "type"@ => json::txt("integer"),
                            "description"@ => json::txt("Maximum number of symbols to return."),
                            "default"@ => json::num(
                                convert::DEFAULT_SYMBOL_SEARCH_LIMIT as int,
                            )
                        ],
                    )
                ],
                "query",
            ),
        )
    }

    open spec fn routing(&self, params: JsonView) -> LanguageRouteView {
        LanguageRouteView::Unspecified
    }

    fn descriptor(&self) -> (r: OperationDescriptor) {
        let limit = Json::Object(
            Object::new().with("type", Json::text("integer")).with(
                "description",
                Json::text("Maximum number of symbols to return."),
            ).with("default", Json::number(convert::DEFAULT_SYMBOL_SEARCH_LIMIT as u64)),
        );
        describe(
            "symbol-search",
            "Symbol search",
            "Search for symbols across the project by name query.",
            OperationKind::Query,
            TargetKind::Project,
            make_schema_requiring(
                Object::new().with(
                    "query",
                    make_text_property("Partial or full symbol name to search for."),
                ).with("context_lines", convert::context_lines_param()).with("limit", limit),
                "query",
            ),
        )
    }

    fn route(&self, params: &Json) -> (r: LanguageRoute) {
        LanguageRoute::Unspecified
    }
}

/// What is asked for to search for symbols.
pub open spec fn search_call(params: JsonView) -> Result<LspCallView, ErrorView> {
    match params.text_at("query"@) {
        None => Err(wrong("`query` is required"@)),
        Some(q) => Ok(
            LspCallView {
                open: None,
                about_file: false,
                method: "workspace/symbol"@,
                params: map!["query"@ => JsonView::Text(q)],
            },
        ),
    }
}

/// How many symbols a search reports.
pub open spec fn search_limit(params: JsonView) -> usize {
    match params.count_at("limit"@) {
        Some(n) => n as usize,
        None => convert::DEFAULT_SYMBOL_SEARCH_LIMIT,
    }
}

impl SymbolSearchOp {
    /// What to ask for.
    pub fn ask(&self, req: &OperationRequest) -> (r: Result<LspCall, Error>)
        ensures
            called(r) == search_call(req.params@),
    {
        match req.params.str_at("query") {
            None => Err(Error::new(ErrorKind::InvalidTarget, "`query` is required".to_owned())),
            Some(q) => Ok(
                LspCall {
                    open: None,
                    about_file: false,
                    method: "workspace/symbol".to_owned(),
                    params: Object::new().with("query", Json::text(q)),
                },
            ),
        }
    }

    /// How many symbols to report.
    pub fn limit(&self, req: &OperationRequest) -> (r: usize)
        ensures
            r == search_limit(req.params@),
    {
        match req.params.u64_at("limit") {
            Some(n) => #[verifier::truncate]
            (n as usize),
            None => convert::DEFAULT_SYMBOL_SEARCH_LIMIT,
        }
    }

    /// What the answer is reported as.
    pub fn report(&self, req: &OperationRequest, answer: &Json, source: &Source) -> (r: Result<
        Json,
        Malformed,
    >)
        ensures
            ({
                let limit = search_limit(req.params@) as int;
                match r {
                    Ok(out) => convert::search_result(answer@, source@, limit) == Some(out@),
                    Err(_) => convert::search_result(answer@, source@, limit) is None,
                }
            }),
    {
        convert::symbols_to_query(answer, source, self.limit(req))
    }
}

// ---------------------------------------------------------------------------
// Places
// ---------------------------------------------------------------------------

/// Finds the places that belong to the symbol at a position: where it is
/// defined, or what implements it.
#[derive(Debug)]
pub struct GotoQueryOp {
    id: &'static str,
    title: &'static str,
    description: &'static str,
    method: &'static str,
    result_key: &'static str,
}

impl GotoQueryOp {
    /// The id.
    pub closed spec fn its_id(&self) -> &'static str {
        self.id
    }

    /// The title.
    pub closed spec fn its_title(&self) -> &'static str {
        self.title
    }

    /// What it does.
    pub closed spec fn its_description(&self) -> &'static str {
        self.description
    }

    /// The method it asks with.
    pub closed spec fn its_method(&self) -> Seq<char> {
        self.method@
    }

    /// The key it reports under.
    pub closed spec fn its_key(&self) -> Seq<char> {
        self.result_key@
    }

    /// Finds where the symbol is defined.
    pub fn definition() -> (r: GotoQueryOp)
        ensures
            r.description() == described(
                "go-to-definition",
                "Go to definition",
                "Resolve the symbol at the given position to where it is defined",
                OperationKind::Query,
                TargetKind::Position,
                quoting_schema(),
            ),
            r.its_method() == "textDocument/definition"@,
            r.its_key() == "definitions"@,
    {
        GotoQueryOp {
            id: "go-to-definition",
            title: "Go to definition",
            description: "Resolve the symbol at the given position to where it is defined",
            method: "textDocument/definition",
            result_key: "definitions",
        }
    }

    /// Finds what implements the symbol. An override of a method says where
    /// its behaviour is, which a call of it does not.
    pub fn implementations() -> (r: GotoQueryOp)
        ensures
            r.description() == described(
                "find-implementations",
                "Find implementations",
                "Find the concrete implementations of the symbol at the given position",
                OperationKind::Query,
                TargetKind::Position,
                quoting_schema(),
            ),
            r.its_method() == "textDocument/implementation"@,
            r.its_key() == "implementations"@,
    {
        GotoQueryOp {
            id: "find-implementations",
            title: "Find implementations",
            description: "Find the concrete implementations of the symbol at the given position",
            method: "textDocument/implementation",
            result_key: "implementations",
        }
    }

    /// What to ask for.
    pub fn ask(&self, req: &OperationRequest) -> (r: Result<LspCall, Error>)
        ensures
            called(r) == call_at(req.target@, self.its_method(), Map::empty()),
    {
        ask_at(&req.target, self.method, Object::new())
    }

    /// What the answer is reported as.
    pub fn report(&self, answer: &Json, source: &Source) -> (r: Result<Json, Malformed>)
        ensures
            match r {
                Ok(out) => convert::goto_result(answer@, source@, self.its_key()) == Some(out@),
                Err(_) => convert::goto_result(answer@, source@, self.its_key()) is None,
            },
    {
        convert::goto_to_query(answer, source, self.result_key)
    }
}

impl Operation for GotoQueryOp {
    open spec fn description(&self) -> OperationDescriptorView {
        described(
            self.its_id(),
            self.its_title(),
            self.its_description(),
            OperationKind::Query,
            TargetKind::Position,
            quoting_schema(),
        )
    }

    open spec fn routing(&self, params: JsonView) -> LanguageRouteView {
        LanguageRouteView::Unspecified
    }

    fn descriptor(&self) -> (r: OperationDescriptor) {
        describe(
            self.id,
            self.title,
            self.description,
            OperationKind::Query,
            TargetKind::Position,
            make_quoting_schema(),
        )
    }

    fn route(&self, params: &Json) -> (r: LanguageRoute) {
        LanguageRoute::Unspecified
    }
}

/// Finds every use of the symbol at a position.
#[derive(Debug)]
pub struct FindUsagesOp;

/// What the parameter for the declaration says of itself.
pub const DECLARATION_DESCRIPTION: &'static str = "Whether to include the symbol's own declaration.";

impl Operation for FindUsagesOp {
    open spec fn description(&self) -> OperationDescriptorView {
        described(
            "find-usages",
            "Find usages",
            "Find every reference to the symbol at the given position",
            OperationKind::Query,
            TargetKind::Position,
            JsonView::Object(
                schema(
                    map![
                        "include_declaration"@ => JsonView::Object(
                            map![
                                "type"@ => json::txt("boolean"),
                                "default"@ => JsonView::Bool(true),
                                "description"@ => json::txt(DECLARATION_DESCRIPTION)
                            ],
                        ),
                        "context_lines"@ => convert::context_lines_schema()
                    ],
                ),
            ),
        )
    }

    open spec fn routing(&self, params: JsonView) -> LanguageRouteView {
        LanguageRouteView::Unspecified
    }

    fn descriptor(&self) -> (r: OperationDescriptor) {
        let declaration = Json::Object(
            Object::new().with("type", Json::text("boolean")).with("default", Json::Bool(true)).with(
                "description",
                Json::text(DECLARATION_DESCRIPTION),
            ),
        );
        describe(
            "find-usages",
            "Find usages",
            "Find every reference to the symbol at the given position",
            OperationKind::Query,
            TargetKind::Position,
            Json::Object(
                make_schema(
                    Object::new().with("include_declaration", declaration).with(
                        "context_lines",
                        convert::context_lines_param(),
                    ),
                ),
            ),
        )
    }

    fn route(&self, params: &Json) -> (r: LanguageRoute) {
        LanguageRoute::Unspecified
    }
}

/// What is asked for to find usages.
pub open spec fn usages_call(target: TargetView, params: JsonView) -> Result<
    LspCallView,
    ErrorView,
> {
    call_at(
        target,
        "textDocument/references"@,
        map![
            "context"@ => JsonView::Object(
                map![
                    "includeDeclaration"@ => JsonView::Bool(
                        match params.flag_at("include_declaration"@) {
                            Some(b) => b,
                            None => true,
                        },
                    )
                ],
            )
        ],
    )
}

impl FindUsagesOp {
    /// What to ask for. The declaration counts as a use unless the caller says
    /// otherwise.
    pub fn ask(&self, req: &OperationRequest) -> (r: Result<LspCall, Error>)
        ensures
            called(r) == usages_call(req.target@, req.params@),
    {
        let declaration = match req.params.bool_at("include_declaration") {
            Some(b) => b,
            None => true,
        };
        ask_at(
            &req.target,
            "textDocument/references",
            Object::new().with(
                "context",
                Json::Object(
                    Object::new().with("includeDeclaration", Json::Bool(declaration)),
                ),
            ),
        )
    }

    /// What the answer is reported as.
    pub fn report(&self, answer: &Json, source: &Source) -> (r: Result<Json, Malformed>)
        ensures
            match r {
                Ok(out) => convert::usages(answer@, source@) == Some(out@),
                Err(_) => convert::usages(answer@, source@) is None,
            },
    {
        convert::locations_to_query(answer, source)
    }
}

/// Describes the symbol at a position.
#[derive(Debug)]
pub struct DescribeSymbolOp;

impl Operation for DescribeSymbolOp {
    open spec fn description(&self) -> OperationDescriptorView {
        described(
            "describe-symbol",
            "Describe symbol",
            "Report the type, signature, and documentation of the symbol at the given position",
            OperationKind::Query,
            TargetKind::Position,
            JsonView::Object(schema(Map::empty())),
        )
    }

    open spec fn routing(&self, params: JsonView) -> LanguageRouteView {
        LanguageRouteView::Unspecified
    }

    fn descriptor(&self) -> (r: OperationDescriptor) {
        describe(
            "describe-symbol",
            "Describe symbol",
            "Report the type, signature, and documentation of the symbol at the given position",
            OperationKind::Query,
            TargetKind::Position,
            Json::Object(make_schema(Object::new())),
        )
    }

    fn route(&self, params: &Json) -> (r: LanguageRoute) {
        LanguageRoute::Unspecified
    }
}

impl DescribeSymbolOp {
    /// What to ask for.
    pub fn ask(&self, req: &OperationRequest) -> (r: Result<LspCall, Error>)
        ensures
            called(r) == call_at(req.target@, "textDocument/hover"@, Map::empty()),
    {
        ask_at(&req.target, "textDocument/hover", Object::new())
    }

    /// What the answer is reported as.
    pub fn report(&self, answer: &Json) -> (r: Result<Json, Malformed>)
        ensures
            match r {
                Ok(out) => convert::description(answer@) == Some(out@),
                Err(_) => convert::description(answer@) is None,
            },
    {
        convert::hover_to_query(answer)
    }
}

/// Lists the symbols of a file, nested as they are in it.
#[derive(Debug)]
pub struct FileOutlineOp;

impl Operation for FileOutlineOp {
    open spec fn description(&self) -> OperationDescriptorView {
        described(
            "file-outline",
            "File outline",
            "List the symbols declared in the given file, with their coordinates",
            OperationKind::Query,
            TargetKind::File,
            quoting_schema(),
        )
    }

    open spec fn routing(&self, params: JsonView) -> LanguageRouteView {
        LanguageRouteView::Unspecified
    }

    fn descriptor(&self) -> (r: OperationDescriptor) {
        describe(
            "file-outline",
            "File outline",
            "List the symbols declared in the given file, with their coordinates",
            OperationKind::Query,
            TargetKind::File,
            make_quoting_schema(),
        )
    }

    fn route(&self, params: &Json) -> (r: LanguageRoute) {
        LanguageRoute::Unspecified
    }
}

/// What is asked for to outline a file.
pub open spec fn outline_call(target: TargetView) -> Result<LspCallView, ErrorView> {
    match target {
        TargetView::File { file } => Ok(
            LspCallView {
                open: Some(file),
                about_file: true,
                method: "textDocument/documentSymbol"@,
                params: Map::empty(),
            },
        ),
        _ => Err(wrong("this operation expects a file"@)),
    }
}

impl FileOutlineOp {
    /// What to ask for.
    pub fn ask(&self, req: &OperationRequest) -> (r: Result<LspCall, Error>)
        ensures
            called(r) == outline_call(req.target@),
    {
        match &req.target {
            Target::File { file } => Ok(
                LspCall {
                    open: Some(file.clone()),
                    about_file: true,
                    method: "textDocument/documentSymbol".to_owned(),
                    params: Object::new(),
                },
            ),
            _ => Err(
                Error::new(
                    ErrorKind::InvalidTarget,
                    "this operation expects a file".to_owned(),
                ),
            ),
        }
    }

    /// What the answer is reported as. `uri` is that of the file.
    pub fn report(&self, answer: &Json, source: &Source, uri: &str) -> (r: Result<
        Json,
        Malformed,
    >)
        ensures
            match r {
                Ok(out) => convert::outline_result(answer@, source@, uri@) == Some(out@),
                Err(_) => convert::outline_result(answer@, source@, uri@) is None,
            },
    {
        convert::document_symbols_to_query(answer, source, uri)
    }
}

// ---------------------------------------------------------------------------
// Call hierarchies
// ---------------------------------------------------------------------------

/// Finds the handles at a position, from which calls are followed.
#[derive(Debug)]
pub struct PrepareCallHierarchyOp;

/// What the operation that finds handles does.
pub const PREPARE_DESCRIPTION: &'static str = "Resolve the position to the call hierarchy items to walk with incoming-calls or outgoing-calls";

impl Operation for PrepareCallHierarchyOp {
    open spec fn description(&self) -> OperationDescriptorView {
        described(
            "prepare-call-hierarchy",
            "Prepare call hierarchy",
            PREPARE_DESCRIPTION,
            OperationKind::Query,
            TargetKind::Position,
            quoting_schema(),
        )
    }

    open spec fn routing(&self, params: JsonView) -> LanguageRouteView {
        LanguageRouteView::Unspecified
    }

    fn descriptor(&self) -> (r: OperationDescriptor) {
        describe(
            "prepare-call-hierarchy",
            "Prepare call hierarchy",
            PREPARE_DESCRIPTION,
            OperationKind::Query,
            TargetKind::Position,
            make_quoting_schema(),
        )
    }

    fn route(&self, params: &Json) -> (r: LanguageRoute) {
        LanguageRoute::Unspecified
    }
}

impl PrepareCallHierarchyOp {
    /// What to ask for.
    pub fn ask(&self, req: &OperationRequest) -> (r: Result<LspCall, Error>)
        ensures
            called(r) == call_at(
                req.target@,
                "textDocument/prepareCallHierarchy"@,
                Map::empty(),
            ),
    {
        ask_at(&req.target, "textDocument/prepareCallHierarchy", Object::new())
    }

    /// What the answer is reported as.
    pub fn report(&self, answer: &Json, source: &Source) -> (r: Result<Json, Malformed>)
        ensures
            match r {
                Ok(out) => convert::call_items_result(answer@, source@) == Some(out@),
                Err(_) => convert::call_items_result(answer@, source@) is None,
            },
    {
        convert::call_hierarchy_items_to_query(answer, source)
    }
}

/// What the parameter for a handle says of itself.
pub const ITEM_DESCRIPTION: &'static str = "A call hierarchy item, taken verbatim from a prepare-call-hierarchy result's `item` field. Treat it as opaque and pass it back unmodified.";

/// What is said where the handle is missing.
pub const ITEM_REQUIRED: &'static str = "`item` is required: run prepare-call-hierarchy first and pass one of its `item` values back unchanged";

/// The schema of an operation on a handle.
pub open spec fn handle_schema() -> JsonView {
    schema_requiring(
        map![
            "item"@ => JsonView::Object(
                map!["type"@ => json::txt("object"), "description"@ => json::txt(ITEM_DESCRIPTION)],
            ),
            "context_lines"@ => convert::context_lines_schema()
        ],
        "item",
    )
}

fn make_handle_schema() -> (r: Json)
    ensures
        r@ == handle_schema(),
{
    let item = Json::Object(
        Object::new().with("type", Json::text("object")).with(
            "description",
            Json::text(ITEM_DESCRIPTION),
        ),
    );
    make_schema_requiring(
        Object::new().with("item", item).with("context_lines", convert::context_lines_param()),
        "item",
    )
}

/// A request about a handle. The file of the handle is shown to the server
/// first, where it names one.
pub open spec fn call_about_handle(params: JsonView, method: Seq<char>) -> Result<
    LspCallView,
    ErrorView,
> {
    match params.get("item"@) {
        Some(item) => if item is Object {
            Ok(
                LspCallView {
                    open: match item.text_at("uri"@) {
                        Some(u) => Some(uri::path_of(u)),
                        None => None,
                    },
                    about_file: false,
                    method,
                    params: map!["item"@ => item],
                },
            )
        } else {
            Err(wrong(ITEM_REQUIRED@))
        },
        None => Err(wrong(ITEM_REQUIRED@)),
    }
}

fn ask_about_handle(params: &Json, method: &str) -> (r: Result<LspCall, Error>)
    ensures
        called(r) == call_about_handle(params@, method@),
{
    if let Some(item) = params.get("item") {
        if item.is_object() {
            let open = match item.str_at("uri") {
                Some(u) => Some(uri::uri_to_path(u)),
                None => None,
            };
            return Ok(
                LspCall {
                    open,
                    about_file: false,
                    method: method.to_owned(),
                    params: Object::new().with("item", item.clone()),
                },
            );
        }
    }
    Err(Error::new(ErrorKind::InvalidTarget, ITEM_REQUIRED.to_owned()))
}

/// Finds the callers of a declaration.
#[derive(Debug)]
pub struct IncomingCallsOp;

impl Operation for IncomingCallsOp {
    open spec fn description(&self) -> OperationDescriptorView {
        described(
            "incoming-calls",
            "Incoming calls",
            "Find the callers of a call hierarchy item, with their call sites",
            OperationKind::Query,
            TargetKind::Project,
            handle_schema(),
        )
    }

    open spec fn routing(&self, params: JsonView) -> LanguageRouteView {
        convert::item_route(params)
    }

    fn descriptor(&self) -> (r: OperationDescriptor) {
        describe(
            "incoming-calls",
            "Incoming calls",
            "Find the callers of a call hierarchy item, with their call sites",
            OperationKind::Query,
            TargetKind::Project,
            make_handle_schema(),
        )
    }

    fn route(&self, params: &Json) -> (r: LanguageRoute) {
        convert::call_hierarchy_item_route(params)
    }
}

impl IncomingCallsOp {
    /// What to ask for.
    pub fn ask(&self, req: &OperationRequest) -> (r: Result<LspCall, Error>)
        ensures
            called(r) == call_about_handle(req.params@, "callHierarchy/incomingCalls"@),
    {
        ask_about_handle(&req.params, "callHierarchy/incomingCalls")
    }

    /// What the answer is reported as.
    pub fn report(&self, answer: &Json, source: &Source) -> (r: Result<Json, Malformed>)
        ensures
            match r {
                Ok(out) => convert::calls_result(answer@, source@, "from"@, None) == Some(out@),
                Err(_) => convert::calls_result(answer@, source@, "from"@, None) is None,
            },
    {
        convert::incoming_calls_to_query(answer, source)
    }
}

/// Finds what a declaration calls.
#[derive(Debug)]
pub struct OutgoingCallsOp;

impl Operation for OutgoingCallsOp {
    open spec fn description(&self) -> OperationDescriptorView {
        described(
            "outgoing-calls",
            "Outgoing calls",
            "Find what a call hierarchy item calls, with the call sites inside it",
            OperationKind::Query,
            TargetKind::Project,
            handle_schema(),
        )
    }

    open spec fn routing(&self, params: JsonView) -> LanguageRouteView {
        convert::item_route(params)
    }

    fn descriptor(&self) -> (r: OperationDescriptor) {
        describe(
            "outgoing-calls",
            "Outgoing calls",
            "Find what a call hierarchy item calls, with the call sites inside it",
            OperationKind::Query,
            TargetKind::Project,
            make_handle_schema(),
        )
    }

    fn route(&self, params: &Json) -> (r: LanguageRoute) {
        convert::call_hierarchy_item_route(params)
    }
}

/// The file that the calls of a declaration are written in: its own.
pub open spec fn called_from(params: JsonView) -> Seq<char> {
    match convert::item_uri(params) {
        Some(u) => u,
        None => ""@,
    }
}

impl OutgoingCallsOp {
    /// What to ask for.
    pub fn ask(&self, req: &OperationRequest) -> (r: Result<LspCall, Error>)
        ensures
            called(r) == call_about_handle(req.params@, "callHierarchy/outgoingCalls"@),
    {
        ask_about_handle(&req.params, "callHierarchy/outgoingCalls")
    }

    /// The file that the call sites are in.
    pub fn sites_in(&self, req: &OperationRequest) -> (r: String)
        ensures
            r@ == called_from(req.params@),
    {
        if let Some(item) = req.params.get("item") {
            if let Some(u) = item.str_at("uri") {
                return u.to_owned();
            }
        }
        "".to_owned()
    }

    /// What the answer is reported as.
    pub fn report(&self, req: &OperationRequest, answer: &Json, source: &Source) -> (r: Result<
        Json,
        Malformed,
    >)
        ensures
            ({
                let reported = convert::calls_result(
                    answer@,
                    source@,
                    "to"@,
                    Some(called_from(req.params@)),
                );
                match r {
                    Ok(out) => reported == Some(out@),
                    Err(_) => reported is None,
                }
            }),
    {
        let at = self.sites_in(req);
        convert::outgoing_calls_to_query(answer, source, at.as_str())
    }
}

// ---------------------------------------------------------------------------
// Code actions
// ---------------------------------------------------------------------------

/// Makes an edit that the language server offers as an action of a kind.
#[derive(Debug)]
pub struct CodeActionOp {
    id: &'static str,
    title: &'static str,
    description: &'static str,
    action_kind: &'static str,
    target: TargetKind,
}

/// What to do with an action that was chosen.
#[derive(Debug)]
pub enum ActionStep {
    /// Its edit is made.
    Edit(Json),
    /// Its command is run, and the edit that the server asks for is made.
    Command(Json),
    /// Nothing is made.
    Nothing,
}

/// What to do with an action.
pub open spec fn action_step(action: JsonView) -> (Option<JsonView>, Option<JsonView>) {
    match action.get("edit"@) {
        Some(e) => if e is Null {
            (None, action.get("command"@))
        } else {
            (Some(e), None)
        },
        None => (None, action.get("command"@)),
    }
}

/// Whether a kind of action is another, or one under it: kinds are nested by
/// dots.
pub open spec fn kind_within(k: Seq<char>, kind: Seq<char>) -> bool {
    k == kind || (kind + "."@).is_prefix_of(k)
}

/// Whether a kind of action is another, or one under it.
fn is_kind_within(k: &str, kind: &str) -> (r: bool)
    ensures
        r == kind_within(k@, kind@),
{
    text::same(k, kind) || uri::has_prefix(
        &text::chars_of(k),
        &text::chars_of(text::cat(kind, ".").as_str()),
    )
}

/// Whether the choice of an action leads on: one that says neither what to edit
/// nor what to run is resolved first.
pub open spec fn picked_leads_on(
    picked: Result<JsonView, ErrorView>,
    complaint: Seq<char>,
    next: ActionNext,
) -> bool {
    match picked {
        Err(e) => next matches ActionNext::Failed(f) && f@ == e,
        Ok(action) => if action.get("edit"@) is None && action.get("command"@) is None {
            next matches ActionNext::Resolve(a) && a@ == action
        } else {
            carries_on(action, complaint, next)
        },
    }
}

/// The place of the first action, from `i` on, of a kind or of one under it.
pub open spec fn action_from(actions: Seq<JsonView>, kind: Seq<char>, i: int) -> Option<int>
    decreases actions.len() - i,
{
    if i < 0 || i >= actions.len() {
        None
    } else if actions[i].text_at("kind"@) is Some && kind_within(
        actions[i].text_at("kind"@)->Some_0,
        kind,
    ) {
        Some(i)
    } else {
        action_from(actions, kind, i + 1)
    }
}

/// What is to be done to carry on with an action.
#[derive(Debug)]
pub enum ActionNext {
    /// The action is resolved.
    Resolve(Json),
    /// A command is run, after listening for the edit that the server then asks
    /// for.
    Execute(Json),
    /// Nothing: this is the edit.
    Done(WorkspaceEdit),
    /// Nothing: it failed.
    Failed(Error),
}

/// Whether something is what follows from a step of an action.
pub open spec fn carries_on(action: JsonView, complaint: Seq<char>, next: ActionNext) -> bool {
    match action_step(action) {
        (Some(e), _) => edit_follows(e, complaint, next),
        (None, Some(command)) => match command_call(command) {
            Ok(call) => next matches ActionNext::Execute(c) && c@ == call,
            Err(e) => next matches ActionNext::Failed(f) && f@ == e,
        },
        (None, None) => next matches ActionNext::Done(e) && wire_edit::reads_as(
            JsonView::Null,
            e@,
        ),
    }
}

/// Whether something is what follows from an edit.
pub open spec fn edit_follows(e: JsonView, complaint: Seq<char>, next: ActionNext) -> bool {
    if wire_edit::readable(e) {
        next matches ActionNext::Done(done) && wire_edit::reads_as(e, done@)
    } else {
        next matches ActionNext::Failed(f) && f@ == no_edit(complaint)
    }
}

/// How a command is run: its name, and its arguments, or none.
pub open spec fn command_call(command: JsonView) -> Result<JsonView, ErrorView> {
    match command.text_at("command"@) {
        None => Err(
            ErrorView { kind: ErrorKind::Backend, detail: "code action command has no name"@ },
        ),
        Some(name) => Ok(
            JsonView::Object(
                map![
                    "command"@ => JsonView::Text(name),
                    "arguments"@ => match command.get("arguments"@) {
                        Some(a) => a,
                        None => JsonView::List(Seq::empty()),
                    }
                ],
            ),
        ),
    }
}

/// The range that an action is asked for at.
pub open spec fn action_range(target: TargetView) -> Option<JsonView> {
    match target {
        TargetView::Selection { range, .. } => Some(
            JsonView::Object(map!["start"@ => point(range.start), "end"@ => point(range.end)]),
        ),
        TargetView::Position { position, .. } => Some(
            JsonView::Object(map!["start"@ => point(position), "end"@ => point(position)]),
        ),
        TargetView::File { .. } => {
            let first = Position { line: 0, character: 0 };
            Some(JsonView::Object(map!["start"@ => point(first), "end"@ => point(first)]))
        },
        TargetView::Project => None,
    }
}

/// What is asked for to find the actions of a kind.
pub open spec fn actions_call(target: TargetView, kind: Seq<char>) -> Result<
    LspCallView,
    ErrorView,
> {
    match action_range(target) {
        None => Err(wrong("a file is required"@)),
        Some(range) => Ok(
            LspCallView {
                open: target.file(),
                about_file: true,
                method: "textDocument/codeAction"@,
                params: map![
                    "range"@ => range,
                    "context"@ => JsonView::Object(
                        map![
                            "diagnostics"@ => JsonView::List(Seq::empty()),
                            "only"@ => JsonView::List(seq![JsonView::Text(kind)])
                        ],
                    )
                ],
            },
        ),
    }
}

fn make_range(start: Position, end: Position) -> (r: Json)
    ensures
        r@ == JsonView::Object(map!["start"@ => point(start), "end"@ => point(end)]),
{
    Json::Object(Object::new().with("start", make_point(start)).with("end", make_point(end)))
}

impl CodeActionOp {
    /// The id.
    pub closed spec fn its_id(&self) -> &'static str {
        self.id
    }

    /// The title.
    pub closed spec fn its_title(&self) -> &'static str {
        self.title
    }

    /// What it does.
    pub closed spec fn its_description(&self) -> &'static str {
        self.description
    }

    /// The kind of action it makes.
    pub closed spec fn its_kind(&self) -> Seq<char> {
        self.action_kind@
    }

    /// What it is pointed at.
    pub closed spec fn its_target(&self) -> TargetKind {
        self.target
    }

    /// The action to make from those that the server offers: the first of the
    /// kind, or of one under it.
    pub open spec fn picked(&self, actions: JsonView) -> Result<JsonView, ErrorView> {
        let offered = match actions.items() {
            Some(s) => s,
            None => Seq::empty(),
        };
        match action_from(offered, self.its_kind(), 0) {
            Some(i) => Ok(offered[i]),
            None => Err(
                ErrorView {
                    kind: ErrorKind::OperationNotAvailable,
                    detail: self.its_id()@ + " is not available at this location"@,
                },
            ),
        }
    }

    /// The operations of this sort: those that extract a function or a
    /// constant.
    pub fn ts_set() -> (r: Vec<CodeActionOp>)
        ensures
            r@.len() == 2,
            r@[0].description() == described(
                "extract-function",
                "Extract to function",
                "Extract the selection into a new function",
                OperationKind::Edit,
                TargetKind::Selection,
                JsonView::Object(schema(Map::empty())),
            ),
            r@[0].its_kind() == "refactor.extract.function"@,
            r@[1].description() == described(
                "extract-constant",
                "Extract to constant",
                "Extract the selected expression into a new constant",
                OperationKind::Edit,
                TargetKind::Selection,
                JsonView::Object(schema(Map::empty())),
            ),
            r@[1].its_kind() == "refactor.extract.constant"@,
    {
        let mut out: Vec<CodeActionOp> = Vec::new();
        out.push(
            CodeActionOp {
                id: "extract-function",
                title: "Extract to function",
                description: "Extract the selection into a new function",
                action_kind: "refactor.extract.function",
                target: TargetKind::Selection,
            },
        );
        out.push(
            CodeActionOp {
                id: "extract-constant",
                title: "Extract to constant",
                description: "Extract the selected expression into a new constant",
                action_kind: "refactor.extract.constant",
                target: TargetKind::Selection,
            },
        );
        out
    }

    /// What to ask for: the actions of the kind at the target.
    pub fn ask(&self, req: &OperationRequest) -> (r: Result<LspCall, Error>)
        ensures
            called(r) == actions_call(req.target@, self.its_kind()),
    {
        let (file, range) = match &req.target {
            Target::Selection { file, range } => (
                file.clone(),
                make_range(range.start, range.end),
            ),
            Target::Position { file, position } => (
                file.clone(),
                make_range(*position, *position),
            ),
            Target::File { file } => {
                let first = Position { line: 0, character: 0 };
                (file.clone(), make_range(first, first))
            },
            Target::Project => {
                return Err(Error::new(ErrorKind::InvalidTarget, "a file is required".to_owned()));
            },
        };
        let only = json::listed(json::no_values(), Json::text(self.action_kind));
        assert(json::list_view(only@) =~= seq![JsonView::Text(self.its_kind())]);
        let context = Object::new().with("diagnostics", Json::List(json::no_values())).with(
            "only",
            Json::List(only),
        );
        Ok(
            LspCall {
                open: Some(file),
                about_file: true,
                method: "textDocument/codeAction".to_owned(),
                params: Object::new().with("range", range).with("context", Json::Object(context)),
            },
        )
    }

    /// Chooses the action to make from those that the server offers: the first
    /// of the kind, or of one under it.
    pub fn pick_action(&self, actions: &Json) -> (r: Result<Json, Error>)
        ensures
            error::outcome(r) == self.picked(actions@),
    {
        if let Some(offered) = actions.as_array() {
            let ghost all = json::list_view(offered@);
            let mut i: usize = 0;
            while i < offered.len()
                invariant
                    i <= offered@.len(),
                    all == json::list_view(offered@),
                    actions@ == JsonView::List(all),
                    action_from(all, self.its_kind(), 0) == action_from(
                        all,
                        self.its_kind(),
                        i as int,
                    ),
                decreases offered@.len() - i,
            {
                assert(all[i as int] == offered@[i as int]@);
                if let Some(k) = offered[i].str_at("kind") {
                    if is_kind_within(k, self.action_kind) {
                        return Ok(offered[i].clone());
                    }
                }
                i += 1;
            }
        }
        Err(
            Error::new(
                ErrorKind::OperationNotAvailable,
                text::cat(self.id, " is not available at this location"),
            ),
        )
    }

    /// Whether an action has to be resolved first: it carries neither an edit
    /// nor a command.
    pub fn needs_resolving(action: &Json) -> (r: bool)
        ensures
            r == (action@.get("edit"@) is None && action@.get("command"@) is None),
    {
        action.get("edit").is_none() && action.get("command").is_none()
    }

    /// What to do with an action.
    pub fn next_step(action: &Json) -> (r: ActionStep)
        ensures
            match r {
                ActionStep::Edit(e) => action_step(action@).0 == Some(e@),
                ActionStep::Command(c) => action_step(action@) == (
                    None::<JsonView>,
                    Some(c@),
                ),
                ActionStep::Nothing => action_step(action@) == (
                    None::<JsonView>,
                    None::<JsonView>,
                ),
            },
    {
        if let Some(e) = action.get("edit") {
            if !e.is_null() {
                return ActionStep::Edit(e.clone());
            }
        }
        match action.get("command") {
            Some(c) => ActionStep::Command(c.clone()),
            None => ActionStep::Nothing,
        }
    }

    /// How a command is run: its name, and its arguments, or none.
    pub fn run_command(command: &Json) -> (r: Result<Json, Error>)
        ensures
            error::outcome(r) == command_call(command@),
            r is Ok <==> command@.text_at("command"@) is Some,
            r is Ok ==> r->Ok_0@.text_at("command"@) == command@.text_at("command"@),
            r is Ok ==> r->Ok_0@.get("arguments"@) == Some(
                match command@.get("arguments"@) {
                    Some(a) => a,
                    None => JsonView::List(Seq::empty()),
                },
            ),
    {
        proof {
            crate::laws::asking::commands_run_with_their_arguments(command@);
        }
        let name = match command.str_at("command") {
            Some(name) => name,
            None => {
                return Err(
                    Error::new(
                        ErrorKind::Backend,
                        "code action command has no name".to_owned(),
                    ),
                );
            },
        };
        let arguments = match command.get("arguments") {
            Some(a) => a.clone(),
            None => Json::List(json::no_values()),
        };
        Ok(
            Json::Object(
                Object::new().with("command", Json::text(name)).with("arguments", arguments),
            ),
        )
    }

    /// Carries on with an action that needs no resolving. `complaint` is what is
    /// said of an edit that is none.
    pub fn carry_on(action: &Json, complaint: &str) -> (r: ActionNext)
        ensures
            carries_on(action@, complaint@, r),
    {
        match CodeActionOp::next_step(action) {
            ActionStep::Edit(e) => match edit_in(&e, complaint) {
                Ok(done) => ActionNext::Done(done),
                Err(failure) => ActionNext::Failed(failure),
            },
            ActionStep::Command(command) => match CodeActionOp::run_command(&command) {
                Ok(call) => ActionNext::Execute(call),
                Err(failure) => ActionNext::Failed(failure),
            },
            ActionStep::Nothing => ActionNext::Done(WorkspaceEdit::empty()),
        }
    }

    /// What follows when the server has said which actions it offers.
    pub fn after_actions(&self, actions: &Json, complaint: &str) -> (r: ActionNext)
        ensures
            picked_leads_on(self.picked(actions@), complaint@, r),
    {
        match self.pick_action(actions) {
            Err(failure) => ActionNext::Failed(failure),
            Ok(action) => if CodeActionOp::needs_resolving(&action) {
                ActionNext::Resolve(action)
            } else {
                CodeActionOp::carry_on(&action, complaint)
            },
        }
    }

    /// What follows when a command was run: the edit that the server asked for,
    /// or nothing where it asked for none in time.
    pub fn after_command(asked: Option<Json>, complaint: &str) -> (r: ActionNext)
        ensures
            match asked {
                Some(e) => edit_follows(e@, complaint@, r),
                None => r matches ActionNext::Done(e) && wire_edit::reads_as(JsonView::Null, e@),
            },
    {
        match asked {
            Some(e) => match edit_in(&e, complaint) {
                Ok(done) => ActionNext::Done(done),
                Err(failure) => ActionNext::Failed(failure),
            },
            None => ActionNext::Done(WorkspaceEdit::empty()),
        }
    }

    /// The edit that a message of the server asks for: none at all where the
    /// message is about something else, so that the next one is waited for.
    pub fn asked_edit(method: &str, params: &Json) -> (r: Option<Option<Json>>)
        ensures
            match r {
                None => method@ != "workspace/applyEdit"@,
                Some(e) => method@ == "workspace/applyEdit"@ && view::maybe(e) == params@.get(
                    "edit"@,
                ),
            },
    {
        if !text::same(method, "workspace/applyEdit") {
            return None;
        }
        match params.get("edit") {
            Some(e) => Some(Some(e.clone())),
            None => Some(None),
        }
    }
}

impl Operation for CodeActionOp {
    open spec fn description(&self) -> OperationDescriptorView {
        described(
            self.its_id(),
            self.its_title(),
            self.its_description(),
            OperationKind::Edit,
            self.its_target(),
            JsonView::Object(schema(Map::empty())),
        )
    }

    open spec fn routing(&self, params: JsonView) -> LanguageRouteView {
        LanguageRouteView::Unspecified
    }

    fn descriptor(&self) -> (r: OperationDescriptor) {
        describe(
            self.id,
            self.title,
            self.description,
            OperationKind::Edit,
            self.target,
            Json::Object(make_schema(Object::new())),
        )
    }

    fn route(&self, params: &Json) -> (r: LanguageRoute) {
        LanguageRoute::Unspecified
    }
}

} // verus!
