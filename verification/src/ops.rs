//! From operations to tools, and from the arguments of a tool back to requests.
//!
//! An operation is called by a tool of its id. The arguments of the tool are an
//! envelope, which says on what project, where and how to act, and the
//! operation's own parameters.

use crate::edit::Position;
use crate::edit::Range;
use crate::json;
use crate::json::Json;
use crate::json::JsonView;
use crate::json::NumberView;
use crate::json::Object;
use crate::operation::OperationDescriptor;
use crate::operation::OperationDescriptorView;
use crate::operation::OperationKind;
use crate::operation::Target;
use crate::operation::TargetKind;
use crate::operation::TargetView;
use crate::protocol;
use crate::protocol::McpError;
use crate::protocol::McpErrorView;
use crate::protocol::Tool;
use crate::protocol::ToolView;
use crate::text;
use crate::view;
use vstd::prelude::*;

verus! {

// ---------------------------------------------------------------------------
// Schemas
// ---------------------------------------------------------------------------

/// What the argument for the project says of itself.
pub const PROJECT_DESCRIPTION: &'static str = "Id of the registered project to act on.";

/// What the argument for the working copy says of itself.
pub const WORKSPACE_DESCRIPTION: &'static str = "Path to the working copy (git worktree / jj workspace) to apply edits to. Defaults to the project root, or the working copy containing an absolute `file`.";

/// What the argument for the file says of itself.
pub const FILE_DESCRIPTION: &'static str = "File path, relative to the project root unless absolute.";

/// What the guard on a position says of itself.
pub const EXPECT_AT_POSITION: &'static str = "Optional guard: the identifier you expect at this position. Henka checks its own copy of the file matches and errors instead of acting on a mis-resolved coordinate (e.g. one computed against a different revision).";

/// What the guard on a selection says of itself.
pub const EXPECT_IN_SELECTION: &'static str = "Optional guard: the exact text you expect the selection to cover. Henka checks its own copy of the file matches and errors instead of acting on a mis-resolved range.";

/// What the argument for a preview says of itself.
pub const DRY_RUN_DESCRIPTION: &'static str = "If true (the default), return a diff without modifying files. Pass false to apply.";

/// The schema of an argument that is a text.
pub open spec fn text_property(description: &str) -> JsonView {
    JsonView::Object(
        map!["type"@ => json::txt("string"), "description"@ => json::txt(description)],
    )
}

/// The schema of an argument that is a line or a character.
pub open spec fn number_property(description: Seq<char>) -> JsonView {
    JsonView::Object(
        map![
            "type"@ => json::txt("integer"),
            "minimum"@ => json::num(0),
            "description"@ => JsonView::Text(description)
        ],
    )
}

/// The schema of an argument that is a line.
pub open spec fn line_property(what: &str) -> JsonView {
    number_property("Zero-based "@ + what@ + " line."@)
}

/// The schema of an argument that is a character.
pub open spec fn character_property(what: &str) -> JsonView {
    number_property("Zero-based "@ + what@ + " character (UTF-16)."@)
}

/// The properties that a target adds.
pub open spec fn target_properties(
    props: Map<Seq<char>, JsonView>,
    target: TargetKind,
) -> Map<Seq<char>, JsonView> {
    match target {
        TargetKind::Position => props.insert("file"@, text_property(FILE_DESCRIPTION)).insert(
            "line"@,
            line_property("target"),
        ).insert("character"@, character_property("target")).insert(
            "expect"@,
            text_property(EXPECT_AT_POSITION),
        ),
        TargetKind::Selection => props.insert("file"@, text_property(FILE_DESCRIPTION)).insert(
            "start_line"@,
            line_property("selection start"),
        ).insert("start_character"@, character_property("selection start")).insert(
            "end_line"@,
            line_property("selection end"),
        ).insert("end_character"@, character_property("selection end")).insert(
            "expect"@,
            text_property(EXPECT_IN_SELECTION),
        ),
        TargetKind::File => props.insert("file"@, text_property(FILE_DESCRIPTION)),
        TargetKind::Project => props,
    }
}

/// The arguments that a target makes necessary.
pub open spec fn target_required(target: TargetKind) -> Seq<JsonView> {
    match target {
        TargetKind::Position => seq![
            json::txt("project"),
            json::txt("file"),
            json::txt("line"),
            json::txt("character"),
        ],
        TargetKind::Selection => seq![
            json::txt("project"),
            json::txt("file"),
            json::txt("start_line"),
            json::txt("start_character"),
            json::txt("end_line"),
            json::txt("end_character"),
        ],
        TargetKind::File => seq![json::txt("project"), json::txt("file")],
        TargetKind::Project => seq![json::txt("project")],
    }
}

/// The properties that an operation's own schema declares.
pub open spec fn own_properties(schema: JsonView) -> Map<Seq<char>, JsonView> {
    match schema.get("properties"@) {
        Some(JsonView::Object(m)) => m,
        _ => Map::empty(),
    }
}

/// The arguments that an operation's own schema makes necessary.
pub open spec fn own_required(schema: JsonView) -> Seq<JsonView> {
    match schema.items_at("required"@) {
        Some(s) => s,
        None => Seq::empty(),
    }
}

/// The properties of the tool for an operation: the envelope's, then the
/// operation's own, and whether to only preview what an edit would do.
pub open spec fn tool_properties(d: OperationDescriptorView) -> Map<Seq<char>, JsonView> {
    let envelope = target_properties(
        map![
            "project"@ => text_property(PROJECT_DESCRIPTION),
            "workspace"@ => text_property(WORKSPACE_DESCRIPTION)
        ],
        d.target,
    );
    let all = envelope.union_prefer_right(own_properties(d.params_schema));
    if d.kind == OperationKind::Edit {
        all.insert(
            "dry_run"@,
            JsonView::Object(
                map![
                    "type"@ => json::txt("boolean"),
                    "default"@ => JsonView::Bool(true),
                    "description"@ => json::txt(DRY_RUN_DESCRIPTION)
                ],
            ),
        )
    } else {
        all
    }
}

/// The schema of the arguments of the tool for an operation.
pub open spec fn tool_schema(d: OperationDescriptorView) -> Map<Seq<char>, JsonView> {
    map![
        "type"@ => json::txt("object"),
        "properties"@ => JsonView::Object(tool_properties(d)),
        "required"@ => JsonView::List(target_required(d.target) + own_required(d.params_schema))
    ]
}

fn text_prop(description: &str) -> (r: Json)
    ensures
        r@ == text_property(description),
{
    Json::Object(
        Object::new().with("type", Json::text("string")).with(
            "description",
            Json::text(description),
        ),
    )
}

fn number_prop(description: String) -> (r: Json)
    ensures
        r@ == number_property(description@),
{
    Json::Object(
        Object::new().with("type", Json::text("integer")).with("minimum", Json::number(0)).with(
            "description",
            Json::Text(description),
        ),
    )
}

fn line_prop(what: &str) -> (r: Json)
    ensures
        r@ == line_property(what),
{
    number_prop(text::cat3("Zero-based ", what, " line."))
}

fn char_prop(what: &str) -> (r: Json)
    ensures
        r@ == character_property(what),
{
    number_prop(text::cat3("Zero-based ", what, " character (UTF-16)."))
}

fn add_target(props: Object, target: TargetKind) -> (r: Object)
    ensures
        r@ == target_properties(props@, target),
{
    match target {
        TargetKind::Position => props.with("file", text_prop(FILE_DESCRIPTION)).with(
            "line",
            line_prop("target"),
        ).with("character", char_prop("target")).with("expect", text_prop(EXPECT_AT_POSITION)),
        TargetKind::Selection => props.with("file", text_prop(FILE_DESCRIPTION)).with(
            "start_line",
            line_prop("selection start"),
        ).with("start_character", char_prop("selection start")).with(
            "end_line",
            line_prop("selection end"),
        ).with("end_character", char_prop("selection end")).with(
            "expect",
            text_prop(EXPECT_IN_SELECTION),
        ),
        TargetKind::File => props.with("file", text_prop(FILE_DESCRIPTION)),
        TargetKind::Project => props,
    }
}

fn required_by(target: TargetKind) -> (r: Vec<Json>)
    ensures
        json::list_view(r@) == target_required(target),
{
    let all = json::listed(json::no_values(), Json::text("project"));
    match target {
        TargetKind::Position => json::listed(
            json::listed(json::listed(all, Json::text("file")), Json::text("line")),
            Json::text("character"),
        ),
        TargetKind::Selection => json::listed(
            json::listed(
                json::listed(
                    json::listed(
                        json::listed(all, Json::text("file")),
                        Json::text("start_line"),
                    ),
                    Json::text("start_character"),
                ),
                Json::text("end_line"),
            ),
            Json::text("end_character"),
        ),
        TargetKind::File => json::listed(all, Json::text("file")),
        TargetKind::Project => all,
    }
}

/// One object with the fields of another in place of its own.
fn overlay(base: Object, over: &Object) -> (r: Object)
    ensures
        r@ == base@.union_prefer_right(over@),
{
    let ghost from = base@;
    let keys = over.keys();
    let mut out = base;
    let mut i: usize = 0;
    while i < keys.len()
        invariant
            i <= keys@.len(),
            forall|k: Seq<char>|
                #![trigger over@.contains_key(k)]
                over@.contains_key(k) <==> exists|a: int|
                    0 <= a < keys@.len() && (#[trigger] keys@[a])@ == k,
            forall|k: Seq<char>| #[trigger]
                out@.contains_key(k) <==> from.contains_key(k) || exists|a: int|
                    0 <= a < i && (#[trigger] keys@[a])@ == k,
            forall|a: int|
                0 <= a < i ==> out@.contains_key((#[trigger] keys@[a])@) && out@[keys@[a]@]
                    == over@[keys@[a]@],
            forall|k: Seq<char>|
                from.contains_key(k) && !over@.contains_key(k) ==> #[trigger] out@[k] == from[k],
        decreases keys@.len() - i,
    {
        let ghost before = out@;
        let ghost key = keys@[i as int]@;
        assert(over@.contains_key(key));
        if let Some(value) = over.get(keys[i].as_str()) {
            out = out.with(keys[i].as_str(), value.clone());
        }
        assert(out@ == before.insert(key, over@[key]));
        assert forall|k: Seq<char>| #[trigger] out@.contains_key(k) <==> from.contains_key(k)
            || exists|a: int| 0 <= a < i + 1 && (#[trigger] keys@[a])@ == k by {
            if k == key {
                assert(keys@[i as int]@ == k);
            } else if exists|a: int| 0 <= a < i + 1 && (#[trigger] keys@[a])@ == k {
                let a = choose|a: int| 0 <= a < i + 1 && (#[trigger] keys@[a])@ == k;
                assert(a < i);
            }
        }
        i += 1;
    }
    proof {
        let want = from.union_prefer_right(over@);
        assert forall|k: Seq<char>| out@.contains_key(k) == want.contains_key(k) by {
            assert(over@.contains_key(k) <==> exists|a: int|
                0 <= a < keys@.len() && (#[trigger] keys@[a])@ == k);
        }
        assert forall|k: Seq<char>| out@.contains_key(k) implies out@[k] == want[k] by {
            if over@.contains_key(k) {
                let a = choose|a: int| 0 <= a < keys@.len() && (#[trigger] keys@[a])@ == k;
                assert(out@[keys@[a]@] == over@[keys@[a]@]);
            }
        }
        assert(out@ =~= want);
    }
    out
}

/// The schema of the arguments of the tool for an operation.
pub fn build_input_schema(descriptor: &OperationDescriptor) -> (r: Object)
    ensures
        r@ == tool_schema(descriptor@),
{
    let envelope = add_target(
        Object::new().with("project", text_prop(PROJECT_DESCRIPTION)).with(
            "workspace",
            text_prop(WORKSPACE_DESCRIPTION),
        ),
        descriptor.target,
    );
    let mut required = required_by(descriptor.target);
    let ghost by_target = json::list_view(required@);
    let own = match descriptor.params_schema.get("properties") {
        Some(Json::Object(own)) => own.clone(),
        _ => Object::new(),
    };
    let all = overlay(envelope, &own);
    if let Some(more) = descriptor.params_schema.array_at("required") {
        let mut copied = json::copy_list(more);
        let ghost added = copied@;
        let ghost had = required@;
        required.append(&mut copied);
        assert(json::list_view(required@) =~= json::list_view(had) + json::list_view(added));
    } else {
        assert(by_target + own_required(descriptor@.params_schema) =~= by_target);
    }
    let props = if descriptor.kind == OperationKind::Edit {
        all.with(
            "dry_run",
            Json::Object(
                Object::new().with("type", Json::text("boolean")).with(
                    "default",
                    Json::Bool(true),
                ).with("description", Json::text(DRY_RUN_DESCRIPTION)),
            ),
        )
    } else {
        all
    };
    Object::new().with("type", Json::text("object")).with("properties", Json::Object(props)).with(
        "required",
        Json::List(required),
    )
}

/// What the tool for an operation says that it does.
pub open spec fn tool_description(d: OperationDescriptorView) -> Seq<char> {
    match d.kind {
        OperationKind::Edit => d.description
            + " (edit; defaults to a preview \u{2014} pass dry_run=false to apply)."@,
        OperationKind::Query => d.description + " (read-only query)."@,
    }
}

/// The tool for an operation.
pub fn operation_tool(descriptor: &OperationDescriptor) -> (r: Tool)
    ensures
        r@ == (ToolView {
            name: descriptor@.id,
            description: tool_description(descriptor@),
            input_schema: tool_schema(descriptor@),
        }),
{
    let description = match descriptor.kind {
        OperationKind::Edit => text::cat(
            descriptor.description.as_str(),
            " (edit; defaults to a preview \u{2014} pass dry_run=false to apply).",
        ),
        OperationKind::Query => text::cat(
            descriptor.description.as_str(),
            " (read-only query).",
        ),
    };
    Tool {
        name: descriptor.id.clone(),
        description,
        input_schema: build_input_schema(descriptor),
    }
}

// ---------------------------------------------------------------------------
// Arguments
// ---------------------------------------------------------------------------

/// The arguments that belong to the envelope.
pub open spec fn is_envelope_key(k: Seq<char>) -> bool {
    ||| k == "project"@
    ||| k == "workspace"@
    ||| k == "file"@
    ||| k == "line"@
    ||| k == "character"@
    ||| k == "start_line"@
    ||| k == "start_character"@
    ||| k == "end_line"@
    ||| k == "end_character"@
    ||| k == "expect"@
    ||| k == "dry_run"@
}

/// The project that arguments name.
pub fn project_id(args: &Object) -> (r: Result<String, McpError>)
    ensures
        protocol::reply(r) == (match JsonView::Object(args@).text_at("project"@) {
            Some(id) => Ok(id),
            None => Err(protocol::invalid("missing required `project`"@)),
        }),
{
    match str_arg(args, "project") {
        Some(id) => Ok(id),
        None => Err(McpError::invalid_params("missing required `project`".to_owned())),
    }
}

/// A text among the arguments.
fn str_arg(args: &Object, key: &str) -> (r: Option<String>)
    ensures
        view::maybe(r) == JsonView::Object(args@).text_at(key@),
{
    match args.get(key) {
        Some(value) => match value.as_str() {
            Some(t) => Some(t.to_owned()),
            None => None,
        },
        None => None,
    }
}

/// A text among the arguments that is not empty.
pub open spec fn given(args: Map<Seq<char>, JsonView>, key: Seq<char>) -> Option<Seq<char>> {
    match JsonView::Object(args).text_at(key) {
        Some(t) => if t.len() == 0 {
            None
        } else {
            Some(t)
        },
        None => None,
    }
}

/// A text among the arguments that is not empty.
fn given_arg(args: &Object, key: &str) -> (r: Option<String>)
    ensures
        view::maybe(r) == given(args@, key@),
{
    match str_arg(args, key) {
        Some(t) => if text::is_empty(t.as_str()) {
            None
        } else {
            Some(t)
        },
        None => None,
    }
}

/// The working copy that arguments name, if they do.
pub fn workspace(args: &Object) -> (r: Option<String>)
    ensures
        view::maybe(r) == given(args@, "workspace"@),
{
    given_arg(args, "workspace")
}

/// The text the caller expects at the target, if they say so.
pub fn expect(args: &Object) -> (r: Option<String>)
    ensures
        view::maybe(r) == given(args@, "expect"@),
{
    given_arg(args, "expect")
}

/// Whether a preview is asked for; it is, where nothing is said.
pub open spec fn wants_preview(args: Map<Seq<char>, JsonView>) -> bool {
    match JsonView::Object(args).flag_at("dry_run"@) {
        Some(b) => b,
        None => true,
    }
}

/// Whether a preview is asked for.
pub fn dry_run(args: &Object) -> (r: bool)
    ensures
        r == wants_preview(args@),
{
    match args.get("dry_run") {
        Some(value) => match value.as_bool() {
            Some(b) => b,
            None => true,
        },
        None => true,
    }
}

/// A text that has to be among the arguments.
pub open spec fn text_argument(args: Map<Seq<char>, JsonView>, key: Seq<char>) -> Result<
    Seq<char>,
    McpErrorView,
> {
    match JsonView::Object(args).text_at(key) {
        Some(t) => Ok(t),
        None => Err(protocol::invalid("missing or non-string `"@ + key + "`"@)),
    }
}

/// A line or character that has to be among the arguments.
pub open spec fn number_argument(args: Map<Seq<char>, JsonView>, key: Seq<char>) -> Result<
    u32,
    McpErrorView,
> {
    match JsonView::Object(args).count_at(key) {
        Some(n) => if n <= u32::MAX {
            Ok(n as u32)
        } else {
            Err(not_a_number(key))
        },
        None => Err(not_a_number(key)),
    }
}

/// The error for an argument that is no line or character.
pub open spec fn not_a_number(key: Seq<char>) -> McpErrorView {
    protocol::invalid(
        "missing or invalid `"@ + key + "` (expected a non-negative integer)"@,
    )
}

fn get_str(args: &Object, key: &str) -> (r: Result<String, McpError>)
    ensures
        protocol::reply(r) == text_argument(args@, key@),
{
    match str_arg(args, key) {
        Some(t) => Ok(t),
        None => Err(McpError::invalid_params(text::cat3("missing or non-string `", key, "`"))),
    }
}

fn get_u32(args: &Object, key: &str) -> (r: Result<u32, McpError>)
    ensures
        match r {
            Ok(n) => number_argument(args@, key@) == Ok::<u32, McpErrorView>(n),
            Err(e) => number_argument(args@, key@) == Err::<u32, McpErrorView>(e@),
        },
{
    if let Some(value) = args.get(key) {
        if let Some(n) = value.as_u64() {
            if n <= 0xffff_ffff {
                return Ok(n as u32);
            }
        }
    }
    Err(
        McpError::invalid_params(
            text::cat3("missing or invalid `", key, "` (expected a non-negative integer)"),
        ),
    )
}

/// A point that has to be among the arguments.
pub open spec fn position_argument(
    args: Map<Seq<char>, JsonView>,
    line: Seq<char>,
    character: Seq<char>,
) -> Result<Position, McpErrorView> {
    match number_argument(args, line) {
        Err(e) => Err(e),
        Ok(l) => match number_argument(args, character) {
            Err(e) => Err(e),
            Ok(c) => Ok(Position { line: l, character: c }),
        },
    }
}

fn get_position(args: &Object, line: &str, character: &str) -> (r: Result<Position, McpError>)
    ensures
        match r {
            Ok(p) => position_argument(args@, line@, character@) == Ok::<Position, McpErrorView>(
                p,
            ),
            Err(e) => position_argument(args@, line@, character@) == Err::<
                Position,
                McpErrorView,
            >(e@),
        },
{
    match get_u32(args, line) {
        Err(e) => Err(e),
        Ok(l) => match get_u32(args, character) {
            Err(e) => Err(e),
            Ok(c) => Ok(Position { line: l, character: c }),
        },
    }
}

/// The target that arguments give. What is missing first is reported.
pub open spec fn target_in(args: Map<Seq<char>, JsonView>, kind: TargetKind) -> Result<
    TargetView,
    McpErrorView,
> {
    match kind {
        TargetKind::Project => Ok(TargetView::Project),
        _ => match text_argument(args, "file"@) {
            Err(e) => Err(e),
            Ok(file) => match kind {
                TargetKind::Position => match position_argument(args, "line"@, "character"@) {
                    Err(e) => Err(e),
                    Ok(position) => Ok(TargetView::Position { file, position }),
                },
                TargetKind::Selection => match position_argument(
                    args,
                    "start_line"@,
                    "start_character"@,
                ) {
                    Err(e) => Err(e),
                    Ok(start) => match position_argument(args, "end_line"@, "end_character"@) {
                        Err(e) => Err(e),
                        Ok(end) => Ok(TargetView::Selection { file, range: Range { start, end } }),
                    },
                },
                _ => Ok(TargetView::File { file }),
            },
        },
    }
}

/// The target that arguments give, for an operation that wants one of a kind.
pub fn parse_target(args: &Object, kind: TargetKind) -> (r: Result<Target, McpError>)
    ensures
        protocol::reply(r) == target_in(args@, kind),
{
    match kind {
        TargetKind::Project => Ok(Target::Project),
        TargetKind::File => match get_str(args, "file") {
            Err(e) => Err(e),
            Ok(file) => Ok(Target::File { file }),
        },
        TargetKind::Position => match get_str(args, "file") {
            Err(e) => Err(e),
            Ok(file) => match get_position(args, "line", "character") {
                Err(e) => Err(e),
                Ok(position) => Ok(Target::Position { file, position }),
            },
        },
        TargetKind::Selection => match get_str(args, "file") {
            Err(e) => Err(e),
            Ok(file) => match get_position(args, "start_line", "start_character") {
                Err(e) => Err(e),
                Ok(start) => match get_position(args, "end_line", "end_character") {
                    Err(e) => Err(e),
                    Ok(end) => Ok(Target::Selection { file, range: Range { start, end } }),
                },
            },
        },
    }
}

/// The arguments that are the operation's own.
pub open spec fn own_arguments(args: Map<Seq<char>, JsonView>) -> Map<Seq<char>, JsonView> {
    Map::new(
        |k: Seq<char>| args.contains_key(k) && !is_envelope_key(k),
        |k: Seq<char>| args[k],
    )
}

/// The operation's own parameters: the arguments without the envelope.
pub fn operation_params(args: &Object) -> (r: Json)
    ensures
        r@ == JsonView::Object(own_arguments(args@)),
{
    let all = args.clone();
    let own = all.without("project").without("workspace").without("file").without("line").without("character").without("start_line").without("start_character").without("end_line").without("end_character").without("expect").without("dry_run");
    assert(own@ =~= own_arguments(args@));
    Json::Object(own)
}

/// The parameters of an operation never hold what belongs to the envelope, and
/// hold everything else as it was given.
pub proof fn parameters_are_what_the_envelope_leaves(args: Map<Seq<char>, JsonView>, k: Seq<char>)
    ensures
        own_arguments(args).contains_key(k) <==> args.contains_key(k) && !is_envelope_key(k),
        own_arguments(args).contains_key(k) ==> own_arguments(args)[k] == args[k],
{
}

/// The limit that parameters set, or else the default that a schema declares.
pub open spec fn limit_in(params: JsonView, schema: JsonView) -> Option<JsonView> {
    match params.get("limit"@) {
        Some(v) => Some(v),
        None => match schema.get("properties"@) {
            Some(props) => match props.get("limit"@) {
                Some(limit) => limit.get("default"@),
                None => None,
            },
            None => None,
        },
    }
}

/// How many of each kind of match a query may report, if it takes a limit that
/// fits.
pub open spec fn limit_of(params: JsonView, schema: JsonView) -> Option<usize> {
    match limit_in(params, schema) {
        Some(v) => match v.count() {
            Some(n) => if n <= usize::MAX {
                Some(n as usize)
            } else {
                None
            },
            None => None,
        },
        None => None,
    }
}

/// How many of each kind of match a query may report: what the caller says, or
/// else the default that the operation declares; none where it takes no limit.
pub fn result_limit(params: &Json, params_schema: &Json) -> (r: Option<usize>)
    ensures
        r == limit_of(params@, params_schema@),
{
    let limit = match params.get("limit") {
        Some(v) => Some(v),
        None => match params_schema.get("properties") {
            Some(props) => match props.get("limit") {
                Some(limit) => limit.get("default"),
                None => None,
            },
            None => None,
        },
    };
    match limit {
        Some(v) => match v.as_u64() {
            Some(n) => if n <= usize::MAX as u64 {
                Some(n as usize)
            } else {
                None
            },
            None => None,
        },
        None => None,
    }
}

// ---------------------------------------------------------------------------
// Merging
// ---------------------------------------------------------------------------

/// Two results as one: objects key by key, lists one after the other, counts
/// added, flags or-ed; of anything else the first.
pub open spec fn merged(left: JsonView, right: JsonView) -> JsonView
    decreases right,
{
    match (left, right) {
        (JsonView::Object(a), JsonView::Object(b)) => JsonView::Object(
            Map::new(
                |k: Seq<char>| a.contains_key(k) || b.contains_key(k),
                |k: Seq<char>|
                    if !b.contains_key(k) {
                        a[k]
                    } else if !a.contains_key(k) {
                        b[k]
                    } else {
                        merged(a[k], b[k])
                    },
            ),
        ),
        (JsonView::List(a), JsonView::List(b)) => JsonView::List(a + b),
        (JsonView::Bool(a), JsonView::Bool(b)) => JsonView::Bool(a || b),
        (
            JsonView::Number(NumberView::Unsigned(a)),
            JsonView::Number(NumberView::Unsigned(b)),
        ) => json::num(a + b),
        _ => left,
    }
}

/// The fields of two objects: what both have is merged.
pub open spec fn merged_fields(
    a: Map<Seq<char>, JsonView>,
    b: Map<Seq<char>, JsonView>,
) -> Map<Seq<char>, JsonView> {
    Map::new(
        |k: Seq<char>| a.contains_key(k) || b.contains_key(k),
        |k: Seq<char>|
            if !b.contains_key(k) {
                a[k]
            } else if !a.contains_key(k) {
                b[k]
            } else {
                merged(a[k], b[k])
            },
    )
}

/// Objects are merged by their fields.
pub proof fn objects_merge_by_field(a: Map<Seq<char>, JsonView>, b: Map<Seq<char>, JsonView>)
    ensures
        merged(JsonView::Object(a), JsonView::Object(b)) == JsonView::Object(merged_fields(a, b)),
{
    let whole = merged(JsonView::Object(a), JsonView::Object(b))->Object_0;
    assert forall|k: Seq<char>| whole.contains_key(k) implies whole[k] == merged_fields(a, b)[k] by {
    }
    assert(whole =~= merged_fields(a, b));
}

/// Whether the counts of two results can be added.
pub open spec fn counts_add(left: JsonView, right: JsonView) -> bool
    decreases right,
{
    match (left, right) {
        (JsonView::Object(a), JsonView::Object(b)) => forall|k: Seq<char>|
            a.contains_key(k) && #[trigger] b.contains_key(k) ==> counts_add(a[k], b[k]),
        (
            JsonView::Number(NumberView::Unsigned(a)),
            JsonView::Number(NumberView::Unsigned(b)),
        ) => a + b <= u64::MAX,
        _ => true,
    }
}

/// Whether the counts in the fields of two objects can be added.
pub open spec fn field_counts_add(
    a: Map<Seq<char>, JsonView>,
    b: Map<Seq<char>, JsonView>,
) -> bool {
    forall|k: Seq<char>|
        a.contains_key(k) && #[trigger] b.contains_key(k) ==> counts_add(a[k], b[k])
}

proof fn object_counts_add_by_field(a: Map<Seq<char>, JsonView>, b: Map<Seq<char>, JsonView>)
    ensures
        counts_add(JsonView::Object(a), JsonView::Object(b)) == field_counts_add(a, b),
{
    reveal_with_fuel(counts_add, 2);
    let (left, right) = (JsonView::Object(a), JsonView::Object(b));
    if counts_add(left, right) {
        assert(left->Object_0 == a && right->Object_0 == b);
        assert forall|k: Seq<char>| a.contains_key(k) && #[trigger] b.contains_key(
            k,
        ) implies counts_add(a[k], b[k]) by {
        }
    }
}

/// Makes two results one.
fn merge(left: Json, right: &Json) -> (r: Json)
    requires
        counts_add(left@, right@),
    ensures
        r@ == merged(left@, right@),
    decreases right,
{
    match (left, right) {
        (Json::Object(a), Json::Object(b)) => {
            proof {
                objects_merge_by_field(a@, b@);
                object_counts_add_by_field(a@, b@);
            }
            Json::Object(merge_objects(a, b))
        },
        (Json::List(a), Json::List(b)) => {
            let mut out = a;
            let mut more = json::copy_list(b);
            let ghost had = out@;
            let ghost added = more@;
            out.append(&mut more);
            assert(json::list_view(out@) =~= json::list_view(had) + json::list_view(added));
            Json::List(out)
        },
        (Json::Bool(a), Json::Bool(b)) => Json::Bool(a || *b),
        (
            Json::Number(json::Number::Unsigned(a)),
            Json::Number(json::Number::Unsigned(b)),
        ) => Json::number(a + *b),
        (left, _) => left,
    }
}

/// Makes two objects one.
fn merge_objects(left: Object, right: &Object) -> (r: Object)
    requires
        field_counts_add(left@, right@),
    ensures
        r@ == merged_fields(left@, right@),
    decreases right,
{
    let ghost a = left@;
    let ghost b = right@;
    let keys = right.keys();
    let mut out = left;
    let mut i: usize = 0;
    while i < keys.len()
        invariant
            i <= keys@.len(),
            b == right@,
            field_counts_add(a, b),
            forall|k: Seq<char>|
                #![trigger b.contains_key(k)]
                b.contains_key(k) <==> exists|x: int|
                    0 <= x < keys@.len() && (#[trigger] keys@[x])@ == k,
            forall|x: int, y: int|
                0 <= x < y < keys@.len() ==> (#[trigger] keys@[x])@ != (#[trigger] keys@[y])@,
            forall|k: Seq<char>| #[trigger]
                out@.contains_key(k) <==> a.contains_key(k) || exists|x: int|
                    0 <= x < i && (#[trigger] keys@[x])@ == k,
            forall|x: int|
                0 <= x < i ==> out@[(#[trigger] keys@[x])@] == merged_fields(a, b)[keys@[x]@],
            forall|k: Seq<char>|
                a.contains_key(k) && (forall|x: int| 0 <= x < i ==> (#[trigger] keys@[x])@ != k)
                    ==> #[trigger] out@[k] == a[k],
        decreases keys@.len() - i,
    {
        let ghost before = out@;
        let ghost key = keys@[i as int]@;
        assert(b.contains_key(key));
        assert(forall|x: int| 0 <= x < i ==> (#[trigger] keys@[x])@ != key);
        if let Some(value) = right.get(keys[i].as_str()) {
            let ghost added = value@;
            assert(added == b[key]);
            let existing = match out.get(keys[i].as_str()) {
                Some(existing) => Some(existing.clone()),
                None => None,
            };
            let next = match existing {
                Some(existing) => {
                    assert(a.contains_key(key));
                    assert(existing@ == a[key]);
                    merge(existing, value)
                },
                None => {
                    assert(!a.contains_key(key));
                    value.clone()
                },
            };
            assert(next@ == merged_fields(a, b)[key]);
            out = out.with(keys[i].as_str(), next);
        }
        assert(out@ == before.insert(key, merged_fields(a, b)[key]));
        assert forall|k: Seq<char>| #[trigger] out@.contains_key(k) <==> a.contains_key(k)
            || exists|x: int| 0 <= x < i + 1 && (#[trigger] keys@[x])@ == k by {
            if k == key {
                assert(keys@[i as int]@ == k);
            } else if exists|x: int| 0 <= x < i + 1 && (#[trigger] keys@[x])@ == k {
                let x = choose|x: int| 0 <= x < i + 1 && (#[trigger] keys@[x])@ == k;
                assert(x < i);
            }
        }
        assert forall|k: Seq<char>|
            a.contains_key(k) && (forall|x: int| 0 <= x < i + 1 ==> (#[trigger] keys@[x])@ != k)
                implies #[trigger] out@[k] == a[k] by {
            assert(keys@[i as int]@ != k);
            assert(before[k] == a[k]);
        }
        i += 1;
    }
    proof {
        let want = merged_fields(a, b);
        assert forall|k: Seq<char>| out@.contains_key(k) == want.contains_key(k) by {
            assert(b.contains_key(k) <==> exists|x: int|
                0 <= x < keys@.len() && (#[trigger] keys@[x])@ == k);
        }
        assert forall|k: Seq<char>| out@.contains_key(k) implies out@[k] == want[k] by {
            if b.contains_key(k) {
                let x = choose|x: int| 0 <= x < keys@.len() && (#[trigger] keys@[x])@ == k;
                assert(out@[keys@[x]@] == want[keys@[x]@]);
            }
        }
        assert(out@ =~= want);
    }
    out
}

/// Whether the counts of two results can be added.
fn counts_can_add(left: &Json, right: &Json) -> (r: bool)
    ensures
        r == counts_add(left@, right@),
    decreases right,
{
    match (left, right) {
        (Json::Object(a), Json::Object(b)) => {
            proof {
                object_counts_add_by_field(a@, b@);
            }
            field_counts_can_add(a, b)
        },
        (
            Json::Number(json::Number::Unsigned(a)),
            Json::Number(json::Number::Unsigned(b)),
        ) => *a <= u64::MAX - *b,
        _ => true,
    }
}

fn field_counts_can_add(left: &Object, right: &Object) -> (r: bool)
    ensures
        r == field_counts_add(left@, right@),
    decreases right,
{
    let keys = right.keys();
    let mut i: usize = 0;
    while i < keys.len()
        invariant
            i <= keys@.len(),
            forall|k: Seq<char>|
                #![trigger right@.contains_key(k)]
                right@.contains_key(k) <==> exists|x: int|
                    0 <= x < keys@.len() && (#[trigger] keys@[x])@ == k,
            forall|x: int|
                0 <= x < i && left@.contains_key((#[trigger] keys@[x])@) ==> counts_add(
                    left@[keys@[x]@],
                    right@[keys@[x]@],
                ),
        decreases keys@.len() - i,
    {
        assert(right@.contains_key(keys@[i as int]@));
        if let (Some(a), Some(b)) = (left.get(keys[i].as_str()), right.get(keys[i].as_str())) {
            if !counts_can_add(a, b) {
                return false;
            }
        }
        i += 1;
    }
    assert forall|k: Seq<char>| left@.contains_key(k) && #[trigger] right@.contains_key(
        k,
    ) implies counts_add(left@[k], right@[k]) by {
        let x = choose|x: int| 0 <= x < keys@.len() && (#[trigger] keys@[x])@ == k;
        assert(left@.contains_key(keys@[x]@));
    }
    true
}

/// Several results as one, from the first on; nothing where there are none.
pub open spec fn all_merged(results: Seq<JsonView>) -> JsonView
    decreases results.len(),
{
    if results.len() == 0 {
        JsonView::Object(Map::empty())
    } else if results.len() == 1 {
        results[0]
    } else {
        merged(all_merged(results.drop_last()), results.last())
    }
}

/// Whether the counts of several results can be added.
pub open spec fn all_counts_add(results: Seq<JsonView>) -> bool {
    forall|n: int|
        2 <= n <= results.len() ==> #[trigger] counts_add(
            all_merged(results.take(n - 1)),
            results[n - 1],
        )
}

/// Whether a result has a list that is longer than a limit.
pub open spec fn has_long_list(m: Map<Seq<char>, JsonView>, limit: int) -> bool {
    exists|k: Seq<char>| #[trigger] m.contains_key(k) && is_long_list(m[k], limit)
}

/// Whether a value is a list that is longer than a limit.
pub open spec fn is_long_list(v: JsonView, limit: int) -> bool {
    v is List && v->List_0.len() > limit
}

/// A value cut to a limit, where it is a list.
pub open spec fn cut(v: JsonView, limit: int) -> JsonView {
    if is_long_list(v, limit) {
        JsonView::List(v->List_0.take(limit))
    } else {
        v
    }
}

/// A result with its lists cut to a limit. Where one was cut, it says so.
pub open spec fn with_lists_cut(v: JsonView, limit: int) -> JsonView {
    match v {
        JsonView::Object(m) => {
            let fields = Map::new(|k: Seq<char>| m.contains_key(k), |k: Seq<char>| cut(m[k], limit));
            if has_long_list(m, limit) {
                JsonView::Object(fields.insert("truncated"@, JsonView::Bool(true)))
            } else {
                JsonView::Object(fields)
            }
        },
        _ => v,
    }
}

/// Cuts the lists of a result to a limit.
fn cap_lists(result: Json, limit: usize) -> (r: Json)
    ensures
        r@ == with_lists_cut(result@, limit as int),
{
    let fields = match result {
        Json::Object(fields) => fields,
        other => {
            return other;
        },
    };
    let ghost m = fields@;
    let ghost n = limit as int;
    let keys = fields.keys();
    let mut out = fields;
    let mut truncated = false;
    let mut i: usize = 0;
    while i < keys.len()
        invariant
            i <= keys@.len(),
            n == limit as int,
            forall|k: Seq<char>|
                #![trigger m.contains_key(k)]
                m.contains_key(k) <==> exists|x: int|
                    0 <= x < keys@.len() && (#[trigger] keys@[x])@ == k,
            forall|x: int, y: int|
                0 <= x < y < keys@.len() ==> (#[trigger] keys@[x])@ != (#[trigger] keys@[y])@,
            forall|k: Seq<char>| #[trigger] out@.contains_key(k) == m.contains_key(k),
            forall|x: int| 0 <= x < i ==> out@[(#[trigger] keys@[x])@] == cut(m[keys@[x]@], n),
            forall|x: int| i <= x < keys@.len() ==> out@[(#[trigger] keys@[x])@] == m[keys@[x]@],
            truncated <==> exists|x: int|
                0 <= x < i && is_long_list(m[(#[trigger] keys@[x])@], n),
        decreases keys@.len() - i,
    {
        let ghost key = keys@[i as int]@;
        assert(m.contains_key(key));
        assert(out@.contains_key(key));
        let ghost before = out@;
        let shorter = match out.get(keys[i].as_str()) {
            Some(Json::List(items)) => if items.len() > limit {
                let mut copied = json::copy_list(items);
                copied.truncate(limit);
                assert(json::list_view(copied@) =~= json::list_view(items@).take(limit as int));
                Some(copied)
            } else {
                None
            },
            _ => None,
        };
        if let Some(items) = shorter {
            assert(is_long_list(m[key], n));
            truncated = true;
            out = out.with(keys[i].as_str(), Json::List(items));
            assert(out@ == before.insert(key, cut(m[key], n)));
        } else {
            assert(!is_long_list(m[key], n));
        }
        assert(out@[key] == cut(m[key], n));
        assert(truncated <==> exists|x: int|
            0 <= x < i + 1 && is_long_list(m[(#[trigger] keys@[x])@], n)) by {
            if is_long_list(m[key], n) {
                assert(is_long_list(m[keys@[i as int]@], n));
            }
        }
        i += 1;
    }
    let ghost cut_fields = Map::new(|k: Seq<char>| m.contains_key(k), |k: Seq<char>| cut(m[k], n));
    proof {
        assert forall|k: Seq<char>| out@.contains_key(k) implies out@[k] == cut_fields[k] by {
            assert(m.contains_key(k));
            let x = choose|x: int| 0 <= x < keys@.len() && (#[trigger] keys@[x])@ == k;
            assert(out@[keys@[x]@] == cut(m[keys@[x]@], n));
        }
        assert(out@ =~= cut_fields);
        assert(truncated == has_long_list(m, n)) by {
            if truncated {
                let x = choose|x: int|
                    0 <= x < keys@.len() && is_long_list(m[(#[trigger] keys@[x])@], n);
                assert(m.contains_key(keys@[x]@));
            }
            if has_long_list(m, n) {
                let k = choose|k: Seq<char>| #[trigger]
                    m.contains_key(k) && is_long_list(m[k], n);
                let x = choose|x: int| 0 <= x < keys@.len() && (#[trigger] keys@[x])@ == k;
                assert(is_long_list(m[keys@[x]@], n));
            }
        }
    }
    if truncated {
        Json::Object(out.with("truncated", Json::Bool(true)))
    } else {
        Json::Object(out)
    }
}

/// The results of one query that several languages answered, as one.
pub open spec fn merged_result(results: Seq<JsonView>, limit: Option<usize>) -> JsonView {
    match limit {
        Some(limit) => with_lists_cut(all_merged(results), limit as int),
        None => all_merged(results),
    }
}

/// Makes the results of one query that several languages answered one result,
/// with at most `limit` of each kind of match.
///
/// A query on a project as a whole names no file, so each language may know a
/// part of the answer. Each kept the limit for itself, and what they found
/// together may be past it: the lists are cut again, while the counts still
/// tell how much was found.
pub fn merge_query_results(results: Vec<Json>, limit: Option<usize>) -> (r: Json)
    requires
        all_counts_add(json::list_view(results@)),
    ensures
        r@ == merged_result(json::list_view(results@), limit),
        crate::laws::answers::lists_told(json::list_view(results@), limit, r@),
        crate::laws::answers::numbers_told(json::list_view(results@), r@),
{
    proof {
        crate::laws::answers::lists_are_told(json::list_view(results@), limit);
        crate::laws::answers::numbers_are_told(json::list_view(results@), limit);
    }
    let ghost all = json::list_view(results@);
    if results.len() == 0 {
        let none = Json::empty_object();
        return match limit {
            Some(limit) => cap_lists(none, limit),
            None => none,
        };
    }
    let mut out = results[0].clone();
    let mut i: usize = 1;
    assert(all.take(1)[0] == results@[0]@);
    while i < results.len()
        invariant
            1 <= i <= results@.len(),
            all == json::list_view(results@),
            all_counts_add(all),
            out@ == all_merged(all.take(i as int)),
        decreases results@.len() - i,
    {
        assert(all[i as int] == results@[i as int]@);
        assert(counts_add(all_merged(all.take((i + 1) - 1)), all[(i + 1) - 1]));
        assert(all.take(i + 1).drop_last() =~= all.take(i as int));
        out = merge(out, &results[i]);
        i += 1;
    }
    assert(all.take(all.len() as int) =~= all);
    match limit {
        Some(limit) => cap_lists(out, limit),
        None => out,
    }
}

/// Whether the counts of several results can be added, so that they can be
/// made one.
pub fn can_merge(results: &Vec<Json>) -> (r: bool)
    ensures
        r == all_counts_add(json::list_view(results@)),
{
    let ghost all = json::list_view(results@);
    if results.len() == 0 {
        return true;
    }
    let mut out = results[0].clone();
    let mut i: usize = 1;
    assert(all.take(1)[0] == results@[0]@);
    while i < results.len()
        invariant
            1 <= i <= results@.len(),
            all == json::list_view(results@),
            out@ == all_merged(all.take(i as int)),
            forall|n: int|
                2 <= n <= i ==> #[trigger] counts_add(all_merged(all.take(n - 1)), all[n - 1]),
        decreases results@.len() - i,
    {
        assert(all[i as int] == results@[i as int]@);
        if !counts_can_add(&out, &results[i]) {
            assert(!counts_add(all_merged(all.take((i + 1) - 1)), all[(i + 1) - 1]));
            return false;
        }
        assert(all.take(i + 1).drop_last() =~= all.take(i as int));
        out = merge(out, &results[i]);
        i += 1;
    }
    true
}

// ---------------------------------------------------------------------------
// What merging promises
// ---------------------------------------------------------------------------

/// One result is left as it is.
pub proof fn merging_one_leaves_it_alone(result: JsonView)
    ensures
        merged_result(seq![result], None) == result,
{
}

/// The counts of two results add up, and their lists follow each other.
pub proof fn merging_adds_counts_and_joins_lists(
    a: Map<Seq<char>, JsonView>,
    b: Map<Seq<char>, JsonView>,
    k: Seq<char>,
)
    requires
        a.contains_key(k),
        b.contains_key(k),
    ensures
        merged_fields(a, b).contains_key(k),
        a[k].count() is Some && b[k].count() is Some ==> merged_fields(a, b)[k] == json::num(
            a[k].count()->Some_0 + b[k].count()->Some_0,
        ),
        a[k] is List && b[k] is List ==> merged_fields(a, b)[k] == JsonView::List(
            a[k]->List_0 + b[k]->List_0,
        ),
        a[k] is Bool && b[k] is Bool ==> merged_fields(a, b)[k] == JsonView::Bool(
            a[k]->Bool_0 || b[k]->Bool_0,
        ),
{
}

/// What only one of two results reports is kept.
pub proof fn merging_keeps_what_one_reports(
    a: Map<Seq<char>, JsonView>,
    b: Map<Seq<char>, JsonView>,
    k: Seq<char>,
)
    ensures
        a.contains_key(k) && !b.contains_key(k) ==> merged_fields(a, b).contains_key(k)
            && merged_fields(a, b)[k] == a[k],
        b.contains_key(k) && !a.contains_key(k) ==> merged_fields(a, b).contains_key(k)
            && merged_fields(a, b)[k] == b[k],
{
}

/// After cutting, no list is longer than the limit; everything that is no list
/// is as before, but for the flag that tells of the cut; and the flag is set
/// wherever a list lost something.
pub proof fn cutting_keeps_the_limit(m: Map<Seq<char>, JsonView>, limit: int, k: Seq<char>)
    requires
        0 <= limit,
        m.contains_key(k),
    ensures
        ({
            let after = with_lists_cut(JsonView::Object(m), limit);
            &&& after is Object
            &&& after->Object_0.contains_key(k)
            &&& after->Object_0[k] is List ==> after->Object_0[k]->List_0.len() <= limit
            &&& !(m[k] is List) && k != "truncated"@ ==> after->Object_0[k] == m[k]
            &&& is_long_list(m[k], limit) ==> after.flag_at("truncated"@) == Some(true)
        }),
{
}

} // verus!
