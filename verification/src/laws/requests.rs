//! Requests: what the arguments of a tool ask for.

use crate::edit::Position;
use crate::edit::Range;
use crate::json::JsonView;
use crate::mcp;
use crate::mcp::Call;
use crate::mcp::CommandView;
use crate::operation::OperationDescriptorView;
use crate::operation::OperationKind;
use crate::operation::TargetKind;
use crate::operation::TargetView;
use crate::ops;
use crate::pathmap;
use crate::protocol::McpErrorKind;
use vstd::prelude::*;

verus! {

/// Arguments that name a position under two keys.
pub open spec fn names_position(
    args: Map<Seq<char>, JsonView>,
    line: Seq<char>,
    character: Seq<char>,
    p: Position,
) -> bool {
    &&& JsonView::Object(args).count_at(line) == Some(p.line as u64)
    &&& JsonView::Object(args).count_at(character) == Some(p.character as u64)
}

/// A target is read from the arguments that name it, each number as it is given.
pub proof fn targets_are_what_the_arguments_name(
    args: Map<Seq<char>, JsonView>,
    file: Seq<char>,
    start: Position,
    end: Position,
)
    requires
        JsonView::Object(args).text_at("file"@) == Some(file),
    ensures
        names_position(args, "line"@, "character"@, start) ==> ops::target_in(
            args,
            TargetKind::Position,
        ) == Ok::<TargetView, crate::protocol::McpErrorView>(
            TargetView::Position { file, position: start },
        ),
        names_position(args, "start_line"@, "start_character"@, start) && names_position(
            args,
            "end_line"@,
            "end_character"@,
            end,
        ) ==> ops::target_in(args, TargetKind::Selection) == Ok::<
            TargetView,
            crate::protocol::McpErrorView,
        >(TargetView::Selection { file, range: Range { start, end } }),
        ops::target_in(args, TargetKind::File) == Ok::<TargetView, crate::protocol::McpErrorView>(
            TargetView::File { file },
        ),
        ops::target_in(args, TargetKind::Project) == Ok::<
            TargetView,
            crate::protocol::McpErrorView,
        >(TargetView::Project),
{
}

/// A target is never made up: whatever it takes has to be among the arguments,
/// and a number that does not fit is refused.
pub proof fn targets_are_never_made_up(args: Map<Seq<char>, JsonView>, kind: TargetKind)
    ensures
        ({
            let given = JsonView::Object(args);
            match ops::target_in(args, kind) {
                Ok(TargetView::Position { file, position }) => kind == TargetKind::Position
                    && given.text_at("file"@) == Some(file) && names_position(
                    args,
                    "line"@,
                    "character"@,
                    position,
                ),
                Ok(TargetView::Selection { file, range }) => kind == TargetKind::Selection
                    && given.text_at("file"@) == Some(file) && names_position(
                    args,
                    "start_line"@,
                    "start_character"@,
                    range.start,
                ) && names_position(args, "end_line"@, "end_character"@, range.end),
                Ok(TargetView::File { file }) => kind == TargetKind::File && given.text_at("file"@)
                    == Some(file),
                Ok(TargetView::Project) => kind == TargetKind::Project,
                Err(e) => e.kind == McpErrorKind::InvalidParams && kind != TargetKind::Project,
            }
        }),
{
}

/// The parameters of an operation are all arguments but those that say what to
/// act on and how, each with the value it was given.
pub proof fn parameters_are_all_other_arguments(args: Map<Seq<char>, JsonView>, k: Seq<char>)
    ensures
        ({
            let own = JsonView::Object(ops::own_arguments(args));
            let apart = seq![
                "project"@,
                "workspace"@,
                "file"@,
                "line"@,
                "character"@,
                "start_line"@,
                "start_character"@,
                "end_line"@,
                "end_character"@,
                "expect"@,
                "dry_run"@,
            ];
            &&& apart.contains(k) ==> own.get(k) is None
            &&& !apart.contains(k) ==> own.get(k) == JsonView::Object(args).get(k)
        }),
{
    let apart = seq![
        "project"@,
        "workspace"@,
        "file"@,
        "line"@,
        "character"@,
        "start_line"@,
        "start_character"@,
        "end_line"@,
        "end_character"@,
        "expect"@,
        "dry_run"@,
    ];
    assert(apart[0] == "project"@);
    assert(apart[1] == "workspace"@);
    assert(apart[2] == "file"@);
    assert(apart[3] == "line"@);
    assert(apart[4] == "character"@);
    assert(apart[5] == "start_line"@);
    assert(apart[6] == "start_character"@);
    assert(apart[7] == "end_line"@);
    assert(apart[8] == "end_character"@);
    assert(apart[9] == "expect"@);
    assert(apart[10] == "dry_run"@);
}

/// Files are changed only where the caller says so: anything but a plain refusal
/// of a preview asks for one.
pub proof fn edits_are_previewed_unless_told(args: Map<Seq<char>, JsonView>)
    ensures
        !ops::wants_preview(args) <==> JsonView::Object(args).get("dry_run"@) == Some(
            JsonView::Bool(false),
        ),
{
}

/// An optional argument counts where it is a text that is not empty.
pub proof fn empty_arguments_are_not_given(args: Map<Seq<char>, JsonView>, k: Seq<char>)
    ensures
        ops::given(args, k) is Some <==> JsonView::Object(args).text_at(k) is Some
            && JsonView::Object(args).text_at(k)->Some_0.len() > 0,
        ops::given(args, k) is Some ==> ops::given(args, k) == JsonView::Object(args).text_at(k),
{
}

// ---------------------------------------------------------------------------
// The schema of a tool
// ---------------------------------------------------------------------------

/// The schema of the tool for an operation.
pub open spec fn schema(d: OperationDescriptorView) -> JsonView {
    JsonView::Object(ops::tool_schema(d))
}

/// What a schema says of a property.
pub open spec fn property(d: OperationDescriptorView, k: Seq<char>) -> Option<JsonView> {
    match schema(d).get("properties"@) {
        Some(props) => props.get(k),
        None => None,
    }
}

/// Whether a schema requires a property.
pub open spec fn requires_property(d: OperationDescriptorView, k: Seq<char>) -> bool {
    schema(d).items_at("required"@) is Some && schema(d).items_at("required"@)->Some_0.contains(
        JsonView::Text(k),
    )
}

/// What an operation says of its own parameters.
pub open spec fn own(d: OperationDescriptorView, k: Seq<char>) -> Option<JsonView> {
    match d.params_schema.get("properties"@) {
        Some(props) => props.get(k),
        None => None,
    }
}

proof fn schema_keys()
    ensures
        "type"@.len() == 4,
        "properties"@.len() == 10,
        "required"@.len() == 8,
        "project"@.len() == 7,
        "workspace"@.len() == 9,
        "workspace"@[0] == 'w',
        "file"@.len() == 4,
        "file"@[0] == 'f',
        "line"@.len() == 4,
        "line"@[0] == 'l',
        "character"@.len() == 9,
        "character"@[0] == 'c',
        "start_line"@.len() == 10,
        "start_character"@.len() == 15,
        "end_line"@.len() == 8,
        "end_character"@.len() == 13,
        "expect"@.len() == 6,
        "dry_run"@.len() == 7,
        "dry_run"@[0] == 'd',
        "project"@[0] == 'p',
        "description"@.len() == 11,
        "minimum"@.len() == 7,
        "default"@.len() == 7,
        "string"@.len() == 6,
        "integer"@.len() == 7,
        "boolean"@.len() == 7,
{
    reveal_strlit("type");
    reveal_strlit("properties");
    reveal_strlit("required");
    reveal_strlit("project");
    reveal_strlit("workspace");
    reveal_strlit("file");
    reveal_strlit("line");
    reveal_strlit("character");
    reveal_strlit("start_line");
    reveal_strlit("start_character");
    reveal_strlit("end_line");
    reveal_strlit("end_character");
    reveal_strlit("expect");
    reveal_strlit("dry_run");
    reveal_strlit("description");
    reveal_strlit("minimum");
    reveal_strlit("default");
    reveal_strlit("string");
    reveal_strlit("integer");
    reveal_strlit("boolean");
}

/// A tool offers every parameter of its operation as the operation describes it.
/// One that edits offers a preview on top, which is made by default.
pub proof fn tools_offer_the_operations_parameters(d: OperationDescriptorView, k: Seq<char>)
    ensures
        schema(d).text_at("type"@) == Some("object"@),
        own(d, k) is Some && !(d.kind == OperationKind::Edit && k == "dry_run"@) ==> property(d, k)
            == own(d, k),
        d.kind == OperationKind::Edit ==> property(d, "dry_run"@) is Some && property(
            d,
            "dry_run"@,
        )->Some_0.flag_at("default"@) == Some(true) && property(d, "dry_run"@)->Some_0.text_at(
            "type"@,
        ) == Some("boolean"@),
        d.kind == OperationKind::Query && own(d, "dry_run"@) is None ==> property(d, "dry_run"@)
            is None,
{
    schema_keys();
    let all = ops::target_properties(
        map![
            "project"@ => ops::text_property(ops::PROJECT_DESCRIPTION),
            "workspace"@ => ops::text_property(ops::WORKSPACE_DESCRIPTION)
        ],
        d.target,
    );
    assert(!all.contains_key("dry_run"@));
}

/// Whether a tool takes an argument of a type of its own.
pub open spec fn takes(d: OperationDescriptorView, k: Seq<char>, kind: Seq<char>) -> bool {
    own(d, k) is None ==> property(d, k) is Some && property(d, k)->Some_0.text_at("type"@) == Some(
        kind,
    )
}

/// A tool takes the arguments that its target is read from, as texts and
/// numbers.
pub proof fn tools_take_what_names_the_target(d: OperationDescriptorView)
    ensures
        takes(d, "project"@, "string"@),
        takes(d, "workspace"@, "string"@),
        d.target != TargetKind::Project ==> takes(d, "file"@, "string"@),
        d.target == TargetKind::Position ==> takes(d, "line"@, "integer"@) && takes(
            d,
            "character"@,
            "integer"@,
        ) && takes(d, "expect"@, "string"@),
        d.target == TargetKind::Selection ==> takes(d, "start_line"@, "integer"@) && takes(
            d,
            "start_character"@,
            "integer"@,
        ) && takes(d, "end_line"@, "integer"@) && takes(d, "end_character"@, "integer"@) && takes(
            d,
            "expect"@,
            "string"@,
        ),
{
    schema_keys();
}

/// A tool requires the project, what names its target, and what its operation
/// requires; and nothing else.
pub proof fn tools_require_what_names_the_target(d: OperationDescriptorView, k: Seq<char>)
    ensures
        ({
            let by_operation = d.params_schema.items_at("required"@) is Some
                && d.params_schema.items_at("required"@)->Some_0.contains(JsonView::Text(k));
            let in_file = d.target != TargetKind::Project && k == "file"@;
            let at_position = d.target == TargetKind::Position && (k == "line"@ || k
                == "character"@);
            let in_selection = d.target == TargetKind::Selection && (k == "start_line"@ || k
                == "start_character"@ || k == "end_line"@ || k == "end_character"@);
            requires_property(d, k) <==> k == "project"@ || by_operation || in_file || at_position
                || in_selection
        }),
{
    let head = ops::target_required(d.target);
    let tail = ops::own_required(d.params_schema);
    let all = head + tail;
    assert(schema(d).items_at("required"@) == Some(all)) by {
        schema_keys();
    }
    let wanted = JsonView::Text(k);
    assert(all.contains(wanted) <==> head.contains(wanted) || tail.contains(wanted)) by {
        if head.contains(wanted) {
            let i = choose|i: int| 0 <= i < head.len() && head[i] == wanted;
            assert(all[i] == wanted);
        }
        if tail.contains(wanted) {
            let i = choose|i: int| 0 <= i < tail.len() && tail[i] == wanted;
            assert(all[head.len() + i] == wanted);
        }
    }
    match d.target {
        TargetKind::Position => {
            assert(head[0] == JsonView::Text("project"@));
            assert(head[1] == JsonView::Text("file"@));
            assert(head[2] == JsonView::Text("line"@));
            assert(head[3] == JsonView::Text("character"@));
        },
        TargetKind::Selection => {
            assert(head[0] == JsonView::Text("project"@));
            assert(head[1] == JsonView::Text("file"@));
            assert(head[2] == JsonView::Text("start_line"@));
            assert(head[3] == JsonView::Text("start_character"@));
            assert(head[4] == JsonView::Text("end_line"@));
            assert(head[5] == JsonView::Text("end_character"@));
        },
        TargetKind::File => {
            assert(head[0] == JsonView::Text("project"@));
            assert(head[1] == JsonView::Text("file"@));
        },
        TargetKind::Project => {
            assert(head[0] == JsonView::Text("project"@));
        },
    }
}

/// A tool for an operation has the name of the operation, and says what the
/// operation does and whether it changes anything.
pub proof fn tools_say_what_their_operation_does(d: OperationDescriptorView)
    ensures
        mcp::tool_for(d).name == d.id,
        mcp::tool_for(d).input_schema == ops::tool_schema(d),
        d.description.is_prefix_of(mcp::tool_for(d).description),
        d.kind == OperationKind::Query ==> mcp::tool_for(d).description == d.description
            + " (read-only query)."@,
        d.kind == OperationKind::Edit ==> mcp::tool_for(d).description == d.description
            + " (edit; defaults to a preview \u{2014} pass dry_run=false to apply)."@,
{
    let told = mcp::tool_for(d).description;
    assert(told.subrange(0, d.description.len() as int) =~= d.description);
}

// ---------------------------------------------------------------------------
// Commands
// ---------------------------------------------------------------------------

/// A tool of the server is known by its name; any other name is that of an
/// operation.
pub proof fn tools_are_known_by_name(name: Seq<char>)
    ensures
        mcp::call_of(name) == Call::RegisterProject <==> name == "register_project"@,
        mcp::call_of(name) == Call::UnregisterProject <==> name == "unregister_project"@,
        mcp::call_of(name) == Call::ListProjects <==> name == "list_projects"@,
        mcp::call_of(name) == Call::ProjectStatus <==> name == "project_status"@,
        mcp::call_of(name) == Call::ListOperations <==> name == "list_operations"@,
{
    reveal_strlit("register_project");
    reveal_strlit("unregister_project");
    reveal_strlit("list_projects");
    reveal_strlit("project_status");
    reveal_strlit("list_operations");
    assert("register_project"@.len() == 16);
    assert("unregister_project"@.len() == 18);
    assert("list_projects"@.len() == 13);
    assert("project_status"@.len() == 14);
    assert("list_operations"@.len() == 15);
}

/// A command acts on the project, or on the path, that its arguments name; the
/// path as the server sees it.
pub proof fn commands_act_on_what_is_named(
    name: Seq<char>,
    args: Map<Seq<char>, JsonView>,
    complaint: Seq<char>,
    paths: Seq<(Seq<char>, Seq<char>)>,
)
    ensures
        ({
            let given = JsonView::Object(args);
            match mcp::command_of(name, args, complaint, paths) {
                Ok(CommandView::Register { id, requested, root }) => name == "register_project"@
                    && given.text_at("root"@) == Some(requested) && root == pathmap::mapped(
                    paths,
                    requested,
                ) && (id is Some ==> given.text_at("id"@) == id) && (id is None ==> given.get(
                    "id"@,
                ) is None || given.get("id"@) == Some(JsonView::Null)),
                Ok(CommandView::Unregister(id)) => name == "unregister_project"@ && given.text_at(
                    "id"@,
                ) == Some(id),
                Ok(CommandView::ListProjects) => name == "list_projects"@,
                Ok(CommandView::Status(id)) => name == "project_status"@ && given.text_at("id"@)
                    == Some(id),
                Ok(CommandView::ListOperations(id)) => name == "list_operations"@ && given.text_at(
                    "project"@,
                ) == Some(id),
                Ok(CommandView::Operate(id)) => mcp::call_of(name) == Call::Operation
                    && given.text_at("project"@) == Some(id),
                Err(e) => e.kind == McpErrorKind::InvalidParams && name != "list_projects"@,
            }
        }),
{
    tools_are_known_by_name(name);
}

/// A command with everything it takes is never refused.
pub proof fn whole_commands_are_read(
    name: Seq<char>,
    args: Map<Seq<char>, JsonView>,
    complaint: Seq<char>,
    paths: Seq<(Seq<char>, Seq<char>)>,
)
    requires
        JsonView::Object(args).text_at("project"@) is Some,
        JsonView::Object(args).text_at("id"@) is Some,
        JsonView::Object(args).text_at("root"@) is Some,
    ensures
        mcp::command_of(name, args, complaint, paths) is Ok,
{
}

} // verus!
