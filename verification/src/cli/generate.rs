//! Generation of commands from tool definitions.

use vstd::prelude::*;
use vstd::string::StringExecFns;

use crate::cli::clap_model::{
    arg_view, command_view, new_arg, new_arg_view, new_command, new_command_view, with_about,
    with_action, with_any_text, with_arg, with_choices, with_default, with_help, with_long,
    with_long_about, with_long_help, with_missing_value, with_negative_numbers, with_num_args,
    with_required, with_subcommand, with_value_name, with_version, without_help_subcommand, Action,
    ArgView, CommandView,
};
use crate::cli::help::{
    help_text, long_help_text, option_help, option_long_help, value_name, value_name_for_kind,
};
use crate::cli::names::{normalize_name, normalized};
use crate::cli::problem::{
    append_collisions, collisions, name_views, problem_views, CliBuildError, CliBuildProblem,
    ProblemView,
};
use crate::cli::schema::{
    analyze_object, analyzed_object, is_static, is_static_object, node_views, node_views_are,
    note_name, noted, KindView, NodeSpec, NodeView, Notes, NotesView, ObjectSpec, ObjectView,
    ScalarKind, ScalarView, ValueKind, ValueSpec, ValueView,
};
use crate::registry::{definition_views, input_json, DefinitionView, ToolDefinition};
use crate::text::{copy_texts, join_texts, joined, opt_text, same_text, texts};

verus! {

// ---------------------------------------------------------------------------------------------
// Options

/// The two spellings of a boolean.
pub open spec fn boolean_choices() -> Seq<Seq<char>> {
    seq!["true"@, "false"@]
}

/// What an option's encoding adds to it.
pub open spec fn with_kind(arg: ArgView, kind: KindView) -> ArgView {
    match kind {
        KindView::Scalar(ScalarView::Boolean) => ArgView {
            action: Some(Action::Once),
            num_args: Some((0nat, 1nat)),
            missing: Some("true"@),
            choices: Some(boolean_choices()),
            ..arg
        },
        KindView::Scalar(ScalarView::Text(choices)) => if choices.len() > 0 {
            ArgView { choices: Some(choices), ..arg }
        } else {
            arg
        },
        KindView::Scalar(_) => ArgView { negative_numbers: true, ..arg },
        KindView::Array(ScalarView::Boolean) => ArgView {
            action: Some(Action::Append),
            num_args: Some((0nat, 1nat)),
            missing: Some("true"@),
            choices: Some(boolean_choices()),
            ..arg
        },
        KindView::Array(ScalarView::Text(choices)) => if choices.len() > 0 {
            ArgView { action: Some(Action::Append), choices: Some(choices), ..arg }
        } else {
            ArgView { action: Some(Action::Append), ..arg }
        },
        KindView::Array(_) => ArgView {
            action: Some(Action::Append),
            negative_numbers: true,
            ..arg
        },
        KindView::Json(_) => arg,
    }
}

/// The option that stands for a value. It is required by the command only if no optional ancestor
/// decides whether it is needed.
pub open spec fn planned_arg(value: ValueView) -> ArgView {
    let named = ArgView {
        long: Some(value.cli_name),
        value_name: Some(value_name(value.kind)),
        help: Some(help_text(value)),
        long_help: Some(long_help_text(value)),
        ..new_arg_view(value.cli_name)
    };
    let encoded = with_kind(named, value.kind);
    if value.required && value.conditional_parent is None {
        ArgView { required: true, ..encoded }
    } else {
        encoded
    }
}

/// The options that stand for values.
pub open spec fn planned_args(values: Seq<ValueView>) -> Seq<ArgView> {
    Seq::new(values.len(), |i: int| planned_arg(values[i]))
}

/// Makes the two spellings of a boolean.
fn boolean_texts() -> (r: Vec<String>)
    ensures
        texts(r@) == boolean_choices(),
{
    let mut out: Vec<String> = Vec::new();
    out.push("true".to_owned());
    out.push("false".to_owned());
    assert(texts(out@) =~= boolean_choices());
    out
}

/// Lets an option stand for a boolean.
fn with_boolean(arg: clap::Arg) -> (r: clap::Arg)
    ensures
        arg_view(r) == (ArgView {
            num_args: Some((0nat, 1nat)),
            missing: Some("true"@),
            choices: Some(boolean_choices()),
            ..arg_view(arg)
        }),
{
    with_choices(with_missing_value(with_num_args(arg, 0, 1), "true"), boolean_texts())
}

/// Generates one Clap option.
pub fn value_arg(value: &ValueSpec) -> (r: clap::Arg)
    ensures
        arg_view(r) == planned_arg(value@),
{
    let arg = new_arg(value.cli_name.as_str());
    let arg = with_long(arg, value.cli_name.as_str());
    let arg = with_value_name(arg, value_name_for_kind(&value.kind));
    let arg = with_help(arg, option_help(value).as_str());
    let arg = with_long_help(arg, option_long_help(value).as_str());
    let arg = match &value.kind {
        ValueKind::Scalar(ScalarKind::Boolean) => with_boolean(with_action(arg, Action::Once)),
        ValueKind::Scalar(ScalarKind::Text(choices)) => if choices.len() > 0 {
            with_choices(arg, copy_texts(choices))
        } else {
            with_any_text(arg)
        },
        ValueKind::Scalar(_) => with_negative_numbers(arg),
        ValueKind::Array(ScalarKind::Boolean) => with_boolean(with_action(arg, Action::Append)),
        ValueKind::Array(ScalarKind::Text(choices)) => if choices.len() > 0 {
            with_choices(with_action(arg, Action::Append), copy_texts(choices))
        } else {
            with_action(arg, Action::Append)
        },
        ValueKind::Array(_) => with_negative_numbers(with_action(arg, Action::Append)),
        ValueKind::Json(_) => with_any_text(arg),
    };
    if value.required && value.conditional_parent.is_none() {
        with_required(arg)
    } else {
        arg
    }
}

/// The options of a property.
pub open spec fn node_values(node: NodeView) -> Seq<ValueView>
    decreases node,
{
    match node {
        NodeView::Object(object) => all_values(object.children),
        NodeView::Value(value) => seq![value],
        NodeView::Union(union) => seq![union.scalar] + all_values(union.object.children),
    }
}

/// The options of properties.
pub open spec fn all_values(nodes: Seq<NodeView>) -> Seq<ValueView>
    decreases nodes,
{
    if nodes.len() == 0 {
        Seq::empty()
    } else {
        all_values(nodes.drop_last()) + node_values(nodes.last())
    }
}

/// Values as mathematics.
pub open spec fn value_views(values: Seq<&ValueSpec>) -> Seq<ValueView> {
    Seq::new(values.len(), |i: int| values[i]@)
}

/// Collects flattened options from an object tree.
pub fn collect_values<'a>(object: &'a ObjectSpec, values: &mut Vec<&'a ValueSpec>)
    ensures
        value_views(final(values)@) == value_views(old(values)@) + all_values(object@.children),
    decreases object,
{
    let ghost before = value_views(values@);
    let ghost nodes = node_views(object.children@);
    let mut i: usize = 0;
    proof {
        node_views_are(object.children@);
        assert(nodes.take(0) =~= Seq::<NodeView>::empty());
        assert(before + all_values(nodes.take(0)) =~= before);
    }
    while i < object.children.len()
        invariant
            i <= object.children.len(),
            nodes == node_views(object.children@),
            nodes.len() == object.children.len(),
            forall|k: int| 0 <= k < nodes.len() ==> #[trigger] nodes[k] == object.children@[k]@,
            value_views(values@) == before + all_values(nodes.take(i as int)),
        decreases object.children.len() - i,
    {
        let ghost so_far = value_views(values@);
        proof {
            assert(nodes.take(i + 1).drop_last() =~= nodes.take(i as int));
            assert(nodes.take(i + 1).last() == object.children@[i as int]@);
            assert(decreases_to!(object => object.children@[i as int]));
        }
        match &object.children[i] {
            NodeSpec::Object(child) => {
                collect_values(child, values);
                assert(nodes[i as int] == NodeView::Object(child@));
                assert(node_values(nodes[i as int]) == all_values(child@.children));
            },
            NodeSpec::Value(value) => {
                values.push(value);
                assert(nodes[i as int] == NodeView::Value(value@));
                assert(value_views(values@) =~= so_far + seq![value@]);
            },
            NodeSpec::Union(union) => {
                values.push(&union.scalar);
                assert(value_views(values@) =~= so_far + seq![union.scalar@]);
                collect_values(&union.object, values);
                assert(nodes[i as int] == NodeView::Union(union@));
                assert(value_views(values@) =~= so_far + (seq![union.scalar@] + all_values(
                    union.object@.children,
                )));
            },
        }
        assert(value_views(values@) == so_far + node_values(nodes[i as int]));
        assert(value_views(values@) =~= before + all_values(nodes.take(i + 1)));
        i += 1;
    }
    assert(nodes.take(nodes.len() as int) =~= nodes);
}

// ---------------------------------------------------------------------------------------------
// Tools

/// Analyzed command and schema for one tool.
pub struct ToolSpec {
    /// Original MCP tool name.
    pub original_name: String,
    /// Normalized command name.
    pub cli_name: String,
    /// Tool description.
    pub description: String,
    /// Typed root object, or `None` for whole-input-only tools.
    pub root: Option<ObjectSpec>,
}

/// An analyzed tool as mathematics.
pub struct ToolView {
    pub original_name: Seq<char>,
    pub cli_name: Seq<char>,
    pub description: Seq<char>,
    pub root: Option<ObjectView>,
}

impl View for ToolSpec {
    type V = ToolView;

    open spec fn view(&self) -> ToolView {
        ToolView {
            original_name: self.original_name@,
            cli_name: self.cli_name@,
            description: self.description@,
            root: match self.root {
                Some(object) => Some(object@),
                None => None,
            },
        }
    }
}

/// Tools as mathematics.
pub open spec fn tool_views(tools: Seq<ToolSpec>) -> Seq<ToolView> {
    Seq::new(tools.len(), |i: int| tools[i]@)
}

/// What a tool becomes, and the problems after it. A schema that cannot be flattened leaves the
/// tool without options of its own.
pub open spec fn analyzed_tool(
    definition: DefinitionView,
    cli_name: Seq<char>,
    problems: Seq<ProblemView>,
) -> (ToolView, Seq<ProblemView>) {
    let schema = input_json(definition);
    let start = NotesView { names: Seq::empty(), problems };
    let (root, after) = if is_static(schema) {
        let (object, notes) = analyzed_object(None, Seq::empty(), false, None, schema, start);
        (Some(object), notes)
    } else {
        (None, start)
    };
    (
        ToolView {
            original_name: definition.name,
            cli_name,
            description: definition.description,
            root,
        },
        after.problems + collisions(after.names),
    )
}

/// Analyzes one tool definition.
pub fn analyze_tool(
    definition: ToolDefinition,
    cli_name: String,
    problems: Vec<CliBuildProblem>,
) -> (r: (ToolSpec, Vec<CliBuildProblem>))
    ensures
        (r.0@, problem_views(r.1@)) == analyzed_tool(
            definition@,
            cli_name@,
            problem_views(problems@),
        ),
{
    let schema = definition.input_schema_json();
    let mut notes = Notes { names: Vec::new(), problems };
    assert(name_views(notes.names@) =~= Seq::<(Seq<char>, Seq<Seq<char>>)>::empty());
    let root: Option<ObjectSpec> = if is_static_object(&schema) {
        let path = String::new();
        assert(path@ =~= Seq::<char>::empty());
        Some(analyze_object(&schema, None, path, false, None, &mut notes))
    } else {
        None
    };
    let mut problems = notes.problems;
    append_collisions(&mut problems, notes.names);
    (
        ToolSpec {
            original_name: definition.name,
            cli_name,
            description: definition.description,
            root,
        },
        problems,
    )
}

/// The subcommand of a tool with options.
pub open spec fn planned_tool(tool: ToolView, root: ObjectView) -> CommandView {
    CommandView {
        about: Some(tool.description),
        help_subcommand: false,
        args: planned_args(all_values(root.children)),
        ..new_command_view(tool.cli_name)
    }
}

/// Generates one tool subcommand.
pub fn tool_command(tool: &ToolSpec, root: &ObjectSpec) -> (r: clap::Command)
    requires
        tool@.root == Some(root@),
    ensures
        command_view(r) == planned_tool(tool@, root@),
{
    let mut command = without_help_subcommand(
        with_about(new_command(tool.cli_name.as_str()), tool.description.as_str()),
    );
    let mut values: Vec<&ValueSpec> = Vec::new();
    collect_values(root, &mut values);
    let ghost all = all_values(root@.children);
    assert(value_views(values@) =~= all);
    let ghost bare = command_view(command);
    let mut i: usize = 0;
    assert(planned_args(all.take(0)) =~= Seq::<ArgView>::empty());
    while i < values.len()
        invariant
            i <= values.len(),
            value_views(values@) == all,
            command_view(command) == (CommandView {
                args: planned_args(all.take(i as int)),
                ..bare
            }),
        decreases values.len() - i,
    {
        command = with_arg(command, value_arg(values[i]));
        proof {
            assert(all[i as int] == values@[i as int]@);
            assert(planned_args(all.take(i + 1)) =~= planned_args(all.take(i as int)).push(
                planned_arg(all[i as int]),
            ));
        }
        i += 1;
    }
    assert(all.take(all.len() as int) =~= all);
    command
}

/// The subcommands of tools; a tool without options of its own has none.
pub open spec fn planned_tools(tools: Seq<ToolView>) -> Seq<CommandView>
    decreases tools.len(),
{
    if tools.len() == 0 {
        Seq::empty()
    } else {
        match tools.last().root {
            Some(root) => planned_tools(tools.drop_last()).push(planned_tool(tools.last(), root)),
            None => planned_tools(tools.drop_last()),
        }
    }
}

/// The command names of tools.
pub open spec fn tool_names(tools: Seq<ToolView>) -> Seq<Seq<char>> {
    Seq::new(tools.len(), |i: int| tools[i].cli_name)
}

/// The command names of tools without options of their own.
pub open spec fn whole_input_names(tools: Seq<ToolView>) -> Seq<Seq<char>>
    decreases tools.len(),
{
    if tools.len() == 0 {
        Seq::empty()
    } else if tools.last().root is None {
        whole_input_names(tools.drop_last()).push(tools.last().cli_name)
    } else {
        whole_input_names(tools.drop_last())
    }
}

// ---------------------------------------------------------------------------------------------
// The root command

/// The output option.
pub open spec fn output_arg_view() -> ArgView {
    ArgView {
        long: Some("output"@),
        value_name: Some("MODE"@),
        default: Some("artifacts"@),
        choices: Some(seq!["artifacts"@, "structured"@, "raw"@, "binary"@]),
        help: Some("Selects artifacts, structured, raw, or binary output"@),
        long_help: Some(
            "Selects output: artifacts renders text and saves binary blocks; structured writes structuredContent JSON; raw writes the complete MCP result as JSON; binary writes exactly one decoded binary block."@,
        ),
        ..new_arg_view("output-mode"@)
    }
}

/// The image policy option.
pub open spec fn image_arg_view() -> ArgView {
    ArgView {
        long: Some("images"@),
        value_name: Some("MODE"@),
        default: Some("auto"@),
        choices: Some(seq!["auto"@, "kitty"@, "off"@]),
        help: Some("Controls Kitty image display in artifact output"@),
        ..new_arg_view("image-mode"@)
    }
}

/// The artifact directory option.
pub open spec fn directory_arg_view() -> ArgView {
    ArgView {
        long: Some("artifact-dir"@),
        value_name: Some("DIR"@),
        help: Some("Parent directory for artifact output"@),
        long_help: Some(
            "Parent directory for artifact output. A private unique invocation directory is created beneath it."@,
        ),
        ..new_arg_view("artifact-dir"@)
    }
}

/// The option that selects a tool for whole input.
pub open spec fn route_arg_view(names: Seq<Seq<char>>) -> ArgView {
    ArgView {
        long: Some("input-json"@),
        value_name: Some("TOOL"@),
        choices: Some(names),
        help: Some("Reads the selected tool's JSON object from stdin"@),
        long_help: Some(
            "Selects a tool and reads exactly one complete JSON object from standard input through EOF. This route cannot be combined with a tool subcommand."@,
        ),
        ..new_arg_view("input-json-route"@)
    }
}

/// The long description of the root command.
pub open spec fn root_long_about(tools: Seq<ToolView>) -> Seq<char> {
    let names = whole_input_names(tools);
    "Invokes local MCP tool handlers as native commands. Presentation options must precede the tool command. --input-json <TOOL> reads one complete JSON object from standard input instead of using typed tool options."@
        + (if names.len() > 0 {
        " Whole-input-only tools: "@ + joined(names, ", "@) + "."@
    } else {
        Seq::empty()
    })
}

/// The generated command tree.
pub open spec fn planned_root(
    name: Seq<char>,
    version: Option<Seq<char>>,
    tools: Seq<ToolView>,
) -> CommandView {
    CommandView {
        about: Some("Invokes local MCP tool handlers as native commands"@),
        long_about: Some(root_long_about(tools)),
        version,
        help_subcommand: false,
        args: seq![output_arg_view(), image_arg_view(), directory_arg_view()] + (if tools.len()
            > 0 {
            seq![route_arg_view(tool_names(tools))]
        } else {
            Seq::empty()
        }),
        subcommands: planned_tools(tools),
        ..new_command_view(name)
    }
}

/// Generates the root output option.
fn output_arg() -> (r: clap::Arg)
    ensures
        arg_view(r) == output_arg_view(),
{
    let mut modes: Vec<String> = Vec::new();
    modes.push("artifacts".to_owned());
    modes.push("structured".to_owned());
    modes.push("raw".to_owned());
    modes.push("binary".to_owned());
    assert(texts(modes@) =~= seq!["artifacts"@, "structured"@, "raw"@, "binary"@]);
    let arg = with_value_name(with_long(new_arg("output-mode"), "output"), "MODE");
    let arg = with_choices(with_default(arg, "artifacts"), modes);
    let arg = with_help(arg, "Selects artifacts, structured, raw, or binary output");
    with_long_help(
        arg,
        "Selects output: artifacts renders text and saves binary blocks; structured writes structuredContent JSON; raw writes the complete MCP result as JSON; binary writes exactly one decoded binary block.",
    )
}

/// Generates the root image policy option.
fn image_arg() -> (r: clap::Arg)
    ensures
        arg_view(r) == image_arg_view(),
{
    let mut modes: Vec<String> = Vec::new();
    modes.push("auto".to_owned());
    modes.push("kitty".to_owned());
    modes.push("off".to_owned());
    assert(texts(modes@) =~= seq!["auto"@, "kitty"@, "off"@]);
    let arg = with_value_name(with_long(new_arg("image-mode"), "images"), "MODE");
    let arg = with_choices(with_default(arg, "auto"), modes);
    with_help(arg, "Controls Kitty image display in artifact output")
}

/// Generates the root artifact directory option.
fn directory_arg() -> (r: clap::Arg)
    ensures
        arg_view(r) == directory_arg_view(),
{
    let arg = with_value_name(with_long(new_arg("artifact-dir"), "artifact-dir"), "DIR");
    let arg = with_help(arg, "Parent directory for artifact output");
    with_long_help(
        arg,
        "Parent directory for artifact output. A private unique invocation directory is created beneath it.",
    )
}

/// Generates the root option that selects a tool for whole input.
fn route_arg(names: Vec<String>) -> (r: clap::Arg)
    ensures
        arg_view(r) == route_arg_view(texts(names@)),
{
    let arg = with_value_name(with_long(new_arg("input-json-route"), "input-json"), "TOOL");
    let arg = with_help(
        with_choices(arg, names),
        "Reads the selected tool's JSON object from stdin",
    );
    with_long_help(
        arg,
        "Selects a tool and reads exactly one complete JSON object from standard input through EOF. This route cannot be combined with a tool subcommand.",
    )
}

/// Generates the root command.
pub fn root_command(name: &str, version: &Option<String>, tools: &Vec<ToolSpec>) -> (r:
    clap::Command)
    ensures
        command_view(r) == planned_root(name@, opt_text(*version), tool_views(tools@)),
{
    let ghost views = tool_views(tools@);
    let mut whole: Vec<String> = Vec::new();
    let mut names: Vec<String> = Vec::new();
    let mut i: usize = 0;
    assert(views.take(0) =~= Seq::<ToolView>::empty());
    assert(texts(whole@) =~= Seq::<Seq<char>>::empty());
    while i < tools.len()
        invariant
            i <= tools.len(),
            views == tool_views(tools@),
            texts(whole@) == whole_input_names(views.take(i as int)),
            names.len() == i,
            forall|k: int| 0 <= k < i ==> (#[trigger] names@[k])@ == tools@[k].cli_name@,
        decreases tools.len() - i,
    {
        proof {
            assert(views.take(i + 1).drop_last() =~= views.take(i as int));
            assert(views.take(i + 1).last() == tools@[i as int]@);
        }
        let ghost were = texts(whole@);
        if tools[i].root.is_none() {
            whole.push(tools[i].cli_name.clone());
            assert(texts(whole@) =~= were.push(tools@[i as int].cli_name@));
        }
        names.push(tools[i].cli_name.clone());
        i += 1;
    }
    assert(views.take(tools.len() as int) =~= views);
    assert(texts(names@) =~= tool_names(views));
    assert(whole.len() == whole_input_names(views).len());
    let mut long_about =
        "Invokes local MCP tool handlers as native commands. Presentation options must precede the tool command. --input-json <TOOL> reads one complete JSON object from standard input instead of using typed tool options.".to_owned();
    let ghost opening = long_about@;
    let ghost closing = if whole_input_names(views).len() > 0 {
        " Whole-input-only tools: "@ + joined(whole_input_names(views), ", "@) + "."@
    } else {
        Seq::empty()
    };
    if whole.len() > 0 {
        long_about.append(" Whole-input-only tools: ");
        long_about.append(join_texts(&whole, ", ").as_str());
        long_about.append(".");
    }
    assert(long_about@ =~= opening + closing);
    let mut command = with_long_about(
        with_about(new_command(name), "Invokes local MCP tool handlers as native commands"),
        long_about.as_str(),
    );
    command = without_help_subcommand(command);
    command = with_arg(with_arg(with_arg(command, output_arg()), image_arg()), directory_arg());
    if let Some(version) = version {
        command = with_version(command, version.as_str());
    }
    if tools.len() > 0 {
        command = with_arg(command, route_arg(names));
    }
    let ghost planned = planned_root(name@, opt_text(*version), views);
    assert(command_view(command).args =~= planned.args);
    let ghost bare = command_view(command);
    let mut k: usize = 0;
    assert(planned_tools(views.take(0)) =~= Seq::<CommandView>::empty());
    while k < tools.len()
        invariant
            k <= tools.len(),
            views == tool_views(tools@),
            command_view(command) == (CommandView {
                subcommands: planned_tools(views.take(k as int)),
                ..bare
            }),
        decreases tools.len() - k,
    {
        proof {
            assert(views.take(k + 1).drop_last() =~= views.take(k as int));
            assert(views.take(k + 1).last() == tools@[k as int]@);
        }
        if let Some(root) = &tools[k].root {
            command = with_subcommand(command, tool_command(&tools[k], root));
        }
        k += 1;
    }
    assert(views.take(tools.len() as int) =~= views);
    command
}

// ---------------------------------------------------------------------------------------------
// All tools

/// What the analysis of tool definitions has found so far.
pub struct SurveyView {
    pub tools: Seq<ToolView>,
    /// Each command spelling with the tool names that have it.
    pub names: Seq<(Seq<char>, Seq<Seq<char>>)>,
    pub problems: Seq<ProblemView>,
}

/// What the analysis of tool definitions finds.
pub open spec fn survey(definitions: Seq<DefinitionView>) -> SurveyView
    decreases definitions.len(),
{
    if definitions.len() == 0 {
        SurveyView { tools: Seq::empty(), names: Seq::empty(), problems: Seq::empty() }
    } else {
        let before = survey(definitions.drop_last());
        let definition = definitions.last();
        match normalized(definition.name) {
            None => SurveyView {
                problems: before.problems.push(
                    ProblemView::InvalidName { kind: "tool"@, name: definition.name },
                ),
                ..before
            },
            Some(cli_name) => {
                let reserved = if cli_name == "help"@ {
                    before.problems.push(
                        ProblemView::ReservedName { kind: "tool"@, name: definition.name },
                    )
                } else {
                    before.problems
                };
                let (tool, problems) = analyzed_tool(definition, cli_name, reserved);
                SurveyView {
                    tools: before.tools.push(tool),
                    names: noted(before.names, cli_name, definition.name),
                    problems,
                }
            },
        }
    }
}

/// The problems with a registry's tools.
pub open spec fn survey_problems(definitions: Seq<DefinitionView>) -> Seq<ProblemView> {
    survey(definitions).problems + collisions(survey(definitions).names)
}

/// Analyzes tool definitions.
fn survey_tools(definitions: Vec<ToolDefinition>) -> (r: (Vec<ToolSpec>, Vec<CliBuildProblem>))
    ensures
        tool_views(r.0@) == survey(definition_views(definitions@)).tools,
        problem_views(r.1@) == survey_problems(definition_views(definitions@)),
{
    let ghost all = definition_views(definitions@);
    let ghost given = definitions@;
    let mut definitions = definitions;
    let mut tools: Vec<ToolSpec> = Vec::new();
    let mut names: Vec<(String, Vec<String>)> = Vec::new();
    let mut problems: Vec<CliBuildProblem> = Vec::new();
    let mut done: Ghost<int> = Ghost(0);
    proof {
        assert(all.take(0) =~= Seq::<DefinitionView>::empty());
        assert(tool_views(tools@) =~= Seq::<ToolView>::empty());
        assert(name_views(names@) =~= Seq::<(Seq<char>, Seq<Seq<char>>)>::empty());
        assert(problem_views(problems@) =~= Seq::<ProblemView>::empty());
    }
    while definitions.len() > 0
        invariant
            0 <= done@ <= given.len(),
            all == definition_views(given),
            definitions@ == given.skip(done@),
            survey(all.take(done@)) == (SurveyView {
                tools: tool_views(tools@),
                names: name_views(names@),
                problems: problem_views(problems@),
            }),
        decreases definitions.len(),
    {
        let ghost n = done@;
        let definition = definitions.remove(0);
        proof {
            assert(definition == given[n]);
            assert(all.take(n + 1).drop_last() =~= all.take(n));
            assert(all.take(n + 1).last() == definition@);
            assert(definitions@ =~= given.skip(n + 1));
            done@ = n + 1;
        }
        let ghost were = problem_views(problems@);
        match normalize_name(definition.name.as_str()) {
            Ok(cli_name) => {
                if same_text(cli_name.as_str(), "help") {
                    problems.push(
                        CliBuildProblem::ReservedName {
                            kind: "tool",
                            name: definition.name.clone(),
                        },
                    );
                    assert(problem_views(problems@) =~= were.push(
                        (ProblemView::ReservedName { kind: "tool"@, name: definition.name@ }),
                    ));
                }
                note_name(&mut names, cli_name.as_str(), definition.name.as_str());
                let ghost tools_before = tool_views(tools@);
                let (tool, more) = analyze_tool(definition, cli_name, problems);
                problems = more;
                tools.push(tool);
                assert(tool_views(tools@) =~= tools_before.push(tool@));
            },
            Err(_) => {
                let name = definition.name;
                problems.push(CliBuildProblem::InvalidName { kind: "tool", name });
                assert(problem_views(problems@) =~= were.push(
                    (ProblemView::InvalidName { kind: "tool"@, name: name@ }),
                ));
            },
        }
    }
    proof {
        assert(done@ == given.len());
        assert(all.take(given.len() as int) =~= all);
    }
    append_collisions(&mut problems, names);
    (tools, problems)
}

/// Generates the command for a name, a version and tool definitions, or reports every problem.
/// Definitions are only asked for when the name has a spelling.
pub fn generate(
    name: &str,
    version: &Option<String>,
    definitions: Vec<ToolDefinition>,
) -> (r: Result<(clap::Command, Vec<ToolSpec>), CliBuildError>)
    ensures
        match normalized(name@) {
            None => r matches Err(error) && error.reported() == seq![
                ProblemView::InvalidName { kind: "command"@, name: name@ },
            ],
            Some(root) => {
                let views = definition_views(definitions@);
                match r {
                    Ok((command, tools)) => {
                        &&& survey_problems(views).len() == 0
                        &&& tool_views(tools@) == survey(views).tools
                        &&& command_view(command) == planned_root(
                            root,
                            opt_text(*version),
                            survey(views).tools,
                        )
                    },
                    Err(error) => survey_problems(views).len() > 0 && error.reported()
                        == survey_problems(views),
                }
            },
        },
{
    let root = match normalize_name(name) {
        Ok(root) => root,
        Err(_) => {
            let mut problems: Vec<CliBuildProblem> = Vec::new();
            problems.push(CliBuildProblem::InvalidName { kind: "command", name: name.to_owned() });
            assert(problem_views(problems@) =~= seq![
                ProblemView::InvalidName { kind: "command"@, name: name@ },
            ]);
            return Err(CliBuildError::new(problems));
        },
    };
    let (tools, problems) = survey_tools(definitions);
    assert(problems.len() == problem_views(problems@).len());
    if problems.len() > 0 {
        return Err(CliBuildError::new(problems));
    }
    let command = root_command(root.as_str(), version, &tools);
    Ok((command, tools))
}

} // verus!
