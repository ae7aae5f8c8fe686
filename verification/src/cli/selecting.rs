//! What the command line selects: tools by their names, arguments by their options, and how the
//! output is presented.

use vstd::prelude::*;

use crate::cli::adapter::{option_table, option_table_reflects, selection, tool_named_at};
use crate::cli::clap_model::MatchView;
use crate::cli::distinct::{names_are_distinct, tool_accounts};
use crate::cli::flatten::{
    dotted, is_leaf, lists_properties, property_at, schema_properties_become_arguments,
};
use crate::cli::generate::{
    all_values, image_arg_view, output_arg_view, planned_root, planned_tools, root_long_about, survey,
    survey_problems, whole_input_names, ToolView,
};
use crate::cli::names::{normalized, normalized_path};
use crate::cli::options::{images_of, mode_of, selected_options, ImageMode, InputData, OutputMode};
use crate::cli::problem::{all_quoted, collisions, problem_text, quoted, ProblemView};
use crate::cli::reach::{member_at, options_stand};
use crate::cli::rebuild::option_parsed;
use crate::cli::schema::{analyzed_object, kind_of, NotesView, ValueView};
use crate::json::{canonical, JsonView};
use crate::registry::{input_json, properties_sound, DefinitionView};
use crate::table::{ascending, keys};
use crate::text::{joined, text_lt};

verus! {

// ---------------------------------------------------------------------------------------------
// Tools

/// Notes before anything was found.
pub open spec fn no_notes() -> NotesView {
    NotesView { names: Seq::empty(), problems: Seq::empty() }
}

/// Whether a tool is what a definition becomes where there are no problems.
pub open spec fn presents(tool: ToolView, definition: DefinitionView) -> bool {
    &&& tool.original_name == definition.name
    &&& Some(tool.cli_name) == normalized(definition.name)
    &&& tool.cli_name != "help"@
    &&& tool.description == definition.description
    &&& tool.root == Some(
        analyzed_object(None, Seq::empty(), false, None, input_json(definition), no_notes()).0,
    )
}

/// The schema of a definition is an object that lists its properties.
proof fn definitions_list_properties(definition: DefinitionView)
    ensures
        lists_properties(input_json(definition)),
{
    reveal_strlit("properties");
    reveal_strlit("required");
    reveal_strlit("type");
    reveal_strlit("$ref");
    reveal_strlit("oneOf");
    reveal_strlit("anyOf");
    reveal_strlit("additionalProperties");
    let schema = input_json(definition);
    let members = schema->Object_0;
    assert("properties"@.len() == 10 && "required"@.len() == 8 && "type"@.len() == 4 && "$ref"@.len()
        == 4 && "oneOf"@.len() == 5 && "anyOf"@.len() == 5 && "additionalProperties"@.len() == 20);
    assert("$ref"@[0] == '$' && "type"@[0] == 't');
    crate::table::lookup_absent(members, "$ref"@);
    crate::table::lookup_absent(members, "oneOf"@);
    crate::table::lookup_absent(members, "anyOf"@);
    crate::table::lookup_absent(members, "additionalProperties"@);
    crate::table::lookup_absent(members, "properties"@);
    crate::table::lookup_at(members, "type"@, members.len() - 1);
}

/// The tools of a registry without problems stand one for one for its definitions, in their order:
/// each is called by the spelling of its protocol name, and has the options of its schema.
pub proof fn tools_follow_definitions(definitions: Seq<DefinitionView>)
    requires
        survey(definitions).problems.len() == 0,
    ensures
        survey(definitions).tools.len() == definitions.len(),
        forall|i: int|
            0 <= i < definitions.len() ==> presents(
                #[trigger] survey(definitions).tools[i],
                definitions[i],
            ),
    decreases definitions.len(),
{
    if definitions.len() > 0 {
        let rest = definitions.drop_last();
        let before = survey(rest);
        let after = survey(definitions);
        let definition = definitions.last();
        let cli_name = normalized(definition.name)->0;
        let reserved = if cli_name == "help"@ {
            before.problems.push(ProblemView::ReservedName { kind: "tool"@, name: definition.name })
        } else {
            before.problems
        };
        tool_accounts(definition, cli_name, reserved);
        tools_follow_definitions(rest);
        assert(reserved =~= Seq::<ProblemView>::empty());
        definitions_list_properties(definition);
        assert forall|i: int| 0 <= i < definitions.len() implies presents(
            #[trigger] after.tools[i],
            definitions[i],
        ) by {
            if i < rest.len() {
                assert(after.tools[i] == before.tools[i]);
                assert(rest[i] == definitions[i]);
            }
        }
    }
}

/// A definition whose properties are sound has a canonical schema.
proof fn schemas_are_canonical(definition: DefinitionView)
    requires
        definition.input.properties matches Some(fields) ==> properties_sound(fields),
    ensures
        canonical(input_json(definition)),
{
    reveal_strlit("properties");
    reveal_strlit("required");
    reveal_strlit("type");
    assert("properties"@[0] == 'p' && "required"@[0] == 'r' && "type"@[0] == 't');
    assert(text_lt("properties"@, "required"@));
    assert(text_lt("required"@, "type"@));
    assert(text_lt("properties"@, "type"@));
    let members = input_json(definition)->Object_0;
    assert(ascending(keys(members)));
    assert forall|i: int| 0 <= i < members.len() implies canonical((#[trigger] members[i]).1) by {
        reveal_with_fuel(canonical, 3);
        if let JsonView::Object(fields) = members[i].1 {
            assert(properties_sound(fields));
        }
    }
}

/// What a tool's command is given for a property of the tool's schema is what the tool gets: the
/// subcommand with the spelling of the tool's name selects the tool, and the option with the
/// spelling of the property's path sets the argument at that path.
pub proof fn command_line_options_become_arguments(
    command: clap::Command,
    definitions: Seq<DefinitionView>,
    found: MatchView,
    input: InputData,
    i: int,
    name: Seq<char>,
    inner: MatchView,
    path: Seq<Seq<char>>,
) -> (value: ValueView)
    requires
        survey_problems(definitions).len() == 0,
        0 <= i < definitions.len(),
        definitions[i].input.properties matches Some(fields) ==> properties_sound(fields),
        found.subcommand == Some((name, Box::new(inner))),
        Some(name) == normalized(definitions[i].name),
        path.len() > 0,
        property_at(input_json(definitions[i]), path) matches Some(leaf) && is_leaf(leaf),
        normalized_path(dotted(Seq::empty(), path)) matches Some(spelling)
            && inner.values.dom().contains(spelling),
        selection(command, survey(definitions).tools, found, input) is Ok,
    ensures
        Some(value.cli_name) == normalized_path(dotted(Seq::empty(), path)),
        value.kind == kind_of(property_at(input_json(definitions[i]), path)->0),
        option_parsed(value, inner.values[value.cli_name]) is Ok,
        selection(command, survey(definitions).tools, found, input)->Ok_0.tool
            == definitions[i].name,
        member_at(
            selection(command, survey(definitions).tools, found, input)->Ok_0.arguments,
            path,
        ) == Some(option_parsed(value, inner.values[value.cli_name])->Ok_0),
{
    let tools = survey(definitions).tools;
    let schema = input_json(definitions[i]);
    let root = analyzed_object(None, Seq::empty(), false, None, schema, no_notes()).0;
    tools_follow_definitions(definitions);
    names_are_distinct(definitions);
    assert(presents(tools[i], definitions[i]));
    tool_named_at(tools, i);
    schemas_are_canonical(definitions[i]);
    definitions_list_properties(definitions[i]);
    let table = option_table(inner, all_values(root.children));
    let spelling = normalized_path(dotted(Seq::empty(), path))->0;
    let option = crate::cli::flatten::deep_properties_have_options(
        None,
        Seq::empty(),
        false,
        None,
        schema,
        no_notes(),
        path,
    );
    crate::cli::rebuild::analysis_names_objects(
        None,
        Seq::empty(),
        false,
        None,
        schema,
        no_notes(),
    );
    options_stand(root.children, option);
    let k = choose|k: int|
        0 <= k < all_values(root.children).len() && all_values(root.children)[k] == option;
    option_table_reflects(inner, all_values(root.children), k);
    schema_properties_become_arguments(schema, no_notes(), table, path, inner.values[spelling])
}

/// The command of a registry offers every tool as a subcommand of its own and for whole input, and
/// nothing else.
pub proof fn commands_offer_every_tool(
    name: Seq<char>,
    version: Option<Seq<char>>,
    definitions: Seq<DefinitionView>,
    i: int,
)
    requires
        survey(definitions).problems.len() == 0,
        0 <= i < definitions.len(),
    ensures
        planned_root(name, version, survey(definitions).tools).subcommands.len()
            == definitions.len(),
        Some(planned_root(name, version, survey(definitions).tools).subcommands[i].name)
            == normalized(definitions[i].name),
        planned_root(name, version, survey(definitions).tools).subcommands[i].about == Some(
            definitions[i].description,
        ),
        planned_root(name, version, survey(definitions).tools).args.len() == 4,
        planned_root(name, version, survey(definitions).tools).args[3].choices matches Some(names)
            && names.len() == definitions.len() && Some(names[i]) == normalized(
            definitions[i].name,
        ),
{
    let tools = survey(definitions).tools;
    tools_follow_definitions(definitions);
    assert forall|k: int| 0 <= k < tools.len() implies (#[trigger] tools[k]).root is Some by {
        assert(presents(tools[k], definitions[k]));
    }
    all_planned(tools, i);
    assert(presents(tools[i], definitions[i]));
}

/// Tools with options are all planned, in order.
proof fn all_planned(tools: Seq<ToolView>, i: int)
    requires
        0 <= i < tools.len(),
        forall|k: int| 0 <= k < tools.len() ==> (#[trigger] tools[k]).root is Some,
    ensures
        planned_tools(tools).len() == tools.len(),
        planned_tools(tools)[i].name == tools[i].cli_name,
        planned_tools(tools)[i].about == Some(tools[i].description),
    decreases tools.len(),
{
    let rest = tools.drop_last();
    assert forall|k: int| 0 <= k < rest.len() implies (#[trigger] rest[k]).root is Some by {
        assert(rest[k] == tools[k]);
    }
    assert(tools[tools.len() - 1].root is Some);
    if rest.len() > 0 {
        all_planned(
            rest,
            if i < rest.len() {
                i
            } else {
                0
            },
        );
        if i < rest.len() {
            assert(rest[i] == tools[i]);
        }
    } else {
        assert(planned_tools(rest) =~= Seq::empty());
    }
}

/// A tool is named for whole input only exactly if it has no options of its own.
pub proof fn whole_input_tools_are_named(tools: Seq<ToolView>, name: Seq<char>)
    ensures
        whole_input_names(tools).contains(name) <==> exists|i: int|
            0 <= i < tools.len() && (#[trigger] tools[i]).cli_name == name && tools[i].root is None,
    decreases tools.len(),
{
    if tools.len() > 0 {
        let rest = tools.drop_last();
        let named = whole_input_names(tools);
        let before = whole_input_names(rest);
        whole_input_tools_are_named(rest, name);
        if named.contains(name) {
            let k = choose|k: int| 0 <= k < named.len() && named[k] == name;
            if k < before.len() {
                assert(before[k] == name);
                let i = choose|i: int|
                    0 <= i < rest.len() && (#[trigger] rest[i]).cli_name == name && rest[i].root
                        is None;
                assert(tools[i] == rest[i]);
            } else {
                assert(tools[tools.len() - 1].cli_name == name);
            }
        }
        if exists|i: int|
            0 <= i < tools.len() && (#[trigger] tools[i]).cli_name == name && tools[i].root
                is None {
            let i = choose|i: int|
                0 <= i < tools.len() && (#[trigger] tools[i]).cli_name == name && tools[i].root
                    is None;
            if i < rest.len() {
                assert(rest[i] == tools[i]);
                let k = choose|k: int| 0 <= k < before.len() && before[k] == name;
                assert(named[k] == name);
            } else {
                assert(named[named.len() - 1] == name);
            }
        }
    }
}

/// A collision is reported exactly for every spelling that more than one name has, with these
/// names.
pub proof fn collisions_name_the_shared(
    names: Seq<(Seq<char>, Seq<Seq<char>>)>,
    problem: ProblemView,
)
    ensures
        collisions(names).contains(problem) <==> exists|i: int|
            0 <= i < names.len() && (#[trigger] names[i]).1.len() > 1 && problem
                == (ProblemView::NameCollision { cli_name: names[i].0, originals: names[i].1 }),
    decreases names.len(),
{
    if names.len() > 0 {
        let rest = names.drop_last();
        let all = collisions(names);
        let before = collisions(rest);
        collisions_name_the_shared(rest, problem);
        if all.contains(problem) {
            let k = choose|k: int| 0 <= k < all.len() && all[k] == problem;
            if k < before.len() {
                assert(before[k] == problem);
                let i = choose|i: int|
                    0 <= i < rest.len() && (#[trigger] rest[i]).1.len() > 1 && problem == (
                    ProblemView::NameCollision { cli_name: rest[i].0, originals: rest[i].1 });
                assert(names[i] == rest[i]);
            } else {
                assert(names[names.len() - 1].1.len() > 1);
            }
        }
        if exists|i: int|
            0 <= i < names.len() && (#[trigger] names[i]).1.len() > 1 && problem == (
            ProblemView::NameCollision { cli_name: names[i].0, originals: names[i].1 }) {
            let i = choose|i: int|
                0 <= i < names.len() && (#[trigger] names[i]).1.len() > 1 && problem == (
                ProblemView::NameCollision { cli_name: names[i].0, originals: names[i].1 });
            if i < rest.len() {
                assert(rest[i] == names[i]);
                let k = choose|k: int| 0 <= k < before.len() && before[k] == problem;
                assert(all[k] == problem);
            } else {
                assert(all[all.len() - 1] == problem);
            }
        }
    }
}

// ---------------------------------------------------------------------------------------------
// Presentation

/// The words for output modes differ.
proof fn words_differ()
    ensures
        "artifacts"@ != "structured"@,
        "artifacts"@ != "raw"@,
        "artifacts"@ != "binary"@,
        "structured"@ != "raw"@,
        "structured"@ != "binary"@,
        "raw"@ != "binary"@,
        "auto"@ != "kitty"@,
        "auto"@ != "off"@,
        "kitty"@ != "off"@,
{
    reveal_strlit("artifacts");
    reveal_strlit("structured");
    reveal_strlit("raw");
    reveal_strlit("binary");
    reveal_strlit("auto");
    reveal_strlit("kitty");
    reveal_strlit("off");
    assert("artifacts"@.len() == 9 && "structured"@.len() == 10 && "raw"@.len() == 3
        && "binary"@.len() == 6 && "auto"@.len() == 4 && "kitty"@.len() == 5 && "off"@.len() == 3);
}

/// Every output mode and every image policy is chosen by its own name, and by no other text.
pub proof fn settings_are_chosen_by_name(text: Seq<char>)
    ensures
        mode_of(text) == Some(OutputMode::Artifacts) <==> text == "artifacts"@,
        mode_of(text) == Some(OutputMode::Structured) <==> text == "structured"@,
        mode_of(text) == Some(OutputMode::Raw) <==> text == "raw"@,
        mode_of(text) == Some(OutputMode::Binary) <==> text == "binary"@,
        images_of(text) == Some(ImageMode::Auto) <==> text == "auto"@,
        images_of(text) == Some(ImageMode::Kitty) <==> text == "kitty"@,
        images_of(text) == Some(ImageMode::Off) <==> text == "off"@,
{
    words_differ();
}

/// The command offers exactly the names that are understood, and what it takes by default is what
/// a program without settings uses.
pub proof fn offered_settings_are_understood(text: Seq<char>)
    ensures
        mode_of(text) is Some <==> output_arg_view().choices->0.contains(text),
        images_of(text) is Some <==> image_arg_view().choices->0.contains(text),
        output_arg_view().choices is Some && output_arg_view().default is Some && mode_of(
            output_arg_view().default->0,
        ) == Some(OutputMode::Artifacts),
        image_arg_view().choices is Some && image_arg_view().default is Some && images_of(
            image_arg_view().default->0,
        ) == Some(ImageMode::Auto),
{
    words_differ();
    let modes = output_arg_view().choices->0;
    let images = image_arg_view().choices->0;
    assert(modes[0] == "artifacts"@ && modes[1] == "structured"@ && modes[2] == "raw"@ && modes[3]
        == "binary"@ && modes.len() == 4);
    assert(images[0] == "auto"@ && images[1] == "kitty"@ && images[2] == "off"@ && images.len()
        == 3);
    if modes.contains(text) {
        let k = choose|k: int| 0 <= k < modes.len() && modes[k] == text;
        assert(k == 0 || k == 1 || k == 2 || k == 3);
    }
    if images.contains(text) {
        let k = choose|k: int| 0 <= k < images.len() && images[k] == text;
        assert(k == 0 || k == 1 || k == 2);
    }
}

/// A directory or an image policy on the command line goes with artifact output only; all other
/// settings are taken as they are.
pub proof fn artifact_settings_need_artifacts(
    mode: Seq<char>,
    images: Seq<char>,
    images_typed: bool,
    directory: Option<Seq<char>>,
)
    requires
        mode_of(mode) is Some,
        images_of(images) is Some,
    ensures
        selected_options(mode, images, images_typed, directory) is Err <==> mode != "artifacts"@ && (
        images_typed || directory is Some),
        selected_options(mode, images, images_typed, directory) matches Ok(options) ==> {
            &&& Some(options.mode) == mode_of(mode)
            &&& Some(options.images) == images_of(images)
            &&& options.artifact_dir == directory
        },
{
    words_differ();
}

/// The settings that the command line gives are those that the output is presented with.
pub proof fn output_settings_reach_the_invocation(
    command: clap::Command,
    tools: Seq<ToolView>,
    found: MatchView,
    input: InputData,
)
    requires
        mode_of(found.values["output-mode"@][0]) is Some,
        images_of(found.values["image-mode"@][0]) is Some,
    ensures
        selection(command, tools, found, input) matches Ok(selected) ==> {
            &&& Some(selected.output.mode) == mode_of(found.values["output-mode"@][0])
            &&& Some(selected.output.images) == images_of(found.values["image-mode"@][0])
            &&& selected.output.artifact_dir == (if found.values.dom().contains("artifact-dir"@) {
                Some(found.values["artifact-dir"@][0])
            } else {
                None
            })
            &&& found.typed.contains("image-mode"@) || found.values.dom().contains("artifact-dir"@)
                ==> selected.output.mode == OutputMode::Artifacts
        },
{
    words_differ();
}

/// A name between backquotes.
pub open spec fn in_backquotes(name: Seq<char>) -> Seq<char> {
    "`"@ + name + "`"@
}

/// Every problem is stated with the names that it is about, between backquotes.
pub proof fn problems_name_their_names(kind: Seq<char>, name: Seq<char>, other: Seq<char>)
    ensures
        problem_text(ProblemView::InvalidName { kind, name }) == "unsupported "@ + kind + " name "@
            + in_backquotes(name),
        problem_text(ProblemView::ReservedName { kind, name }) == kind + " name "@ + in_backquotes(
            name,
        ) + " is reserved for help"@,
        problem_text(ProblemView::ApplicationCommandCollision { name })
            == "application already has a "@ + in_backquotes(name) + " subcommand"@,
        problem_text(
            (ProblemView::NameCollision { cli_name: kind, originals: seq![name, other] }),
        ) == in_backquotes(kind) + " is shared by "@ + (in_backquotes(name) + ", "@ + in_backquotes(
            other,
        )),
{
    let both = all_quoted(seq![name, other]);
    assert(both.drop_last() =~= seq![quoted(name)]);
    assert(joined(both.drop_last(), ", "@) == quoted(name));
    assert(joined(both, ", "@) == quoted(name) + ", "@ + quoted(other));
}

/// Tools that only take whole input are named at the end of the description, where there are any.
pub proof fn whole_input_tools_are_announced(tools: Seq<ToolView>) -> (front: Seq<char>)
    ensures
        whole_input_names(tools).len() == 0 ==> root_long_about(tools) == front,
        whole_input_names(tools).len() > 0 ==> root_long_about(tools) == front
            + " Whole-input-only tools: "@ + joined(whole_input_names(tools), ", "@) + "."@,
        front == root_long_about(Seq::empty()),
{
    let front = root_long_about(Seq::empty());
    let none = Seq::<char>::empty();
    assert(whole_input_names(Seq::empty()).len() == 0);
    let names = whole_input_names(tools);
    if names.len() > 0 {
        assert(root_long_about(tools) =~= front + " Whole-input-only tools: "@ + joined(names, ", "@)
            + "."@);
    }
    front
}

} // verus!
