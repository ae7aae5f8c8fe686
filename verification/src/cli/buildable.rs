//! When a registry can be built into a command: names that can be spelled, are free and are not
//! shared are all that it takes.

use vstd::prelude::*;

use crate::cli::distinct::{object_accounts, survey_accounts, times, tool_times, uses};
use crate::cli::flatten::arranged_to;
use crate::cli::generate::{
    all_values, analyzed_tool, node_values, survey, survey_problems, ToolView,
};
use crate::cli::names::{normalized, normalized_path};
use crate::cli::problem::{collisions, ProblemView};
use crate::cli::schema::{
    analyzed_fields, analyzed_node, analyzed_object, analyzed_value, arranged, child_place,
    is_static, merged, union_branches, NodeView, NotesView, PlaceView, ValueView,
};
use crate::cli::selecting::{collisions_name_the_shared, no_notes};
use crate::json::{member_decreases, texts_under, JsonView};
use crate::registry::{input_json, DefinitionView};
use crate::table::{ascending, keys, lookup_at};
use crate::text::text_lt_irreflexive;

verus! {

// ---------------------------------------------------------------------------------------------
// Options

/// Whether the path of an option can be spelled, and the spelling is free.
pub open spec fn spellable(value: ValueView) -> bool {
    normalized_path(value.path) matches Some(spelling) && spelling != "help"@
}

/// Whether all options of nodes can be spelled.
pub open spec fn all_spellable(nodes: Seq<NodeView>) -> bool {
    forall|value: ValueView| #[trigger] all_values(nodes).contains(value) ==> spellable(value)
}

/// The options of nodes are those of each.
proof fn options_of_each(nodes: Seq<NodeView>, i: int, value: ValueView)
    requires
        0 <= i < nodes.len(),
        node_values(nodes[i]).contains(value),
    ensures
        all_values(nodes).contains(value),
    decreases nodes.len(),
{
    let rest = nodes.drop_last();
    let front = all_values(rest);
    let back = node_values(nodes.last());
    if i < rest.len() {
        assert(rest[i] == nodes[i]);
        options_of_each(rest, i, value);
        let k = choose|k: int| 0 <= k < front.len() && front[k] == value;
        assert((front + back)[k] == value);
    } else {
        let k = choose|k: int| 0 <= k < back.len() && back[k] == value;
        assert((front + back)[front.len() + k] == value);
    }
}

/// Every option of nodes is an option of one of them.
proof fn options_of_one(nodes: Seq<NodeView>, value: ValueView) -> (i: int)
    requires
        all_values(nodes).contains(value),
    ensures
        0 <= i < nodes.len(),
        node_values(nodes[i]).contains(value),
    decreases nodes.len(),
{
    let rest = nodes.drop_last();
    let front = all_values(rest);
    let back = node_values(nodes.last());
    let k = choose|k: int| 0 <= k < all_values(nodes).len() && all_values(nodes)[k] == value;
    if k < front.len() {
        assert(front[k] == value);
        let i = options_of_one(rest, value);
        assert(rest[i] == nodes[i]);
        i
    } else {
        assert(back[k - front.len()] == value);
        nodes.len() - 1
    }
}

/// Nodes whose arrangement can be spelled can be spelled.
proof fn arranged_spellable(nodes: Seq<NodeView>)
    requires
        all_spellable(arranged(nodes)),
    ensures
        all_spellable(nodes),
{
    assert forall|value: ValueView| #[trigger] all_values(nodes).contains(value) implies spellable(
        value,
    ) by {
        let i = options_of_one(nodes, value);
        let k = arranged_to(nodes, i);
        options_of_each(arranged(nodes), k, value);
    }
}

/// The analysis of an object whose options can be spelled reports nothing.
proof fn objects_without_problems(
    name: Option<Seq<char>>,
    path: Seq<char>,
    required: bool,
    parent: Option<Seq<char>>,
    schema: JsonView,
    notes: NotesView,
)
    requires
        all_spellable(analyzed_object(name, path, required, parent, schema, notes).0.children),
    ensures
        analyzed_object(name, path, required, parent, schema, notes).1.problems == notes.problems,
    decreases schema, 0int,
{
    if let Some(JsonView::Object(fields)) = schema.get("properties"@) {
        member_decreases(schema, "properties"@);
        let needed = texts_under(schema, "required"@);
        arranged_spellable(analyzed_fields(fields, needed, path, parent, notes).0);
        fields_without_problems(fields, needed, path, parent, notes);
    }
}

proof fn fields_without_problems(
    fields: Seq<(Seq<char>, JsonView)>,
    needed: Seq<Seq<char>>,
    path: Seq<char>,
    parent: Option<Seq<char>>,
    notes: NotesView,
)
    requires
        all_spellable(analyzed_fields(fields, needed, path, parent, notes).0),
    ensures
        analyzed_fields(fields, needed, path, parent, notes).1.problems == notes.problems,
    decreases fields, 0int,
{
    if fields.len() > 0 {
        let (nodes, so_far) = analyzed_fields(fields.drop_last(), needed, path, parent, notes);
        let at = child_place(path, parent, needed, fields.last());
        let (node, after) = analyzed_node(at, fields.last().1, so_far);
        let all = nodes.push(node);
        assert forall|value: ValueView| #[trigger]
            all_values(nodes).contains(value) implies spellable(value) by {
            let i = options_of_one(nodes, value);
            assert(all[i] == nodes[i]);
            options_of_each(all, i, value);
        }
        fields_without_problems(fields.drop_last(), needed, path, parent, notes);
        assert forall|value: ValueView| #[trigger]
            node_values(node).contains(value) implies spellable(value) by {
            options_of_each(all, nodes.len() as int, value);
        }
        nodes_without_problems(at, fields.last().1, so_far);
    }
}

proof fn nodes_without_problems(at: PlaceView, schema: JsonView, notes: NotesView)
    requires
        forall|value: ValueView| #[trigger]
            node_values(analyzed_node(at, schema, notes).0).contains(value) ==> spellable(value),
    ensures
        analyzed_node(at, schema, notes).1.problems == notes.problems,
    decreases schema, 1int,
{
    let values = node_values(analyzed_node(at, schema, notes).0);
    if schema.get("oneOf"@) is Some {
        member_decreases(schema, "oneOf"@);
    }
    match union_branches(schema) {
        Some((scalar_schema, object_schema)) => {
            let place = PlaceView { required: false, ..at };
            let (scalar, so_far) = analyzed_value(place, merged(scalar_schema, schema), notes);
            let parent = if at.parent is Some {
                at.parent
            } else {
                Some(at.path)
            };
            let object = analyzed_object(
                Some(at.name),
                at.path,
                false,
                parent,
                object_schema,
                so_far,
            ).0;
            assert(values == seq![scalar] + all_values(object.children));
            assert(values[0] == scalar);
            assert(values.contains(scalar));
            assert(so_far.problems =~= notes.problems);
            assert forall|value: ValueView| #[trigger]
                all_values(object.children).contains(value) implies spellable(value) by {
                let inside = all_values(object.children);
                let k = choose|k: int| 0 <= k < inside.len() && inside[k] == value;
                assert(values[k + 1] == value);
                assert(values.contains(value));
            }
            objects_without_problems(
                Some(at.name),
                at.path,
                false,
                parent,
                object_schema,
                so_far,
            );
        },
        None => {
            if is_static(schema) {
                objects_without_problems(
                    Some(at.name),
                    at.path,
                    at.required,
                    at.parent,
                    schema,
                    notes,
                );
            } else {
                let (value, after) = analyzed_value(at, schema, notes);
                assert(values =~= seq![value]);
                assert(values[0] == value);
                assert(values.contains(value));
                assert(after.problems =~= notes.problems);
            }
        },
    }
}

/// A name that occurs twice belongs to two values.
proof fn two_of_a_name(values: Seq<ValueView>, name: Seq<char>) -> (pair: (int, int))
    requires
        times(values, name) >= 2,
    ensures
        0 <= pair.0 < pair.1 < values.len(),
        values[pair.0].cli_name == name,
        values[pair.1].cli_name == name,
    decreases values.len(),
{
    let rest = values.drop_last();
    if values.last().cli_name == name {
        let i = one_of_a_name(rest, name);
        assert(rest[i] == values[i]);
        (i, values.len() - 1)
    } else {
        let pair = two_of_a_name(rest, name);
        assert(rest[pair.0] == values[pair.0] && rest[pair.1] == values[pair.1]);
        pair
    }
}

proof fn one_of_a_name(values: Seq<ValueView>, name: Seq<char>) -> (i: int)
    requires
        times(values, name) >= 1,
    ensures
        0 <= i < values.len(),
        values[i].cli_name == name,
    decreases values.len(),
{
    let rest = values.drop_last();
    if values.last().cli_name == name {
        values.len() - 1
    } else {
        let i = one_of_a_name(rest, name);
        assert(rest[i] == values[i]);
        i
    }
}

/// The spelling of a collision is used more than once.
proof fn collision_is_used(names: Seq<(Seq<char>, Seq<Seq<char>>)>) -> (name: Seq<char>)
    requires
        ascending(keys(names)),
        collisions(names).len() > 0,
    ensures
        uses(names, name) >= 2,
{
    let problem = collisions(names)[0];
    assert(collisions(names).contains(problem));
    collisions_name_the_shared(names, problem);
    let i = choose|i: int|
        0 <= i < names.len() && (#[trigger] names[i]).1.len() > 1 && problem == (
        ProblemView::NameCollision { cli_name: names[i].0, originals: names[i].1 });
    let name = names[i].0;
    assert forall|k: int| 0 <= k < i implies (#[trigger] names[k]).0 != name by {
        assert(keys(names)[k] == names[k].0 && keys(names)[i] == name);
        text_lt_irreflexive(name);
    }
    lookup_at(names, name, i);
    name
}

// ---------------------------------------------------------------------------------------------
// Registries

/// The options of a definition.
pub open spec fn options_of(definition: DefinitionView) -> Seq<ValueView> {
    all_values(
        analyzed_object(
            None,
            Seq::empty(),
            false,
            None,
            input_json(definition),
            no_notes(),
        ).0.children,
    )
}

/// Whether the name of a definition and the paths of its properties can be spelled, the spellings
/// are free, and no two properties share one.
pub open spec fn buildable(definition: DefinitionView) -> bool {
    &&& normalized(definition.name) matches Some(spelling) && spelling != "help"@
    &&& forall|i: int|
        0 <= i < options_of(definition).len() ==> spellable(#[trigger] options_of(definition)[i])
    &&& forall|i: int, j: int|
        0 <= i < j < options_of(definition).len() ==> (
        #[trigger] options_of(definition)[i]).cli_name != (
        #[trigger] options_of(definition)[j]).cli_name
}

/// A tool whose definition can be built has no problems.
proof fn tools_without_problems(definition: DefinitionView, cli_name: Seq<char>)
    requires
        buildable(definition),
    ensures
        analyzed_tool(definition, cli_name, Seq::empty()).1.len() == 0,
{
    let schema = input_json(definition);
    let start = no_notes();
    if is_static(schema) {
        let (root, after) = analyzed_object(None, Seq::empty(), false, None, schema, start);
        let values = options_of(definition);
        assert forall|value: ValueView| #[trigger]
            all_values(root.children).contains(value) implies spellable(value) by {
            let k = choose|k: int| 0 <= k < values.len() && values[k] == value;
            assert(spellable(values[k]));
        }
        objects_without_problems(None, Seq::empty(), false, None, schema, start);
        object_accounts(None, Seq::empty(), false, None, schema, start, Seq::empty());
        if collisions(after.names).len() > 0 {
            let name = collision_is_used(after.names);
            object_accounts(None, Seq::empty(), false, None, schema, start, name);
            let pair = two_of_a_name(values, name);
            assert(values[pair.0].cli_name != values[pair.1].cli_name);
        }
    }
}

/// A registry can be built if each of its definitions can, and no two tools share a spelling.
pub proof fn sound_registries_build(definitions: Seq<DefinitionView>)
    requires
        forall|i: int| 0 <= i < definitions.len() ==> buildable(#[trigger] definitions[i]),
        forall|i: int, j: int|
            0 <= i < j < definitions.len() ==> normalized((#[trigger] definitions[i]).name)
                != normalized((#[trigger] definitions[j]).name),
    ensures
        survey_problems(definitions).len() == 0,
{
    surveys_without_problems(definitions);
    survey_accounts(definitions, Seq::empty());
    let names = survey(definitions).names;
    let tools = survey(definitions).tools;
    if collisions(names).len() > 0 {
        let name = collision_is_used(names);
        survey_accounts(definitions, name);
        let pair = two_tools(tools, name);
        crate::cli::selecting::tools_follow_definitions(definitions);
        assert(tools[pair.0].cli_name == tools[pair.1].cli_name);
        assert(normalized(definitions[pair.0].name) != normalized(definitions[pair.1].name));
    }
}

proof fn surveys_without_problems(definitions: Seq<DefinitionView>)
    requires
        forall|i: int| 0 <= i < definitions.len() ==> buildable(#[trigger] definitions[i]),
    ensures
        survey(definitions).problems.len() == 0,
    decreases definitions.len(),
{
    if definitions.len() > 0 {
        let rest = definitions.drop_last();
        assert forall|i: int| 0 <= i < rest.len() implies buildable(#[trigger] rest[i]) by {
            assert(rest[i] == definitions[i]);
        }
        surveys_without_problems(rest);
        let definition = definitions[definitions.len() - 1];
        assert(buildable(definition));
        assert(survey(rest).problems =~= Seq::<ProblemView>::empty());
        tools_without_problems(definition, normalized(definition.name)->0);
    }
}

/// A command name that occurs twice belongs to two tools.
proof fn two_tools(tools: Seq<ToolView>, name: Seq<char>) -> (pair: (int, int))
    requires
        tool_times(tools, name) >= 2,
    ensures
        0 <= pair.0 < pair.1 < tools.len(),
        tools[pair.0].cli_name == name,
        tools[pair.1].cli_name == name,
    decreases tools.len(),
{
    let rest = tools.drop_last();
    if tools.last().cli_name == name {
        let i = one_tool(rest, name);
        assert(rest[i] == tools[i]);
        (i, tools.len() - 1)
    } else {
        let pair = two_tools(rest, name);
        assert(rest[pair.0] == tools[pair.0] && rest[pair.1] == tools[pair.1]);
        pair
    }
}

proof fn one_tool(tools: Seq<ToolView>, name: Seq<char>) -> (i: int)
    requires
        tool_times(tools, name) >= 1,
    ensures
        0 <= i < tools.len(),
        tools[i].cli_name == name,
    decreases tools.len(),
{
    let rest = tools.drop_last();
    if tools.last().cli_name == name {
        tools.len() - 1
    } else {
        let i = one_tool(rest, name);
        assert(rest[i] == tools[i]);
        i
    }
}

} // verus!
