//! Distinctness of generated names.

use vstd::prelude::*;

use crate::cli::clap_model::{arg_sound, command_sound};
use crate::cli::generate::{
    all_values, analyzed_tool, node_values, planned_arg, planned_root, planned_tool, planned_tools,
    survey, survey_problems, ToolView,
};
use crate::cli::rebuild::{all_named, analysis_names_objects};
use crate::registry::{input_json, DefinitionView};
use crate::cli::names::{is_kebab, normalized, normalized_path_is_kebab};
use crate::cli::problem::{collisions, ProblemView};
use crate::cli::schema::{
    analyzed_fields, analyzed_node, analyzed_object, analyzed_value, arranged, child_place,
    is_static, merged, noted, option_problems, seat, seat_splits, union_branches, NodeView,
    NotesView, ObjectView, PlaceView, ValueView,
};
use crate::json::{member_decreases, texts_under, JsonView};
use crate::table::{ascending, keys, lookup, lookup_absent, lookup_at, place, place_splits};
use crate::text::{text_lt_irreflexive, text_lt_total, text_lt_transitive};

verus! {

// ---------------------------------------------------------------------------------------------
// Counting

/// How many values have an option name.
pub open spec fn times(values: Seq<ValueView>, name: Seq<char>) -> nat
    decreases values.len(),
{
    if values.len() == 0 {
        0
    } else {
        times(values.drop_last(), name) + (if values.last().cli_name == name {
            1nat
        } else {
            0nat
        })
    }
}

/// How many protocol names a table has for a spelling.
pub open spec fn uses(names: Seq<(Seq<char>, Seq<Seq<char>>)>, name: Seq<char>) -> nat {
    match lookup(names, name) {
        Some(originals) => originals.len(),
        None => 0,
    }
}

/// Whether an option name is in kebab case and not that of help.
pub open spec fn clean(value: ValueView) -> bool {
    is_kebab(value.cli_name) && value.cli_name != "help"@
}

/// Whether all option names are clean.
pub open spec fn all_clean(values: Seq<ValueView>) -> bool {
    forall|i: int| 0 <= i < values.len() ==> clean(#[trigger] values[i])
}

proof fn times_add(a: Seq<ValueView>, b: Seq<ValueView>, name: Seq<char>)
    ensures
        times(a + b, name) == times(a, name) + times(b, name),
    decreases b.len(),
{
    if b.len() == 0 {
        assert(a + b =~= a);
    } else {
        assert((a + b).drop_last() =~= a + b.drop_last());
        times_add(a, b.drop_last(), name);
    }
}

/// A value counts for its own name.
proof fn times_at_least(values: Seq<ValueView>, i: int)
    requires
        0 <= i < values.len(),
    ensures
        times(values, values[i].cli_name) >= 1,
    decreases values.len(),
{
    if i < values.len() - 1 {
        assert(values.drop_last()[i] == values[i]);
        times_at_least(values.drop_last(), i);
    }
}

/// Two values with one name count twice.
proof fn times_of_two(values: Seq<ValueView>, i: int, j: int)
    requires
        0 <= i < j < values.len(),
        values[i].cli_name == values[j].cli_name,
    ensures
        times(values, values[i].cli_name) >= 2,
    decreases values.len(),
{
    if j < values.len() - 1 {
        assert(values.drop_last()[i] == values[i] && values.drop_last()[j] == values[j]);
        times_of_two(values.drop_last(), i, j);
    } else {
        assert(values.drop_last()[i] == values[i]);
        times_at_least(values.drop_last(), i);
    }
}

/// Properties are clean exactly when each of them is.
proof fn all_clean_nodes(nodes: Seq<NodeView>)
    ensures
        all_clean(all_values(nodes)) <==> forall|i: int|
            0 <= i < nodes.len() ==> all_clean(node_values(#[trigger] nodes[i])),
    decreases nodes.len(),
{
    if nodes.len() > 0 {
        let rest = nodes.drop_last();
        let front = all_values(rest);
        let back = node_values(nodes.last());
        all_clean_nodes(rest);
        if all_clean(all_values(nodes)) {
            assert forall|i: int| 0 <= i < front.len() implies clean(#[trigger] front[i]) by {
                assert((front + back)[i] == front[i]);
            }
            assert forall|i: int| 0 <= i < back.len() implies clean(#[trigger] back[i]) by {
                assert((front + back)[front.len() + i] == back[i]);
            }
            assert forall|i: int| 0 <= i < nodes.len() implies all_clean(
                node_values(#[trigger] nodes[i]),
            ) by {
                if i < rest.len() {
                    assert(rest[i] == nodes[i]);
                }
            }
        }
        if forall|i: int| 0 <= i < nodes.len() ==> all_clean(node_values(#[trigger] nodes[i])) {
            assert forall|i: int| 0 <= i < rest.len() implies all_clean(
                node_values(#[trigger] rest[i]),
            ) by {
                assert(rest[i] == nodes[i]);
            }
            assert(all_clean(node_values(nodes[nodes.len() - 1])));
            assert forall|i: int| 0 <= i < all_values(nodes).len() implies clean(
                #[trigger] all_values(nodes)[i],
            ) by {
                if i < front.len() {
                    assert(all_values(nodes)[i] == front[i]);
                } else {
                    assert(all_values(nodes)[i] == back[i - front.len()]);
                }
            }
        }
    }
}

/// Putting a property among others adds its options.
proof fn values_insert(nodes: Seq<NodeView>, p: int, node: NodeView, name: Seq<char>)
    requires
        0 <= p <= nodes.len(),
    ensures
        times(all_values(nodes.insert(p, node)), name) == times(all_values(nodes), name) + times(
            node_values(node),
            name,
        ),
    decreases nodes.len(),
{
    let all = nodes.insert(p, node);
    if p == nodes.len() {
        assert(all.drop_last() =~= nodes);
        times_add(all_values(nodes), node_values(node), name);
    } else {
        let rest = nodes.drop_last();
        assert(all.drop_last() =~= rest.insert(p, node));
        assert(all.last() == nodes.last());
        values_insert(rest, p, node, name);
        times_add(all_values(rest.insert(p, node)), node_values(nodes.last()), name);
        times_add(all_values(rest), node_values(nodes.last()), name);
    }
}

/// Arranging keeps the options.
proof fn arranged_values(nodes: Seq<NodeView>, name: Seq<char>)
    ensures
        times(all_values(arranged(nodes)), name) == times(all_values(nodes), name),
        all_clean(all_values(nodes)) ==> all_clean(all_values(arranged(nodes))),
    decreases nodes.len(),
{
    if nodes.len() > 0 {
        let rest = nodes.drop_last();
        let node = nodes.last();
        let sorted = arranged(rest);
        let p = seat(sorted, node) as int;
        arranged_values(rest, name);
        seat_splits(sorted, node);
        values_insert(sorted, p, node, name);
        times_add(all_values(rest), node_values(node), name);
        if all_clean(all_values(nodes)) {
            all_clean_nodes(nodes);
            all_clean_nodes(rest);
            assert forall|i: int| 0 <= i < rest.len() implies all_clean(
                node_values(#[trigger] rest[i]),
            ) by {
                assert(rest[i] == nodes[i]);
            }
            all_clean_nodes(sorted);
            let all = arranged(nodes);
            assert(all_clean(node_values(nodes[nodes.len() - 1])));
            assert forall|i: int| 0 <= i < all.len() implies all_clean(
                node_values(#[trigger] all[i]),
            ) by {
                if i < p {
                    assert(all[i] == sorted[i]);
                } else if i > p {
                    assert(all[i] == sorted[i - 1]);
                }
            }
            all_clean_nodes(all);
        }
    }
}

// ---------------------------------------------------------------------------------------------
// Tables of names

/// Noting a name keeps a table ascending and counts it once.
pub proof fn noted_counts(
    names: Seq<(Seq<char>, Seq<Seq<char>>)>,
    cli_name: Seq<char>,
    original: Seq<char>,
    name: Seq<char>,
)
    requires
        ascending(keys(names)),
    ensures
        ascending(keys(noted(names, cli_name, original))),
        uses(noted(names, cli_name, original), name) == uses(names, name) + (if name == cli_name {
            1nat
        } else {
            0nat
        }),
{
    let p = place(keys(names), cli_name) as int;
    place_splits(keys(names), cli_name);
    let found = p < names.len() && names[p].0 == cli_name;
    let value = if found {
        names[p].1.push(original)
    } else {
        seq![original]
    };
    assert(noted(names, cli_name, original) =~= crate::table::inserted(names, cli_name, value));
    crate::table::inserted_ascending(names, cli_name, value);
    crate::table::lookup_inserted(names, cli_name, value, name);
    if name == cli_name {
        text_lt_irreflexive(cli_name);
        if found {
            assert forall|k: int| 0 <= k < p implies (#[trigger] names[k]).0 != cli_name by {
                assert(keys(names)[k] == names[k].0);
            }
            lookup_at(names, cli_name, p);
        } else {
            assert forall|k: int| 0 <= k < names.len() implies (#[trigger] names[k]).0 != cli_name by {
                assert(keys(names)[k] == names[k].0);
                if k > p {
                    assert(keys(names)[p] == names[p].0);
                    text_lt_total(names[p].0, cli_name);
                    text_lt_transitive(cli_name, names[p].0, names[k].0);
                }
            }
            lookup_absent(names, cli_name);
        }
    }
}

/// A noted name stands behind those that were noted for the same spelling before, and leaves all
/// other spellings as they are.
pub proof fn names_are_noted_in_order(
    names: Seq<(Seq<char>, Seq<Seq<char>>)>,
    cli_name: Seq<char>,
    original: Seq<char>,
    other: Seq<char>,
)
    requires
        ascending(keys(names)),
    ensures
        lookup(noted(names, cli_name, original), cli_name) == Some(
            match lookup(names, cli_name) {
                Some(originals) => originals.push(original),
                None => seq![original],
            },
        ),
        other != cli_name ==> lookup(noted(names, cli_name, original), other) == lookup(
            names,
            other,
        ),
{
    let p = place(keys(names), cli_name) as int;
    place_splits(keys(names), cli_name);
    let found = p < names.len() && names[p].0 == cli_name;
    let value = if found {
        names[p].1.push(original)
    } else {
        seq![original]
    };
    assert(noted(names, cli_name, original) =~= crate::table::inserted(names, cli_name, value));
    crate::table::lookup_inserted(names, cli_name, value, cli_name);
    crate::table::lookup_inserted(names, cli_name, value, other);
    text_lt_irreflexive(cli_name);
    if found {
        assert forall|k: int| 0 <= k < p implies (#[trigger] names[k]).0 != cli_name by {
            assert(keys(names)[k] == names[k].0);
        }
        lookup_at(names, cli_name, p);
    } else {
        assert forall|k: int| 0 <= k < names.len() implies (#[trigger] names[k]).0 != cli_name by {
            assert(keys(names)[k] == names[k].0);
            if k > p {
                assert(keys(names)[p] == names[p].0);
                text_lt_total(names[p].0, cli_name);
                text_lt_transitive(cli_name, names[p].0, names[k].0);
            }
        }
        lookup_absent(names, cli_name);
    }
}

/// Where no name collides, every spelling has at most one protocol name.
pub proof fn no_collisions(names: Seq<(Seq<char>, Seq<Seq<char>>)>, name: Seq<char>)
    requires
        collisions(names).len() == 0,
    ensures
        uses(names, name) <= 1,
{
    lookup_absent(names, name);
    if let Some(originals) = lookup(names, name) {
        let k = choose|k: int|
            0 <= k < names.len() && (#[trigger] names[k]).0 == name && names[k].1 == originals;
        no_collisions_at(names, k);
    }
}

proof fn no_collisions_at(names: Seq<(Seq<char>, Seq<Seq<char>>)>, k: int)
    requires
        collisions(names).len() == 0,
        0 <= k < names.len(),
    ensures
        names[k].1.len() <= 1,
    decreases names.len(),
{
    if k < names.len() - 1 {
        assert(names.drop_last()[k] == names[k]);
        no_collisions_at(names.drop_last(), k);
    }
}

// ---------------------------------------------------------------------------------------------
// The analysis

/// What the analysis keeps: it counts each option once in the table of names, and reports every
/// option name that is not clean.
pub open spec fn accounts(
    before: NotesView,
    values: Seq<ValueView>,
    after: NotesView,
    name: Seq<char>,
) -> bool {
    &&& ascending(keys(after.names))
    &&& uses(after.names, name) == uses(before.names, name) + times(values, name)
    &&& after.problems.len() >= before.problems.len()
    &&& after.problems.len() == 0 ==> all_clean(values)
}

proof fn value_accounts(at: PlaceView, schema: JsonView, notes: NotesView, name: Seq<char>)
    requires
        ascending(keys(notes.names)),
    ensures
        accounts(
            notes,
            seq![analyzed_value(at, schema, notes).0],
            analyzed_value(at, schema, notes).1,
            name,
        ),
{
    let (value, after) = analyzed_value(at, schema, notes);
    noted_counts(notes.names, value.cli_name, at.path, name);
    reveal_with_fuel(times, 2);
    assert(seq![value].drop_last() =~= Seq::<ValueView>::empty());
    if after.problems.len() == 0 {
        assert(option_problems(at.path, notes).len() == 0);
        normalized_path_is_kebab(at.path);
        assert(clean(value));
    }
}

/// Steps of the analysis account together.
proof fn accounts_add(
    before: NotesView,
    first: Seq<ValueView>,
    between: NotesView,
    second: Seq<ValueView>,
    after: NotesView,
    name: Seq<char>,
)
    requires
        accounts(before, first, between, name),
        accounts(between, second, after, name),
    ensures
        accounts(before, first + second, after, name),
{
    times_add(first, second, name);
    if after.problems.len() == 0 {
        assert forall|i: int| 0 <= i < (first + second).len() implies clean(
            #[trigger] (first + second)[i],
        ) by {
            if i < first.len() {
                assert((first + second)[i] == first[i]);
            } else {
                assert((first + second)[i] == second[i - first.len()]);
            }
        }
    }
}

/// The analysis of an object accounts for its options.
pub proof fn object_accounts(
    name: Option<Seq<char>>,
    path: Seq<char>,
    required: bool,
    parent: Option<Seq<char>>,
    schema: JsonView,
    notes: NotesView,
    option: Seq<char>,
)
    requires
        ascending(keys(notes.names)),
    ensures
        accounts(
            notes,
            all_values(analyzed_object(name, path, required, parent, schema, notes).0.children),
            analyzed_object(name, path, required, parent, schema, notes).1,
            option,
        ),
    decreases schema, 0int,
{
    if let Some(JsonView::Object(fields)) = schema.get("properties"@) {
        member_decreases(schema, "properties"@);
        let needed = texts_under(schema, "required"@);
        let (nodes, after) = analyzed_fields(fields, needed, path, parent, notes);
        fields_account(fields, needed, path, parent, notes, option);
        arranged_values(nodes, option);
    } else {
        assert(arranged(Seq::<NodeView>::empty()) =~= Seq::<NodeView>::empty());
    }
}

proof fn fields_account(
    fields: Seq<(Seq<char>, JsonView)>,
    needed: Seq<Seq<char>>,
    path: Seq<char>,
    parent: Option<Seq<char>>,
    notes: NotesView,
    option: Seq<char>,
)
    requires
        ascending(keys(notes.names)),
    ensures
        accounts(
            notes,
            all_values(analyzed_fields(fields, needed, path, parent, notes).0),
            analyzed_fields(fields, needed, path, parent, notes).1,
            option,
        ),
    decreases fields, 0int,
{
    if fields.len() > 0 {
        let (nodes, so_far) = analyzed_fields(fields.drop_last(), needed, path, parent, notes);
        let at = child_place(path, parent, needed, fields.last());
        let (node, after) = analyzed_node(at, fields.last().1, so_far);
        fields_account(fields.drop_last(), needed, path, parent, notes, option);
        node_accounts(at, fields.last().1, so_far, option);
        accounts_add(notes, all_values(nodes), so_far, node_values(node), after, option);
        assert(nodes.push(node).drop_last() =~= nodes);
    }
}

proof fn node_accounts(at: PlaceView, schema: JsonView, notes: NotesView, option: Seq<char>)
    requires
        ascending(keys(notes.names)),
    ensures
        accounts(
            notes,
            node_values(analyzed_node(at, schema, notes).0),
            analyzed_node(at, schema, notes).1,
            option,
        ),
    decreases schema, 1int,
{
    if schema.get("oneOf"@) is Some {
        member_decreases(schema, "oneOf"@);
    }
    match union_branches(schema) {
        Some((scalar_schema, object_schema)) => {
            let place = PlaceView { required: false, ..at };
            let (scalar, so_far) = analyzed_value(place, merged(scalar_schema, schema), notes);
            let parent = if at.parent is Some {
                at.parent
            } else {
                Some(at.path)
            };
            let (object, after) = analyzed_object(
                Some(at.name),
                at.path,
                false,
                parent,
                object_schema,
                so_far,
            );
            value_accounts(place, merged(scalar_schema, schema), notes, option);
            object_accounts(Some(at.name), at.path, false, parent, object_schema, so_far, option);
            accounts_add(notes, seq![scalar], so_far, all_values(object.children), after, option);
        },
        None => {
            if is_static(schema) {
                object_accounts(
                    Some(at.name),
                    at.path,
                    at.required,
                    at.parent,
                    schema,
                    notes,
                    option,
                );
            } else {
                value_accounts(at, schema, notes, option);
            }
        },
    }
}

/// Options of an object whose analysis reports no problem and no collision have different, clean
/// names.
pub proof fn options_are_distinct(
    name: Option<Seq<char>>,
    path: Seq<char>,
    required: bool,
    parent: Option<Seq<char>>,
    schema: JsonView,
)
    ensures
        ({
            let start = NotesView { names: Seq::empty(), problems: Seq::empty() };
            let (object, after) = analyzed_object(name, path, required, parent, schema, start);
            let values = all_values(object.children);
            after.problems.len() == 0 && collisions(after.names).len() == 0 ==> {
                &&& all_clean(values)
                &&& forall|i: int, j: int|
                    0 <= i < j < values.len() ==> (#[trigger] values[i]).cli_name != (
                    #[trigger] values[j]).cli_name
            }
        }),
{
    let start = NotesView { names: Seq::empty(), problems: Seq::empty() };
    let (object, after) = analyzed_object(name, path, required, parent, schema, start);
    let values = all_values(object.children);
    if after.problems.len() == 0 && collisions(after.names).len() == 0 {
        object_accounts(name, path, required, parent, schema, start, Seq::empty());
        assert forall|i: int, j: int| 0 <= i < j < values.len() implies (
        #[trigger] values[i]).cli_name != (#[trigger] values[j]).cli_name by {
            let option = values[i].cli_name;
            object_accounts(name, path, required, parent, schema, start, option);
            no_collisions(after.names, option);
            if values[i].cli_name == values[j].cli_name {
                times_of_two(values, i, j);
            }
        }
    }
}

// ---------------------------------------------------------------------------------------------
// The command tree

/// How many tools have a command name.
pub open spec fn tool_times(tools: Seq<ToolView>, name: Seq<char>) -> nat
    decreases tools.len(),
{
    if tools.len() == 0 {
        0
    } else {
        tool_times(tools.drop_last(), name) + (if tools.last().cli_name == name {
            1nat
        } else {
            0nat
        })
    }
}

proof fn tool_times_at_least(tools: Seq<ToolView>, i: int)
    requires
        0 <= i < tools.len(),
    ensures
        tool_times(tools, tools[i].cli_name) >= 1,
    decreases tools.len(),
{
    if i < tools.len() - 1 {
        assert(tools.drop_last()[i] == tools[i]);
        tool_times_at_least(tools.drop_last(), i);
    }
}

proof fn tool_times_of_two(tools: Seq<ToolView>, i: int, j: int)
    requires
        0 <= i < j < tools.len(),
        tools[i].cli_name == tools[j].cli_name,
    ensures
        tool_times(tools, tools[i].cli_name) >= 2,
    decreases tools.len(),
{
    assert(tools.drop_last()[i] == tools[i]);
    if j < tools.len() - 1 {
        assert(tools.drop_last()[j] == tools[j]);
        tool_times_of_two(tools.drop_last(), i, j);
    } else {
        tool_times_at_least(tools.drop_last(), i);
    }
}

/// Whether the options of an object have different, clean names and its properties have names.
pub open spec fn object_distinct(object: ObjectView) -> bool {
    let values = all_values(object.children);
    &&& all_named(object.children)
    &&& all_clean(values)
    &&& forall|i: int, j: int|
        0 <= i < j < values.len() ==> (#[trigger] values[i]).cli_name != (
        #[trigger] values[j]).cli_name
}

/// Whether a tool's root has no property name, and its options have different, clean names.
pub open spec fn tool_distinct(tool: ToolView) -> bool {
    tool.root matches Some(object) ==> object.name is None && object_distinct(object)
}

/// The problems of a tool come behind those before it, and a tool without problems has different
/// option names.
pub(crate) proof fn tool_accounts(
    definition: DefinitionView,
    cli_name: Seq<char>,
    problems: Seq<ProblemView>,
)
    ensures
        analyzed_tool(definition, cli_name, problems).1.len() >= problems.len(),
        analyzed_tool(definition, cli_name, problems).1.len() == 0 ==> tool_distinct(
            analyzed_tool(definition, cli_name, problems).0,
        ),
{
    let schema = input_json(definition);
    let start = NotesView { names: Seq::empty(), problems };
    if is_static(schema) {
        object_accounts(None, Seq::empty(), false, None, schema, start, Seq::empty());
        analysis_names_objects(None, Seq::empty(), false, None, schema, start);
        if analyzed_tool(definition, cli_name, problems).1.len() == 0 {
            assert(problems =~= Seq::empty());
            options_are_distinct(None, Seq::empty(), false, None, schema);
        }
    }
}

/// What a survey keeps: it counts each tool once in the table of names, and one without problems
/// has tools with different option names, none called help.
pub(crate) proof fn survey_accounts(definitions: Seq<DefinitionView>, name: Seq<char>)
    ensures
        ascending(keys(survey(definitions).names)),
        uses(survey(definitions).names, name) == tool_times(survey(definitions).tools, name),
        survey(definitions).problems.len() == 0 ==> forall|i: int|
            0 <= i < survey(definitions).tools.len() ==> tool_distinct(
                #[trigger] survey(definitions).tools[i],
            ),
    decreases definitions.len(),
{
    if definitions.len() > 0 {
        let before = survey(definitions.drop_last());
        let after = survey(definitions);
        let definition = definitions.last();
        survey_accounts(definitions.drop_last(), name);
        if let Some(cli_name) = normalized(definition.name) {
            let reserved = if cli_name == "help"@ {
                before.problems.push(
                    ProblemView::ReservedName { kind: "tool"@, name: definition.name },
                )
            } else {
                before.problems
            };
            let (tool, problems) = analyzed_tool(definition, cli_name, reserved);
            noted_counts(before.names, cli_name, definition.name, name);
            tool_accounts(definition, cli_name, reserved);
            assert(after.tools.drop_last() =~= before.tools);
            if after.problems.len() == 0 {
                assert(before.problems.len() == 0);
                assert forall|i: int| 0 <= i < after.tools.len() implies tool_distinct(
                    #[trigger] after.tools[i],
                ) by {
                    if i < before.tools.len() {
                        assert(after.tools[i] == before.tools[i]);
                    }
                }
            }
        }
    }
}

/// Tools of a registry without problems have different command names, and the options of each
/// tool have different names in kebab case.
pub proof fn names_are_distinct(definitions: Seq<DefinitionView>)
    requires
        survey_problems(definitions).len() == 0,
    ensures
        forall|i: int, j: int|
            0 <= i < j < survey(definitions).tools.len() ==> (
            #[trigger] survey(definitions).tools[i]).cli_name != (
            #[trigger] survey(definitions).tools[j]).cli_name,
        forall|i: int|
            0 <= i < survey(definitions).tools.len() ==> tool_distinct(
                #[trigger] survey(definitions).tools[i],
            ),
{
    let tools = survey(definitions).tools;
    survey_accounts(definitions, Seq::empty());
    assert forall|i: int, j: int| 0 <= i < j < tools.len() implies (#[trigger] tools[i]).cli_name
        != (#[trigger] tools[j]).cli_name by {
        let name = tools[i].cli_name;
        survey_accounts(definitions, name);
        no_collisions(survey(definitions).names, name);
        if tools[i].cli_name == tools[j].cli_name {
            tool_times_of_two(tools, i, j);
        }
    }
}

/// An option for a value with a clean name can be part of a command.
proof fn planned_arg_sound(value: ValueView)
    requires
        clean(value),
    ensures
        arg_sound(planned_arg(value), false),
        planned_arg(value).id == value.cli_name,
        planned_arg(value).long == Some(value.cli_name),
{
}

/// The subcommand of a tool with different option names can be parsed.
proof fn planned_tool_sound(tool: ToolView, root: ObjectView)
    requires
        object_distinct(root),
    ensures
        command_sound(planned_tool(tool, root)),
{
    let values = all_values(root.children);
    let args = planned_tool(tool, root).args;
    assert forall|i: int| 0 <= i < args.len() implies arg_sound(#[trigger] args[i], false) by {
        assert(clean(values[i]));
        planned_arg_sound(values[i]);
    }
    assert forall|i: int, j: int| 0 <= i < j < args.len() implies (#[trigger] args[i]).id != (
    #[trigger] args[j]).id && args[i].long != args[j].long by {
        assert(clean(values[i]) && clean(values[j]));
        planned_arg_sound(values[i]);
        planned_arg_sound(values[j]);
        assert(values[i].cli_name != values[j].cli_name);
    }
}

/// Every subcommand stands for a tool, and they stand in the order of the tools.
pub(crate) proof fn subcommand_tool(tools: Seq<ToolView>, i: int) -> (k: int)
    requires
        0 <= i < planned_tools(tools).len(),
    ensures
        i <= k < tools.len(),
        tools[k].root is Some,
        planned_tools(tools)[i] == planned_tool(tools[k], tools[k].root->0),
        i == planned_tools(tools).len() - 1 || k < tools.len() - 1,
    decreases tools.len(),
{
    let rest = tools.drop_last();
    if tools.last().root is Some && i == planned_tools(rest).len() {
        planned_tools_short(rest);
        tools.len() - 1
    } else {
        let k = subcommand_tool(rest, i);
        assert(rest[k] == tools[k]);
        k
    }
}

/// There are at most as many subcommands as tools.
proof fn planned_tools_short(tools: Seq<ToolView>)
    ensures
        planned_tools(tools).len() <= tools.len(),
    decreases tools.len(),
{
    if tools.len() > 0 {
        planned_tools_short(tools.drop_last());
    }
}

/// Subcommands of tools with different names have different names.
proof fn planned_tools_differ(tools: Seq<ToolView>, i: int, j: int)
    requires
        0 <= i < j < planned_tools(tools).len(),
        forall|a: int, b: int|
            0 <= a < b < tools.len() ==> (#[trigger] tools[a]).cli_name != (
            #[trigger] tools[b]).cli_name,
    ensures
        planned_tools(tools)[i].name != planned_tools(tools)[j].name,
    decreases tools.len(),
{
    let rest = tools.drop_last();
    assert forall|a: int, b: int| 0 <= a < b < rest.len() implies (#[trigger] rest[a]).cli_name != (
    #[trigger] rest[b]).cli_name by {
        assert(rest[a] == tools[a] && rest[b] == tools[b]);
    }
    if tools.last().root is Some && j == planned_tools(rest).len() {
        let k = subcommand_tool(rest, i);
        assert(rest[k] == tools[k]);
        assert(tools[k].cli_name != tools[tools.len() - 1].cli_name);
    } else {
        planned_tools_differ(rest, i, j);
    }
}

/// The command generated for a registry without problems can be parsed: no two of its names clash.
pub proof fn generated_command_is_sound(
    name: Seq<char>,
    version: Option<Seq<char>>,
    definitions: Seq<DefinitionView>,
)
    requires
        survey_problems(definitions).len() == 0,
    ensures
        command_sound(planned_root(name, version, survey(definitions).tools)),
{
    let tools = survey(definitions).tools;
    let root = planned_root(name, version, tools);
    names_are_distinct(definitions);
    reveal_strlit("output-mode");
    reveal_strlit("image-mode");
    reveal_strlit("artifact-dir");
    reveal_strlit("input-json-route");
    reveal_strlit("output");
    reveal_strlit("images");
    reveal_strlit("input-json");
    reveal_strlit("help");
    reveal_strlit("version");
    assert("output-mode"@[0] == 'o' && "image-mode"@[0] == 'i' && "artifact-dir"@[0] == 'a');
    assert("output"@[0] == 'o' && "images"@[0] == 'i' && "input-json"@[0] == 'i');
    assert("help"@[0] == 'h' && "version"@[0] == 'v' && "input-json-route"@[0] == 'i');
    assert("images"@[1] == 'm' && "input-json"@[1] == 'n');
    assert("image-mode"@[1] == 'm' && "input-json-route"@[1] == 'n');
    assert forall|i: int| 0 <= i < root.subcommands.len() implies command_sound(
        #[trigger] root.subcommands[i],
    ) by {
        let k = subcommand_tool(tools, i);
        assert(tool_distinct(tools[k]));
        planned_tool_sound(tools[k], tools[k].root->0);
    }
    assert forall|i: int, j: int| 0 <= i < j < root.subcommands.len() implies (
    #[trigger] root.subcommands[i]).name != (#[trigger] root.subcommands[j]).name by {
        planned_tools_differ(tools, i, j);
    }
}

} // verus!
