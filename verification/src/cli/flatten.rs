//! What schema analysis makes of object schemas: options for their properties, at any depth.

use vstd::prelude::*;

use crate::cli::names::normalized_path;
use crate::cli::reach::{
    among_all, given_options_reach_the_arguments, member_at, separate, separate_below,
    separate_from, stands_among, stands_at, stands_at_one,
};
use crate::cli::rebuild::{analysis_names_objects, option_parsed, property_name, rebuilt_object};
use crate::cli::schema::{
    analyzed_fields, analyzed_node, analyzed_object, analyzed_value, annotated, arranged,
    arranged_in_order, child_path, child_place, goes_before, is_required, is_static, kind_of,
    merged, seat, seat_splits, union_branches, KindView, NodeView, NotesView, PlaceView, ValueView,
};
use crate::json::{canonical, member_decreases, texts_are_found, texts_under, JsonView};
use crate::table::{ascending, inserted, inserted_ascending, keys, lookup, lookup_inserted};
use crate::text::{text_lt, text_lt_irreflexive};

verus! {

// ---------------------------------------------------------------------------------------------
// Arranged properties

/// Every arranged property is one of the properties.
proof fn arranged_from(nodes: Seq<NodeView>, k: int) -> (i: int)
    requires
        0 <= k < arranged(nodes).len(),
    ensures
        0 <= i < nodes.len(),
        nodes[i] == arranged(nodes)[k],
    decreases nodes.len(),
{
    let rest = arranged(nodes.drop_last());
    let p = seat(rest, nodes.last()) as int;
    seat_splits(rest, nodes.last());
    if k == p {
        nodes.len() - 1
    } else {
        let from = if k < p {
            k
        } else {
            k - 1
        };
        assert(arranged(nodes)[k] == rest[from]);
        let i = arranged_from(nodes.drop_last(), from);
        assert(nodes.drop_last()[i] == nodes[i]);
        i
    }
}

/// Every property is among the arranged ones.
pub(crate) proof fn arranged_to(nodes: Seq<NodeView>, i: int) -> (k: int)
    requires
        0 <= i < nodes.len(),
    ensures
        0 <= k < arranged(nodes).len(),
        arranged(nodes)[k] == nodes[i],
    decreases nodes.len(),
{
    let rest = arranged(nodes.drop_last());
    let p = seat(rest, nodes.last()) as int;
    seat_splits(rest, nodes.last());
    if i == nodes.len() - 1 {
        p
    } else {
        assert(nodes.drop_last()[i] == nodes[i]);
        let k = arranged_to(nodes.drop_last(), i);
        if k < p {
            k
        } else {
            assert(arranged(nodes)[k + 1] == rest[k]);
            k + 1
        }
    }
}

/// Arranging keeps properties separate.
proof fn arranged_separate(nodes: Seq<NodeView>)
    requires
        forall|i: int| 0 <= i < nodes.len() ==> separate_below(#[trigger] nodes[i]),
        forall|i: int, j: int|
            0 <= i < j < nodes.len() ==> property_name(#[trigger] nodes[i]) != property_name(
                #[trigger] nodes[j],
            ),
    ensures
        forall|i: int, j: int|
            0 <= i < j < arranged(nodes).len() ==> property_name(#[trigger] arranged(nodes)[i])
                != property_name(#[trigger] arranged(nodes)[j]),
        separate(arranged(nodes)),
    decreases nodes.len(),
{
    let all = arranged(nodes);
    if nodes.len() > 0 {
        let rest = nodes.drop_last();
        assert forall|i: int| 0 <= i < rest.len() implies separate_below(#[trigger] rest[i]) by {
            assert(rest[i] == nodes[i]);
        }
        assert forall|i: int, j: int| 0 <= i < j < rest.len() implies property_name(
            #[trigger] rest[i],
        ) != property_name(#[trigger] rest[j]) by {
            assert(rest[i] == nodes[i] && rest[j] == nodes[j]);
        }
        arranged_separate(rest);
        let seated = arranged(rest);
        let p = seat(seated, nodes.last()) as int;
        seat_splits(seated, nodes.last());
        assert forall|i: int, j: int| 0 <= i < j < all.len() implies property_name(
            #[trigger] all[i],
        ) != property_name(#[trigger] all[j]) by {
            let a = if i < p {
                i
            } else {
                i - 1
            };
            let b = if j < p {
                j
            } else {
                j - 1
            };
            if i == p {
                let k = arranged_from(rest, b);
                assert(all[j] == seated[b] && rest[k] == nodes[k]);
                assert(property_name(nodes[k]) != property_name(nodes[nodes.len() - 1]));
            } else if j == p {
                let k = arranged_from(rest, a);
                assert(all[i] == seated[a] && rest[k] == nodes[k]);
                assert(property_name(nodes[k]) != property_name(nodes[nodes.len() - 1]));
            } else {
                assert(all[i] == seated[a] && all[j] == seated[b]);
            }
        }
    }
    assert forall|k: int| 0 <= k < all.len() implies separate_below(#[trigger] all[k]) by {
        let i = arranged_from(nodes, k);
        assert(separate_below(nodes[i]));
    }
    separate_from(all);
}

// ---------------------------------------------------------------------------------------------
// Properties and nodes

/// What a property becomes has the property's name, and is required as it is.
proof fn node_keeps_place(at: PlaceView, schema: JsonView, notes: NotesView)
    ensures
        property_name(analyzed_node(at, schema, notes).0) == at.name,
        is_required(analyzed_node(at, schema, notes).0) == at.required,
{
}

/// The node of one property among those of an object.
proof fn field_node(
    fields: Seq<(Seq<char>, JsonView)>,
    needed: Seq<Seq<char>>,
    path: Seq<char>,
    parent: Option<Seq<char>>,
    notes: NotesView,
    i: int,
) -> (so_far: NotesView)
    requires
        0 <= i < fields.len(),
    ensures
        analyzed_fields(fields, needed, path, parent, notes).0.len() == fields.len(),
        analyzed_fields(fields, needed, path, parent, notes).0[i] == analyzed_node(
            child_place(path, parent, needed, fields[i]),
            fields[i].1,
            so_far,
        ).0,
    decreases fields.len(),
{
    let (nodes, before) = analyzed_fields(fields.drop_last(), needed, path, parent, notes);
    fields_count(fields.drop_last(), needed, path, parent, notes);
    if i == fields.len() - 1 {
        before
    } else {
        assert(fields.drop_last()[i] == fields[i]);
        field_node(fields.drop_last(), needed, path, parent, notes, i)
    }
}

/// There is a node for each property.
proof fn fields_count(
    fields: Seq<(Seq<char>, JsonView)>,
    needed: Seq<Seq<char>>,
    path: Seq<char>,
    parent: Option<Seq<char>>,
    notes: NotesView,
)
    ensures
        analyzed_fields(fields, needed, path, parent, notes).0.len() == fields.len(),
    decreases fields.len(),
{
    if fields.len() > 0 {
        fields_count(fields.drop_last(), needed, path, parent, notes);
    }
}

/// Keys in ascending order are different.
proof fn ascending_keys_differ(fields: Seq<(Seq<char>, JsonView)>, i: int, j: int)
    requires
        ascending(keys(fields)),
        0 <= i < j < fields.len(),
    ensures
        fields[i].0 != fields[j].0,
{
    assert(keys(fields)[i] == fields[i].0 && keys(fields)[j] == fields[j].0);
    text_lt_irreflexive(fields[i].0);
}

/// No two properties that the analysis of a canonical schema puts into one object share a name.
pub proof fn analysis_separates(
    name: Option<Seq<char>>,
    path: Seq<char>,
    required: bool,
    parent: Option<Seq<char>>,
    schema: JsonView,
    notes: NotesView,
)
    requires
        canonical(schema),
    ensures
        separate(analyzed_object(name, path, required, parent, schema, notes).0.children),
    decreases schema, 0int,
{
    match schema.get("properties"@) {
        Some(JsonView::Object(fields)) => {
            member_decreases(schema, "properties"@);
            canonical_member(schema, "properties"@);
            let needed = texts_under(schema, "required"@);
            let nodes = analyzed_fields(fields, needed, path, parent, notes).0;
            fields_count(fields, needed, path, parent, notes);
            assert forall|i: int| 0 <= i < nodes.len() implies separate_below(#[trigger] nodes[i])
                && property_name(nodes[i]) == fields[i].0 by {
                let so_far = field_node(fields, needed, path, parent, notes, i);
                let at = child_place(path, parent, needed, fields[i]);
                assert(canonical(fields[i].1));
                assert(decreases_to!(schema => fields));
                assert(decreases_to!(fields => fields[i]));
                assert(decreases_to!(fields[i] => fields[i].1));
                node_separates(at, fields[i].1, so_far);
                node_keeps_place(at, fields[i].1, so_far);
            }
            assert forall|i: int, j: int| 0 <= i < j < nodes.len() implies property_name(
                #[trigger] nodes[i],
            ) != property_name(#[trigger] nodes[j]) by {
                ascending_keys_differ(fields, i, j);
                assert(separate_below(nodes[i]) && separate_below(nodes[j]));
            }
            arranged_separate(nodes);
        },
        _ => {
            assert(arranged(Seq::<NodeView>::empty()) =~= Seq::<NodeView>::empty());
        },
    }
}

proof fn node_separates(at: PlaceView, schema: JsonView, notes: NotesView)
    requires
        canonical(schema),
    ensures
        separate_below(analyzed_node(at, schema, notes).0),
    decreases schema, 1int,
{
    match union_branches(schema) {
        Some((scalar_schema, object_schema)) => {
            member_decreases(schema, "oneOf"@);
            canonical_member(schema, "oneOf"@);
            let choices = schema.get("oneOf"@)->0->Array_0;
            assert(canonical(choices[0]) && canonical(choices[1]));
            assert(decreases_to!(schema => schema.get("oneOf"@)->0));
            assert(decreases_to!(schema.get("oneOf"@)->0 => choices));
            assert(decreases_to!(choices => choices[0]));
            assert(decreases_to!(choices => choices[1]));
            let so_far = analyzed_value(
                PlaceView { required: false, ..at },
                merged(scalar_schema, schema),
                notes,
            ).1;
            let parent = if at.parent is Some {
                at.parent
            } else {
                Some(at.path)
            };
            analysis_separates(Some(at.name), at.path, false, parent, object_schema, so_far);
        },
        None => {
            if is_static(schema) {
                analysis_separates(Some(at.name), at.path, at.required, at.parent, schema, notes);
            }
        },
    }
}

/// A member of a canonical object is canonical.
proof fn canonical_member(value: JsonView, key: Seq<char>)
    requires
        canonical(value),
        value.get(key) is Some,
    ensures
        canonical(value.get(key)->0),
{
    let fields = value->Object_0;
    crate::table::lookup_absent(fields, key);
    let k = choose|k: int|
        0 <= k < fields.len() && (#[trigger] fields[k]).0 == key && Some(fields[k].1) == lookup(
            fields,
            key,
        );
    assert(canonical(fields[k].1));
}

// ---------------------------------------------------------------------------------------------
// Flattening

/// Whether a schema is an object that lists its properties and admits no others.
pub open spec fn lists_properties(schema: JsonView) -> bool {
    &&& schema.get("type"@) == Some(JsonView::Text("object"@))
    &&& schema.get("properties"@) is None || schema.get("properties"@)->0 is Object
    &&& schema.get("$ref"@) is None
    &&& schema.get("oneOf"@) is None
    &&& schema.get("anyOf"@) is None
    &&& schema.get("additionalProperties"@) is None || schema.get("additionalProperties"@) == Some(
        JsonView::Bool(false),
    )
}

/// The properties that a schema lists.
pub open spec fn listed(schema: JsonView) -> Seq<(Seq<char>, JsonView)> {
    if schema.get("properties"@) is Some {
        schema.get("properties"@)->0->Object_0
    } else {
        Seq::empty()
    }
}

/// Whether a schema lists a name as required.
pub open spec fn demands(schema: JsonView, name: Seq<char>) -> bool {
    schema.get("required"@) matches Some(JsonView::Array(names)) && names.contains(
        JsonView::Text(name),
    )
}

/// A property is required if its schema lists its name among the required ones.
proof fn demanded(schema: JsonView, name: Seq<char>)
    ensures
        texts_under(schema, "required"@).contains(name) <==> demands(schema, name),
{
    if let Some(JsonView::Array(items)) = schema.get("required"@) {
        texts_are_found(items, name);
    }
}

/// An object schema that lists its properties and admits no others becomes an object whose
/// children stand one for one for the listed properties: there are as many, and each property has
/// a child of its name that is required if the schema says so.
pub proof fn listed_properties_become_children(at: PlaceView, schema: JsonView, notes: NotesView)
    requires
        lists_properties(schema),
    ensures
        analyzed_node(at, schema, notes).0 matches NodeView::Object(object) && {
            &&& object.name == Some(at.name)
            &&& object.path == at.path
            &&& object.required == at.required
            &&& object.children.len() == listed(schema).len()
            &&& forall|i: int|
                0 <= i < listed(schema).len() ==> exists|k: int|
                    0 <= k < object.children.len() && property_name(#[trigger] object.children[k])
                        == (#[trigger] listed(schema)[i]).0 && is_required(object.children[k])
                        == demands(schema, listed(schema)[i].0)
            &&& forall|k: int|
                0 <= k < object.children.len() ==> exists|i: int|
                    0 <= i < listed(schema).len() && property_name(#[trigger] object.children[k])
                        == (#[trigger] listed(schema)[i]).0
        },
{
    let fields = listed(schema);
    let needed = texts_under(schema, "required"@);
    let nodes = analyzed_fields(fields, needed, at.path, at.parent, notes).0;
    fields_count(fields, needed, at.path, at.parent, notes);
    arranged_in_order(nodes);
    let children = arranged(nodes);
    assert forall|i: int| 0 <= i < fields.len() implies exists|k: int|
        0 <= k < children.len() && property_name(#[trigger] children[k]) == (
        #[trigger] fields[i]).0 && is_required(children[k]) == demands(schema, fields[i].0) by {
        let so_far = field_node(fields, needed, at.path, at.parent, notes, i);
        node_keeps_place(
            child_place(at.path, at.parent, needed, fields[i]),
            fields[i].1,
            so_far,
        );
        demanded(schema, fields[i].0);
        let k = arranged_to(nodes, i);
        assert(property_name(children[k]) == fields[i].0);
    }
    assert forall|k: int| 0 <= k < children.len() implies exists|i: int|
        0 <= i < fields.len() && property_name(#[trigger] children[k]) == (
        #[trigger] fields[i]).0 by {
        let i = arranged_from(nodes, k);
        let so_far = field_node(fields, needed, at.path, at.parent, notes, i);
        node_keeps_place(
            child_place(at.path, at.parent, needed, fields[i]),
            fields[i].1,
            so_far,
        );
        assert(property_name(children[k]) == fields[i].0);
    }
}

/// Saying that an object schema admits no other properties changes nothing where it does not say
/// that it does.
pub proof fn closing_an_object_changes_nothing(
    at: PlaceView,
    members: Seq<(Seq<char>, JsonView)>,
    notes: NotesView,
)
    requires
        ascending(keys(members)),
        lists_properties(JsonView::Object(members)),
        lookup(members, "additionalProperties"@) is None,
    ensures
        analyzed_node(
            at,
            JsonView::Object(inserted(members, "additionalProperties"@, JsonView::Bool(false))),
            notes,
        ) == analyzed_node(at, JsonView::Object(members), notes),
{
    reveal_strlit("additionalProperties");
    reveal_strlit("type");
    reveal_strlit("properties");
    reveal_strlit("required");
    reveal_strlit("$ref");
    reveal_strlit("oneOf");
    reveal_strlit("anyOf");
    let no = JsonView::Bool(false);
    let key = "additionalProperties"@;
    lookup_inserted(members, key, no, key);
    lookup_inserted(members, key, no, "type"@);
    lookup_inserted(members, key, no, "properties"@);
    lookup_inserted(members, key, no, "required"@);
    lookup_inserted(members, key, no, "$ref"@);
    lookup_inserted(members, key, no, "oneOf"@);
    lookup_inserted(members, key, no, "anyOf"@);
    let open = JsonView::Object(members);
    let closed = JsonView::Object(inserted(members, key, no));
    assert(closed.get("type"@) == open.get("type"@));
    assert(closed.get("properties"@) == open.get("properties"@));
    assert(closed.get("required"@) == open.get("required"@));
    assert(union_branches(open) is None);
    assert(union_branches(closed) is None);
    assert(is_static(open) && is_static(closed));
    assert(texts_under(closed, "required"@) == texts_under(open, "required"@));
}

/// Whether a schema admits properties that it does not list, or refers elsewhere for them.
pub open spec fn is_open(schema: JsonView) -> bool {
    ||| schema.get("additionalProperties"@) matches Some(more) && more != JsonView::Bool(false)
    ||| schema.get("$ref"@) is Some
    ||| schema.get("anyOf"@) is Some
}

/// An object schema that admits other properties, or refers elsewhere, stays one option whose value
/// is a JSON object.
pub proof fn open_objects_stay_json(at: PlaceView, schema: JsonView, notes: NotesView)
    requires
        schema.get("type"@) == Some(JsonView::Text("object"@)),
        schema.get("oneOf"@) is None,
        is_open(schema),
    ensures
        analyzed_node(at, schema, notes).0 matches NodeView::Value(value) && value.kind
            == KindView::Json(Some("object"@)) && value.name == at.name && value.required
            == at.required,
{
    reveal_strlit("object");
    reveal_strlit("string");
    reveal_strlit("integer");
    reveal_strlit("number");
    reveal_strlit("boolean");
    reveal_strlit("array");
    assert("object"@[0] == 'o' && "string"@[0] == 's' && "integer"@[0] == 'i' && "number"@[0] == 'n'
        && "boolean"@[0] == 'b' && "array"@[0] == 'a');
}

// ---------------------------------------------------------------------------------------------
// Options of deep properties

/// The schema of the property at a path, where every object on the way lists its properties.
pub open spec fn property_at(schema: JsonView, path: Seq<Seq<char>>) -> Option<JsonView>
    decreases path.len(),
{
    if path.len() == 0 {
        Some(schema)
    } else if lists_properties(schema) {
        match lookup(listed(schema), path[0]) {
            Some(inner) => property_at(inner, path.skip(1)),
            None => None,
        }
    } else {
        None
    }
}

/// Whether a property has one option of its own: it is no object that lists its properties, and no
/// choice between several schemas.
pub open spec fn is_leaf(schema: JsonView) -> bool {
    schema.get("oneOf"@) is None && (schema.get("type"@) != Some(JsonView::Text("object"@))
        || is_open(schema))
}

/// The dotted path of a property below another path.
pub open spec fn dotted(prefix: Seq<char>, path: Seq<Seq<char>>) -> Seq<char>
    decreases path.len(),
{
    if path.len() == 0 {
        prefix
    } else if prefix.len() == 0 {
        dotted(path[0], path.skip(1))
    } else {
        dotted(prefix + "."@ + path[0], path.skip(1))
    }
}

/// How many steps of a path lie before the first object on the way that may be left out, where
/// there is one.
pub open spec fn first_optional(schema: JsonView, path: Seq<Seq<char>>) -> Option<nat>
    decreases path.len(),
{
    if path.len() <= 1 {
        None
    } else if !demands(schema, path[0]) {
        Some(0)
    } else {
        match lookup(listed(schema), path[0]) {
            Some(inner) => match first_optional(inner, path.skip(1)) {
                Some(steps) => Some(steps + 1),
                None => None,
            },
            None => None,
        }
    }
}

/// The first object that may be left out lies before the end of the path.
proof fn first_optional_within(schema: JsonView, path: Seq<Seq<char>>)
    ensures
        first_optional(schema, path) matches Some(steps) ==> steps + 1 < path.len(),
    decreases path.len(),
{
    if path.len() > 1 && lookup(listed(schema), path[0]) is Some {
        first_optional_within(lookup(listed(schema), path[0])->0, path.skip(1));
    }
}

/// Every property that can be reached through objects that list their properties has an option: it
/// stands at the property's path, holds the property's schema, has the spelling of the dotted
/// path, is required if the object that holds the property says so, and depends on the first
/// object on the way that may be left out.
pub proof fn deep_properties_have_options(
    name: Option<Seq<char>>,
    prefix: Seq<char>,
    required: bool,
    parent: Option<Seq<char>>,
    schema: JsonView,
    notes: NotesView,
    path: Seq<Seq<char>>,
) -> (value: ValueView)
    requires
        lists_properties(schema),
        path.len() > 0,
        property_at(schema, path) matches Some(leaf) && is_leaf(leaf),
    ensures
        stands_among(
            analyzed_object(name, prefix, required, parent, schema, notes).0.children,
            path,
            value,
        ),
        value.name == path.last(),
        value.schema == property_at(schema, path)->0,
        value.kind == kind_of(property_at(schema, path)->0),
        value.path == dotted(prefix, path),
        normalized_path(value.path) is Some ==> value.cli_name == normalized_path(value.path)->0,
        property_at(schema, path.drop_last()) is Some,
        value.required == demands(property_at(schema, path.drop_last())->0, path.last()),
        parent is Some ==> value.conditional_parent == parent,
        parent is None ==> value.conditional_parent == match first_optional(schema, path) {
            Some(steps) => Some(dotted(prefix, path.take(steps as int + 1))),
            None => None,
        },
    decreases path.len(),
{
    reveal_with_fuel(property_at, 3);
    reveal_with_fuel(dotted, 2);
    let fields = listed(schema);
    demanded(schema, path[0]);
    let needed = texts_under(schema, "required"@);
    let nodes = analyzed_fields(fields, needed, prefix, parent, notes).0;
    let children = arranged(nodes);
    let inner = lookup(fields, path[0])->0;
    crate::table::lookup_absent(fields, path[0]);
    let i = choose|i: int|
        0 <= i < fields.len() && (#[trigger] fields[i]).0 == path[0] && Some(fields[i].1) == lookup(
            fields,
            path[0],
        );
    let so_far = field_node(fields, needed, prefix, parent, notes, i);
    let at = child_place(prefix, parent, needed, fields[i]);
    let node = analyzed_node(at, inner, so_far).0;
    assert(nodes[i] == node);
    let k = arranged_to(nodes, i);
    let rest = path.skip(1);
    assert(at.path == child_path(prefix, path[0]));
    if rest.len() == 0 {
        assert(inner == property_at(schema, path)->0);
        let value = analyzed_value(at, inner, so_far).0;
        assert(union_branches(inner) is None);
        assert(!is_static(inner));
        assert(node == NodeView::Value(value));
        assert(path =~= seq![value.name]);
        assert(stands_at(children[k], path, value));
        among_all(children, k, path, value);
        assert(path.drop_last() =~= Seq::<Seq<char>>::empty());
        value
    } else {
        assert(lists_properties(inner));
        assert(union_branches(inner) is None);
        assert(is_static(inner));
        let value = deep_properties_have_options(
            Some(at.name),
            at.path,
            at.required,
            at.parent,
            inner,
            so_far,
            rest,
        );
        assert(stands_at(children[k], path, value));
        among_all(children, k, path, value);
        assert(rest.last() == path.last());
        assert(path.drop_last().skip(1) =~= rest.drop_last());
        assert(dotted(prefix, path) == dotted(at.path, rest));
        first_optional_within(schema, path);
        if parent is None {
            match first_optional(schema, path) {
                Some(steps) => {
                    let way = path.take(steps as int + 1);
                    if steps == 0 {
                        assert(way.skip(1) =~= Seq::<Seq<char>>::empty());
                        assert(dotted(prefix, way) == at.path);
                    } else {
                        assert(way.skip(1) =~= rest.take(steps as int));
                        assert(dotted(prefix, way) == dotted(at.path, rest.take(steps as int)));
                    }
                },
                None => {},
            }
        }
        value
    }
}

/// What the command line gives for a property of a tool's schema, under the spelling of the
/// property's path, is what the tool's arguments hold at that path, whatever the depth.
pub proof fn schema_properties_become_arguments(
    schema: JsonView,
    notes: NotesView,
    matches: Seq<(Seq<char>, Seq<Seq<char>>)>,
    path: Seq<Seq<char>>,
    values: Seq<Seq<char>>,
) -> (value: ValueView)
    requires
        canonical(schema),
        lists_properties(schema),
        path.len() > 0,
        property_at(schema, path) matches Some(leaf) && is_leaf(leaf),
        normalized_path(dotted(Seq::empty(), path)) matches Some(spelling) && lookup(
            matches,
            spelling,
        ) == Some(values),
        rebuilt_object(
            analyzed_object(None, Seq::empty(), false, None, schema, notes).0,
            matches,
            true,
        ) is Ok,
    ensures
        Some(value.cli_name) == normalized_path(dotted(Seq::empty(), path)),
        value.kind == kind_of(property_at(schema, path)->0),
        option_parsed(value, values) is Ok,
        rebuilt_object(
            analyzed_object(None, Seq::empty(), false, None, schema, notes).0,
            matches,
            true,
        ) matches Ok(Some(arguments)) && member_at(arguments, path) == Some(
            option_parsed(value, values)->Ok_0,
        ),
{
    let none = Seq::<char>::empty();
    let root = analyzed_object(None, none, false, None, schema, notes).0;
    let value = deep_properties_have_options(None, none, false, None, schema, notes, path);
    analysis_names_objects(None, none, false, None, schema, notes);
    analysis_separates(None, none, false, None, schema, notes);
    given_options_reach_the_arguments(root, matches, path, value);
    value
}

// ---------------------------------------------------------------------------------------------
// Unions

/// Whether a schema offers a scalar, or an object that lists at least one property, in either order.
pub open spec fn offers(schema: JsonView, scalar: JsonView, object: JsonView) -> bool {
    &&& schema.get("oneOf"@) == Some(JsonView::Array(seq![scalar, object])) || schema.get("oneOf"@)
        == Some(JsonView::Array(seq![object, scalar]))
    &&& kind_of(scalar) is Scalar
    &&& lists_properties(object)
    &&& listed(object).len() > 0
}

/// What one annotation adds to a branch.
proof fn annotated_members(branch: JsonView, parent: JsonView, key: Seq<char>, other: Seq<char>)
    requires
        branch is Object,
        ascending(keys(branch->Object_0)),
    ensures
        annotated(branch, parent, key) is Object,
        ascending(keys(annotated(branch, parent, key)->Object_0)),
        annotated(branch, parent, key).get(other) == (if other == key && branch.get(key) is None {
            parent.get(key)
        } else {
            branch.get(other)
        }),
{
    if let Some(value) = parent.get(key) {
        inserted_ascending(branch->Object_0, key, value);
        lookup_inserted(branch->Object_0, key, value, other);
    }
}

/// Whether a member describes a value and does not restrict it.
pub open spec fn describes(key: Seq<char>) -> bool {
    key == "description"@ || key == "default"@ || key == "examples"@ || key == "title"@
}

/// A branch takes over what describes its parent where it does not describe itself, and nothing
/// else.
pub proof fn branches_take_over_descriptions(branch: JsonView, parent: JsonView, key: Seq<char>)
    requires
        branch is Object,
        ascending(keys(branch->Object_0)),
    ensures
        merged(branch, parent).get(key) == (if describes(key) && branch.get(key) is None {
            parent.get(key)
        } else {
            branch.get(key)
        }),
{
    reveal_strlit("description");
    reveal_strlit("default");
    reveal_strlit("examples");
    reveal_strlit("title");
    assert("description"@.len() == 11 && "default"@.len() == 7 && "examples"@.len() == 8
        && "title"@.len() == 5);
    let one = annotated(branch, parent, "description"@);
    let two = annotated(one, parent, "default"@);
    let three = annotated(two, parent, "examples"@);
    annotated_members(branch, parent, "description"@, key);
    annotated_members(one, parent, "default"@, key);
    annotated_members(two, parent, "examples"@, key);
    annotated_members(three, parent, "title"@, key);
    annotated_members(branch, parent, "description"@, "default"@);
    annotated_members(branch, parent, "description"@, "examples"@);
    annotated_members(one, parent, "default"@, "examples"@);
    annotated_members(branch, parent, "description"@, "title"@);
    annotated_members(one, parent, "default"@, "title"@);
    annotated_members(two, parent, "examples"@, "title"@);
}

/// Descriptions do not change how a value is read.
proof fn merged_reads_alike(branch: JsonView, parent: JsonView)
    requires
        branch is Object,
        ascending(keys(branch->Object_0)),
    ensures
        kind_of(merged(branch, parent)) == kind_of(branch),
{
    reveal_strlit("description");
    reveal_strlit("default");
    reveal_strlit("examples");
    reveal_strlit("title");
    reveal_strlit("type");
    reveal_strlit("enum");
    reveal_strlit("items");
    assert("title"@[0] == 't' && "items"@[0] == 'i');
    branches_take_over_descriptions(branch, parent, "type"@);
    branches_take_over_descriptions(branch, parent, "enum"@);
    branches_take_over_descriptions(branch, parent, "items"@);
}

/// A schema that offers a scalar or an object becomes a union: an option of its own that reads the
/// scalar, and the options of the object's properties one for one. Neither is required by itself,
/// and what is below depends on the union or on what the union depends on.
pub proof fn choices_become_unions(
    at: PlaceView,
    schema: JsonView,
    notes: NotesView,
    scalar: JsonView,
    object: JsonView,
)
    requires
        canonical(schema),
        offers(schema, scalar, object),
    ensures
        analyzed_node(at, schema, notes).0 matches NodeView::Union(union) && {
            &&& union.name == at.name
            &&& union.required == at.required
            &&& union.scalar.name == at.name
            &&& union.scalar.path == at.path
            &&& union.scalar.kind == kind_of(scalar)
            &&& !union.scalar.required
            &&& union.scalar.conditional_parent == at.parent
            &&& union.object.name == Some(at.name)
            &&& !union.object.required
            &&& union.object.children.len() == listed(object).len()
            &&& forall|i: int|
                0 <= i < listed(object).len() ==> exists|k: int|
                    0 <= k < union.object.children.len() && property_name(
                        #[trigger] union.object.children[k],
                    ) == (#[trigger] listed(object)[i]).0 && is_required(union.object.children[k])
                        == demands(object, listed(object)[i].0)
            &&& forall|path: Seq<Seq<char>>, value: ValueView|
                #[trigger] stands_among(union.object.children, path, value)
                    ==> value.conditional_parent == (if at.parent is Some {
                    at.parent
                } else {
                    Some(at.path)
                })
        },
{
    reveal_strlit("object");
    reveal_strlit("string");
    reveal_strlit("integer");
    reveal_strlit("number");
    reveal_strlit("boolean");
    assert("object"@[0] == 'o' && "string"@[0] == 's' && "integer"@[0] == 'i' && "number"@[0] == 'n'
        && "boolean"@[0] == 'b');
    let choices = schema.get("oneOf"@)->0->Array_0;
    canonical_member(schema, "oneOf"@);
    assert(canonical(choices[0]) && canonical(choices[1]));
    assert(union_branches(schema) == Some((scalar, object)));
    merged_reads_alike(scalar, schema);
    let so_far = analyzed_value(
        PlaceView { required: false, ..at },
        merged(scalar, schema),
        notes,
    ).1;
    let parent = if at.parent is Some {
        at.parent
    } else {
        Some(at.path)
    };
    let place = PlaceView { name: at.name, path: at.path, required: false, parent };
    listed_properties_become_children(place, object, so_far);
    assert(analyzed_node(place, object, so_far).0 == NodeView::Object(
        analyzed_object(Some(at.name), at.path, false, parent, object, so_far).0,
    ));
    let children = analyzed_object(
        Some(at.name),
        at.path,
        false,
        parent,
        object,
        so_far,
    ).0.children;
    assert forall|path: Seq<Seq<char>>, value: ValueView| #[trigger]
        stands_among(children, path, value) implies value.conditional_parent == parent by {
        ancestor_reaches_below(
            Some(at.name),
            at.path,
            false,
            parent->0,
            object,
            so_far,
            path,
            value,
        );
    }
}

/// The order in which a union's branches are written does not matter.
pub proof fn branch_order_does_not_matter(
    at: PlaceView,
    one: JsonView,
    two: JsonView,
    notes: NotesView,
    scalar: JsonView,
    object: JsonView,
)
    requires
        offers(one, scalar, object),
        offers(two, scalar, object),
        forall|key: Seq<char>| describes(key) ==> one.get(key) == #[trigger] two.get(key),
    ensures
        analyzed_node(at, one, notes) == analyzed_node(at, two, notes),
{
    reveal_strlit("object");
    reveal_strlit("string");
    reveal_strlit("integer");
    reveal_strlit("number");
    reveal_strlit("boolean");
    assert("object"@[0] == 'o' && "string"@[0] == 's' && "integer"@[0] == 'i' && "number"@[0] == 'n'
        && "boolean"@[0] == 'b');
    assert(union_branches(one) == Some((scalar, object)));
    assert(union_branches(two) == Some((scalar, object)));
    assert(one.get("description"@) == two.get("description"@));
    assert(one.get("default"@) == two.get("default"@));
    assert(one.get("examples"@) == two.get("examples"@));
    assert(one.get("title"@) == two.get("title"@));
    assert(merged(scalar, one) == merged(scalar, two));
}

/// Any other choice between schemas stays one option.
pub proof fn other_choices_stay_one_option(at: PlaceView, schema: JsonView, notes: NotesView)
    requires
        schema.get("oneOf"@) is Some,
        forall|scalar: JsonView, object: JsonView| !#[trigger] offers(schema, scalar, object),
    ensures
        analyzed_node(at, schema, notes).0 matches NodeView::Value(value) && value.kind == kind_of(
            schema,
        ) && value.name == at.name && value.path == at.path && value.required == at.required
            && value.conditional_parent == at.parent,
{
    if let Some((scalar, object)) = union_branches(schema) {
        let choices = schema.get("oneOf"@)->0->Array_0;
        assert(choices =~= seq![scalar, object] || choices =~= seq![object, scalar]);
        assert(offers(schema, scalar, object));
    }
}

/// An ancestor that may be left out decides for everything below it.
proof fn ancestor_reaches_below(
    name: Option<Seq<char>>,
    path: Seq<char>,
    required: bool,
    parent: Seq<char>,
    schema: JsonView,
    notes: NotesView,
    way: Seq<Seq<char>>,
    value: ValueView,
)
    requires
        stands_among(
            analyzed_object(name, path, required, Some(parent), schema, notes).0.children,
            way,
            value,
        ),
    ensures
        value.conditional_parent == Some(parent),
    decreases schema, 0int,
{
    let children = analyzed_object(name, path, required, Some(parent), schema, notes).0.children;
    let k = stands_at_one(children, way, value);
    match schema.get("properties"@) {
        Some(JsonView::Object(fields)) => {
            member_decreases(schema, "properties"@);
            let needed = texts_under(schema, "required"@);
            let nodes = analyzed_fields(fields, needed, path, Some(parent), notes).0;
            fields_count(fields, needed, path, Some(parent), notes);
            let i = arranged_from(nodes, k);
            let so_far = field_node(fields, needed, path, Some(parent), notes, i);
            assert(decreases_to!(schema => fields));
            assert(decreases_to!(fields => fields[i]));
            assert(decreases_to!(fields[i] => fields[i].1));
            ancestor_reaches_node(
                child_place(path, Some(parent), needed, fields[i]),
                fields[i].1,
                so_far,
                way,
                value,
            );
        },
        _ => {},
    }
}

proof fn ancestor_reaches_node(
    at: PlaceView,
    schema: JsonView,
    notes: NotesView,
    way: Seq<Seq<char>>,
    value: ValueView,
)
    requires
        at.parent is Some,
        stands_at(analyzed_node(at, schema, notes).0, way, value),
    ensures
        value.conditional_parent == at.parent,
    decreases schema, 1int,
{
    match union_branches(schema) {
        Some((scalar_schema, object_schema)) => {
            member_decreases(schema, "oneOf"@);
            let choices = schema.get("oneOf"@)->0->Array_0;
            assert(decreases_to!(schema => schema.get("oneOf"@)->0));
            assert(decreases_to!(schema.get("oneOf"@)->0 => choices));
            assert(decreases_to!(choices => choices[0]));
            assert(decreases_to!(choices => choices[1]));
            let so_far = analyzed_value(
                PlaceView { required: false, ..at },
                merged(scalar_schema, schema),
                notes,
            ).1;
            if way.len() > 1 {
                ancestor_reaches_below(
                    Some(at.name),
                    at.path,
                    false,
                    at.parent->0,
                    object_schema,
                    so_far,
                    way.skip(1),
                    value,
                );
            }
        },
        None => {
            if is_static(schema) {
                ancestor_reaches_below(
                    Some(at.name),
                    at.path,
                    at.required,
                    at.parent->0,
                    schema,
                    notes,
                    way.skip(1),
                    value,
                );
            }
        },
    }
}

// ---------------------------------------------------------------------------------------------
// Order

/// What a property is sorted by: its spelling, or its path where it has no option of its own.
pub open spec fn sorted_by(node: NodeView) -> Seq<char> {
    match node {
        NodeView::Value(value) => value.cli_name,
        NodeView::Union(union) => union.scalar.cli_name,
        NodeView::Object(object) => object.path,
    }
}

/// Whether a property has to be there where its object is.
pub open spec fn is_needed(node: NodeView) -> bool {
    match node {
        NodeView::Value(value) => value.required,
        NodeView::Union(union) => union.required,
        NodeView::Object(object) => object.required,
    }
}

/// The required properties of an object stand before the others, and each of the two groups in the
/// order of the spellings.
pub proof fn required_properties_come_first(
    name: Option<Seq<char>>,
    path: Seq<char>,
    required: bool,
    parent: Option<Seq<char>>,
    schema: JsonView,
    notes: NotesView,
    i: int,
    j: int,
)
    requires
        0 <= i < j < analyzed_object(
            name,
            path,
            required,
            parent,
            schema,
            notes,
        ).0.children.len(),
    ensures
        ({
            let children = analyzed_object(
                name,
                path,
                required,
                parent,
                schema,
                notes,
            ).0.children;
            &&& is_needed(children[j]) ==> is_needed(children[i])
            &&& is_needed(children[i]) == is_needed(children[j]) ==> !text_lt(
                sorted_by(children[j]),
                sorted_by(children[i]),
            )
        }),
{
    let children = analyzed_object(name, path, required, parent, schema, notes).0.children;
    let nodes = match schema.get("properties"@) {
        Some(JsonView::Object(fields)) => analyzed_fields(
            fields,
            texts_under(schema, "required"@),
            path,
            parent,
            notes,
        ).0,
        _ => Seq::empty(),
    };
    assert(children == arranged(nodes));
    arranged_in_order(nodes);
    assert(!goes_before(children[j], children[i]));
}

} // verus!
