//! What becomes of the options that a command line gives: each reaches the tool's arguments, at the
//! place of its property.

use vstd::prelude::*;

use crate::cli::generate::{all_values, node_values};
use crate::cli::rebuild::{
    all_named, any_given, named, node_contributes, node_given, option_parsed, property_name,
    rebuilt_members, rebuilt_node, rebuilt_object, members_follow_schema,
};
use crate::cli::schema::{NodeView, ObjectView, ValueView};
use crate::json::JsonView;
use crate::table::{lookup, lookup_absent, lookup_inserted};

verus! {

// ---------------------------------------------------------------------------------------------
// Places

/// Whether an option stands for the property at a path that begins with a node's own name.
pub open spec fn stands_at(node: NodeView, path: Seq<Seq<char>>, value: ValueView) -> bool
    decreases node,
{
    match node {
        NodeView::Value(own) => own == value && path == seq![own.name],
        NodeView::Object(object) => path.len() > 1 && object.name == Some(path[0])
            && stands_among(object.children, path.skip(1), value),
        NodeView::Union(union) => {
            ||| union.scalar == value && path == seq![union.name]
            ||| path.len() > 1 && union.name == path[0] && stands_among(
                union.object.children,
                path.skip(1),
                value,
            )
        },
    }
}

/// Whether an option stands for the property at a path below some nodes.
pub open spec fn stands_among(
    nodes: Seq<NodeView>,
    path: Seq<Seq<char>>,
    value: ValueView,
) -> bool
    decreases nodes,
{
    nodes.len() > 0 && (stands_among(nodes.drop_last(), path, value) || stands_at(
        nodes.last(),
        path,
        value,
    ))
}

/// The value at a path of member names.
pub open spec fn member_at(value: JsonView, path: Seq<Seq<char>>) -> Option<JsonView>
    decreases path.len(),
{
    if path.len() == 0 {
        Some(value)
    } else {
        match value {
            JsonView::Object(fields) => match lookup(fields, path[0]) {
                Some(member) => member_at(member, path.skip(1)),
                None => None,
            },
            _ => None,
        }
    }
}

/// Whether no two properties of one object have the same name, at any depth.
pub open spec fn separate(nodes: Seq<NodeView>) -> bool
    decreases nodes,
{
    nodes.len() > 0 ==> {
        &&& separate(nodes.drop_last())
        &&& separate_below(nodes.last())
        &&& forall|i: int|
            0 <= i < nodes.len() - 1 ==> property_name(#[trigger] nodes[i]) != property_name(
                nodes.last(),
            )
    }
}

/// Whether no two properties of one object below a node have the same name.
pub open spec fn separate_below(node: NodeView) -> bool
    decreases node,
{
    match node {
        NodeView::Value(_) => true,
        NodeView::Object(object) => separate(object.children),
        NodeView::Union(union) => separate(union.object.children),
    }
}

/// Nodes are separate if each is below itself and no two share a name.
pub proof fn separate_from(nodes: Seq<NodeView>)
    requires
        forall|i: int| 0 <= i < nodes.len() ==> separate_below(#[trigger] nodes[i]),
        forall|i: int, j: int|
            0 <= i < j < nodes.len() ==> property_name(#[trigger] nodes[i]) != property_name(
                #[trigger] nodes[j],
            ),
    ensures
        separate(nodes),
    decreases nodes.len(),
{
    if nodes.len() > 0 {
        let rest = nodes.drop_last();
        assert forall|i: int| 0 <= i < rest.len() implies separate_below(#[trigger] rest[i]) by {
            assert(rest[i] == nodes[i]);
        }
        assert forall|i: int, j: int| 0 <= i < j < rest.len() implies property_name(
            #[trigger] rest[i],
        ) != property_name(#[trigger] rest[j]) by {
            assert(rest[i] == nodes[i] && rest[j] == nodes[j]);
        }
        separate_from(rest);
        assert forall|i: int| 0 <= i < nodes.len() - 1 implies property_name(#[trigger] nodes[i])
            != property_name(nodes.last()) by {
            assert(property_name(nodes[i]) != property_name(nodes[nodes.len() - 1]));
        }
    }
}

/// An option below nodes stands at one of them.
pub proof fn stands_at_one(nodes: Seq<NodeView>, path: Seq<Seq<char>>, value: ValueView) -> (i: int)
    requires
        stands_among(nodes, path, value),
    ensures
        0 <= i < nodes.len(),
        stands_at(nodes[i], path, value),
    decreases nodes.len(),
{
    if stands_at(nodes.last(), path, value) {
        nodes.len() - 1
    } else {
        let i = stands_at_one(nodes.drop_last(), path, value);
        assert(nodes.drop_last()[i] == nodes[i]);
        i
    }
}

/// An option's path begins with the name of the property that it stands below.
proof fn path_begins(node: NodeView, path: Seq<Seq<char>>, value: ValueView)
    requires
        stands_at(node, path, value),
    ensures
        path.len() > 0,
        path[0] == property_name(node),
{
}

// ---------------------------------------------------------------------------------------------
// Options and places

/// Every option of a node stands somewhere below it, and only options of the node do.
proof fn node_options_stand(node: NodeView, value: ValueView)
    requires
        named(node),
    ensures
        node_values(node).contains(value) <==> exists|path: Seq<Seq<char>>| #[trigger]
            stands_at(node, path, value),
    decreases node, 0int,
{
    match node {
        NodeView::Value(own) => {
            if own == value {
                assert(node_values(node)[0] == value);
                assert(stands_at(node, seq![own.name], value));
            }
        },
        NodeView::Object(object) => {
            options_stand(object.children, value);
            if node_values(node).contains(value) {
                let inner = choose|inner: Seq<Seq<char>>| #[trigger]
                    stands_among(object.children, inner, value);
                let path = seq![object.name->0] + inner;
                assert(path.skip(1) =~= inner);
                stands_at_one(object.children, inner, value);
                let i = stands_at_one(object.children, inner, value);
                path_begins(object.children[i], inner, value);
                assert(stands_at(node, path, value));
            }
            if exists|path: Seq<Seq<char>>| #[trigger] stands_at(node, path, value) {
                let path = choose|path: Seq<Seq<char>>| #[trigger] stands_at(node, path, value);
                assert(stands_among(object.children, path.skip(1), value));
            }
        },
        NodeView::Union(union) => {
            options_stand(union.object.children, value);
            let inside = all_values(union.object.children);
            if union.scalar == value {
                assert(node_values(node)[0] == value);
                assert(stands_at(node, seq![union.name], value));
            }
            if inside.contains(value) {
                let k = choose|k: int| 0 <= k < inside.len() && inside[k] == value;
                assert(node_values(node)[k + 1] == value);
                let inner = choose|inner: Seq<Seq<char>>| #[trigger]
                    stands_among(union.object.children, inner, value);
                let path = seq![union.name] + inner;
                assert(path.skip(1) =~= inner);
                let i = stands_at_one(union.object.children, inner, value);
                path_begins(union.object.children[i], inner, value);
                assert(stands_at(node, path, value));
            }
            if exists|path: Seq<Seq<char>>| #[trigger] stands_at(node, path, value) {
                let path = choose|path: Seq<Seq<char>>| #[trigger] stands_at(node, path, value);
                if union.scalar != value {
                    assert(stands_among(union.object.children, path.skip(1), value));
                }
            }
            if node_values(node).contains(value) && union.scalar != value {
                let k = choose|k: int|
                    0 <= k < node_values(node).len() && node_values(node)[k] == value;
                assert(inside[k - 1] == value);
            }
        },
    }
}

/// The options of nodes are exactly those that stand at some path below them.
pub proof fn options_stand(nodes: Seq<NodeView>, value: ValueView)
    requires
        all_named(nodes),
    ensures
        all_values(nodes).contains(value) <==> exists|path: Seq<Seq<char>>| #[trigger]
            stands_among(nodes, path, value),
    decreases nodes, 1int,
{
    if nodes.len() > 0 {
        let rest = all_values(nodes.drop_last());
        let own = node_values(nodes.last());
        assert(all_values(nodes) == rest + own);
        options_stand(nodes.drop_last(), value);
        node_options_stand(nodes.last(), value);
        if all_values(nodes).contains(value) {
            let k = choose|k: int| 0 <= k < (rest + own).len() && (rest + own)[k] == value;
            if k < rest.len() {
                assert(rest[k] == value);
                let path = choose|path: Seq<Seq<char>>| #[trigger]
                    stands_among(nodes.drop_last(), path, value);
                assert(stands_among(nodes, path, value));
            } else {
                assert(own[k - rest.len()] == value);
                let path = choose|path: Seq<Seq<char>>| #[trigger]
                    stands_at(nodes.last(), path, value);
                assert(stands_among(nodes, path, value));
            }
        }
        if exists|path: Seq<Seq<char>>| #[trigger] stands_among(nodes, path, value) {
            let path = choose|path: Seq<Seq<char>>| #[trigger] stands_among(nodes, path, value);
            if stands_at(nodes.last(), path, value) {
                let k = choose|k: int| 0 <= k < own.len() && own[k] == value;
                assert((rest + own)[rest.len() + k] == value);
            } else {
                assert(stands_among(nodes.drop_last(), path, value));
                let k = choose|k: int| 0 <= k < rest.len() && rest[k] == value;
                assert((rest + own)[k] == value);
            }
        }
    }
}

/// A node is given when one of its options is, however deep.
proof fn node_given_by_option(node: NodeView, matches: Seq<(Seq<char>, Seq<Seq<char>>)>)
    ensures
        node_given(node, matches) <==> exists|k: int|
            0 <= k < node_values(node).len() && lookup(
                matches,
                (#[trigger] node_values(node)[k]).cli_name,
            ) is Some,
    decreases node, 0int,
{
    let values = node_values(node);
    match node {
        NodeView::Value(value) => {
            assert(values[0] == value);
        },
        NodeView::Object(object) => {
            given_by_option(object.children, matches);
        },
        NodeView::Union(union) => {
            let inside = all_values(union.object.children);
            given_by_option(union.object.children, matches);
            assert(values[0] == union.scalar);
            assert forall|k: int| 0 <= k < inside.len() implies #[trigger] inside[k] == values[k
                + 1] by {}
            if exists|k: int|
                0 <= k < inside.len() && lookup(matches, (#[trigger] inside[k]).cli_name) is Some {
                let k = choose|k: int|
                    0 <= k < inside.len() && lookup(
                        matches,
                        (#[trigger] inside[k]).cli_name,
                    ) is Some;
                assert(values[k + 1] == inside[k]);
            }
            if exists|k: int|
                0 <= k < values.len() && lookup(matches, (#[trigger] values[k]).cli_name) is Some {
                let k = choose|k: int|
                    0 <= k < values.len() && lookup(
                        matches,
                        (#[trigger] values[k]).cli_name,
                    ) is Some;
                if k > 0 {
                    assert(inside[k - 1] == values[k]);
                }
            }
        },
    }
}

/// Nodes are given when one of their options is, however deep.
pub proof fn given_by_option(nodes: Seq<NodeView>, matches: Seq<(Seq<char>, Seq<Seq<char>>)>)
    ensures
        any_given(nodes, matches) <==> exists|k: int|
            0 <= k < all_values(nodes).len() && lookup(
                matches,
                (#[trigger] all_values(nodes)[k]).cli_name,
            ) is Some,
    decreases nodes, 1int,
{
    if nodes.len() > 0 {
        let rest = all_values(nodes.drop_last());
        let own = node_values(nodes.last());
        let all = all_values(nodes);
        assert(all == rest + own);
        given_by_option(nodes.drop_last(), matches);
        node_given_by_option(nodes.last(), matches);
        if exists|k: int|
            0 <= k < rest.len() && lookup(matches, (#[trigger] rest[k]).cli_name) is Some {
            let k = choose|k: int|
                0 <= k < rest.len() && lookup(matches, (#[trigger] rest[k]).cli_name) is Some;
            assert(all[k] == rest[k]);
        }
        if exists|k: int|
            0 <= k < own.len() && lookup(matches, (#[trigger] own[k]).cli_name) is Some {
            let k = choose|k: int|
                0 <= k < own.len() && lookup(matches, (#[trigger] own[k]).cli_name) is Some;
            assert(all[rest.len() + k] == own[k]);
        }
        if exists|k: int| 0 <= k < all.len() && lookup(matches, (#[trigger] all[k]).cli_name) is Some
        {
            let k = choose|k: int|
                0 <= k < all.len() && lookup(matches, (#[trigger] all[k]).cli_name) is Some;
            if k < rest.len() {
                assert(rest[k] == all[k]);
            } else {
                assert(own[k - rest.len()] == all[k]);
            }
        }
    }
}

// ---------------------------------------------------------------------------------------------
// Reaching the arguments

/// What a given option below a node contributes.
proof fn node_is_reached(
    node: NodeView,
    matches: Seq<(Seq<char>, Seq<Seq<char>>)>,
    path: Seq<Seq<char>>,
    value: ValueView,
)
    requires
        named(node),
        separate_below(node),
        stands_at(node, path, value),
        lookup(matches, value.cli_name) is Some,
        rebuilt_node(node, matches, true) is Ok,
    ensures
        option_parsed(value, lookup(matches, value.cli_name)->0) is Ok,
        rebuilt_node(node, matches, true) matches Ok(Some((name, result))) && name == path[0]
            && member_at(result, path.skip(1)) == Some(
            option_parsed(value, lookup(matches, value.cli_name)->0)->Ok_0,
        ),
    decreases node, 0int,
{
    node_contributes(node, matches, true);
    path_begins(node, path, value);
    match node {
        NodeView::Value(_) => {
            assert(path.skip(1) =~= Seq::<Seq<char>>::empty());
        },
        NodeView::Object(object) => {
            let i = stands_at_one(object.children, path.skip(1), value);
            option_is_given(object.children, matches, path.skip(1), value);
            members_are_reached(object.children, matches, path.skip(1), value);
        },
        NodeView::Union(union) => {
            if path.len() == 1 {
                assert(union.scalar == value);
                assert(path.skip(1) =~= Seq::<Seq<char>>::empty());
            } else {
                option_is_given(union.object.children, matches, path.skip(1), value);
                members_are_reached(union.object.children, matches, path.skip(1), value);
            }
        },
    }
}

/// An option that was given gives the nodes that it stands below.
proof fn option_is_given(
    nodes: Seq<NodeView>,
    matches: Seq<(Seq<char>, Seq<Seq<char>>)>,
    path: Seq<Seq<char>>,
    value: ValueView,
)
    requires
        all_named(nodes),
        stands_among(nodes, path, value),
        lookup(matches, value.cli_name) is Some,
    ensures
        any_given(nodes, matches),
{
    options_stand(nodes, value);
    given_by_option(nodes, matches);
    let k = choose|k: int| 0 <= k < all_values(nodes).len() && all_values(nodes)[k] == value;
    assert(all_values(nodes)[k].cli_name == value.cli_name);
}

/// An option that was given is a member of the rebuilt object at its path, with the value that its
/// input stands for.
pub proof fn members_are_reached(
    nodes: Seq<NodeView>,
    matches: Seq<(Seq<char>, Seq<Seq<char>>)>,
    path: Seq<Seq<char>>,
    value: ValueView,
)
    requires
        all_named(nodes),
        separate(nodes),
        stands_among(nodes, path, value),
        lookup(matches, value.cli_name) is Some,
        rebuilt_members(nodes, matches) is Ok,
    ensures
        option_parsed(value, lookup(matches, value.cli_name)->0) is Ok,
        member_at(JsonView::Object(rebuilt_members(nodes, matches)->Ok_0), path) == Some(
            option_parsed(value, lookup(matches, value.cli_name)->0)->Ok_0,
        ),
    decreases nodes, 1int,
{
    let rest = nodes.drop_last();
    let last = nodes.last();
    let before = rebuilt_members(rest, matches)->Ok_0;
    let after = rebuilt_members(nodes, matches)->Ok_0;
    members_follow_schema(rest, matches);
    let spot = stands_at_one(nodes, path, value);
    path_begins(nodes[spot], path, value);
    node_contributes(last, matches, true);
    if stands_at(last, path, value) {
        node_is_reached(last, matches, path, value);
        let (name, result) = rebuilt_node(last, matches, true)->Ok_0->0;
        lookup_inserted(before, name, result, name);
        assert(lookup(after, path[0]) == Some(result));
    } else {
        members_are_reached(rest, matches, path, value);
        let i = stands_at_one(rest, path, value);
        path_begins(rest[i], path, value);
        assert(rest[i] == nodes[i]);
        assert(property_name(nodes[i]) != property_name(last));
        if let Ok(Some((name, result))) = rebuilt_node(last, matches, true) {
            lookup_inserted(before, name, result, path[0]);
        }
        assert(lookup(after, path[0]) == lookup(before, path[0]));
    }
}

/// Every option that the command line gives reaches the arguments: whatever the depth of its
/// property, if the arguments can be put together, they hold at the property's path the value that
/// the option's input stands for.
pub proof fn given_options_reach_the_arguments(
    root: ObjectView,
    matches: Seq<(Seq<char>, Seq<Seq<char>>)>,
    path: Seq<Seq<char>>,
    value: ValueView,
)
    requires
        root.name is None,
        all_named(root.children),
        separate(root.children),
        stands_among(root.children, path, value),
        lookup(matches, value.cli_name) is Some,
        rebuilt_object(root, matches, true) is Ok,
    ensures
        option_parsed(value, lookup(matches, value.cli_name)->0) is Ok,
        rebuilt_object(root, matches, true) matches Ok(Some(arguments)) && member_at(
            arguments,
            path,
        ) == Some(option_parsed(value, lookup(matches, value.cli_name)->0)->Ok_0),
{
    members_are_reached(root.children, matches, path, value);
}

// ---------------------------------------------------------------------------------------------
// Options that were not given

/// Whether two paths part before either ends.
pub open spec fn apart(a: Seq<Seq<char>>, b: Seq<Seq<char>>) -> bool {
    exists|k: int| 0 <= k < a.len() && 0 <= k < b.len() && #[trigger] a[k] != b[k]
}

/// Whether every option that was given stands apart from a path.
pub open spec fn given_apart(
    nodes: Seq<NodeView>,
    matches: Seq<(Seq<char>, Seq<Seq<char>>)>,
    path: Seq<Seq<char>>,
) -> bool {
    forall|other: Seq<Seq<char>>, value: ValueView|
        #[trigger] stands_among(nodes, other, value) && lookup(matches, value.cli_name) is Some
            ==> apart(other, path)
}

/// What the member under a property's name is.
proof fn member_of(nodes: Seq<NodeView>, matches: Seq<(Seq<char>, Seq<Seq<char>>)>, i: int)
    requires
        separate(nodes),
        0 <= i < nodes.len(),
        rebuilt_members(nodes, matches) is Ok,
    ensures
        rebuilt_node(nodes[i], matches, true) is Ok,
        lookup(rebuilt_members(nodes, matches)->Ok_0, property_name(nodes[i])) == match rebuilt_node(
            nodes[i],
            matches,
            true,
        )->Ok_0 {
            Some((_, result)) => Some(result),
            None => None,
        },
    decreases nodes.len(),
{
    let rest = nodes.drop_last();
    let last = nodes.last();
    let before = rebuilt_members(rest, matches)->Ok_0;
    let after = rebuilt_members(nodes, matches)->Ok_0;
    let name = property_name(nodes[i]);
    members_follow_schema(rest, matches);
    node_contributes(last, matches, true);
    if i < rest.len() {
        member_of(rest, matches, i);
        assert(rest[i] == nodes[i]);
        assert(property_name(nodes[i]) != property_name(last));
        if let Ok(Some((own, result))) = rebuilt_node(last, matches, true) {
            lookup_inserted(before, own, result, name);
        }
    } else {
        lookup_absent(before, name);
        assert forall|k: int| 0 <= k < before.len() implies (#[trigger] before[k]).0 != name by {
            if before[k].0 == name {
                let j = choose|j: int|
                    0 <= j < rest.len() && property_name(#[trigger] rest[j]) == before[k].0;
                assert(rest[j] == nodes[j]);
                assert(property_name(nodes[j]) != property_name(last));
            }
        }
        if let Ok(Some((own, result))) = rebuilt_node(last, matches, true) {
            lookup_inserted(before, own, result, name);
        }
    }
}

/// An option that stands at a node stands among the nodes that it is one of.
pub proof fn among_all(nodes: Seq<NodeView>, i: int, path: Seq<Seq<char>>, value: ValueView)
    requires
        0 <= i < nodes.len(),
        stands_at(nodes[i], path, value),
    ensures
        stands_among(nodes, path, value),
    decreases nodes.len(),
{
    if i < nodes.len() - 1 {
        assert(nodes.drop_last()[i] == nodes[i]);
        among_all(nodes.drop_last(), i, path, value);
    }
}

/// What is given below an object of one node is given apart from the rest of a path through it.
proof fn apart_below(
    nodes: Seq<NodeView>,
    i: int,
    children: Seq<NodeView>,
    matches: Seq<(Seq<char>, Seq<Seq<char>>)>,
    path: Seq<Seq<char>>,
)
    requires
        0 <= i < nodes.len(),
        given_apart(nodes, matches, path),
        path.len() > 0,
        path[0] == property_name(nodes[i]),
        match nodes[i] {
            NodeView::Object(object) => object.name is Some && object.children == children,
            NodeView::Union(union) => union.object.children == children,
            NodeView::Value(_) => false,
        },
    ensures
        given_apart(children, matches, path.skip(1)),
{
    assert forall|other: Seq<Seq<char>>, value: ValueView| #[trigger]
        stands_among(children, other, value) && lookup(
            matches,
            value.cli_name,
        ) is Some implies apart(other, path.skip(1)) by {
        let k = stands_at_one(children, other, value);
        path_begins(children[k], other, value);
        let whole = seq![path[0]] + other;
        assert(whole.skip(1) =~= other);
        assert(stands_at(nodes[i], whole, value));
        among_all(nodes, i, whole, value);
        assert(apart(whole, path));
        let d = choose|d: int|
            0 <= d < whole.len() && 0 <= d < path.len() && #[trigger] whole[d] != path[d];
        assert(d > 0);
        assert(other[d - 1] != path.skip(1)[d - 1]);
    }
}

/// Nothing is given below nodes if everything given is apart from the path that ends there.
proof fn nothing_below(
    nodes: Seq<NodeView>,
    matches: Seq<(Seq<char>, Seq<Seq<char>>)>,
)
    requires
        all_named(nodes),
        given_apart(nodes, matches, Seq::empty()),
    ensures
        !any_given(nodes, matches),
{
    given_by_option(nodes, matches);
    if any_given(nodes, matches) {
        let k = choose|k: int|
            0 <= k < all_values(nodes).len() && lookup(
                matches,
                (#[trigger] all_values(nodes)[k]).cli_name,
            ) is Some;
        let value = all_values(nodes)[k];
        assert(all_values(nodes).contains(value));
        options_stand(nodes, value);
        let path = choose|path: Seq<Seq<char>>| #[trigger] stands_among(nodes, path, value);
        assert(apart(path, Seq::empty()));
    }
}

/// The names of nodes are those of each.
proof fn each_named(nodes: Seq<NodeView>, i: int)
    requires
        all_named(nodes),
        separate(nodes),
        0 <= i < nodes.len(),
    ensures
        named(nodes[i]),
        separate_below(nodes[i]),
    decreases nodes.len(),
{
    if i < nodes.len() - 1 {
        assert(nodes.drop_last()[i] == nodes[i]);
        each_named(nodes.drop_last(), i);
    }
}

/// What the command line does not give is not among the arguments: at the path of an option there
/// is nothing unless an option was given that stands there, above it or below it.
pub proof fn arguments_hold_nothing_else(
    nodes: Seq<NodeView>,
    matches: Seq<(Seq<char>, Seq<Seq<char>>)>,
    path: Seq<Seq<char>>,
    value: ValueView,
)
    requires
        all_named(nodes),
        separate(nodes),
        stands_among(nodes, path, value),
        given_apart(nodes, matches, path),
        rebuilt_members(nodes, matches) is Ok,
    ensures
        member_at(JsonView::Object(rebuilt_members(nodes, matches)->Ok_0), path) is None,
    decreases nodes,
{
    let i = stands_at_one(nodes, path, value);
    let node = nodes[i];
    path_begins(node, path, value);
    member_of(nodes, matches, i);
    each_named(nodes, i);
    assert(!apart(path, path));
    match node {
        NodeView::Value(_) => {},
        NodeView::Object(object) => {
            apart_below(nodes, i, object.children, matches, path);
            if rebuilt_node(node, matches, true)->Ok_0 is Some {
                arguments_hold_nothing_else(object.children, matches, path.skip(1), value);
            }
        },
        NodeView::Union(union) => {
            assert(stands_at(node, seq![union.name], union.scalar));
            among_all(nodes, i, seq![union.name], union.scalar);
            if lookup(matches, union.scalar.cli_name) is Some {
                assert(apart(seq![union.name], path));
            }
            apart_below(nodes, i, union.object.children, matches, path);
            if path.len() == 1 {
                assert(path.skip(1) =~= Seq::<Seq<char>>::empty());
                nothing_below(union.object.children, matches);
            } else if rebuilt_node(node, matches, true)->Ok_0 is Some {
                arguments_hold_nothing_else(union.object.children, matches, path.skip(1), value);
            }
        },
    }
}

// ---------------------------------------------------------------------------------------------
// Success

/// Whether an option below nodes was given.
pub open spec fn given_below(
    nodes: Seq<NodeView>,
    matches: Seq<(Seq<char>, Seq<Seq<char>>)>,
) -> bool {
    exists|path: Seq<Seq<char>>, value: ValueView|
        #[trigger] stands_among(nodes, path, value) && lookup(matches, value.cli_name) is Some
}

/// Whether an option, if it was given, has input that it can read.
pub open spec fn readable(
    value: ValueView,
    matches: Seq<(Seq<char>, Seq<Seq<char>>)>,
) -> bool {
    lookup(matches, value.cli_name) matches Some(values) ==> option_parsed(value, values) is Ok
}

/// Whether what was given of a property of an active object is enough and fits: its options can be
/// read, what is required is there, and of a union only one branch is.
pub open spec fn fits(node: NodeView, matches: Seq<(Seq<char>, Seq<Seq<char>>)>) -> bool
    decreases node,
{
    match node {
        NodeView::Value(value) => readable(value, matches) && (value.required ==> lookup(
            matches,
            value.cli_name,
        ) is Some),
        NodeView::Object(object) => (object.required || given_below(object.children, matches))
            ==> all_fit(object.children, matches),
        NodeView::Union(union) => {
            let scalar = lookup(matches, union.scalar.cli_name) is Some;
            let object = given_below(union.object.children, matches);
            &&& !(scalar && object)
            &&& readable(union.scalar, matches)
            &&& object ==> all_fit(union.object.children, matches)
            &&& union.required ==> scalar || object
        },
    }
}

/// Whether what was given of all properties of an active object is enough and fits.
pub open spec fn all_fit(nodes: Seq<NodeView>, matches: Seq<(Seq<char>, Seq<Seq<char>>)>) -> bool
    decreases nodes,
{
    nodes.len() > 0 ==> (all_fit(nodes.drop_last(), matches) && fits(nodes.last(), matches))
}

/// Something occurred below nodes exactly if one of their options did.
proof fn given_is_below(nodes: Seq<NodeView>, matches: Seq<(Seq<char>, Seq<Seq<char>>)>)
    requires
        all_named(nodes),
    ensures
        any_given(nodes, matches) <==> given_below(nodes, matches),
{
    if any_given(nodes, matches) {
        given_by_option(nodes, matches);
        let k = choose|k: int|
            0 <= k < all_values(nodes).len() && lookup(
                matches,
                (#[trigger] all_values(nodes)[k]).cli_name,
            ) is Some;
        let value = all_values(nodes)[k];
        assert(all_values(nodes).contains(value));
        options_stand(nodes, value);
        let path = choose|path: Seq<Seq<char>>| #[trigger] stands_among(nodes, path, value);
        assert(stands_among(nodes, path, value) && lookup(matches, value.cli_name) is Some);
    }
    if given_below(nodes, matches) {
        let (path, value) = choose|path: Seq<Seq<char>>, value: ValueView|
            #[trigger] stands_among(nodes, path, value) && lookup(matches, value.cli_name) is Some;
        option_is_given(nodes, matches, path, value);
    }
}

/// The arguments can be put together exactly if what was given is enough and fits.
pub proof fn fitting_input_succeeds(
    nodes: Seq<NodeView>,
    matches: Seq<(Seq<char>, Seq<Seq<char>>)>,
)
    requires
        all_named(nodes),
    ensures
        rebuilt_members(nodes, matches) is Ok <==> all_fit(nodes, matches),
    decreases nodes, 1int,
{
    if nodes.len() > 0 {
        fitting_input_succeeds(nodes.drop_last(), matches);
        fitting_node_succeeds(nodes.last(), matches);
    }
}

proof fn fitting_node_succeeds(node: NodeView, matches: Seq<(Seq<char>, Seq<Seq<char>>)>)
    requires
        named(node),
    ensures
        rebuilt_node(node, matches, true) is Ok <==> fits(node, matches),
    decreases node, 0int,
{
    match node {
        NodeView::Value(_) => {},
        NodeView::Object(object) => {
            given_is_below(object.children, matches);
            fitting_input_succeeds(object.children, matches);
        },
        NodeView::Union(union) => {
            given_is_below(union.object.children, matches);
            fitting_input_succeeds(union.object.children, matches);
        },
    }
}

} // verus!
