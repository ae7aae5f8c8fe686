//! Analysis of tool schemas into command options.

use vstd::prelude::*;
use vstd::string::StringExecFns;

use crate::cli::names::{normalize_path, normalized_path};
use crate::cli::problem::{name_views, problem_views, CliBuildProblem, ProblemView};
use crate::json::{
    field_views, field_views_are, json_views, json_views_are, member_decreases, texts_under, Json,
    JsonView,
};
use crate::table::{find_place, inserted, key_texts, keys, lookup, place};
use crate::text::{
    copy_opt, decimal, decimal_text, holds_text, opt_text, same_text, text_before, text_lt,
    text_lt_irreflexive, text_lt_total, text_lt_transitive, texts,
};

verus! {

// ---------------------------------------------------------------------------------------------
// Options and their model

/// Supported scalar JSON types.
pub enum ScalarKind {
    /// Verbatim UTF-8 string with optional exact values.
    Text(Vec<String>),
    /// JSON integer.
    Integer,
    /// JSON number.
    Number,
    /// Explicit or implicit JSON boolean.
    Boolean,
}

/// Encoding used by one option.
pub enum ValueKind {
    /// One scalar occurrence.
    Scalar(ScalarKind),
    /// Ordered repeated scalar occurrences.
    Array(ScalarKind),
    /// One strict JSON value with an optional expected type.
    Json(Option<&'static str>),
}

/// One command option and its JSON representation.
pub struct ValueSpec {
    /// Original property name.
    pub name: String,
    /// Original dotted property path.
    pub path: String,
    /// Normalized option name and Clap identifier.
    pub cli_name: String,
    /// Whether this value is required when its parent is active.
    pub required: bool,
    /// First optional ancestor that conditionally activates this value.
    pub conditional_parent: Option<String>,
    /// Input encoding.
    pub kind: ValueKind,
    /// Source JSON Schema.
    pub schema: Json,
}

/// One statically enumerable object.
pub struct ObjectSpec {
    /// Original property name, absent for a tool root.
    pub name: Option<String>,
    /// Display path from the tool root.
    pub path: String,
    /// Whether this object is required when its parent is active.
    pub required: bool,
    /// Child properties.
    pub children: Vec<NodeSpec>,
}

/// Supported scalar-versus-object union.
pub struct UnionSpec {
    /// Original property name.
    pub name: String,
    /// Whether one branch is required when the parent is active.
    pub required: bool,
    /// Scalar parent option.
    pub scalar: ValueSpec,
    /// Flattened object branch.
    pub object: ObjectSpec,
}

/// One schema property represented in a command.
pub enum NodeSpec {
    /// Statically flattened object.
    Object(ObjectSpec),
    /// Scalar, repeated scalar, or JSON-valued option.
    Value(ValueSpec),
    /// Scalar-versus-object union.
    Union(UnionSpec),
}

/// A scalar type as mathematics.
pub enum ScalarView {
    Text(Seq<Seq<char>>),
    Integer,
    Number,
    Boolean,
}

/// An option encoding as mathematics.
pub enum KindView {
    Scalar(ScalarView),
    Array(ScalarView),
    Json(Option<Seq<char>>),
}

/// An option as mathematics.
pub struct ValueView {
    pub name: Seq<char>,
    pub path: Seq<char>,
    pub cli_name: Seq<char>,
    pub required: bool,
    pub conditional_parent: Option<Seq<char>>,
    pub kind: KindView,
    pub schema: JsonView,
}

/// An object as mathematics.
pub struct ObjectView {
    pub name: Option<Seq<char>>,
    pub path: Seq<char>,
    pub required: bool,
    pub children: Seq<NodeView>,
}

/// A union as mathematics.
pub struct UnionView {
    pub name: Seq<char>,
    pub required: bool,
    pub scalar: ValueView,
    pub object: ObjectView,
}

/// A property as mathematics.
pub enum NodeView {
    Object(ObjectView),
    Value(ValueView),
    Union(UnionView),
}

impl View for ScalarKind {
    type V = ScalarView;

    open spec fn view(&self) -> ScalarView {
        match self {
            ScalarKind::Text(choices) => ScalarView::Text(texts(choices@)),
            ScalarKind::Integer => ScalarView::Integer,
            ScalarKind::Number => ScalarView::Number,
            ScalarKind::Boolean => ScalarView::Boolean,
        }
    }
}

impl View for ValueKind {
    type V = KindView;

    open spec fn view(&self) -> KindView {
        match self {
            ValueKind::Scalar(kind) => KindView::Scalar(kind@),
            ValueKind::Array(kind) => KindView::Array(kind@),
            ValueKind::Json(Some(expected)) => KindView::Json(Some(expected@)),
            ValueKind::Json(None) => KindView::Json(None),
        }
    }
}

impl View for ValueSpec {
    type V = ValueView;

    open spec fn view(&self) -> ValueView {
        ValueView {
            name: self.name@,
            path: self.path@,
            cli_name: self.cli_name@,
            required: self.required,
            conditional_parent: opt_text(self.conditional_parent),
            kind: self.kind@,
            schema: self.schema@,
        }
    }
}

/// What a property stands for.
pub open spec fn node_view(node: NodeSpec) -> NodeView
    decreases node,
{
    match node {
        NodeSpec::Object(object) => NodeView::Object(object_view(object)),
        NodeSpec::Value(value) => NodeView::Value(value@),
        NodeSpec::Union(union) => NodeView::Union(union_view(union)),
    }
}

/// What a union stands for.
pub open spec fn union_view(union: UnionSpec) -> UnionView
    decreases union,
{
    UnionView {
        name: union.name@,
        required: union.required,
        scalar: union.scalar@,
        object: object_view(union.object),
    }
}

/// What an object stands for.
pub open spec fn object_view(object: ObjectSpec) -> ObjectView
    decreases object,
{
    ObjectView {
        name: opt_text(object.name),
        path: object.path@,
        required: object.required,
        children: node_views(object.children@),
    }
}

/// What properties stand for.
pub open spec fn node_views(nodes: Seq<NodeSpec>) -> Seq<NodeView>
    decreases nodes,
{
    if nodes.len() == 0 {
        Seq::empty()
    } else {
        node_views(nodes.drop_last()).push(node_view(nodes.last()))
    }
}

impl View for NodeSpec {
    type V = NodeView;

    open spec fn view(&self) -> NodeView {
        node_view(*self)
    }
}

impl View for UnionSpec {
    type V = UnionView;

    open spec fn view(&self) -> UnionView {
        union_view(*self)
    }
}

impl View for ObjectSpec {
    type V = ObjectView;

    open spec fn view(&self) -> ObjectView {
        object_view(*self)
    }
}

/// The views of properties stand one for one for them.
pub proof fn node_views_are(nodes: Seq<NodeSpec>)
    ensures
        node_views(nodes).len() == nodes.len(),
        forall|i: int| 0 <= i < nodes.len() ==> #[trigger] node_views(nodes)[i] == nodes[i]@,
    decreases nodes.len(),
{
    if nodes.len() > 0 {
        node_views_are(nodes.drop_last());
    }
}

/// Properties with the same views have the same list of views.
proof fn node_views_same(nodes: Seq<NodeSpec>, views: Seq<NodeView>)
    requires
        nodes.len() == views.len(),
        forall|i: int| 0 <= i < nodes.len() ==> (#[trigger] nodes[i])@ == views[i],
    ensures
        node_views(nodes) == views,
{
    node_views_are(nodes);
    assert(node_views(nodes) =~= views);
}

// ---------------------------------------------------------------------------------------------
// Encodings

/// The scalar type that a schema names.
pub open spec fn scalar_of(schema: JsonView) -> Option<ScalarView> {
    match schema.get_text("type"@) {
        None => None,
        Some(name) => if name == "string"@ {
            Some(ScalarView::Text(texts_under(schema, "enum"@)))
        } else if name == "integer"@ {
            Some(ScalarView::Integer)
        } else if name == "number"@ {
            Some(ScalarView::Number)
        } else if name == "boolean"@ {
            Some(ScalarView::Boolean)
        } else {
            None
        },
    }
}

/// Whether a text names a basic JSON type.
pub open spec fn is_json_type(name: Seq<char>) -> bool {
    name == "array"@ || name == "boolean"@ || name == "integer"@ || name == "null"@ || name
        == "number"@ || name == "object"@ || name == "string"@
}

/// The option encoding for a schema.
pub open spec fn kind_of(schema: JsonView) -> KindView {
    match scalar_of(schema) {
        Some(kind) => KindView::Scalar(kind),
        None => match schema.get_text("type"@) {
            None => KindView::Json(None),
            Some(name) => if name == "array"@ {
                match schema.get("items"@) {
                    Some(items) => match scalar_of(items) {
                        Some(kind) => KindView::Array(kind),
                        None => KindView::Json(Some("array"@)),
                    },
                    None => KindView::Json(Some("array"@)),
                }
            } else if is_json_type(name) {
                KindView::Json(Some(name))
            } else {
                KindView::Json(None)
            },
        },
    }
}

/// Whether an object schema can be flattened without losing dynamic keys.
pub open spec fn is_static(schema: JsonView) -> bool {
    &&& schema.get_text("type"@) == Some("object"@)
    &&& schema.get("properties"@) matches Some(properties) ==> properties is Object
    &&& schema.get("$ref"@) is None
    &&& schema.get("oneOf"@) is None
    &&& schema.get("anyOf"@) is None
    &&& schema.get("additionalProperties"@) matches Some(more) ==> more == JsonView::Bool(false)
}

/// The properties of an object schema.
pub open spec fn properties_of(schema: JsonView) -> Seq<(Seq<char>, JsonView)> {
    match schema.get("properties"@) {
        Some(JsonView::Object(fields)) => fields,
        _ => Seq::empty(),
    }
}

/// Whether a flattenable object has at least one property.
pub open spec fn is_nonempty_static(schema: JsonView) -> bool {
    is_static(schema) && properties_of(schema).len() > 0
}

/// Returns a supported scalar kind.
pub fn scalar_kind(schema: &Json) -> (r: Option<ScalarKind>)
    ensures
        match r {
            Some(kind) => scalar_of(schema@) == Some(kind@),
            None => scalar_of(schema@) is None,
        },
{
    match schema.get_str("type") {
        None => None,
        Some(name) => if same_text(name, "string") {
            Some(ScalarKind::Text(schema.get_texts("enum")))
        } else if same_text(name, "integer") {
            Some(ScalarKind::Integer)
        } else if same_text(name, "number") {
            Some(ScalarKind::Number)
        } else if same_text(name, "boolean") {
            Some(ScalarKind::Boolean)
        } else {
            None
        },
    }
}

/// Maps a schema type to a stable expected JSON type.
pub fn static_json_type(schema_type: &str) -> (r: Option<&'static str>)
    ensures
        match r {
            Some(name) => name@ == schema_type@ && is_json_type(schema_type@),
            None => !is_json_type(schema_type@),
        },
{
    if same_text(schema_type, "array") {
        Some("array")
    } else if same_text(schema_type, "boolean") {
        Some("boolean")
    } else if same_text(schema_type, "integer") {
        Some("integer")
    } else if same_text(schema_type, "null") {
        Some("null")
    } else if same_text(schema_type, "number") {
        Some("number")
    } else if same_text(schema_type, "object") {
        Some("object")
    } else if same_text(schema_type, "string") {
        Some("string")
    } else {
        None
    }
}

/// Returns the option encoding for a schema.
pub fn value_kind(schema: &Json) -> (r: ValueKind)
    ensures
        r@ == kind_of(schema@),
{
    match scalar_kind(schema) {
        Some(kind) => ValueKind::Scalar(kind),
        None => match schema.get_str("type") {
            None => ValueKind::Json(None),
            Some(name) => if same_text(name, "array") {
                match schema.get("items") {
                    Some(items) => match scalar_kind(items) {
                        Some(kind) => ValueKind::Array(kind),
                        None => ValueKind::Json(Some("array")),
                    },
                    None => ValueKind::Json(Some("array")),
                }
            } else {
                ValueKind::Json(static_json_type(name))
            },
        },
    }
}

/// Returns whether an object can be flattened without losing dynamic keys.
pub fn is_static_object(schema: &Json) -> (r: bool)
    ensures
        r == is_static(schema@),
{
    let named: bool = match schema.get_str("type") {
        Some(name) => same_text(name, "object"),
        None => false,
    };
    let properties: bool = match schema.get("properties") {
        Some(Json::Object(_)) => true,
        Some(_) => false,
        None => true,
    };
    let closed: bool = match schema.get("additionalProperties") {
        Some(Json::Bool(more)) => !*more,
        Some(_) => false,
        None => true,
    };
    named && properties && schema.get("$ref").is_none() && schema.get("oneOf").is_none()
        && schema.get("anyOf").is_none() && closed
}

/// Returns whether a flattenable object has at least one property.
pub fn is_nonempty_static_object(schema: &Json) -> (r: bool)
    ensures
        r == is_nonempty_static(schema@),
{
    if !is_static_object(schema) {
        return false;
    }
    match schema.get("properties") {
        Some(Json::Object(fields)) => {
            proof {
                field_views_are(fields@);
            }
            fields.len() > 0
        },
        _ => false,
    }
}

// ---------------------------------------------------------------------------------------------
// Order of properties

/// The text by which properties of equal need are ordered.
pub open spec fn sort_text(node: NodeView) -> Seq<char> {
    match node {
        NodeView::Object(object) => object.path,
        NodeView::Value(value) => value.cli_name,
        NodeView::Union(union) => union.scalar.cli_name,
    }
}

/// Whether a property is required.
pub open spec fn is_required(node: NodeView) -> bool {
    match node {
        NodeView::Object(object) => object.required,
        NodeView::Value(value) => value.required,
        NodeView::Union(union) => union.required,
    }
}

/// Whether a property goes before another: required ones first, then by text.
pub open spec fn goes_before(a: NodeView, b: NodeView) -> bool {
    if is_required(a) != is_required(b) {
        is_required(a)
    } else {
        text_lt(sort_text(a), sort_text(b))
    }
}

/// The number of leading properties that a property does not go before.
pub open spec fn seat(nodes: Seq<NodeView>, node: NodeView) -> nat
    decreases nodes.len(),
{
    if nodes.len() == 0 || goes_before(node, nodes[0]) {
        0
    } else {
        1 + seat(nodes.drop_first(), node)
    }
}

/// Properties in order; those of equal rank stay in the order in which they came.
pub open spec fn arranged(nodes: Seq<NodeView>) -> Seq<NodeView>
    decreases nodes.len(),
{
    if nodes.len() == 0 {
        Seq::empty()
    } else {
        let rest = arranged(nodes.drop_last());
        rest.insert(seat(rest, nodes.last()) as int, nodes.last())
    }
}

/// A seat is within the list, the property does not go before those ahead of the seat, and goes
/// before the one at it.
pub proof fn seat_splits(nodes: Seq<NodeView>, node: NodeView)
    ensures
        seat(nodes, node) <= nodes.len(),
        forall|i: int| 0 <= i < seat(nodes, node) ==> !goes_before(node, #[trigger] nodes[i]),
        seat(nodes, node) < nodes.len() ==> goes_before(node, nodes[seat(nodes, node) as int]),
    decreases nodes.len(),
{
    if nodes.len() > 0 && !goes_before(node, nodes[0]) {
        let rest = nodes.drop_first();
        seat_splits(rest, node);
        assert forall|i: int| 0 <= i < seat(nodes, node) implies !goes_before(
            node,
            #[trigger] nodes[i],
        ) by {
            if i > 0 {
                assert(nodes[i] == rest[i - 1]);
            }
        }
    }
}

/// The seat is the only such index.
proof fn seat_is(nodes: Seq<NodeView>, node: NodeView, n: nat)
    requires
        n <= nodes.len(),
        forall|i: int| 0 <= i < n ==> !goes_before(node, #[trigger] nodes[i]),
        n < nodes.len() ==> goes_before(node, nodes[n as int]),
    ensures
        seat(nodes, node) == n,
    decreases nodes.len(),
{
    if n > 0 {
        let rest = nodes.drop_first();
        assert(!goes_before(node, nodes[0]));
        assert forall|i: int| 0 <= i < n - 1 implies !goes_before(node, #[trigger] rest[i]) by {
            assert(rest[i] == nodes[i + 1]);
        }
        seat_is(rest, node, (n - 1) as nat);
    }
}

/// A property that goes before one of two ordered properties goes before the later one too.
proof fn goes_before_chain(node: NodeView, a: NodeView, b: NodeView)
    requires
        goes_before(node, a),
        !goes_before(b, a),
    ensures
        goes_before(node, b),
{
    if is_required(node) == is_required(a) && is_required(a) == is_required(b) {
        text_lt_total(sort_text(a), sort_text(b));
        if text_lt(sort_text(a), sort_text(b)) {
            text_lt_transitive(sort_text(node), sort_text(a), sort_text(b));
        }
    }
}

/// In arranged properties no property stands after one that it goes before: required properties
/// come first, and each group is in order of its texts. No property is lost or added.
pub proof fn arranged_in_order(nodes: Seq<NodeView>)
    ensures
        arranged(nodes).len() == nodes.len(),
        arranged(nodes).to_multiset() == nodes.to_multiset(),
        forall|i: int, j: int|
            0 <= i < j < arranged(nodes).len() ==> !goes_before(
                #[trigger] arranged(nodes)[j],
                #[trigger] arranged(nodes)[i],
            ),
    decreases nodes.len(),
{
    broadcast use vstd::seq_lib::group_to_multiset_ensures;

    if nodes.len() > 0 {
        let node = nodes.last();
        let rest = arranged(nodes.drop_last());
        let all = arranged(nodes);
        let p = seat(rest, node) as int;
        arranged_in_order(nodes.drop_last());
        seat_splits(rest, node);
        assert(nodes =~= nodes.drop_last().push(node));
        assert(rest.insert(p, node).to_multiset() == rest.to_multiset().insert(node));
        assert forall|i: int, j: int| 0 <= i < j < all.len() implies !goes_before(
            #[trigger] all[j],
            #[trigger] all[i],
        ) by {
            if j == p {
                assert(all[i] == rest[i]);
            } else if i == p {
                assert(all[j] == rest[j - 1]);
                if j - 1 > p {
                    goes_before_chain(node, rest[p], rest[j - 1]);
                }
                text_lt_irreflexive(sort_text(node));
                if goes_before(all[j], node) && is_required(all[j]) == is_required(node) {
                    text_lt_transitive(sort_text(node), sort_text(all[j]), sort_text(node));
                }
            } else {
                let a = if i < p {
                    i
                } else {
                    i - 1
                };
                let b = if j < p {
                    j
                } else {
                    j - 1
                };
                assert(all[i] == rest[a] && all[j] == rest[b]);
            }
        }
    } else {
        assert(arranged(nodes) =~= nodes);
    }
}

impl NodeSpec {
    /// Whether this property goes before another.
    fn precedes(&self, other: &NodeSpec) -> (r: bool)
        ensures
            r == goes_before(self@, other@),
    {
        let (required, text) = self.rank();
        let (other_required, other_text) = other.rank();
        if required != other_required {
            required
        } else {
            text_before(text, other_text)
        }
    }

    /// Returns what orders the property: whether it is required, and its text.
    fn rank(&self) -> (r: (bool, &str))
        ensures
            r.0 == is_required(self@),
            r.1@ == sort_text(self@),
    {
        match self {
            NodeSpec::Object(object) => (object.required, object.path.as_str()),
            NodeSpec::Value(value) => (value.required, value.cli_name.as_str()),
            NodeSpec::Union(union) => (union.required, union.scalar.cli_name.as_str()),
        }
    }
}

/// Puts a property at its seat among ordered properties.
fn seat_node(nodes: &mut Vec<NodeSpec>, node: NodeSpec)
    ensures
        node_views(final(nodes)@) == node_views(old(nodes)@).insert(
            seat(node_views(old(nodes)@), node@) as int,
            node@,
        ),
{
    let ghost before = nodes@;
    proof {
        node_views_are(before);
    }
    let mut i: usize = 0;
    while i < nodes.len() && !node.precedes(&nodes[i])
        invariant
            nodes@ == before,
            i <= nodes.len(),
            node_views(before).len() == before.len(),
            forall|k: int| 0 <= k < before.len() ==> #[trigger] node_views(before)[k] == before[k]@,
            forall|k: int| 0 <= k < i ==> !goes_before(node@, #[trigger] node_views(before)[k]),
        decreases nodes.len() - i,
    {
        assert(node_views(before)[i as int] == before[i as int]@);
        i += 1;
    }
    proof {
        if i < before.len() {
            assert(node_views(before)[i as int] == before[i as int]@);
        }
        seat_is(node_views(before), node@, i as nat);
    }
    nodes.insert(i, node);
    proof {
        node_views_same(nodes@, node_views(before).insert(i as int, node@));
    }
}

// ---------------------------------------------------------------------------------------------
// Notes

/// What the analysis has found so far: option names and problems.
pub struct Notes {
    /// Each option spelling with the property paths that have it, by spelling.
    pub names: Vec<(String, Vec<String>)>,
    /// Construction problems.
    pub problems: Vec<CliBuildProblem>,
}

/// Notes as mathematics.
pub struct NotesView {
    pub names: Seq<(Seq<char>, Seq<Seq<char>>)>,
    pub problems: Seq<ProblemView>,
}

impl View for Notes {
    type V = NotesView;

    open spec fn view(&self) -> NotesView {
        NotesView { names: name_views(self.names@), problems: problem_views(self.problems@) }
    }
}

/// A name table after one more protocol name with a spelling.
pub open spec fn noted(
    names: Seq<(Seq<char>, Seq<Seq<char>>)>,
    cli_name: Seq<char>,
    original: Seq<char>,
) -> Seq<(Seq<char>, Seq<Seq<char>>)> {
    let i = place(keys(names), cli_name) as int;
    if i < names.len() && names[i].0 == cli_name {
        names.update(i, (cli_name, names[i].1.push(original)))
    } else {
        names.insert(i, (cli_name, seq![original]))
    }
}

/// Notes one more protocol name with a spelling.
pub(crate) fn note_name(names: &mut Vec<(String, Vec<String>)>, cli_name: &str, original: &str)
    ensures
        name_views(final(names)@) == noted(name_views(old(names)@), cli_name@, original@),
{
    let ghost before = names@;
    let (i, found) = find_place(names, cli_name);
    proof {
        assert(keys(name_views(before)) =~= key_texts(before));
    }
    if found {
        let (key, mut originals) = names.remove(i);
        let ghost were = texts(originals@);
        originals.push(original.to_owned());
        assert(texts(originals@) =~= were.push(original@));
        names.insert(i, (key, originals));
        assert(name_views(names@) =~= noted(name_views(before), cli_name@, original@));
    } else {
        let mut originals: Vec<String> = Vec::new();
        originals.push(original.to_owned());
        assert(texts(originals@) =~= seq![original@]);
        names.insert(i, (cli_name.to_owned(), originals));
        assert(name_views(names@) =~= noted(name_views(before), cli_name@, original@));
    }
}

// ---------------------------------------------------------------------------------------------
// Analysis

/// Where a property stands in a tool.
pub struct PlaceView {
    /// Original property name.
    pub name: Seq<char>,
    /// Dotted path from the tool root.
    pub path: Seq<char>,
    /// Whether the property is required when its parent is active.
    pub required: bool,
    /// First optional ancestor, where there is one.
    pub parent: Option<Seq<char>>,
}

/// The option spelling of a property path; one that has none gets a substitute.
pub open spec fn option_name(path: Seq<char>, notes: NotesView) -> Seq<char> {
    match normalized_path(path) {
        Some(name) => name,
        None => "invalid-"@ + decimal(notes.names.len()),
    }
}

/// The problems with the spelling of a property path.
pub open spec fn option_problems(path: Seq<char>, notes: NotesView) -> Seq<ProblemView> {
    let invalid = if normalized_path(path) is None {
        seq![ProblemView::InvalidName { kind: "property"@, name: path }]
    } else {
        Seq::empty()
    };
    let reserved = if option_name(path, notes) == "help"@ {
        seq![ProblemView::ReservedName { kind: "property"@, name: path }]
    } else {
        Seq::empty()
    };
    invalid + reserved
}

/// The option for a property.
pub open spec fn analyzed_value(at: PlaceView, schema: JsonView, notes: NotesView) -> (
    ValueView,
    NotesView,
) {
    let cli_name = option_name(at.path, notes);
    (
        ValueView {
            name: at.name,
            path: at.path,
            cli_name,
            required: at.required,
            conditional_parent: at.parent,
            kind: kind_of(schema),
            schema,
        },
        NotesView {
            names: noted(notes.names, cli_name, at.path),
            problems: notes.problems + option_problems(at.path, notes),
        },
    )
}

/// A union branch with one annotation of its parent, unless it has its own.
pub open spec fn annotated(branch: JsonView, parent: JsonView, key: Seq<char>) -> JsonView {
    match (branch, parent.get(key)) {
        (JsonView::Object(fields), Some(value)) => if lookup(fields, key) is None {
            JsonView::Object(inserted(fields, key, value))
        } else {
            branch
        },
        _ => branch,
    }
}

/// A union branch with the descriptive annotations of its parent.
pub open spec fn merged(branch: JsonView, parent: JsonView) -> JsonView {
    annotated(
        annotated(
            annotated(annotated(branch, parent, "description"@), parent, "default"@),
            parent,
            "examples"@,
        ),
        parent,
        "title"@,
    )
}

/// The scalar and the object branch of a supported union: `oneOf` with exactly these two.
pub open spec fn union_branches(schema: JsonView) -> Option<(JsonView, JsonView)> {
    match schema.get("oneOf"@) {
        Some(JsonView::Array(choices)) => if choices.len() != 2 {
            None
        } else if scalar_of(choices[0]) is Some && is_nonempty_static(choices[1]) {
            Some((choices[0], choices[1]))
        } else if scalar_of(choices[1]) is Some && is_nonempty_static(choices[0]) {
            Some((choices[1], choices[0]))
        } else {
            None
        },
        _ => None,
    }
}

/// The path of a property of an object.
pub open spec fn child_path(path: Seq<char>, name: Seq<char>) -> Seq<char> {
    if path.len() == 0 {
        name
    } else {
        path + "."@ + name
    }
}

/// Where a property of an object stands. The first optional object on the way activates what is
/// below it.
pub open spec fn child_place(
    path: Seq<char>,
    parent: Option<Seq<char>>,
    needed: Seq<Seq<char>>,
    field: (Seq<char>, JsonView),
) -> PlaceView {
    let own = child_path(path, field.0);
    let required = needed.contains(field.0);
    PlaceView {
        name: field.0,
        path: own,
        required,
        parent: if parent is Some {
            parent
        } else if !required && is_static(field.1) {
            Some(own)
        } else {
            None
        },
    }
}

/// What the properties of an object become.
pub open spec fn analyzed_fields(
    fields: Seq<(Seq<char>, JsonView)>,
    needed: Seq<Seq<char>>,
    path: Seq<char>,
    parent: Option<Seq<char>>,
    notes: NotesView,
) -> (Seq<NodeView>, NotesView)
    decreases fields, 0int,
{
    if fields.len() == 0 {
        (Seq::empty(), notes)
    } else {
        let (nodes, so_far) = analyzed_fields(fields.drop_last(), needed, path, parent, notes);
        let (node, after) = analyzed_node(
            child_place(path, parent, needed, fields.last()),
            fields.last().1,
            so_far,
        );
        (nodes.push(node), after)
    }
}

/// What an object becomes.
pub open spec fn analyzed_object(
    name: Option<Seq<char>>,
    path: Seq<char>,
    required: bool,
    parent: Option<Seq<char>>,
    schema: JsonView,
    notes: NotesView,
) -> (ObjectView, NotesView)
    decreases schema, 0int,
{
    proof {
        if schema.get("properties"@) is Some {
            member_decreases(schema, "properties"@);
        }
    }
    let (nodes, after) = match schema.get("properties"@) {
        Some(JsonView::Object(fields)) => analyzed_fields(
            fields,
            texts_under(schema, "required"@),
            path,
            parent,
            notes,
        ),
        _ => (Seq::empty(), notes),
    };
    (ObjectView { name, path, required, children: arranged(nodes) }, after)
}

/// What a property becomes.
pub open spec fn analyzed_node(at: PlaceView, schema: JsonView, notes: NotesView) -> (
    NodeView,
    NotesView,
)
    decreases schema, 1int,
{
    proof {
        if schema.get("oneOf"@) is Some {
            member_decreases(schema, "oneOf"@);
        }
    }
    match union_branches(schema) {
        Some((scalar_schema, object_schema)) => {
            let (scalar, so_far) = analyzed_value(
                PlaceView { required: false, ..at },
                merged(scalar_schema, schema),
                notes,
            );
            let parent = if at.parent is Some {
                at.parent
            } else {
                Some(at.path)
            };
            let (object, after) = analyzed_object(
                Some(at.name),
                at.path,
                false,
                parent,
                object_schema,
                so_far,
            );
            (
                NodeView::Union(
                    UnionView { name: at.name, required: at.required, scalar, object },
                ),
                after,
            )
        },
        None => if is_static(schema) {
            let (object, after) = analyzed_object(
                Some(at.name),
                at.path,
                at.required,
                at.parent,
                schema,
                notes,
            );
            (NodeView::Object(object), after)
        } else {
            let (value, after) = analyzed_value(at, schema, notes);
            (NodeView::Value(value), after)
        },
    }
}

/// Copies one descriptive annotation of the parent onto a union branch without it.
fn merge_annotation(branch: &mut Json, parent: &Json, key: &str)
    ensures
        final(branch)@ == annotated(old(branch)@, parent@, key@),
{
    match parent.get(key) {
        Some(value) => if branch.get(key).is_none() {
            branch.insert(key.to_owned(), value.copy());
        },
        None => {},
    }
}

/// Copies descriptive parent annotations onto a union branch.
pub fn merge_annotations(branch: &mut Json, parent: &Json)
    ensures
        final(branch)@ == merged(old(branch)@, parent@),
{
    merge_annotation(branch, parent, "description");
    merge_annotation(branch, parent, "default");
    merge_annotation(branch, parent, "examples");
    merge_annotation(branch, parent, "title");
}

/// Where a property stands, as mathematics.
pub open spec fn place_of(
    name: Seq<char>,
    path: Seq<char>,
    required: bool,
    parent: Option<String>,
) -> PlaceView {
    PlaceView { name, path, required, parent: opt_text(parent) }
}

/// Analyzes one command option.
pub fn analyze_value(
    name: &str,
    schema: &Json,
    path: String,
    required: bool,
    optional_parent: Option<String>,
    notes: &mut Notes,
) -> (r: ValueSpec)
    ensures
        (r@, final(notes)@) == analyzed_value(
            place_of(name@, path@, required, optional_parent),
            schema@,
            old(notes)@,
        ),
{
    let ghost before = notes@;
    let cli_name = match normalize_path(path.as_str()) {
        Ok(cli_name) => cli_name,
        Err(_) => {
            notes.problems.push(
                CliBuildProblem::InvalidName { kind: "property", name: path.clone() },
            );
            let mut substitute = "invalid-".to_owned();
            substitute.append(decimal_text(notes.names.len()).as_str());
            substitute
        },
    };
    if same_text(cli_name.as_str(), "help") {
        notes.problems.push(
            CliBuildProblem::ReservedName { kind: "property", name: path.clone() },
        );
    }
    assert(problem_views(notes.problems@) =~= before.problems + option_problems(path@, before));
    note_name(&mut notes.names, cli_name.as_str(), path.as_str());
    ValueSpec {
        name: name.to_owned(),
        path,
        cli_name,
        required,
        conditional_parent: optional_parent,
        kind: value_kind(schema),
        schema: schema.copy(),
    }
}

/// Analyzes one statically enumerable object.
pub fn analyze_object(
    schema: &Json,
    name: Option<String>,
    path: String,
    required: bool,
    optional_parent: Option<String>,
    notes: &mut Notes,
) -> (r: ObjectSpec)
    ensures
        (r@, final(notes)@) == analyzed_object(
            opt_text(name),
            path@,
            required,
            opt_text(optional_parent),
            schema@,
            old(notes)@,
        ),
    decreases schema, 0int,
{
    let needed = schema.get_texts("required");
    let ghost start = notes@;
    let ghost parent = opt_text(optional_parent);
    let mut children: Vec<NodeSpec> = Vec::new();
    let ghost mut nodes: Seq<NodeView> = Seq::empty();
    match schema.get("properties") {
        Some(Json::Object(fields)) => {
            let mut i: usize = 0;
            let ghost views = field_views(fields@);
            proof {
                field_views_are(fields@);
                assert(views.take(0) =~= Seq::<(Seq<char>, JsonView)>::empty());
            }
            while i < fields.len()
                invariant
                    i <= fields.len(),
                    views == field_views(fields@),
                    views.len() == fields.len(),
                    forall|k: int|
                        0 <= k < fields.len() ==> #[trigger] views[k] == (
                            fields@[k].0@,
                            fields@[k].1@,
                        ),
                    texts(needed@) == texts_under(schema@, "required"@),
                    parent == opt_text(optional_parent),
                    decreases_to!(schema => Json::Object(*fields)),
                    (nodes, notes@) == analyzed_fields(
                        views.take(i as int),
                        texts(needed@),
                        path@,
                        parent,
                        start,
                    ),
                    node_views(children@) == arranged(nodes),
                decreases fields.len() - i,
            {
                let child_name: &String = &fields[i].0;
                let child_schema: &Json = &fields[i].1;
                proof {
                    let next = views.take(i + 1);
                    assert(next.drop_last() =~= views.take(i as int));
                    assert(next.last() == (child_name@, child_schema@));
                    let whole = Json::Object(*fields);
                    assert(decreases_to!(whole => whole->Object_0));
                    assert(decreases_to!(fields => fields@));
                    assert(decreases_to!(fields@ => fields@[i as int]));
                    assert(decreases_to!(fields@[i as int] => fields@[i as int].1));
                }
                let child_path: String = if path.as_str().is_empty() {
                    child_name.clone()
                } else {
                    let mut joined = path.clone();
                    joined.append(".");
                    joined.append(child_name.as_str());
                    joined
                };
                let child_required: bool = holds_text(&needed, child_name.as_str());
                let child_parent: Option<String> = if optional_parent.is_some() {
                    copy_opt(&optional_parent)
                } else if !child_required && is_static_object(child_schema) {
                    Some(child_path.clone())
                } else {
                    None
                };
                let node = analyze_node(
                    child_name.as_str(),
                    child_schema,
                    child_path,
                    child_required,
                    child_parent,
                    notes,
                );
                proof {
                    assert(nodes.push(node@).drop_last() =~= nodes);
                    nodes = nodes.push(node@);
                }
                seat_node(&mut children, node);
                i += 1;
            }
            assert(views.take(fields.len() as int) =~= views);
        },
        _ => {},
    }
    ObjectSpec { name, path, required, children }
}

/// Analyzes one property schema.
pub fn analyze_node(
    name: &str,
    schema: &Json,
    path: String,
    required: bool,
    optional_parent: Option<String>,
    notes: &mut Notes,
) -> (r: NodeSpec)
    ensures
        (r@, final(notes)@) == analyzed_node(
            place_of(name@, path@, required, optional_parent),
            schema@,
            old(notes)@,
        ),
    decreases schema, 2int,
{
    if let Some(union) = analyze_union(
        name,
        schema,
        path.as_str(),
        required,
        &optional_parent,
        notes,
    ) {
        return NodeSpec::Union(union);
    }
    if is_static_object(schema) {
        return NodeSpec::Object(
            analyze_object(schema, Some(name.to_owned()), path, required, optional_parent, notes),
        );
    }
    NodeSpec::Value(analyze_value(name, schema, path, required, optional_parent, notes))
}

/// Analyzes a supported scalar-versus-object union.
pub fn analyze_union(
    name: &str,
    schema: &Json,
    path: &str,
    required: bool,
    optional_parent: &Option<String>,
    notes: &mut Notes,
) -> (r: Option<UnionSpec>)
    ensures
        match r {
            Some(union) => union_branches(schema@) is Some && (
                NodeView::Union(union@),
                final(notes)@,
            ) == analyzed_node(
                place_of(name@, path@, required, *optional_parent),
                schema@,
                old(notes)@,
            ),
            None => union_branches(schema@) is None && final(notes)@ == old(notes)@,
        },
    decreases schema, 1int,
{
    let choices = match schema.get("oneOf") {
        Some(Json::Array(choices)) => choices,
        _ => {
            return None;
        },
    };
    proof {
        json_views_are(choices@);
    }
    if choices.len() != 2 {
        return None;
    }
    proof {
        assert(json_views(choices@)[0] == choices@[0]@);
        assert(json_views(choices@)[1] == choices@[1]@);
        assert(decreases_to!(Json::Array(*choices) => choices@[0]));
        assert(decreases_to!(Json::Array(*choices) => choices@[1]));
    }
    let scalar_first: bool = scalar_kind(&choices[0]).is_some() && is_nonempty_static_object(
        &choices[1],
    );
    let scalar_second: bool = scalar_kind(&choices[1]).is_some() && is_nonempty_static_object(
        &choices[0],
    );
    let (scalar_schema, object_schema): (&Json, &Json) = if scalar_first {
        (&choices[0], &choices[1])
    } else if scalar_second {
        (&choices[1], &choices[0])
    } else {
        return None;
    };
    let mut scalar_schema: Json = scalar_schema.copy();
    merge_annotations(&mut scalar_schema, schema);
    let scalar = analyze_value(
        name,
        &scalar_schema,
        path.to_owned(),
        false,
        copy_opt(optional_parent),
        notes,
    );
    let parent: String = match optional_parent {
        Some(parent) => parent.clone(),
        None => path.to_owned(),
    };
    let object = analyze_object(
        object_schema,
        Some(name.to_owned()),
        path.to_owned(),
        false,
        Some(parent),
        notes,
    );
    Some(UnionSpec { name: name.to_owned(), required, scalar, object })
}

} // verus!
