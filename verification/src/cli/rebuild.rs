//! Reconstruction of tool arguments from matched options.

use vstd::prelude::*;
use vstd::string::StringExecFns;

use crate::cli::problem::name_views;
use crate::cli::schema::{
    analyzed_fields, analyzed_node, analyzed_object, analyzed_value, arranged, child_place,
    is_required, is_static, merged, node_views, node_views_are, seat, seat_splits, union_branches,
    KindView, NodeSpec, NodeView, NotesView, ObjectSpec, ObjectView, PlaceView, ScalarKind,
    ScalarView, UnionSpec, UnionView, ValueKind, ValueSpec, ValueView,
};
use crate::json::{
    texts_under, json_views, member_decreases, parsed_json, Json, JsonNumber, JsonView,
};
use crate::table::{
    ascending, inserted_ascending, lookup_inserted, find_key, inserted, keys, lookup,
    lookup_absent, lookup_at,
};
use crate::text::{same_text, texts};

verus! {

// ---------------------------------------------------------------------------------------------
// Matched options

/// The options that a command line gave a command, each with its values.
pub struct Matches {
    options: Vec<(String, Vec<String>)>,
}

impl View for Matches {
    type V = Seq<(Seq<char>, Seq<Seq<char>>)>;

    closed spec fn view(&self) -> Seq<(Seq<char>, Seq<Seq<char>>)> {
        name_views(self.options@)
    }
}

impl Matches {
    /// Every option that occurred has a value.
    #[verifier::type_invariant]
    spec fn valued(&self) -> bool {
        forall|i: int| 0 <= i < self.options.len() ==> (#[trigger] self.options@[i]).1.len() > 0
    }

    /// Creates matches without options.
    pub fn new() -> (r: Matches)
        ensures
            r@ == Seq::<(Seq<char>, Seq<Seq<char>>)>::empty(),
    {
        let r = Matches { options: Vec::new() };
        assert(r@ =~= Seq::empty());
        r
    }

    /// The matches with one more option.
    pub fn with(self, name: String, values: Vec<String>) -> (r: Matches)
        requires
            values.len() > 0,
        ensures
            r@ == self@.push((name@, texts(values@))),
    {
        proof {
            use_type_invariant(&self);
        }
        let ghost before = self@;
        let mut options = self.options;
        options.push((name, values));
        let r = Matches { options };
        assert(r@ =~= before.push((name@, texts(values@))));
        r
    }

    /// The values of an option that occurred.
    pub fn values(&self, name: &str) -> (r: Option<&Vec<String>>)
        ensures
            match r {
                Some(values) => lookup(self@, name@) == Some(texts(values@)) && values.len() > 0,
                None => lookup(self@, name@) is None,
            },
    {
        proof {
            use_type_invariant(self);
        }
        match find_key(&self.options, name) {
            Some(i) => {
                proof {
                    assert forall|k: int| 0 <= k < i implies (#[trigger] self@[k]).0 != name@ by {
                        assert(self.options@[k].0@ != name@);
                    }
                    lookup_at(self@, name@, i as int);
                    assert(self.options@[i as int].1.len() > 0);
                }
                Some(&self.options[i].1)
            },
            None => {
                proof {
                    assert forall|k: int| 0 <= k < self@.len() implies (#[trigger] self@[k]).0
                        != name@ by {
                        assert(self.options@[k].0@ != name@);
                    }
                    lookup_absent(self@, name@);
                }
                None
            },
        }
    }
}

// ---------------------------------------------------------------------------------------------
// Scalars

/// An option as the command line writes it, between backquotes.
pub open spec fn flag(cli_name: Seq<char>) -> Seq<char> {
    "`--"@ + cli_name + "`"@
}

/// Writes an option between backquotes.
pub(crate) fn flag_text(cli_name: &str) -> (r: String)
    ensures
        r@ == flag(cli_name@),
{
    let mut out = "`--".to_owned();
    out.append(cli_name);
    out.append("`");
    out
}

/// The JSON value that a scalar input stands for, or what is wrong with it.
pub open spec fn scalar_parsed(kind: ScalarView, input: Seq<char>, cli_name: Seq<char>) -> Result<
    JsonView,
    Seq<char>,
> {
    match kind {
        ScalarView::Text(_) => Ok(JsonView::Text(input)),
        ScalarView::Boolean => if input == "true"@ {
            Ok(JsonView::Bool(true))
        } else if input == "false"@ {
            Ok(JsonView::Bool(false))
        } else {
            Err("invalid boolean for "@ + flag(cli_name))
        },
        ScalarView::Integer => match parsed_json(input) {
            Ok(value) => if value is Integer {
                Ok(value)
            } else {
                Err("invalid integer for "@ + flag(cli_name))
            },
            Err(error) => Err("invalid integer for "@ + flag(cli_name) + ": "@ + error),
        },
        ScalarView::Number => match parsed_json(input) {
            Ok(value) => if value.is_number() {
                Ok(value)
            } else {
                Err("invalid number for "@ + flag(cli_name))
            },
            Err(error) => Err("invalid number for "@ + flag(cli_name) + ": "@ + error),
        },
    }
}

/// The JSON values that scalar inputs stand for, or what is wrong with the first bad one.
pub open spec fn scalars_parsed(
    kind: ScalarView,
    inputs: Seq<Seq<char>>,
    cli_name: Seq<char>,
) -> Result<Seq<JsonView>, Seq<char>>
    decreases inputs.len(),
{
    if inputs.len() == 0 {
        Ok(Seq::empty())
    } else {
        match scalars_parsed(kind, inputs.drop_last(), cli_name) {
            Err(error) => Err(error),
            Ok(values) => match scalar_parsed(kind, inputs.last(), cli_name) {
                Err(error) => Err(error),
                Ok(value) => Ok(values.push(value)),
            },
        }
    }
}

/// Whether a JSON value has a basic type; a text that names none admits every value.
pub open spec fn has_type(value: JsonView, expected: Seq<char>) -> bool {
    if expected == "array"@ {
        value is Array
    } else if expected == "boolean"@ {
        value is Bool
    } else if expected == "integer"@ {
        value is Integer
    } else if expected == "null"@ {
        value is Null
    } else if expected == "number"@ {
        value.is_number()
    } else if expected == "object"@ {
        value is Object
    } else if expected == "string"@ {
        value is Text
    } else {
        true
    }
}

/// Returns whether a JSON value has the expected basic type.
pub fn json_has_type(value: &Json, expected: &str) -> (r: bool)
    ensures
        r == has_type(value@, expected@),
{
    if same_text(expected, "array") {
        matches!(value, Json::Array(_))
    } else if same_text(expected, "boolean") {
        matches!(value, Json::Bool(_))
    } else if same_text(expected, "integer") {
        is_integer(value)
    } else if same_text(expected, "null") {
        matches!(value, Json::Null)
    } else if same_text(expected, "number") {
        matches!(value, Json::Number(_))
    } else if same_text(expected, "object") {
        matches!(value, Json::Object(_))
    } else if same_text(expected, "string") {
        matches!(value, Json::Text(_))
    } else {
        true
    }
}

/// Returns whether a JSON value is an integer of 64 bits.
fn is_integer(value: &Json) -> (r: bool)
    ensures
        r == (value@ is Integer),
{
    matches!(value, Json::Number(JsonNumber::Unsigned(_)) | Json::Number(JsonNumber::Signed(_)))
}

/// States what is wrong with an option's value.
fn complaint(what: &str, cli_name: &str) -> (r: String)
    ensures
        r@ == what@ + flag(cli_name@),
{
    let mut out = what.to_owned();
    out.append(flag_text(cli_name).as_str());
    out
}

/// States what is wrong with an option's value, and why.
fn complaint_because(what: &str, cli_name: &str, reason: &str) -> (r: String)
    ensures
        r@ == what@ + flag(cli_name@) + ": "@ + reason@,
{
    let mut out = complaint(what, cli_name);
    out.append(": ");
    out.append(reason);
    out
}

/// Parses one strict scalar value.
pub fn parse_scalar(kind: &ScalarKind, input: &str, cli_name: &str) -> (r: Result<Json, String>)
    ensures
        match r {
            Ok(value) => scalar_parsed(kind@, input@, cli_name@) == Ok::<JsonView, Seq<char>>(
                value@,
            ),
            Err(error) => scalar_parsed(kind@, input@, cli_name@) == Err::<JsonView, Seq<char>>(
                error@,
            ),
        },
{
    match kind {
        ScalarKind::Text(_) => Ok(Json::Text(input.to_owned())),
        ScalarKind::Boolean => if same_text(input, "true") {
            Ok(Json::Bool(true))
        } else if same_text(input, "false") {
            Ok(Json::Bool(false))
        } else {
            Err(complaint("invalid boolean for ", cli_name))
        },
        ScalarKind::Integer => match Json::parse(input) {
            Ok(value) => if is_integer(&value) {
                Ok(value)
            } else {
                Err(complaint("invalid integer for ", cli_name))
            },
            Err(error) => Err(
                complaint_because("invalid integer for ", cli_name, error.as_str()),
            ),
        },
        ScalarKind::Number => match Json::parse(input) {
            Ok(value) => if matches!(value, Json::Number(_)) {
                Ok(value)
            } else {
                Err(complaint("invalid number for ", cli_name))
            },
            Err(error) => Err(complaint_because("invalid number for ", cli_name, error.as_str())),
        },
    }
}

// ---------------------------------------------------------------------------------------------
// Values

/// The JSON value that an option's input stands for.
pub open spec fn option_parsed(value: ValueView, values: Seq<Seq<char>>) -> Result<
    JsonView,
    Seq<char>,
> {
    match value.kind {
        KindView::Scalar(kind) => scalar_parsed(kind, values[0], value.cli_name),
        KindView::Array(kind) => match scalars_parsed(kind, values, value.cli_name) {
            Ok(items) => Ok(JsonView::Array(items)),
            Err(error) => Err(error),
        },
        KindView::Json(expected) => match parsed_json(values[0]) {
            Err(error) => Err("invalid JSON for "@ + flag(value.cli_name) + ": "@ + error),
            Ok(parsed) => match expected {
                Some(name) => if has_type(parsed, name) {
                    Ok(parsed)
                } else {
                    Err("invalid JSON for "@ + flag(value.cli_name) + ": expected "@ + name)
                },
                None => Ok(parsed),
            },
        },
    }
}

/// What an option contributes: nothing if it is absent and not needed.
pub open spec fn rebuilt_value(
    value: ValueView,
    matches: Seq<(Seq<char>, Seq<Seq<char>>)>,
    parent_active: bool,
) -> Result<Option<JsonView>, Seq<char>> {
    match lookup(matches, value.cli_name) {
        None => if value.required && parent_active {
            Err("missing required option "@ + flag(value.cli_name))
        } else {
            Ok(None)
        },
        Some(values) => match option_parsed(value, values) {
            Ok(parsed) => Ok(Some(parsed)),
            Err(error) => Err(error),
        },
    }
}

/// A fallible executable result as mathematics.
pub open spec fn outcome(r: Result<Option<Json>, String>) -> Result<Option<JsonView>, Seq<char>> {
    match r {
        Ok(Some(value)) => Ok(Some(value@)),
        Ok(None) => Ok(None),
        Err(error) => Err(error@),
    }
}

/// A fallible executable member as mathematics.
pub open spec fn member_outcome(r: Result<Option<(String, Json)>, String>) -> Result<
    Option<(Seq<char>, JsonView)>,
    Seq<char>,
> {
    match r {
        Ok(Some((name, value))) => Ok(Some((name@, value@))),
        Ok(None) => Ok(None),
        Err(error) => Err(error@),
    }
}

/// A list with a prefix that fails to parse fails with the same error.
proof fn scalars_prefix_fails(
    kind: ScalarView,
    inputs: Seq<Seq<char>>,
    cli_name: Seq<char>,
    n: nat,
)
    requires
        n <= inputs.len(),
        scalars_parsed(kind, inputs.take(n as int), cli_name) is Err,
    ensures
        scalars_parsed(kind, inputs, cli_name) == scalars_parsed(
            kind,
            inputs.take(n as int),
            cli_name,
        ),
    decreases inputs.len(),
{
    if n == inputs.len() {
        assert(inputs.take(n as int) =~= inputs);
    } else {
        assert(inputs.drop_last().take(n as int) =~= inputs.take(n as int));
        scalars_prefix_fails(kind, inputs.drop_last(), cli_name, n);
    }
}

impl ValueSpec {
    /// Returns whether this option occurred.
    pub fn is_present(&self, matches: &Matches) -> (r: bool)
        ensures
            r == (lookup(matches@, self@.cli_name) is Some),
    {
        matches.values(self.cli_name.as_str()).is_some()
    }

    /// Parses repeated scalar occurrences.
    fn parse_items(&self, kind: &ScalarKind, values: &Vec<String>) -> (r: Result<Json, String>)
        ensures
            match r {
                Ok(value) => scalars_parsed(kind@, texts(values@), self@.cli_name) matches Ok(items)
                    && value@ == JsonView::Array(items),
                Err(error) => scalars_parsed(kind@, texts(values@), self@.cli_name) == Err::<
                    Seq<JsonView>,
                    Seq<char>,
                >(error@),
            },
    {
        let ghost inputs = texts(values@);
        let mut items: Vec<Json> = Vec::new();
        let mut i: usize = 0;
        assert(inputs.take(0) =~= Seq::<Seq<char>>::empty());
        while i < values.len()
            invariant
                i <= values.len(),
                inputs == texts(values@),
                scalars_parsed(kind@, inputs.take(i as int), self@.cli_name) == Ok::<
                    Seq<JsonView>,
                    Seq<char>,
                >(json_views(items@)),
            decreases values.len() - i,
        {
            proof {
                assert(inputs.take(i + 1).drop_last() =~= inputs.take(i as int));
                assert(inputs.take(i + 1).last() == values@[i as int]@);
            }
            match parse_scalar(kind, values[i].as_str(), self.cli_name.as_str()) {
                Ok(item) => {
                    let ghost were = items@;
                    items.push(item);
                    assert(items@.drop_last() =~= were);
                },
                Err(error) => {
                    proof {
                        scalars_prefix_fails(kind@, inputs, self@.cli_name, i as nat + 1);
                    }
                    return Err(error);
                },
            }
            i += 1;
        }
        assert(inputs.take(values.len() as int) =~= inputs);
        Ok(Json::Array(items))
    }

    /// Reconstructs this option's JSON value.
    pub fn reconstruct(&self, matches: &Matches, parent_active: bool) -> (r: Result<
        Option<Json>,
        String,
    >)
        ensures
            outcome(r) == rebuilt_value(self@, matches@, parent_active),
    {
        let values = match matches.values(self.cli_name.as_str()) {
            Some(values) => values,
            None => {
                if self.required && parent_active {
                    return Err(complaint("missing required option ", self.cli_name.as_str()));
                }
                return Ok(None);
            },
        };
        assert(texts(values@)[0] == values@[0]@);
        match &self.kind {
            ValueKind::Scalar(kind) => match parse_scalar(
                kind,
                values[0].as_str(),
                self.cli_name.as_str(),
            ) {
                Ok(value) => Ok(Some(value)),
                Err(error) => Err(error),
            },
            ValueKind::Array(kind) => match self.parse_items(kind, values) {
                Ok(value) => Ok(Some(value)),
                Err(error) => Err(error),
            },
            ValueKind::Json(expected) => {
                let value = match Json::parse(values[0].as_str()) {
                    Ok(value) => value,
                    Err(error) => {
                        return Err(
                            complaint_because(
                                "invalid JSON for ",
                                self.cli_name.as_str(),
                                error.as_str(),
                            ),
                        );
                    },
                };
                if let Some(name) = expected {
                    if !json_has_type(&value, name) {
                        let mut out = complaint("invalid JSON for ", self.cli_name.as_str());
                        out.append(": expected ");
                        out.append(name);
                        return Err(out);
                    }
                }
                Ok(Some(value))
            },
        }
    }
}

// ---------------------------------------------------------------------------------------------
// Objects and unions

/// Whether a property or anything below it occurred.
pub open spec fn node_given(node: NodeView, matches: Seq<(Seq<char>, Seq<Seq<char>>)>) -> bool
    decreases node,
{
    match node {
        NodeView::Object(object) => any_given(object.children, matches),
        NodeView::Value(value) => lookup(matches, value.cli_name) is Some,
        NodeView::Union(union) => lookup(matches, union.scalar.cli_name) is Some || any_given(
            union.object.children,
            matches,
        ),
    }
}

/// Whether one of some properties or anything below them occurred.
pub open spec fn any_given(
    nodes: Seq<NodeView>,
    matches: Seq<(Seq<char>, Seq<Seq<char>>)>,
) -> bool
    decreases nodes,
{
    nodes.len() > 0 && (any_given(nodes.drop_last(), matches) || node_given(nodes.last(), matches))
}

/// Whether an object is part of the result: a root always, any other when its active parent
/// requires it or one of its options occurred.
pub open spec fn object_active(
    object: ObjectView,
    matches: Seq<(Seq<char>, Seq<Seq<char>>)>,
    parent_active: bool,
) -> bool {
    object.name is None || (object.required && parent_active) || any_given(object.children, matches)
}

/// What a property contributes to its object: its name and value, or nothing.
pub open spec fn rebuilt_node(
    node: NodeView,
    matches: Seq<(Seq<char>, Seq<Seq<char>>)>,
    parent_active: bool,
) -> Result<Option<(Seq<char>, JsonView)>, Seq<char>>
    decreases node,
{
    match node {
        NodeView::Object(object) => if !object_active(object, matches, parent_active) {
            Ok(None)
        } else {
            match rebuilt_members(object.children, matches) {
                Ok(fields) => Ok(Some((object.name->0, JsonView::Object(fields)))),
                Err(error) => Err(error),
            }
        },
        NodeView::Value(value) => match rebuilt_value(value, matches, parent_active) {
            Ok(Some(parsed)) => Ok(Some((value.name, parsed))),
            Ok(None) => Ok(None),
            Err(error) => Err(error),
        },
        NodeView::Union(union) => {
            let scalar_given = lookup(matches, union.scalar.cli_name) is Some;
            let object_given = any_given(union.object.children, matches);
            if scalar_given && object_given {
                Err(flag(union.scalar.cli_name) + " cannot be combined with its object branch options"@)
            } else if scalar_given {
                match rebuilt_value(union.scalar, matches, true) {
                    Ok(Some(parsed)) => Ok(Some((union.name, parsed))),
                    Ok(None) => Ok(None),
                    Err(error) => Err(error),
                }
            } else if object_given {
                match rebuilt_members(union.object.children, matches) {
                    Ok(fields) => Ok(Some((union.name, JsonView::Object(fields)))),
                    Err(error) => Err(error),
                }
            } else if union.required && parent_active {
                Err(
                    "one of "@ + flag(union.scalar.cli_name)
                        + " or its object branch options is required"@,
                )
            } else {
                Ok(None)
            }
        },
    }
}

/// The members that properties contribute to an active object, or the first error among them.
pub open spec fn rebuilt_members(
    nodes: Seq<NodeView>,
    matches: Seq<(Seq<char>, Seq<Seq<char>>)>,
) -> Result<Seq<(Seq<char>, JsonView)>, Seq<char>>
    decreases nodes,
{
    if nodes.len() == 0 {
        Ok(Seq::empty())
    } else {
        match rebuilt_members(nodes.drop_last(), matches) {
            Err(error) => Err(error),
            Ok(fields) => match rebuilt_node(nodes.last(), matches, true) {
                Err(error) => Err(error),
                Ok(Some((name, value))) => Ok(inserted(fields, name, value)),
                Ok(None) => Ok(fields),
            },
        }
    }
}

/// What an object contributes: nothing unless it is active.
pub open spec fn rebuilt_object(
    object: ObjectView,
    matches: Seq<(Seq<char>, Seq<Seq<char>>)>,
    parent_active: bool,
) -> Result<Option<JsonView>, Seq<char>> {
    if !object_active(object, matches, parent_active) {
        Ok(None)
    } else {
        match rebuilt_members(object.children, matches) {
            Ok(fields) => Ok(Some(JsonView::Object(fields))),
            Err(error) => Err(error),
        }
    }
}

/// Whether every object below a property has a property name.
pub open spec fn named(node: NodeView) -> bool
    decreases node,
{
    match node {
        NodeView::Object(object) => object.name is Some && all_named(object.children),
        NodeView::Value(_) => true,
        NodeView::Union(union) => union.object.name is Some && all_named(union.object.children),
    }
}

/// Whether every object among properties and below them has a property name.
pub open spec fn all_named(nodes: Seq<NodeView>) -> bool
    decreases nodes,
{
    nodes.len() > 0 ==> (all_named(nodes.drop_last()) && named(nodes.last()))
}

/// Names of a list are names of its items.
proof fn all_named_at(nodes: Seq<NodeView>, i: int)
    requires
        all_named(nodes),
        0 <= i < nodes.len(),
    ensures
        named(nodes[i]),
    decreases nodes.len(),
{
    if i < nodes.len() - 1 {
        all_named_at(nodes.drop_last(), i);
    }
}

/// Items with names make a list with names.
proof fn all_named_from(nodes: Seq<NodeView>)
    requires
        forall|i: int| 0 <= i < nodes.len() ==> named(#[trigger] nodes[i]),
    ensures
        all_named(nodes),
    decreases nodes.len(),
{
    if nodes.len() > 0 {
        all_named_from(nodes.drop_last());
    }
}

/// A list with a prefix that occurred occurred.
proof fn any_given_prefix(
    nodes: Seq<NodeView>,
    matches: Seq<(Seq<char>, Seq<Seq<char>>)>,
    n: nat,
)
    requires
        n <= nodes.len(),
        any_given(nodes.take(n as int), matches),
    ensures
        any_given(nodes, matches),
    decreases nodes.len(),
{
    if n == nodes.len() {
        assert(nodes.take(n as int) =~= nodes);
    } else {
        assert(nodes.drop_last().take(n as int) =~= nodes.take(n as int));
        any_given_prefix(nodes.drop_last(), matches, n);
    }
}

/// A list with a prefix that fails fails with the same error.
proof fn members_prefix_fail(
    nodes: Seq<NodeView>,
    matches: Seq<(Seq<char>, Seq<Seq<char>>)>,
    n: nat,
)
    requires
        n <= nodes.len(),
        rebuilt_members(nodes.take(n as int), matches) is Err,
    ensures
        rebuilt_members(nodes, matches) == rebuilt_members(nodes.take(n as int), matches),
    decreases nodes.len(),
{
    if n == nodes.len() {
        assert(nodes.take(n as int) =~= nodes);
    } else {
        assert(nodes.drop_last().take(n as int) =~= nodes.take(n as int));
        members_prefix_fail(nodes.drop_last(), matches, n);
    }
}

impl ObjectSpec {
    /// Returns whether any descendant option was supplied.
    pub fn has_input(&self, matches: &Matches) -> (r: bool)
        ensures
            r == any_given(self@.children, matches@),
        decreases self,
    {
        let ghost nodes = node_views(self.children@);
        let mut i: usize = 0;
        proof {
            node_views_are(self.children@);
        }
        while i < self.children.len()
            invariant
                i <= self.children.len(),
                nodes == node_views(self.children@),
                nodes.len() == self.children.len(),
                forall|k: int|
                    0 <= k < nodes.len() ==> #[trigger] nodes[k] == self.children@[k]@,
                !any_given(nodes.take(i as int), matches@),
            decreases self.children.len() - i,
        {
            proof {
                assert(nodes.take(i + 1).drop_last() =~= nodes.take(i as int));
                assert(nodes.take(i + 1).last() == self.children@[i as int]@);
                assert(decreases_to!(self => self.children@[i as int]));
            }
            if self.children[i].has_input(matches) {
                proof {
                    any_given_prefix(nodes, matches@, i as nat + 1);
                }
                return true;
            }
            i += 1;
        }
        assert(nodes.take(nodes.len() as int) =~= nodes);
        false
    }

    /// Reconstructs this object when selected or required.
    pub fn reconstruct(&self, matches: &Matches, parent_active: bool) -> (r: Result<
        Option<Json>,
        String,
    >)
        requires
            all_named(self@.children),
        ensures
            outcome(r) == rebuilt_object(self@, matches@, parent_active),
        decreases self,
    {
        let active: bool = self.name.is_none() || (self.required && parent_active)
            || self.has_input(matches);
        if !active {
            return Ok(None);
        }
        let ghost nodes = node_views(self.children@);
        let mut object = Json::Object(Vec::new());
        let ghost mut fields: Seq<(Seq<char>, JsonView)> = Seq::empty();
        let mut i: usize = 0;
        proof {
            node_views_are(self.children@);
            assert(nodes.take(0) =~= Seq::<NodeView>::empty());
        }
        while i < self.children.len()
            invariant
                i <= self.children.len(),
                nodes == node_views(self.children@),
                nodes.len() == self.children.len(),
                all_named(nodes),
                object_active(self@, matches@, parent_active),
                forall|k: int|
                    0 <= k < nodes.len() ==> #[trigger] nodes[k] == self.children@[k]@,
                object@ == JsonView::Object(fields),
                rebuilt_members(nodes.take(i as int), matches@) == Ok::<
                    Seq<(Seq<char>, JsonView)>,
                    Seq<char>,
                >(fields),
            decreases self.children.len() - i,
        {
            proof {
                assert(nodes.take(i + 1).drop_last() =~= nodes.take(i as int));
                assert(nodes.take(i + 1).last() == self.children@[i as int]@);
                all_named_at(nodes, i as int);
                assert(decreases_to!(self => self.children@[i as int]));
            }
            match self.children[i].reconstruct(matches, true) {
                Err(error) => {
                    proof {
                        members_prefix_fail(nodes, matches@, i as nat + 1);
                    }
                    return Err(error);
                },
                Ok(Some((name, value))) => {
                    proof {
                        fields = inserted(fields, name@, value@);
                    }
                    object.insert(name, value);
                },
                Ok(None) => {},
            }
            i += 1;
        }
        assert(nodes.take(nodes.len() as int) =~= nodes);
        Ok(Some(object))
    }
}

impl NodeSpec {
    /// Returns whether this node has supplied input.
    pub fn has_input(&self, matches: &Matches) -> (r: bool)
        ensures
            r == node_given(self@, matches@),
        decreases self,
    {
        match self {
            NodeSpec::Object(object) => object.has_input(matches),
            NodeSpec::Value(value) => value.is_present(matches),
            NodeSpec::Union(union) => union.scalar.is_present(matches) || union.object.has_input(
                matches,
            ),
        }
    }

    /// Reconstructs this node and its original property name.
    pub fn reconstruct(&self, matches: &Matches, parent_active: bool) -> (r: Result<
        Option<(String, Json)>,
        String,
    >)
        requires
            named(self@),
        ensures
            member_outcome(r) == rebuilt_node(self@, matches@, parent_active),
        decreases self,
    {
        match self {
            NodeSpec::Object(object) => match object.reconstruct(matches, parent_active) {
                Ok(Some(value)) => match &object.name {
                    Some(name) => Ok(Some((name.clone(), value))),
                    None => Ok(None),
                },
                Ok(None) => Ok(None),
                Err(error) => Err(error),
            },
            NodeSpec::Value(spec) => match spec.reconstruct(matches, parent_active) {
                Ok(Some(value)) => Ok(Some((spec.name.clone(), value))),
                Ok(None) => Ok(None),
                Err(error) => Err(error),
            },
            NodeSpec::Union(union) => union.reconstruct(matches, parent_active),
        }
    }
}

impl UnionSpec {
    /// Reconstructs exactly one selected union branch.
    pub fn reconstruct(&self, matches: &Matches, parent_active: bool) -> (r: Result<
        Option<(String, Json)>,
        String,
    >)
        requires
            named(NodeView::Union(self@)),
        ensures
            member_outcome(r) == rebuilt_node(NodeView::Union(self@), matches@, parent_active),
        decreases self,
    {
        let scalar_selected: bool = self.scalar.is_present(matches);
        let object_selected: bool = self.object.has_input(matches);
        if scalar_selected && object_selected {
            let mut out = flag_text(self.scalar.cli_name.as_str());
            out.append(" cannot be combined with its object branch options");
            return Err(out);
        }
        if scalar_selected {
            return match self.scalar.reconstruct(matches, true) {
                Ok(Some(value)) => Ok(Some((self.name.clone(), value))),
                Ok(None) => Ok(None),
                Err(error) => Err(error),
            };
        }
        if object_selected {
            return match self.object.reconstruct(matches, true) {
                Ok(Some(value)) => Ok(Some((self.name.clone(), value))),
                Ok(None) => Ok(None),
                Err(error) => Err(error),
            };
        }
        if self.required && parent_active {
            let mut out = "one of ".to_owned();
            out.append(flag_text(self.scalar.cli_name.as_str()).as_str());
            out.append(" or its object branch options is required");
            return Err(out);
        }
        Ok(None)
    }
}

// ---------------------------------------------------------------------------------------------
// Laws

/// The property name of a node.
pub open spec fn property_name(node: NodeView) -> Seq<char> {
    match node {
        NodeView::Object(object) => object.name->0,
        NodeView::Value(value) => value.name,
        NodeView::Union(union) => union.name,
    }
}

/// A property contributes only under its own name, and a required property of an active object
/// contributes unless it is in error.
pub proof fn node_contributes(
    node: NodeView,
    matches: Seq<(Seq<char>, Seq<Seq<char>>)>,
    parent_active: bool,
)
    ensures
        rebuilt_node(node, matches, parent_active) matches Ok(Some((name, value))) ==> name
            == property_name(node),
        is_required(node) && parent_active ==> !(rebuilt_node(node, matches, parent_active) matches Ok(None)),
{
}

/// An optional property of which nothing occurred contributes nothing.
pub proof fn omitted_properties_are_left_out(
    node: NodeView,
    matches: Seq<(Seq<char>, Seq<Seq<char>>)>,
    parent_active: bool,
)
    requires
        named(node),
        !is_required(node),
        !node_given(node, matches),
    ensures
        rebuilt_node(node, matches, parent_active) == Ok::<
            Option<(Seq<char>, JsonView)>,
            Seq<char>,
        >(None),
{
}

/// A union takes its scalar option or the options of its object, never both.
pub proof fn union_branches_do_not_mix(
    union: UnionView,
    matches: Seq<(Seq<char>, Seq<Seq<char>>)>,
    parent_active: bool,
)
    requires
        lookup(matches, union.scalar.cli_name) is Some,
        any_given(union.object.children, matches),
    ensures
        rebuilt_node(NodeView::Union(union), matches, parent_active) == Err::<
            Option<(Seq<char>, JsonView)>,
            Seq<char>,
        >(flag(union.scalar.cli_name) + " cannot be combined with its object branch options"@),
{
}

/// A reconstructed object holds its members in ascending order of their names, holds only
/// members that its schema's properties name, and holds every required one.
pub proof fn members_follow_schema(
    nodes: Seq<NodeView>,
    matches: Seq<(Seq<char>, Seq<Seq<char>>)>,
)
    requires
        rebuilt_members(nodes, matches) is Ok,
    ensures
        ascending(keys(rebuilt_members(nodes, matches)->Ok_0)),
        forall|name: Seq<char>| #[trigger]
            lookup(rebuilt_members(nodes, matches)->Ok_0, name) is Some ==> exists|i: int|
                0 <= i < nodes.len() && property_name(#[trigger] nodes[i]) == name,
        forall|i: int|
            0 <= i < nodes.len() && is_required(#[trigger] nodes[i]) ==> lookup(
                rebuilt_members(nodes, matches)->Ok_0,
                property_name(nodes[i]),
            ) is Some,
    decreases nodes.len(),
{
    let all = rebuilt_members(nodes, matches)->Ok_0;
    if nodes.len() > 0 {
        let rest = nodes.drop_last();
        let node = nodes.last();
        members_follow_schema(rest, matches);
        node_contributes(node, matches, true);
        let before = rebuilt_members(rest, matches)->Ok_0;
        match rebuilt_node(node, matches, true) {
            Ok(Some((name, value))) => {
                inserted_ascending(before, name, value);
                assert forall|other: Seq<char>| #[trigger] lookup(all, other) is Some implies exists|
                    i: int,
                | 0 <= i < nodes.len() && property_name(#[trigger] nodes[i]) == other by {
                    lookup_inserted(before, name, value, other);
                    if other == name {
                        assert(property_name(nodes[nodes.len() - 1]) == other);
                    } else {
                        assert(lookup(before, other) is Some);
                        let i = choose|i: int|
                            0 <= i < rest.len() && property_name(#[trigger] rest[i]) == other;
                        assert(nodes[i] == rest[i]);
                    }
                }
                assert forall|i: int| 0 <= i < nodes.len() && is_required(#[trigger] nodes[i]) implies lookup(
                    all,
                    property_name(nodes[i]),
                ) is Some by {
                    lookup_inserted(before, name, value, property_name(nodes[i]));
                    if i < rest.len() {
                        assert(rest[i] == nodes[i]);
                    }
                }
            },
            _ => {
                assert forall|other: Seq<char>| #[trigger] lookup(all, other) is Some implies exists|
                    i: int,
                | 0 <= i < nodes.len() && property_name(#[trigger] nodes[i]) == other by {
                    assert(lookup(before, other) is Some);
                    let i = choose|i: int|
                        0 <= i < rest.len() && property_name(#[trigger] rest[i]) == other;
                    assert(nodes[i] == rest[i]);
                }
                assert forall|i: int| 0 <= i < nodes.len() && is_required(#[trigger] nodes[i]) implies lookup(
                    all,
                    property_name(nodes[i]),
                ) is Some by {
                    assert(i < rest.len());
                    assert(rest[i] == nodes[i]);
                }
            },
        }
    }
}

/// Arranging keeps names.
proof fn arranged_named(nodes: Seq<NodeView>)
    requires
        all_named(nodes),
    ensures
        all_named(arranged(nodes)),
    decreases nodes.len(),
{
    if nodes.len() > 0 {
        let rest = arranged(nodes.drop_last());
        let node = nodes.last();
        arranged_named(nodes.drop_last());
        seat_splits(rest, node);
        let all = arranged(nodes);
        let p = seat(rest, node) as int;
        assert forall|i: int| 0 <= i < all.len() implies named(#[trigger] all[i]) by {
            if i < p {
                all_named_at(rest, i);
            } else if i > p {
                all_named_at(rest, i - 1);
            }
        }
        all_named_from(all);
    }
}

/// Every object that the analysis puts below a tool root has a property name.
pub proof fn analysis_names_objects(
    name: Option<Seq<char>>,
    path: Seq<char>,
    required: bool,
    parent: Option<Seq<char>>,
    schema: JsonView,
    notes: NotesView,
)
    ensures
        all_named(analyzed_object(name, path, required, parent, schema, notes).0.children),
    decreases schema, 0int,
{
    if let Some(JsonView::Object(fields)) = schema.get("properties"@) {
        member_decreases(schema, "properties"@);
        let nodes = analyzed_fields(
            fields,
            texts_under(schema, "required"@),
            path,
            parent,
            notes,
        ).0;
        fields_named(fields, texts_under(schema, "required"@), path, parent, notes);
        arranged_named(nodes);
    }
}

proof fn fields_named(
    fields: Seq<(Seq<char>, JsonView)>,
    needed: Seq<Seq<char>>,
    path: Seq<char>,
    parent: Option<Seq<char>>,
    notes: NotesView,
)
    ensures
        all_named(analyzed_fields(fields, needed, path, parent, notes).0),
    decreases fields, 0int,
{
    if fields.len() > 0 {
        let (nodes, so_far) = analyzed_fields(fields.drop_last(), needed, path, parent, notes);
        let at = child_place(path, parent, needed, fields.last());
        fields_named(fields.drop_last(), needed, path, parent, notes);
        node_named(at, fields.last().1, so_far);
        let node = analyzed_node(at, fields.last().1, so_far).0;
        assert(nodes.push(node).drop_last() =~= nodes);
    }
}

proof fn node_named(at: PlaceView, schema: JsonView, notes: NotesView)
    ensures
        named(analyzed_node(at, schema, notes).0),
    decreases schema, 1int,
{
    if schema.get("oneOf"@) is Some {
        member_decreases(schema, "oneOf"@);
    }
    match union_branches(schema) {
        Some((scalar_schema, object_schema)) => {
            let so_far = analyzed_value(
                PlaceView { required: false, ..at },
                merged(scalar_schema, schema),
                notes,
            ).1;
            let parent = if at.parent is Some {
                at.parent
            } else {
                Some(at.path)
            };
            analysis_names_objects(Some(at.name), at.path, false, parent, object_schema, so_far);
        },
        None => {
            if is_static(schema) {
                analysis_names_objects(
                    Some(at.name),
                    at.path,
                    at.required,
                    at.parent,
                    schema,
                    notes,
                );
            }
        },
    }
}

} // verus!
