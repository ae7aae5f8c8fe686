//! How options read their input: what each encoding accepts, and what value it stands for.

use vstd::prelude::*;

use crate::cli::clap_model::{Action, ArgView};
use crate::cli::generate::{all_values, node_values, planned_arg, planned_tool, ToolView};
use crate::cli::reach::{options_stand, stands_among};
use crate::cli::rebuild::{all_named, option_parsed, scalar_parsed, scalars_parsed};
use crate::cli::schema::{kind_of, KindView, NodeView, ObjectView, ScalarView, ValueView};
use crate::json::{parsed_json, texts_among, JsonView};

verus! {

// ---------------------------------------------------------------------------------------------
// Encodings

/// Whether two texts that begin with different letters are the same.
proof fn type_names_differ()
    ensures
        "string"@ != "integer"@,
        "string"@ != "number"@,
        "string"@ != "boolean"@,
        "string"@ != "array"@,
        "string"@ != "object"@,
        "string"@ != "null"@,
        "integer"@ != "number"@,
        "integer"@ != "boolean"@,
        "integer"@ != "array"@,
        "integer"@ != "object"@,
        "integer"@ != "null"@,
        "number"@ != "boolean"@,
        "number"@ != "array"@,
        "number"@ != "object"@,
        "number"@ != "null"@,
        "boolean"@ != "array"@,
        "boolean"@ != "object"@,
        "boolean"@ != "null"@,
        "array"@ != "object"@,
        "array"@ != "null"@,
        "object"@ != "null"@,
{
    reveal_strlit("string");
    reveal_strlit("integer");
    reveal_strlit("number");
    reveal_strlit("boolean");
    reveal_strlit("array");
    reveal_strlit("object");
    reveal_strlit("null");
    assert("string"@[0] == 's' && "integer"@[0] == 'i' && "number"@[0] == 'n' && "boolean"@[0]
        == 'b' && "array"@[0] == 'a' && "object"@[0] == 'o' && "null"@[0] == 'n');
    assert("number"@.len() == 6 && "null"@.len() == 4);
}

/// Whether a schema names a type.
pub open spec fn has_type_name(schema: JsonView, name: Seq<char>) -> bool {
    schema.get("type"@) == Some(JsonView::Text(name))
}

/// Scalar types are read as one value, each in its own way.
pub proof fn scalars_are_read_as_such(schema: JsonView)
    ensures
        has_type_name(schema, "string"@) <==> kind_of(schema) matches KindView::Scalar(
            ScalarView::Text(_),
        ),
        has_type_name(schema, "integer"@) <==> kind_of(schema) == KindView::Scalar(
            ScalarView::Integer,
        ),
        has_type_name(schema, "number"@) <==> kind_of(schema) == KindView::Scalar(
            ScalarView::Number,
        ),
        has_type_name(schema, "boolean"@) <==> kind_of(schema) == KindView::Scalar(
            ScalarView::Boolean,
        ),
{
    type_names_differ();
}

/// Arrays of a scalar type are read item by item in the way of that type; all other arrays are
/// read as JSON.
pub proof fn arrays_are_read_by_items(schema: JsonView)
    requires
        has_type_name(schema, "array"@),
    ensures
        schema.get("items"@) matches Some(items) && kind_of(items) is Scalar ==> kind_of(schema)
            == KindView::Array(kind_of(schema.get("items"@)->0)->Scalar_0),
        !(schema.get("items"@) matches Some(items) && kind_of(items) is Scalar) ==> kind_of(schema)
            == KindView::Json(Some("array"@)),
{
    type_names_differ();
}

/// What has neither a scalar type nor scalar items is read as JSON: of the type that the schema
/// names, or of any type if it names none that JSON has.
pub proof fn other_types_are_read_as_json(schema: JsonView)
    ensures
        has_type_name(schema, "object"@) ==> kind_of(schema) == KindView::Json(Some("object"@)),
        has_type_name(schema, "null"@) ==> kind_of(schema) == KindView::Json(Some("null"@)),
        (forall|name: Seq<char>|
            #[trigger] has_type_name(schema, name) ==> name != "string"@ && name != "integer"@
                && name != "number"@ && name != "boolean"@ && name != "array"@ && name
                != "object"@ && name != "null"@) ==> kind_of(schema) == KindView::Json(None),
{
    type_names_differ();
    if (forall|name: Seq<char>|
        #[trigger] has_type_name(schema, name) ==> name != "string"@ && name != "integer"@ && name
            != "number"@ && name != "boolean"@ && name != "array"@ && name != "object"@ && name
            != "null"@) {
        if let Some(JsonView::Text(name)) = schema.get("type"@) {
            assert(has_type_name(schema, name));
        }
    }
}

/// The texts among values that are all texts are those values, in order.
proof fn all_texts(items: Seq<JsonView>)
    requires
        forall|i: int| 0 <= i < items.len() ==> (#[trigger] items[i]) is Text,
    ensures
        texts_among(items).len() == items.len(),
        forall|i: int|
            0 <= i < items.len() ==> items[i] == JsonView::Text(#[trigger] texts_among(items)[i]),
    decreases items.len(),
{
    if items.len() > 0 {
        let rest = items.drop_last();
        assert forall|i: int| 0 <= i < rest.len() implies (#[trigger] rest[i]) is Text by {
            assert(rest[i] == items[i]);
        }
        all_texts(rest);
        assert(items[items.len() - 1] is Text);
        assert forall|i: int| 0 <= i < items.len() implies items[i] == JsonView::Text(
            #[trigger] texts_among(items)[i],
        ) by {
            if i < rest.len() {
                assert(rest[i] == items[i]);
                assert(rest[i] == JsonView::Text(texts_among(rest)[i]));
            }
        }
    }
}

/// A text with listed values is offered exactly those, in their order.
pub proof fn listed_values_are_the_choices(schema: JsonView, items: Seq<JsonView>)
    requires
        has_type_name(schema, "string"@),
        schema.get("enum"@) == Some(JsonView::Array(items)),
        forall|i: int| 0 <= i < items.len() ==> (#[trigger] items[i]) is Text,
    ensures
        kind_of(schema) matches KindView::Scalar(ScalarView::Text(choices)) && choices.len()
            == items.len() && forall|i: int|
            0 <= i < items.len() ==> items[i] == JsonView::Text(#[trigger] choices[i]),
{
    type_names_differ();
    all_texts(items);
}

/// A text without listed values is offered none.
pub proof fn unlisted_values_are_free(schema: JsonView)
    requires
        has_type_name(schema, "string"@),
        schema.get("enum"@) is None,
    ensures
        kind_of(schema) == KindView::Scalar(ScalarView::Text(Seq::empty())),
{
    type_names_differ();
}

// ---------------------------------------------------------------------------------------------
// Values

/// Texts are taken as they are.
pub proof fn texts_are_verbatim(value: ValueView, values: Seq<Seq<char>>)
    requires
        value.kind matches KindView::Scalar(ScalarView::Text(_)),
    ensures
        option_parsed(value, values) == Ok::<JsonView, Seq<char>>(JsonView::Text(values[0])),
{
}

/// A boolean is one of two words.
pub proof fn booleans_are_two_words(value: ValueView, values: Seq<Seq<char>>, parsed: JsonView)
    requires
        value.kind == KindView::Scalar(ScalarView::Boolean),
    ensures
        option_parsed(value, values) == Ok::<JsonView, Seq<char>>(parsed) <==> {
            ||| values[0] == "true"@ && parsed == JsonView::Bool(true)
            ||| values[0] == "false"@ && parsed == JsonView::Bool(false)
        },
{
    reveal_strlit("true");
    reveal_strlit("false");
    assert("true"@.len() == 4 && "false"@.len() == 5);
}

/// An integer is JSON that is an integer; a number is JSON that is an integer or a fraction.
pub proof fn numbers_are_json(value: ValueView, values: Seq<Seq<char>>, parsed: JsonView)
    ensures
        value.kind == KindView::Scalar(ScalarView::Integer) ==> (option_parsed(value, values)
            == Ok::<JsonView, Seq<char>>(parsed) <==> parsed_json(values[0]) == Ok::<
            JsonView,
            Seq<char>,
        >(parsed) && parsed is Integer),
        value.kind == KindView::Scalar(ScalarView::Number) ==> (option_parsed(value, values)
            == Ok::<JsonView, Seq<char>>(parsed) <==> parsed_json(values[0]) == Ok::<
            JsonView,
            Seq<char>,
        >(parsed) && (parsed is Integer || parsed is Float)),
{
}

/// Whether a value is of a basic type that JSON has.
pub open spec fn is_of_type(value: JsonView, name: Seq<char>) -> bool {
    match value {
        JsonView::Null => name == "null"@,
        JsonView::Bool(_) => name == "boolean"@,
        JsonView::Integer(_) => name == "integer"@ || name == "number"@,
        JsonView::Float(_) => name == "number"@,
        JsonView::Text(_) => name == "string"@,
        JsonView::Array(_) => name == "array"@,
        JsonView::Object(_) => name == "object"@,
    }
}

/// JSON input is JSON, of the expected type where one is expected.
pub proof fn json_input_has_the_type(
    value: ValueView,
    values: Seq<Seq<char>>,
    parsed: JsonView,
    name: Seq<char>,
)
    requires
        value.kind == KindView::Json(Some(name)) || value.kind == KindView::Json(None),
        name == "null"@ || name == "boolean"@ || name == "integer"@ || name == "number"@ || name
            == "string"@ || name == "array"@ || name == "object"@,
    ensures
        option_parsed(value, values) == Ok::<JsonView, Seq<char>>(parsed) <==> parsed_json(
            values[0],
        ) == Ok::<JsonView, Seq<char>>(parsed) && (value.kind == KindView::Json(None) || is_of_type(
            parsed,
            name,
        )),
{
    type_names_differ();
}

/// The items of repeated input, prefix by prefix.
proof fn items_by_prefix(kind: ScalarView, inputs: Seq<Seq<char>>, cli_name: Seq<char>)
    ensures
        scalars_parsed(kind, inputs, cli_name) is Ok <==> forall|i: int|
            0 <= i < inputs.len() ==> scalar_parsed(kind, #[trigger] inputs[i], cli_name) is Ok,
        scalars_parsed(kind, inputs, cli_name) matches Ok(items) ==> items.len() == inputs.len()
            && forall|i: int|
            0 <= i < inputs.len() ==> scalar_parsed(kind, inputs[i], cli_name) == Ok::<
                JsonView,
                Seq<char>,
            >(#[trigger] items[i]),
    decreases inputs.len(),
{
    if inputs.len() > 0 {
        let rest = inputs.drop_last();
        items_by_prefix(kind, rest, cli_name);
        assert forall|i: int| 0 <= i < rest.len() implies rest[i] == #[trigger] inputs[i] by {}
        if forall|i: int|
            0 <= i < inputs.len() ==> scalar_parsed(kind, #[trigger] inputs[i], cli_name) is Ok {
            assert forall|i: int| 0 <= i < rest.len() implies scalar_parsed(
                kind,
                #[trigger] rest[i],
                cli_name,
            ) is Ok by {
                assert(rest[i] == inputs[i]);
            }
            assert(scalar_parsed(kind, inputs[inputs.len() - 1], cli_name) is Ok);
        }
        if scalars_parsed(kind, inputs, cli_name) is Ok {
            let before = scalars_parsed(kind, rest, cli_name)->Ok_0;
            let items = scalars_parsed(kind, inputs, cli_name)->Ok_0;
            assert forall|i: int| 0 <= i < inputs.len() implies scalar_parsed(
                kind,
                inputs[i],
                cli_name,
            ) == Ok::<JsonView, Seq<char>>(#[trigger] items[i]) by {
                if i < rest.len() {
                    assert(items[i] == before[i]);
                    assert(rest[i] == inputs[i]);
                }
            }
            assert forall|i: int| 0 <= i < inputs.len() implies scalar_parsed(
                kind,
                #[trigger] inputs[i],
                cli_name,
            ) is Ok by {
                if i < rest.len() {
                    assert(rest[i] == inputs[i]);
                    assert(scalar_parsed(kind, rest[i], cli_name) is Ok);
                }
            }
        }
    }
}

/// Repeated input becomes an array with one item for each occurrence, in order, each read as a
/// single option of the item's type reads it. It is refused if one occurrence would be.
pub proof fn repeated_input_is_read_item_by_item(
    value: ValueView,
    single: ValueView,
    values: Seq<Seq<char>>,
)
    requires
        value.kind is Array,
        single == (ValueView { kind: KindView::Scalar(value.kind->Array_0), ..value }),
    ensures
        option_parsed(value, values) is Ok <==> forall|i: int|
            0 <= i < values.len() ==> option_parsed(single, seq![#[trigger] values[i]]) is Ok,
        option_parsed(value, values) matches Ok(parsed) ==> {
            &&& parsed matches JsonView::Array(items)
            &&& items.len() == values.len()
            &&& forall|i: int|
                0 <= i < values.len() ==> option_parsed(single, seq![values[i]]) == Ok::<
                    JsonView,
                    Seq<char>,
                >(#[trigger] items[i])
        },
{
    let kind = value.kind->Array_0;
    items_by_prefix(kind, values, value.cli_name);
    assert forall|i: int| 0 <= i < values.len() implies option_parsed(
        single,
        seq![#[trigger] values[i]],
    ) == scalar_parsed(kind, values[i], value.cli_name) by {
        assert(seq![values[i]][0] == values[i]);
    }
}

// ---------------------------------------------------------------------------------------------
// Options of commands

/// Whether an option reads numbers.
pub open spec fn reads_numbers(kind: KindView) -> bool {
    kind == KindView::Scalar(ScalarView::Integer) || kind == KindView::Scalar(ScalarView::Number)
        || kind == KindView::Array(ScalarView::Integer) || kind == KindView::Array(
        ScalarView::Number,
    )
}

/// Whether an option reads booleans.
pub open spec fn reads_booleans(kind: KindView) -> bool {
    kind == KindView::Scalar(ScalarView::Boolean) || kind == KindView::Array(ScalarView::Boolean)
}

/// The occurrences of an option are collected exactly if its value is an array, whatever the type
/// of the items.
pub proof fn arrays_collect_occurrences(value: ValueView)
    ensures
        planned_arg(value).action == Some(Action::Append) <==> value.kind is Array,
{
}

/// An array offers for each occurrence what a single value of the item's type offers.
pub proof fn arrays_offer_what_items_offer(value: ValueView, single: ValueView)
    requires
        value.kind is Array,
        single == (ValueView { kind: KindView::Scalar(value.kind->Array_0), ..value }),
    ensures
        planned_arg(value).choices == planned_arg(single).choices,
        planned_arg(value).num_args == planned_arg(single).num_args,
        planned_arg(value).missing == planned_arg(single).missing,
        planned_arg(value).negative_numbers == planned_arg(single).negative_numbers,
        planned_arg(value).required == planned_arg(single).required,
        planned_arg(value).id == planned_arg(single).id,
        planned_arg(value).long == planned_arg(single).long,
{
}

/// An option is found under its spelling, takes one value unless it is a boolean, may be left out
/// unless it is required and depends on no object that may be left out, and has no default.
pub proof fn options_take_their_values(value: ValueView)
    ensures
        planned_arg(value).id == value.cli_name,
        planned_arg(value).long == Some(value.cli_name),
        planned_arg(value).required <==> value.required && value.conditional_parent is None,
        planned_arg(value).default is None,
        planned_arg(value).plain,
        reads_booleans(value.kind) ==> planned_arg(value).num_args == Some((0nat, 1nat))
            && planned_arg(value).missing == Some("true"@),
        !reads_booleans(value.kind) ==> planned_arg(value).num_args is None && planned_arg(
            value,
        ).missing is None,
        planned_arg(value).negative_numbers <==> reads_numbers(value.kind),
{
}

/// The choices of an option are what its input may be: each is accepted. An option with choices is
/// a boolean or a text with listed values.
pub proof fn choices_are_accepted(value: ValueView, choice: Seq<char>)
    requires
        value.kind is Scalar,
        planned_arg(value).choices matches Some(choices) && choices.contains(choice),
    ensures
        option_parsed(value, seq![choice]) is Ok,
{
    if value.kind == KindView::Scalar(ScalarView::Boolean) {
        let choices = planned_arg(value).choices->0;
        let k = choose|k: int| 0 <= k < choices.len() && choices[k] == choice;
        assert(k == 0 || k == 1);
    }
}

/// What a boolean accepts, and what a text with listed values lists, is among the choices.
pub proof fn accepted_words_are_choices(value: ValueView, word: Seq<char>)
    ensures
        value.kind == KindView::Scalar(ScalarView::Boolean) && option_parsed(value, seq![word]) is Ok
            ==> planned_arg(value).choices is Some && planned_arg(value).choices->0.contains(word),
        (value.kind matches KindView::Scalar(ScalarView::Text(listed)) && listed.contains(word))
            ==> planned_arg(value).choices == Some(value.kind->Scalar_0->Text_0),
        value.kind == KindView::Scalar(ScalarView::Text(Seq::empty())) || reads_numbers(value.kind)
            || value.kind is Json ==> planned_arg(value).choices is None,
{
    if value.kind == KindView::Scalar(ScalarView::Boolean) && option_parsed(value, seq![word])
        is Ok {
        let choices = planned_arg(value).choices->0;
        assert(choices[0] == "true"@ && choices[1] == "false"@);
    }
}

/// The command of a tool offers an option for every property that has one, and no others.
pub proof fn commands_offer_every_option(tool: ToolView, root: ObjectView, arg: ArgView)
    requires
        all_named(root.children),
    ensures
        planned_tool(tool, root).name == tool.cli_name,
        planned_tool(tool, root).args.contains(arg) <==> exists|
            path: Seq<Seq<char>>,
            value: ValueView,
        |
            #[trigger] stands_among(root.children, path, value) && arg == planned_arg(value),
{
    let values = all_values(root.children);
    let args = planned_tool(tool, root).args;
    if args.contains(arg) {
        let i = choose|i: int| 0 <= i < args.len() && args[i] == arg;
        assert(values.contains(values[i]));
        options_stand(root.children, values[i]);
        let path = choose|path: Seq<Seq<char>>| stands_among(root.children, path, values[i]);
        assert(stands_among(root.children, path, values[i]) && arg == planned_arg(values[i]));
    }
    if exists|path: Seq<Seq<char>>, value: ValueView|
        #[trigger] stands_among(root.children, path, value) && arg == planned_arg(value) {
        let (path, value) = choose|path: Seq<Seq<char>>, value: ValueView|
            #[trigger] stands_among(root.children, path, value) && arg == planned_arg(value);
        options_stand(root.children, value);
        let i = choose|i: int| 0 <= i < values.len() && values[i] == value;
        assert(args[i] == arg);
    }
}

// ---------------------------------------------------------------------------------------------
// Refusals

/// Input that cannot be read is refused with the kind of value that was expected and the option as
/// the command line writes it.
pub proof fn refusals_name_the_option(value: ValueView, values: Seq<Seq<char>>)
    requires
        option_parsed(value, values) is Err,
    ensures
        ({
            let error = option_parsed(value, values)->Err_0;
            let option = "`--"@ + value.cli_name + "`"@;
            match value.kind {
                KindView::Scalar(scalar) => refuses(error, scalar, option, values[0]),
                KindView::Array(scalar) => exists|i: int|
                    0 <= i < values.len() && refuses(error, scalar, option, #[trigger] values[i]),
                KindView::Json(expected) => match parsed_json(values[0]) {
                    Err(reason) => error == "invalid JSON for "@ + option + ": "@ + reason,
                    Ok(_) => expected is Some && error == "invalid JSON for "@ + option
                        + ": expected "@ + expected->0,
                },
            }
        }),
{
    match value.kind {
        KindView::Scalar(scalar) => scalar_refusal(scalar, values[0], value.cli_name),
        KindView::Array(scalar) => first_refusal(scalar, values, value.cli_name),
        KindView::Json(_) => {},
    }
}

/// Whether an error is what a scalar says of input that it cannot read.
pub open spec fn refuses(
    error: Seq<char>,
    scalar: ScalarView,
    option: Seq<char>,
    input: Seq<char>,
) -> bool {
    match scalar {
        ScalarView::Text(_) => false,
        ScalarView::Boolean => error == "invalid boolean for "@ + option,
        ScalarView::Integer => error == "invalid integer for "@ + option + (
        match parsed_json(input) {
            Err(reason) => ": "@ + reason,
            Ok(_) => Seq::empty(),
        }),
        ScalarView::Number => error == "invalid number for "@ + option + (
        match parsed_json(input) {
            Err(reason) => ": "@ + reason,
            Ok(_) => Seq::empty(),
        }),
    }
}

/// What one input that cannot be read is refused with.
proof fn scalar_refusal(kind: ScalarView, input: Seq<char>, cli_name: Seq<char>)
    ensures
        scalar_parsed(kind, input, cli_name) matches Err(error) ==> refuses(
            error,
            kind,
            "`--"@ + cli_name + "`"@,
            input,
        ),
{
    if let Err(error) = scalar_parsed(kind, input, cli_name) {
        let option = "`--"@ + cli_name + "`"@;
        match kind {
            ScalarView::Integer => {
                assert(refuses(error, kind, option, input)) by {
                    match parsed_json(input) {
                        Err(reason) => {
                            assert(error =~= "invalid integer for "@ + option + (": "@ + reason));
                        },
                        Ok(_) => {
                            assert(error =~= "invalid integer for "@ + option + Seq::<
                                char,
                            >::empty());
                        },
                    }
                }
            },
            ScalarView::Number => {
                assert(refuses(error, kind, option, input)) by {
                    match parsed_json(input) {
                        Err(reason) => {
                            assert(error =~= "invalid number for "@ + option + (": "@ + reason));
                        },
                        Ok(_) => {
                            assert(error =~= "invalid number for "@ + option + Seq::<
                                char,
                            >::empty());
                        },
                    }
                }
            },
            _ => {},
        }
    }
}

/// What repeated input that cannot be read is refused with.
proof fn first_refusal(kind: ScalarView, inputs: Seq<Seq<char>>, cli_name: Seq<char>)
    requires
        scalars_parsed(kind, inputs, cli_name) is Err,
    ensures
        exists|i: int|
            0 <= i < inputs.len() && refuses(
                scalars_parsed(kind, inputs, cli_name)->Err_0,
                kind,
                "`--"@ + cli_name + "`"@,
                #[trigger] inputs[i],
            ),
    decreases inputs.len(),
{
    let rest = inputs.drop_last();
    if scalars_parsed(kind, rest, cli_name) is Err {
        first_refusal(kind, rest, cli_name);
        let i = choose|i: int|
            0 <= i < rest.len() && refuses(
                scalars_parsed(kind, rest, cli_name)->Err_0,
                kind,
                "`--"@ + cli_name + "`"@,
                #[trigger] rest[i],
            );
        assert(inputs[i] == rest[i]);
    } else {
        scalar_refusal(kind, inputs.last(), cli_name);
        assert(inputs[inputs.len() - 1] == inputs.last());
    }
}

// ---------------------------------------------------------------------------------------------
// Order

/// The options of properties stand in the order of the properties; that of a union's scalar stands
/// before those of its object.
pub proof fn options_follow_the_properties(nodes: Seq<NodeView>, node: NodeView)
    ensures
        all_values(nodes.push(node)) == all_values(nodes) + all_values(seq![node]),
        node matches NodeView::Value(value) ==> all_values(seq![node]) == seq![value],
        node matches NodeView::Object(object) ==> all_values(seq![node]) == all_values(
            object.children,
        ),
        node matches NodeView::Union(union) ==> all_values(seq![node]) == seq![union.scalar]
            + all_values(union.object.children),
{
    assert(nodes.push(node).drop_last() =~= nodes);
    assert(seq![node].drop_last() =~= Seq::<NodeView>::empty());
    assert(all_values(seq![node].drop_last()) =~= Seq::<ValueView>::empty());
    assert(all_values(seq![node]) =~= node_values(node));
}

} // verus!
