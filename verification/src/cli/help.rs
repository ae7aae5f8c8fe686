//! Help texts of generated options.

use vstd::prelude::*;
use vstd::string::StringExecFns;

use crate::cli::problem::{quote, quoted};
use crate::cli::schema::{KindView, ScalarKind, ScalarView, ValueKind, ValueSpec, ValueView};
use crate::json::{compact_json, settled, Json, JsonView};
use crate::text::{join_texts, joined, texts};

verus! {

/// Concise option help: the schema's description, or the path that the option sets.
pub open spec fn help_text(value: ValueView) -> Seq<char> {
    match value.schema.get_text("description"@) {
        Some(text) => text,
        None => "Sets "@ + quoted(value.path),
    }
}

/// What is said of an option's encoding.
pub open spec fn kind_notes(kind: KindView) -> Seq<Seq<char>> {
    match kind {
        KindView::Scalar(ScalarView::Boolean) => seq![
            "Accepts --option, --option=true, or --option=false forms."@,
        ],
        KindView::Scalar(_) => Seq::empty(),
        KindView::Array(_) => seq!["Repeat this option once per array item; order is preserved."@],
        KindView::Json(expected) => seq![
            "Value is strict JSON ("@ + (match expected {
                Some(name) => name,
                None => "value"@,
            }) + "); JSON strings require quotes."@,
        ],
    }
}

/// What is said of an option that an optional ancestor makes required.
pub open spec fn parent_notes(value: ValueView) -> Seq<Seq<char>> {
    match value.conditional_parent {
        Some(parent) => if value.required {
            seq!["Required when "@ + quoted(parent) + " is activated."@]
        } else {
            Seq::empty()
        },
        None => Seq::empty(),
    }
}

/// What is said of one schema annotation, where the schema has it. A text stands for itself, any
/// other value for its compact JSON.
pub open spec fn annotation(schema: JsonView, key: Seq<char>, label: Seq<char>) -> Seq<Seq<char>> {
    match schema.get(key) {
        Some(value) => seq![
            label + ": "@ + (match value {
                JsonView::Text(text) => text,
                _ => compact_json(settled(value)),
            }) + "."@,
        ],
        None => Seq::empty(),
    }
}

/// What is said of all schema annotations, in a fixed order.
pub open spec fn annotations(schema: JsonView) -> Seq<Seq<char>> {
    annotation(schema, "format"@, "Format"@) + annotation(schema, "default"@, "Schema default"@)
        + annotation(schema, "examples"@, "Examples"@) + annotation(schema, "minimum"@, "Minimum"@)
        + annotation(schema, "maximum"@, "Maximum"@) + annotation(
        schema,
        "exclusiveMinimum"@,
        "Exclusive minimum"@,
    ) + annotation(schema, "exclusiveMaximum"@, "Exclusive maximum"@) + annotation(
        schema,
        "minLength"@,
        "Minimum length"@,
    ) + annotation(schema, "maxLength"@, "Maximum length"@) + annotation(
        schema,
        "pattern"@,
        "Pattern"@,
    ) + annotation(schema, "minItems"@, "Minimum items"@) + annotation(
        schema,
        "maxItems"@,
        "Maximum items"@,
    ) + annotation(schema, "uniqueItems"@, "Unique items"@) + annotation(
        schema,
        "minProperties"@,
        "Minimum properties"@,
    ) + annotation(schema, "maxProperties"@, "Maximum properties"@)
}

/// Self-contained option encoding and schema guidance.
pub open spec fn long_help_text(value: ValueView) -> Seq<char> {
    joined(
        seq![help_text(value)] + kind_notes(value.kind) + parent_notes(value) + annotations(
            value.schema,
        ),
        " "@,
    )
}

/// The value name shown for an option encoding.
pub open spec fn value_name(kind: KindView) -> Seq<char> {
    match kind {
        KindView::Scalar(scalar) => scalar_name(scalar),
        KindView::Array(scalar) => scalar_name(scalar),
        KindView::Json(_) => "JSON"@,
    }
}

/// The value name shown for a scalar type.
pub open spec fn scalar_name(scalar: ScalarView) -> Seq<char> {
    match scalar {
        ScalarView::Text(_) => "STRING"@,
        ScalarView::Integer => "INTEGER"@,
        ScalarView::Number => "NUMBER"@,
        ScalarView::Boolean => "BOOL"@,
    }
}

/// Returns the Clap value name for an option encoding.
pub fn value_name_for_kind(kind: &ValueKind) -> (r: &'static str)
    ensures
        r@ == value_name(kind@),
{
    match kind {
        ValueKind::Scalar(ScalarKind::Text(_)) => "STRING",
        ValueKind::Scalar(ScalarKind::Integer) => "INTEGER",
        ValueKind::Scalar(ScalarKind::Number) => "NUMBER",
        ValueKind::Scalar(ScalarKind::Boolean) => "BOOL",
        ValueKind::Array(ScalarKind::Text(_)) => "STRING",
        ValueKind::Array(ScalarKind::Integer) => "INTEGER",
        ValueKind::Array(ScalarKind::Number) => "NUMBER",
        ValueKind::Array(ScalarKind::Boolean) => "BOOL",
        ValueKind::Json(_) => "JSON",
    }
}

/// Returns concise option help.
pub fn option_help(value: &ValueSpec) -> (r: String)
    ensures
        r@ == help_text(value@),
{
    match value.schema.get_str("description") {
        Some(text) => text.to_owned(),
        None => {
            let mut out = "Sets ".to_owned();
            out.append(quote(value.path.as_str()).as_str());
            out
        },
    }
}

/// Adds one descriptive JSON Schema annotation to long help.
fn append_annotation(parts: &mut Vec<String>, schema: &Json, key: &str, label: &str)
    ensures
        texts(final(parts)@) == texts(old(parts)@) + annotation(schema@, key@, label@),
{
    let ghost before = texts(parts@);
    match schema.get(key) {
        Some(value) => {
            let rendered: String = match value {
                Json::Text(text) => text.clone(),
                _ => value.to_text(),
            };
            let mut out = label.to_owned();
            out.append(": ");
            out.append(rendered.as_str());
            out.append(".");
            parts.push(out);
        },
        None => {},
    }
    assert(texts(parts@) =~= before + annotation(schema@, key@, label@));
}

/// Adds descriptive JSON Schema annotations to long help.
pub fn append_schema_annotations(parts: &mut Vec<String>, schema: &Json)
    ensures
        texts(final(parts)@) == texts(old(parts)@) + annotations(schema@),
{
    let ghost before = texts(parts@);
    append_annotation(parts, schema, "format", "Format");
    append_annotation(parts, schema, "default", "Schema default");
    append_annotation(parts, schema, "examples", "Examples");
    append_annotation(parts, schema, "minimum", "Minimum");
    append_annotation(parts, schema, "maximum", "Maximum");
    append_annotation(parts, schema, "exclusiveMinimum", "Exclusive minimum");
    append_annotation(parts, schema, "exclusiveMaximum", "Exclusive maximum");
    append_annotation(parts, schema, "minLength", "Minimum length");
    append_annotation(parts, schema, "maxLength", "Maximum length");
    append_annotation(parts, schema, "pattern", "Pattern");
    append_annotation(parts, schema, "minItems", "Minimum items");
    append_annotation(parts, schema, "maxItems", "Maximum items");
    append_annotation(parts, schema, "uniqueItems", "Unique items");
    append_annotation(parts, schema, "minProperties", "Minimum properties");
    append_annotation(parts, schema, "maxProperties", "Maximum properties");
    assert(texts(parts@) =~= before + annotations(schema@));
}

/// Returns self-contained option encoding and schema guidance.
pub fn option_long_help(value: &ValueSpec) -> (r: String)
    ensures
        r@ == long_help_text(value@),
{
    let mut parts: Vec<String> = Vec::new();
    parts.push(option_help(value));
    match &value.kind {
        ValueKind::Scalar(ScalarKind::Boolean) => {
            parts.push("Accepts --option, --option=true, or --option=false forms.".to_owned());
        },
        ValueKind::Array(_) => {
            parts.push("Repeat this option once per array item; order is preserved.".to_owned());
        },
        ValueKind::Json(expected) => {
            let mut out = "Value is strict JSON (".to_owned();
            match expected {
                Some(name) => out.append(name),
                None => out.append("value"),
            }
            out.append("); JSON strings require quotes.");
            parts.push(out);
        },
        ValueKind::Scalar(_) => {},
    }
    assert(texts(parts@) =~= seq![help_text(value@)] + kind_notes(value@.kind));
    let ghost before = texts(parts@);
    if let Some(parent) = &value.conditional_parent {
        if value.required {
            let mut out = "Required when ".to_owned();
            out.append(quote(parent.as_str()).as_str());
            out.append(" is activated.");
            parts.push(out);
        }
    }
    assert(texts(parts@) =~= before + parent_notes(value@));
    append_schema_annotations(&mut parts, &value.schema);
    join_texts(&parts, " ")
}

// ---------------------------------------------------------------------------------------------
// Laws

/// The members of a schema that help tells of, each with what it is called.
pub open spec fn told_members() -> Seq<(Seq<char>, Seq<char>)> {
    seq![
        ("format"@, "Format"@),
        ("default"@, "Schema default"@),
        ("examples"@, "Examples"@),
        ("minimum"@, "Minimum"@),
        ("maximum"@, "Maximum"@),
        ("exclusiveMinimum"@, "Exclusive minimum"@),
        ("exclusiveMaximum"@, "Exclusive maximum"@),
        ("minLength"@, "Minimum length"@),
        ("maxLength"@, "Maximum length"@),
        ("pattern"@, "Pattern"@),
        ("minItems"@, "Minimum items"@),
        ("maxItems"@, "Maximum items"@),
        ("uniqueItems"@, "Unique items"@),
        ("minProperties"@, "Minimum properties"@),
        ("maxProperties"@, "Maximum properties"@),
    ]
}

/// The sentences about members, in the order of a list.
pub open spec fn told(schema: JsonView, members: Seq<(Seq<char>, Seq<char>)>) -> Seq<Seq<char>>
    decreases members.len(),
{
    if members.len() == 0 {
        Seq::empty()
    } else {
        let rest = told(schema, members.drop_last());
        match schema.get(members.last().0) {
            None => rest,
            Some(JsonView::Text(text)) => rest.push(members.last().1 + ": "@ + text + "."@),
            Some(value) => rest.push(
                members.last().1 + ": "@ + compact_json(settled(value)) + "."@,
            ),
        }
    }
}

/// One more member is told of behind the others.
proof fn told_more(
    schema: JsonView,
    members: Seq<(Seq<char>, Seq<char>)>,
    key: Seq<char>,
    label: Seq<char>,
)
    ensures
        told(schema, members.push((key, label))) == told(schema, members) + annotation(
            schema,
            key,
            label,
        ),
{
    assert(members.push((key, label)).drop_last() =~= members);
    assert(told(schema, members.push((key, label))) =~= told(schema, members) + annotation(
        schema,
        key,
        label,
    ));
}

/// Help tells of every member of the schema that restricts or describes a value, in a fixed order,
/// and of no other.
pub proof fn help_tells_of_the_schema(schema: JsonView)
    ensures
        annotations(schema) == told(schema, told_members()),
{
    let none = Seq::<(Seq<char>, Seq<char>)>::empty();
    told_more(schema, none, "format"@, "Format"@);
    let a = none.push(("format"@, "Format"@));
    told_more(schema, a, "default"@, "Schema default"@);
    let b = a.push(("default"@, "Schema default"@));
    told_more(schema, b, "examples"@, "Examples"@);
    let c = b.push(("examples"@, "Examples"@));
    told_more(schema, c, "minimum"@, "Minimum"@);
    let d = c.push(("minimum"@, "Minimum"@));
    told_more(schema, d, "maximum"@, "Maximum"@);
    let e = d.push(("maximum"@, "Maximum"@));
    told_more(schema, e, "exclusiveMinimum"@, "Exclusive minimum"@);
    let f = e.push(("exclusiveMinimum"@, "Exclusive minimum"@));
    told_more(schema, f, "exclusiveMaximum"@, "Exclusive maximum"@);
    let g = f.push(("exclusiveMaximum"@, "Exclusive maximum"@));
    told_more(schema, g, "minLength"@, "Minimum length"@);
    let h = g.push(("minLength"@, "Minimum length"@));
    told_more(schema, h, "maxLength"@, "Maximum length"@);
    let i = h.push(("maxLength"@, "Maximum length"@));
    told_more(schema, i, "pattern"@, "Pattern"@);
    let j = i.push(("pattern"@, "Pattern"@));
    told_more(schema, j, "minItems"@, "Minimum items"@);
    let k = j.push(("minItems"@, "Minimum items"@));
    told_more(schema, k, "maxItems"@, "Maximum items"@);
    let l = k.push(("maxItems"@, "Maximum items"@));
    told_more(schema, l, "uniqueItems"@, "Unique items"@);
    let m = l.push(("uniqueItems"@, "Unique items"@));
    told_more(schema, m, "minProperties"@, "Minimum properties"@);
    let n = m.push(("minProperties"@, "Minimum properties"@));
    told_more(schema, n, "maxProperties"@, "Maximum properties"@);
    assert(n.push(("maxProperties"@, "Maximum properties"@)) =~= told_members());
    assert(told(schema, none) + annotation(schema, "format"@, "Format"@) =~= annotation(
        schema,
        "format"@,
        "Format"@,
    ));
}

/// An option is described by its schema, or by the path that it sets where the schema does not
/// describe it.
pub proof fn options_are_described(value: ValueView)
    ensures
        value.schema.get("description"@) matches Some(JsonView::Text(text)) ==> help_text(value)
            == text,
        value.schema.get("description"@) is None ==> help_text(value) == "Sets `"@ + value.path
            + "`"@,
{
    reveal_strlit("Sets ");
    reveal_strlit("`");
    reveal_strlit("Sets `");
    if value.schema.get("description"@) is None {
        assert("Sets "@ + ("`"@ + value.path + "`"@) =~= "Sets `"@ + value.path + "`"@);
    }
}

/// Long help begins with the description. Then it says how an option is written, unless that is
/// plain; when it is needed, if that depends on another property; and what the schema says.
pub proof fn long_help_is_complete(value: ValueView) -> (notes: Seq<Seq<char>>)
    ensures
        long_help_text(value) == joined(
            seq![help_text(value)] + notes + told(value.schema, told_members()),
            " "@,
        ),
        value.kind is Array || value.kind is Json || value.kind == KindView::Scalar(
            ScalarView::Boolean,
        ) <==> kind_notes(value.kind).len() == 1,
        kind_notes(value.kind).len() <= 1,
        value.required && value.conditional_parent is Some <==> notes.len() == kind_notes(
            value.kind,
        ).len() + 1,
        notes.len() == kind_notes(value.kind).len() || notes == kind_notes(value.kind).push(
            "Required when `"@ + value.conditional_parent->0 + "` is activated."@,
        ),
        notes.len() == kind_notes(value.kind).len() ==> notes == kind_notes(value.kind),
{
    help_tells_of_the_schema(value.schema);
    reveal_strlit("Required when ");
    reveal_strlit("`");
    reveal_strlit(" is activated.");
    reveal_strlit("Required when `");
    reveal_strlit("` is activated.");
    let notes = kind_notes(value.kind) + parent_notes(value);
    assert(seq![help_text(value)] + kind_notes(value.kind) + parent_notes(value) + annotations(
        value.schema,
    ) =~= seq![help_text(value)] + notes + told(value.schema, told_members()));
    if value.required && value.conditional_parent is Some {
        let parent = value.conditional_parent->0;
        assert("Required when "@ + quoted(parent) + " is activated."@ =~= "Required when `"@ + parent
            + "` is activated."@);
        assert(notes =~= kind_notes(value.kind).push(
            "Required when `"@ + parent + "` is activated."@,
        ));
    } else {
        assert(notes =~= kind_notes(value.kind));
    }
    notes
}

/// An array is named like its items, and every kind of value by what it takes.
pub proof fn values_are_named_by_kind(scalar: ScalarView, expected: Option<Seq<char>>)
    ensures
        value_name(KindView::Array(scalar)) == value_name(KindView::Scalar(scalar)),
        value_name(KindView::Json(expected)) == "JSON"@,
        scalar is Text ==> value_name(KindView::Scalar(scalar)) == "STRING"@,
        scalar is Integer ==> value_name(KindView::Scalar(scalar)) == "INTEGER"@,
        scalar is Number ==> value_name(KindView::Scalar(scalar)) == "NUMBER"@,
        scalar is Boolean ==> value_name(KindView::Scalar(scalar)) == "BOOL"@,
{
}

/// Help says how an option is written where that is not plain.
pub proof fn encodings_are_explained(scalar: ScalarView, name: Seq<char>)
    ensures
        kind_notes(KindView::Array(scalar)) == seq![
            "Repeat this option once per array item; order is preserved."@,
        ],
        kind_notes(KindView::Scalar(ScalarView::Boolean)) == seq![
            "Accepts --option, --option=true, or --option=false forms."@,
        ],
        kind_notes(KindView::Json(Some(name))) == seq![
            "Value is strict JSON ("@ + name + "); JSON strings require quotes."@,
        ],
        kind_notes(KindView::Json(None)) == kind_notes(KindView::Json(Some("value"@))),
        !(scalar is Boolean) ==> kind_notes(KindView::Scalar(scalar)).len() == 0,
{
}

} // verus!
