//! Tool definitions and registries.

use vstd::prelude::*;
use vstd::std_specs::iter::IteratorSpec;
use vstd::string::StringExecFns;

use crate::error::{JsonRpcError, RpcErrorView};
use crate::json::{
    canonical, canonical_is_settled, field_views, field_views_are, json_of, json_views,
    json_views_are, members_view, settled, texts_under, Json, JsonView,
};
use crate::table::{ascending, collected, collected_ascending, inserted, inserted_ascending, keys};
use crate::text::{copy_texts, holds_text, join_texts, joined, texts};
use crate::wire::{listed_tool_json, make_tool, schema_json, texts_json, tool_json};

verus! {

/// Defines a tool's input type and metadata.
pub trait ToolDef: Sized {
    /// Tool name as it appears in the MCP protocol.
    const NAME: &'static str;

    /// Human-readable description of what the tool does.
    const DESCRIPTION: &'static str;

    /// JSON Schema of the tool's input.
    fn schema() -> Json;
}

/// Input schema of a tool: its properties and which of them are required.
#[derive(Debug)]
pub struct ToolInputSchema {
    /// Names of required properties.
    required: Vec<String>,
    /// Schema of each property, by name.
    properties: Option<Vec<(String, Json)>>,
}

/// An input schema as mathematics.
pub struct InputSchemaView {
    pub required: Seq<Seq<char>>,
    pub properties: Option<Seq<(Seq<char>, JsonView)>>,
}

impl View for ToolInputSchema {
    type V = InputSchemaView;

    closed spec fn view(&self) -> InputSchemaView {
        InputSchemaView {
            required: texts(self.required@),
            properties: match self.properties {
                Some(fields) => Some(field_views(fields@)),
                None => None,
            },
        }
    }
}

/// The schema of a property; anything but an object counts as an empty one.
pub open spec fn property_schema(value: JsonView) -> JsonView {
    if value is Object {
        settled(value)
    } else {
        JsonView::Object(Seq::empty())
    }
}

/// The schemas of properties.
pub open spec fn property_schemas(fields: Seq<(Seq<char>, JsonView)>) -> Seq<
    (Seq<char>, JsonView),
> {
    Seq::new(fields.len(), |i: int| (fields[i].0, property_schema(fields[i].1)))
}

/// The input schema that a JSON Schema describes.
pub open spec fn converted(schema: JsonView) -> InputSchemaView {
    InputSchemaView {
        required: texts_under(schema, "required"@),
        properties: match schema.get("properties"@) {
            Some(JsonView::Object(fields)) => Some(collected(property_schemas(fields))),
            _ => None,
        },
    }
}

/// Whether properties stand in ascending order and each has a canonical object.
pub open spec fn properties_sound(fields: Seq<(Seq<char>, JsonView)>) -> bool {
    &&& ascending(keys(fields))
    &&& forall|i: int|
        0 <= i < fields.len() ==> (#[trigger] fields[i]).1 is Object && canonical(fields[i].1)
}

/// Inserting a canonical object keeps properties sound.
proof fn inserted_sound(fields: Seq<(Seq<char>, JsonView)>, key: Seq<char>, value: JsonView)
    requires
        properties_sound(fields),
        value is Object,
        canonical(value),
    ensures
        properties_sound(inserted(fields, key, value)),
{
    inserted_ascending(fields, key, value);
    crate::table::place_splits(keys(fields), key);
    let p = crate::table::place(keys(fields), key) as int;
    let all = inserted(fields, key, value);
    assert forall|i: int| 0 <= i < all.len() implies (#[trigger] all[i]).1 is Object && canonical(
        all[i].1,
    ) by {
        if i != p {
            let from = if i < p || all.len() == fields.len() {
                i
            } else {
                i - 1
            };
            assert(all[i] == fields[from]);
        }
    }
}

impl ToolInputSchema {
    /// Properties are in order and have canonical objects.
    #[verifier::type_invariant]
    spec fn sound(&self) -> bool {
        self@.properties matches Some(fields) ==> properties_sound(fields)
    }

    /// Creates an input schema. A later property replaces an earlier one with the same name, and
    /// anything but an object counts as an empty one.
    pub fn new(required: Vec<String>, properties: Option<Vec<(String, Json)>>) -> (r:
        ToolInputSchema)
        ensures
            r@.required == texts(required@),
            r@.properties == (match properties {
                Some(fields) => Some(collected(property_schemas(field_views(fields@)))),
                None => None,
            }),
    {
        match properties {
            Some(fields) => {
                let table = collect_properties(&fields);
                ToolInputSchema { required, properties: Some(table) }
            },
            None => ToolInputSchema { required, properties: None },
        }
    }

    /// The type that the schema describes.
    pub fn type_(&self) -> (r: &'static str)
        ensures
            r@ == "object"@,
    {
        "object"
    }

    /// Names of required properties.
    pub fn required(&self) -> (r: &Vec<String>)
        ensures
            texts(r@) == self@.required,
    {
        &self.required
    }

    /// Schema of each property, by name.
    pub fn properties(&self) -> (r: Option<&Vec<(String, Json)>>)
        ensures
            match r {
                Some(fields) => self@.properties == Some(field_views(fields@)) && properties_sound(
                    field_views(fields@),
                ),
                None => self@.properties is None,
            },
    {
        proof {
            use_type_invariant(self);
        }
        match &self.properties {
            Some(fields) => Some(fields),
            None => None,
        }
    }

    /// Makes the schema's JSON object.
    pub fn to_json(&self) -> (r: Json)
        ensures
            r@ == schema_json(self@.required, self@.properties),
    {
        let mut fields: Vec<(String, Json)> = Vec::new();
        let ghost mut views: Seq<(Seq<char>, JsonView)> = Seq::empty();
        assert(field_views(fields@) =~= views);
        match &self.properties {
            Some(properties) => {
                let copied = copy_fields(properties);
                proof {
                    views = views.push(("properties"@, JsonView::Object(field_views(properties@))));
                }
                let value = Json::Object(copied);
                assert(value@ == JsonView::Object(field_views(properties@)));
                let ghost before = fields@;
                fields.push(("properties".to_owned(), value));
                assert(fields@.drop_last() =~= before);
                assert(field_views(fields@) =~= views);
            },
            None => {},
        }
        if self.required.len() > 0 {
            let names = text_values(&self.required);
            let ghost before = fields@;
            proof {
                views = views.push(("required"@, texts_json(texts(self.required@))));
            }
            fields.push(("required".to_owned(), names));
            assert(fields@.drop_last() =~= before);
            assert(field_views(fields@) =~= views);
        }
        let ghost before = fields@;
        let kind = Json::Text("object".to_owned());
        assert(kind@ == JsonView::Text("object"@));
        fields.push(("type".to_owned(), kind));
        proof {
            assert(fields@.drop_last() =~= before);
            assert(field_views(fields@) =~= schema_json(self@.required, self@.properties)->Object_0);
        }
        Json::Object(fields)
    }
}

/// Collects property schemas by name.
fn collect_properties(fields: &Vec<(String, Json)>) -> (r: Vec<(String, Json)>)
    ensures
        field_views(r@) == collected(property_schemas(field_views(fields@))),
        properties_sound(field_views(r@)),
{
    let ghost all = property_schemas(field_views(fields@));
    let mut table = Json::Object(Vec::new());
    let ghost mut views: Seq<(Seq<char>, JsonView)> = Seq::empty();
    let mut i: usize = 0;
    proof {
        field_views_are(fields@);
        assert(all.take(0) =~= Seq::<(Seq<char>, JsonView)>::empty());
        assert(properties_sound(views));
    }
    while i < fields.len()
        invariant
            i <= fields.len(),
            all == property_schemas(field_views(fields@)),
            all.len() == fields.len(),
            field_views(fields@).len() == fields.len(),
            forall|k: int|
                0 <= k < fields.len() ==> #[trigger] field_views(fields@)[k] == (
                    fields@[k].0@,
                    fields@[k].1@,
                ),
            table@ == JsonView::Object(views),
            views == collected(all.take(i as int)),
            properties_sound(views),
        decreases fields.len() - i,
    {
        let value: Json = match &fields[i].1 {
            Json::Object(_) => Json::from_value(fields[i].1.to_value()),
            _ => Json::Object(Vec::new()),
        };
        proof {
            assert(field_views(fields@)[i as int] == (fields@[i as int].0@, fields@[i as int].1@));
            assert(value@ == property_schema(fields@[i as int].1@));
            assert(canonical(value@));
            assert(all.take(i + 1).drop_last() =~= all.take(i as int));
            assert(all.take(i + 1).last() == (fields@[i as int].0@, value@));
            inserted_sound(views, fields@[i as int].0@, value@);
            views = inserted(views, fields@[i as int].0@, value@);
        }
        table.insert(fields[i].0.clone(), value);
        i += 1;
    }
    assert(all.take(fields.len() as int) =~= all);
    match table {
        Json::Object(table) => table,
        _ => Vec::new(),
    }
}

/// Copies object members.
fn copy_fields(fields: &Vec<(String, Json)>) -> (r: Vec<(String, Json)>)
    ensures
        field_views(r@) == field_views(fields@),
{
    let mut out: Vec<(String, Json)> = Vec::new();
    let mut i: usize = 0;
    while i < fields.len()
        invariant
            i <= fields.len(),
            out.len() == i,
            forall|k: int|
                0 <= k < i ==> (#[trigger] out@[k]).0@ == fields@[k].0@ && out@[k].1@
                    == fields@[k].1@,
        decreases fields.len() - i,
    {
        out.push((fields[i].0.clone(), fields[i].1.copy()));
        i += 1;
    }
    proof {
        field_views_are(out@);
        field_views_are(fields@);
        assert(field_views(out@) =~= field_views(fields@));
    }
    out
}

/// Makes a JSON array of texts.
pub(crate) fn text_values(items: &Vec<String>) -> (r: Json)
    ensures
        r@ == texts_json(texts(items@)),
{
    let mut out: Vec<Json> = Vec::new();
    let mut i: usize = 0;
    while i < items.len()
        invariant
            i <= items.len(),
            out.len() == i,
            forall|k: int| 0 <= k < i ==> (#[trigger] out@[k])@ == JsonView::Text(items@[k]@),
        decreases items.len() - i,
    {
        out.push(Json::Text(items[i].clone()));
        i += 1;
    }
    proof {
        json_views_are(out@);
        assert(json_views(out@) =~= texts_json(texts(items@))->Array_0);
    }
    Json::Array(out)
}

/// Converts a JSON Schema to a tool's input schema, which models `properties` and `required`.
pub fn convert_schema_to_tool_input(schema: &Json) -> (r: ToolInputSchema)
    ensures
        r@ == converted(schema@),
{
    let required = schema.get_texts("required");
    match schema.get("properties") {
        Some(Json::Object(fields)) => {
            let table = collect_properties(fields);
            ToolInputSchema { required, properties: Some(table) }
        },
        _ => ToolInputSchema { required, properties: None },
    }
}

// ---------------------------------------------------------------------------------------------
// Definitions

/// MCP tool definition for `tools/list` responses.
#[derive(Debug)]
pub struct ToolDefinition {
    /// Tool name.
    pub name: String,
    /// Tool description.
    pub description: String,
    /// JSON Schema for the input parameters.
    pub input_schema: ToolInputSchema,
}

/// A tool definition as mathematics.
pub struct DefinitionView {
    pub name: Seq<char>,
    pub description: Seq<char>,
    pub input: InputSchemaView,
}

impl View for ToolDefinition {
    type V = DefinitionView;

    open spec fn view(&self) -> DefinitionView {
        DefinitionView {
            name: self.name@,
            description: self.description@,
            input: self.input_schema@,
        }
    }
}

/// The JSON of a definition's input schema.
pub open spec fn input_json(definition: DefinitionView) -> JsonView {
    schema_json(definition.input.required, definition.input.properties)
}

/// The JSON of a definition, as `tools/list` presents it.
pub open spec fn definition_json(definition: DefinitionView) -> JsonView {
    listed_tool_json(definition.name, definition.description, input_json(definition))
}

/// One parameter as readers see it: its name, type and need, its description, and its values.
pub open spec fn parameter_text(field: (Seq<char>, JsonView), required: bool) -> Seq<char> {
    let kind = match field.1.get_text("type"@) {
        Some(name) => name,
        None => "any"@,
    };
    let need = if required {
        "required"@
    } else {
        "optional"@
    };
    let about = match field.1.get_text("description"@) {
        Some(text) => "\n    "@ + text,
        None => Seq::empty(),
    };
    let choices = texts_under(field.1, "enum"@);
    let values = if choices.len() > 0 {
        "\n    Values: "@ + joined(choices, ", "@)
    } else {
        Seq::empty()
    };
    "  "@ + field.0 + " ("@ + kind + ", "@ + need + ")"@ + about + values + "\n"@
}

/// Parameters as readers see them.
pub open spec fn parameters_text(
    fields: Seq<(Seq<char>, JsonView)>,
    required: Seq<Seq<char>>,
) -> Seq<char>
    decreases fields.len(),
{
    if fields.len() == 0 {
        Seq::empty()
    } else {
        parameters_text(fields.drop_last(), required) + parameter_text(
            fields.last(),
            required.contains(fields.last().0),
        )
    }
}

/// A definition as readers see it.
pub open spec fn definition_text(definition: DefinitionView) -> Seq<char> {
    let head = "## "@ + definition.name + "\n\n"@ + definition.description + "\n"@;
    match definition.input.properties {
        Some(fields) => if fields.len() > 0 {
            head + "\nParameters:\n"@ + parameters_text(fields, definition.input.required)
        } else {
            head
        },
        None => head,
    }
}

/// Shows one parameter to readers.
fn show_parameter(name: &str, schema: &Json, required: bool) -> (r: String)
    ensures
        r@ == parameter_text((name@, schema@), required),
{
    let mut out = "  ".to_owned();
    out.append(name);
    out.append(" (");
    match schema.get_str("type") {
        Some(kind) => out.append(kind),
        None => out.append("any"),
    }
    out.append(", ");
    if required {
        out.append("required");
    } else {
        out.append("optional");
    }
    out.append(")");
    let ghost head = out@;
    if let Some(text) = schema.get_str("description") {
        out.append("\n    ");
        out.append(text);
    }
    let ghost about = match schema@.get_text("description"@) {
        Some(text) => "\n    "@ + text,
        None => Seq::empty(),
    };
    assert(out@ =~= head + about);
    let choices = schema.get_texts("enum");
    assert(choices.len() == texts_under(schema@, "enum"@).len());
    if choices.len() > 0 {
        out.append("\n    Values: ");
        out.append(join_texts(&choices, ", ").as_str());
    }
    let ghost values = if texts_under(schema@, "enum"@).len() > 0 {
        "\n    Values: "@ + joined(texts_under(schema@, "enum"@), ", "@)
    } else {
        Seq::empty()
    };
    assert(out@ =~= head + about + values);
    out.append("\n");
    out
}

impl ToolDefinition {
    /// Creates a definition from a type implementing [`ToolDef`].
    pub fn from_tool<T: ToolDef>() -> (r: ToolDefinition)
        ensures
            r@.name == T::NAME@,
            r@.description == T::DESCRIPTION@,
            exists|schema: Json| #[trigger]
                call_ensures(T::schema, (), schema) && r@.input == converted(schema@),
    {
        let schema = T::schema();
        ToolDefinition {
            name: T::NAME.to_owned(),
            description: T::DESCRIPTION.to_owned(),
            input_schema: convert_schema_to_tool_input(&schema),
        }
    }

    /// Makes the JSON object of the input schema.
    pub fn input_schema_json(&self) -> (r: Json)
        ensures
            r@ == input_json(self@),
    {
        self.input_schema.to_json()
    }

    /// Converts to the MCP schema's tool.
    pub fn into_mcp_tool(self) -> (r: rust_mcp_schema::Tool)
        ensures
            tool_json(r) == definition_json(self@),
    {
        let required = copy_texts(self.input_schema.required());
        let properties: Option<Vec<(String, serde_json::Value)>> = match self.input_schema.properties() {
            Some(fields) => {
                let mut out: Vec<(String, serde_json::Value)> = Vec::new();
                let mut i: usize = 0;
                proof {
                    field_views_are(fields@);
                }
                while i < fields.len()
                    invariant
                        i <= fields.len(),
                        out.len() == i,
                        field_views(fields@).len() == fields.len(),
                        forall|k: int|
                            0 <= k < fields.len() ==> #[trigger] field_views(fields@)[k] == (
                                fields@[k].0@,
                                fields@[k].1@,
                            ),
                        properties_sound(field_views(fields@)),
                        forall|k: int|
                            0 <= k < i ==> (#[trigger] out@[k]).0@ == fields@[k].0@ && json_of(
                                out@[k].1,
                            ) == fields@[k].1@ && fields@[k].1@ is Object,
                    decreases fields.len() - i,
                {
                    proof {
                        assert(field_views(fields@)[i as int].1 == fields@[i as int].1@);
                        canonical_is_settled(fields@[i as int].1@);
                    }
                    out.push((fields[i].0.clone(), fields[i].1.to_value()));
                    i += 1;
                }
                proof {
                    assert(members_view(out@) =~= field_views(fields@));
                    collected_ascending(field_views(fields@));
                }
                Some(out)
            },
            None => None,
        };
        make_tool(self.name, self.description, required, properties)
    }

    /// Shows the definition to readers.
    pub fn to_string(&self) -> (r: String)
        ensures
            r@ == definition_text(self@),
    {
        let mut out = "## ".to_owned();
        out.append(self.name.as_str());
        out.append("\n\n");
        out.append(self.description.as_str());
        out.append("\n");
        let fields = match self.input_schema.properties() {
            Some(fields) => fields,
            None => {
                return out;
            },
        };
        proof {
            field_views_are(fields@);
        }
        if fields.len() == 0 {
            return out;
        }
        out.append("\nParameters:\n");
        let ghost head = out@;
        let ghost views = field_views(fields@);
        let required = self.input_schema.required();
        let mut i: usize = 0;
        assert(views.take(0) =~= Seq::<(Seq<char>, JsonView)>::empty());
        assert(out@ =~= head + parameters_text(views.take(0), texts(required@)));
        while i < fields.len()
            invariant
                i <= fields.len(),
                views == field_views(fields@),
                views.len() == fields.len(),
                forall|k: int|
                    0 <= k < fields.len() ==> #[trigger] views[k] == (
                        fields@[k].0@,
                        fields@[k].1@,
                    ),
                out@ == head + parameters_text(views.take(i as int), texts(required@)),
            decreases fields.len() - i,
        {
            proof {
                assert(views.take(i + 1).drop_last() =~= views.take(i as int));
                assert(views.take(i + 1).last() == (fields@[i as int].0@, fields@[i as int].1@));
            }
            let needed: bool = holds_text(required, fields[i].0.as_str());
            out.append(show_parameter(fields[i].0.as_str(), &fields[i].1, needed).as_str());
            assert(out@ =~= head + parameters_text(views.take(i + 1), texts(required@)));
            i += 1;
        }
        assert(views.take(fields.len() as int) =~= views);
        out
    }
}

/// Collection of tool definitions returned by [`ToolRegistry::definitions`].
#[derive(Debug)]
pub struct ToolDefinitions(Vec<ToolDefinition>);

/// Definitions as mathematics.
pub open spec fn definition_views(definitions: Seq<ToolDefinition>) -> Seq<DefinitionView> {
    Seq::new(definitions.len(), |i: int| definitions[i]@)
}

impl View for ToolDefinitions {
    type V = Seq<DefinitionView>;

    closed spec fn view(&self) -> Seq<DefinitionView> {
        definition_views(self.0@)
    }
}

/// Definitions as readers see them, one after the other.
pub open spec fn definitions_body(definitions: Seq<DefinitionView>) -> Seq<char>
    decreases definitions.len(),
{
    if definitions.len() == 0 {
        Seq::empty()
    } else if definitions.len() == 1 {
        definition_text(definitions[0])
    } else {
        definitions_body(definitions.drop_last()) + "\n"@ + definition_text(definitions.last())
    }
}

/// A collection of definitions as readers see it.
pub open spec fn definitions_text(definitions: Seq<DefinitionView>) -> Seq<char> {
    "# Tools\n\n"@ + definitions_body(definitions)
}

impl ToolDefinitions {
    /// Creates a new collection from a vector of definitions.
    pub fn new(definitions: Vec<ToolDefinition>) -> (r: ToolDefinitions)
        ensures
            r@ == definition_views(definitions@),
    {
        ToolDefinitions(definitions)
    }

    /// Returns the number of tool definitions.
    pub fn len(&self) -> (r: usize)
        ensures
            r == self@.len(),
    {
        self.0.len()
    }

    /// Returns true if there are no tool definitions.
    pub fn is_empty(&self) -> (r: bool)
        ensures
            r == (self@.len() == 0),
    {
        self.0.len() == 0
    }

    /// Returns the tool definition at an index.
    pub fn get(&self, index: usize) -> (r: Option<&ToolDefinition>)
        ensures
            match r {
                Some(definition) => index < self@.len() && definition@ == self@[index as int],
                None => index >= self@.len(),
            },
    {
        if index < self.0.len() {
            Some(&self.0[index])
        } else {
            None
        }
    }

    /// Returns the tool definitions as a slice.
    pub fn as_slice(&self) -> (r: &[ToolDefinition])
        ensures
            definition_views(r@) == self@,
    {
        self.0.as_slice()
    }

    /// Returns an iterator over the tool definitions.
    pub fn iter(&self) -> (r: std::slice::Iter<'_, ToolDefinition>)
        ensures
            definition_views(r.remaining().unref()) == self@,
    {
        self.0.as_slice().iter()
    }

    /// Consumes the collection and returns the tool definitions.
    pub fn into_vec(self) -> (r: Vec<ToolDefinition>)
        ensures
            definition_views(r@) == self@,
    {
        self.0
    }

    /// Shows all definitions to readers.
    pub fn to_string(&self) -> (r: String)
        ensures
            r@ == definitions_text(self@),
    {
        let mut body = String::new();
        let mut i: usize = 0;
        assert(self@.take(0) =~= Seq::<DefinitionView>::empty());
        while i < self.0.len()
            invariant
                i <= self.0.len(),
                body@ == definitions_body(self@.take(i as int)),
            decreases self.0.len() - i,
        {
            if i > 0 {
                body.append("\n");
            }
            body.append(self.0[i].to_string().as_str());
            proof {
                let next = self@.take(i + 1);
                assert(next.drop_last() =~= self@.take(i as int));
                assert(next.last() == self.0@[i as int]@);
                if i == 0 {
                    assert(body@ =~= definition_text(next[0]));
                }
            }
            i += 1;
        }
        assert(self@.take(self.0.len() as int) =~= self@);
        let mut out = "# Tools\n\n".to_owned();
        out.append(body.as_str());
        out
    }
}

// ---------------------------------------------------------------------------------------------
// Registries

/// Registry of available tools.
///
/// Implemented by enums representing the set of tools a server supports. Each variant
/// corresponds to a tool and contains its parsed input.
pub trait ToolRegistry: Sized {
    /// Whether tools are enabled. Used to advertise tool capabilities during init.
    const ENABLED: bool = true;

    /// Parses a tool call into a typed enum variant.
    fn parse(name: &str, arguments: Json) -> Result<Self, JsonRpcError>;

    /// Returns tool definitions for `tools/list`.
    fn definitions() -> ToolDefinitions;
}

/// The error for a tool that a registry does not have.
pub open spec fn unknown_tool(name: Seq<char>) -> RpcErrorView {
    RpcErrorView::MethodNotFound { msg: "unknown tool: "@ + name }
}

/// Creates the error for a tool that a registry does not have.
pub fn unknown_tool_error(name: &str) -> (r: JsonRpcError)
    ensures
        r@ == unknown_tool(name@),
{
    let mut msg = "unknown tool: ".to_owned();
    msg.append(name);
    JsonRpcError::MethodNotFound { msg }
}

/// Empty tool registry for servers that don't expose tools. No value of it is ever made.
#[derive(Debug)]
pub struct NoTools(());

impl ToolRegistry for NoTools {
    const ENABLED: bool = false;

    fn parse(name: &str, arguments: Json) -> (r: Result<Self, JsonRpcError>)
        ensures
            r matches Err(error) && error@ == unknown_tool(name@),
    {
        Err(unknown_tool_error(name))
    }

    fn definitions() -> (r: ToolDefinitions)
        ensures
            r@.len() == 0,
    {
        ToolDefinitions::new(Vec::new())
    }
}

/// The empty registry offers no tools.
pub proof fn no_tools_is_disabled()
    ensures
        !<NoTools as ToolRegistry>::ENABLED,
{
}

/// A schema that lists objects as its properties is kept as it is: the definition has the same
/// properties, and the same required names.
pub proof fn listed_schemas_are_kept(schema: JsonView, fields: Seq<(Seq<char>, JsonView)>)
    requires
        canonical(schema),
        schema.get("properties"@) == Some(JsonView::Object(fields)),
        forall|i: int| 0 <= i < fields.len() ==> (#[trigger] fields[i]).1 is Object,
    ensures
        converted(schema).properties == Some(fields),
        forall|name: Seq<char>| #[trigger]
            converted(schema).required.contains(name) <==> (schema.get("required"@) matches Some(
                JsonView::Array(names),
            ) && names.contains(JsonView::Text(name))),
{
    let members = schema->Object_0;
    crate::table::lookup_absent(members, "properties"@);
    let k = choose|k: int|
        0 <= k < members.len() && (#[trigger] members[k]).0 == "properties"@ && Some(members[k].1)
            == crate::table::lookup(members, "properties"@);
    assert(canonical(members[k].1));
    assert forall|i: int| 0 <= i < fields.len() implies property_schemas(fields)[i]
        == #[trigger] fields[i] by {
        assert(canonical(fields[i].1));
        canonical_is_settled(fields[i].1);
    }
    assert(property_schemas(fields) =~= fields);
    crate::table::collected_ascending(fields);
    assert forall|name: Seq<char>| #[trigger]
        converted(schema).required.contains(name) <==> (schema.get("required"@) matches Some(
            JsonView::Array(names),
        ) && names.contains(JsonView::Text(name))) by {
        if let Some(JsonView::Array(names)) = schema.get("required"@) {
            crate::json::texts_are_found(names, name);
        }
    }
}

/// Definitions are shown one after the other, with an empty line between them.
pub proof fn definitions_are_shown_in_order(
    definitions: Seq<DefinitionView>,
    definition: DefinitionView,
)
    ensures
        definitions_text(seq![definition]) == "# Tools\n\n"@ + definition_text(definition),
        definitions.len() > 0 ==> definitions_text(definitions.push(definition))
            == definitions_text(definitions) + "\n"@ + definition_text(definition),
{
    assert(definitions.push(definition).drop_last() =~= definitions);
    if definitions.len() > 0 {
        assert(definitions_text(definitions.push(definition)) =~= definitions_text(definitions)
            + "\n"@ + definition_text(definition));
    }
}

/// A parameter is shown on a line with its name, its type, and whether it is required; its
/// description and its values follow where it has them.
pub proof fn parameters_say_what_they_take(field: (Seq<char>, JsonView), required: bool) -> (rest: Seq<
    char,
>)
    ensures
        field.1.get("type"@) matches Some(JsonView::Text(kind)) ==> parameter_text(field, required)
            == "  "@ + field.0 + " ("@ + kind + (if required {
            ", required)"@
        } else {
            ", optional)"@
        }) + rest,
        field.1.get("type"@) is None ==> parameter_text(field, required) == "  "@ + field.0
            + " (any"@ + (if required {
            ", required)"@
        } else {
            ", optional)"@
        }) + rest,
        field.1.get("description"@) is None && field.1.get("enum"@) is None ==> rest == "\n"@,
        field.1.get("description"@) matches Some(JsonView::Text(text)) && field.1.get("enum"@)
            is None ==> rest == "\n    "@ + field.1.get("description"@)->0->Text_0 + "\n"@,
{
    reveal_strlit(", required)");
    reveal_strlit(", optional)");
    reveal_strlit("required");
    reveal_strlit("optional");
    reveal_strlit(", ");
    reveal_strlit(")");
    reveal_strlit(" (");
    reveal_strlit(" (any");
    reveal_strlit("any");
    let about = match field.1.get_text("description"@) {
        Some(text) => "\n    "@ + text,
        None => Seq::empty(),
    };
    let choices = texts_under(field.1, "enum"@);
    let values = if choices.len() > 0 {
        "\n    Values: "@ + joined(choices, ", "@)
    } else {
        Seq::empty()
    };
    let need = if required {
        ", required)"@
    } else {
        ", optional)"@
    };
    let rest = about + values + "\n"@;
    assert(", "@ + (if required {
        "required"@
    } else {
        "optional"@
    }) + ")"@ =~= need);
    let kind = match field.1.get_text("type"@) {
        Some(name) => name,
        None => "any"@,
    };
    assert(parameter_text(field, required) =~= "  "@ + field.0 + " ("@ + kind + need + rest);
    assert(" ("@ + "any"@ =~= " (any"@);
    if field.1.get("type"@) is None {
        assert("  "@ + field.0 + " ("@ + kind + need + rest =~= "  "@ + field.0 + " (any"@ + need
            + rest);
    }
    if field.1.get("enum"@) is None {
        if field.1.get("description"@) is None {
            assert(rest =~= "\n"@);
        } else {
            assert(rest =~= about + "\n"@);
        }
    }
    rest
}

/// Every parameter is shown, in order, and as required exactly if it is listed so.
pub proof fn every_parameter_is_shown(
    fields: Seq<(Seq<char>, JsonView)>,
    field: (Seq<char>, JsonView),
    required: Seq<Seq<char>>,
)
    ensures
        parameters_text(fields.push(field), required) == parameters_text(fields, required)
            + parameter_text(field, required.contains(field.0)),
        parameters_text(Seq::empty(), required).len() == 0,
{
    assert(fields.push(field).drop_last() =~= fields);
}

/// A definition is shown under its name, with its description, and then its parameters if it has
/// any.
pub proof fn definitions_show_their_parts(definition: DefinitionView)
    ensures
        definition.input.properties matches Some(fields) && fields.len() > 0 ==> definition_text(
            definition,
        ) == "## "@ + definition.name + "\n\n"@ + definition.description + "\n\nParameters:\n"@
            + parameters_text(definition.input.properties->0, definition.input.required),
        definition.input.properties is None || definition.input.properties->0.len() == 0
            ==> definition_text(definition) == "## "@ + definition.name + "\n\n"@
            + definition.description + "\n"@,
{
    reveal_strlit("\n");
    reveal_strlit("\nParameters:\n");
    reveal_strlit("\n\nParameters:\n");
    assert("\n"@ + "\nParameters:\n"@ =~= "\n\nParameters:\n"@);
    if let Some(fields) = definition.input.properties {
        let front = "## "@ + definition.name + "\n\n"@ + definition.description;
        let back = parameters_text(fields, definition.input.required);
        assert(front + "\n"@ + "\nParameters:\n"@ + back =~= front + "\n\nParameters:\n"@ + back);
    }
}

/// A property without an object for its schema takes any value, and keeps its name.
pub proof fn odd_properties_take_anything(fields: Seq<(Seq<char>, JsonView)>, i: int)
    requires
        0 <= i < fields.len(),
        !(fields[i].1 is Object),
    ensures
        property_schemas(fields)[i] == (fields[i].0, JsonView::Object(Seq::empty())),
        property_schemas(fields).len() == fields.len(),
{
}

} // verus!
