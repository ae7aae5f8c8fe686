//! JSON values.

use vstd::prelude::*;
use vstd::string::StringExecFns;

use crate::text::texts;
use crate::table::{
    place, place_splits, ascending, collected, collected_ascending, collected_is_ascending,
    find_key, find_place, inserted, key_texts, keys, lookup, lookup_absent, lookup_at,
};

verus! {

// ---------------------------------------------------------------------------------------------
// The model

/// A JSON value as mathematics.
pub enum JsonView {
    Null,
    Bool(bool),
    /// A number without a fraction or exponent that fits 64 bits.
    Integer(int),
    /// Any other number.
    Float(serde_json::Number),
    Text(Seq<char>),
    Array(Seq<JsonView>),
    Object(Seq<(Seq<char>, JsonView)>),
}

/// A JSON number.
#[derive(Debug)]
pub enum JsonNumber {
    Unsigned(u64),
    Signed(i64),
    Float(serde_json::Number),
}

/// A JSON value.
#[derive(Debug)]
pub enum Json {
    Null,
    Bool(bool),
    Number(JsonNumber),
    Text(String),
    Array(Vec<Json>),
    /// Object members, each with its key.
    Object(Vec<(String, Json)>),
}

impl View for JsonNumber {
    type V = JsonView;

    open spec fn view(&self) -> JsonView {
        match self {
            JsonNumber::Unsigned(n) => JsonView::Integer(n as int),
            JsonNumber::Signed(n) => JsonView::Integer(n as int),
            JsonNumber::Float(n) => JsonView::Float(*n),
        }
    }
}

/// What a JSON value stands for.
pub open spec fn json_view(value: Json) -> JsonView
    decreases value,
{
    match value {
        Json::Null => JsonView::Null,
        Json::Bool(b) => JsonView::Bool(b),
        Json::Number(n) => n@,
        Json::Text(t) => JsonView::Text(t@),
        Json::Array(items) => JsonView::Array(json_views(items@)),
        Json::Object(fields) => JsonView::Object(field_views(fields@)),
    }
}

/// What the values of a list stand for.
pub open spec fn json_views(items: Seq<Json>) -> Seq<JsonView>
    decreases items,
{
    if items.len() == 0 {
        Seq::empty()
    } else {
        json_views(items.drop_last()).push(json_view(items.last()))
    }
}

/// What the members of an object stand for.
pub open spec fn field_views(fields: Seq<(String, Json)>) -> Seq<(Seq<char>, JsonView)>
    decreases fields,
{
    if fields.len() == 0 {
        Seq::empty()
    } else {
        field_views(fields.drop_last()).push((fields.last().0@, json_view(fields.last().1)))
    }
}

impl View for Json {
    type V = JsonView;

    open spec fn view(&self) -> JsonView {
        json_view(*self)
    }
}

/// The views of a list stand one for one for its items.
pub proof fn json_views_are(items: Seq<Json>)
    ensures
        json_views(items).len() == items.len(),
        forall|i: int| 0 <= i < items.len() ==> #[trigger] json_views(items)[i] == items[i]@,
    decreases items.len(),
{
    if items.len() > 0 {
        json_views_are(items.drop_last());
    }
}

/// The views of an object's members stand one for one for them.
pub proof fn field_views_are(fields: Seq<(String, Json)>)
    ensures
        field_views(fields).len() == fields.len(),
        forall|i: int|
            0 <= i < fields.len() ==> #[trigger] field_views(fields)[i] == (
                fields[i].0@,
                fields[i].1@,
            ),
        keys(field_views(fields)) == key_texts(fields),
    decreases fields.len(),
{
    if fields.len() > 0 {
        field_views_are(fields.drop_last());
    }
    assert(keys(field_views(fields)) =~= key_texts(fields));
}

impl JsonView {
    /// The member of an object under a key.
    pub open spec fn get(self, key: Seq<char>) -> Option<JsonView> {
        match self {
            JsonView::Object(fields) => lookup(fields, key),
            _ => None,
        }
    }

    /// The text of a string.
    pub open spec fn text(self) -> Option<Seq<char>> {
        match self {
            JsonView::Text(t) => Some(t),
            _ => None,
        }
    }

    /// The items of an array.
    pub open spec fn items(self) -> Option<Seq<JsonView>> {
        match self {
            JsonView::Array(items) => Some(items),
            _ => None,
        }
    }

    /// The members of an object.
    pub open spec fn fields(self) -> Option<Seq<(Seq<char>, JsonView)>> {
        match self {
            JsonView::Object(fields) => Some(fields),
            _ => None,
        }
    }

    /// The text of the string under a key.
    pub open spec fn get_text(self, key: Seq<char>) -> Option<Seq<char>> {
        match self.get(key) {
            Some(value) => value.text(),
            None => None,
        }
    }

    /// Whether the value is a number.
    pub open spec fn is_number(self) -> bool {
        self is Integer || self is Float
    }
}

/// The texts among JSON values, in order.
pub open spec fn texts_among(items: Seq<JsonView>) -> Seq<Seq<char>>
    decreases items.len(),
{
    if items.len() == 0 {
        Seq::empty()
    } else {
        match items.last() {
            JsonView::Text(t) => texts_among(items.drop_last()).push(t),
            _ => texts_among(items.drop_last()),
        }
    }
}

/// The texts in the array under a key; none where there is no such array.
pub open spec fn texts_under(value: JsonView, key: Seq<char>) -> Seq<Seq<char>> {
    match value.get(key) {
        Some(JsonView::Array(items)) => texts_among(items),
        _ => Seq::empty(),
    }
}

/// A text is found among values exactly if it is one of them.
pub proof fn texts_are_found(items: Seq<JsonView>, name: Seq<char>)
    ensures
        texts_among(items).contains(name) <==> items.contains(JsonView::Text(name)),
    decreases items.len(),
{
    let found = texts_among(items);
    if items.len() > 0 {
        let rest = items.drop_last();
        texts_are_found(rest, name);
        let before = texts_among(rest);
        if items.contains(JsonView::Text(name)) {
            let k = choose|k: int| 0 <= k < items.len() && items[k] == JsonView::Text(name);
            if k < rest.len() {
                assert(rest[k] == items[k]);
                let m = choose|m: int| 0 <= m < before.len() && before[m] == name;
                assert(found[m] == name);
            } else {
                assert(found[found.len() - 1] == name);
            }
        }
        if found.contains(name) {
            let m = choose|m: int| 0 <= m < found.len() && found[m] == name;
            if m < before.len() {
                assert(before[m] == name);
                let k = choose|k: int| 0 <= k < rest.len() && rest[k] == JsonView::Text(name);
                assert(items[k] == rest[k]);
            } else {
                assert(items[items.len() - 1] == JsonView::Text(name));
            }
        }
    }
}

/// A member found in an object is smaller than the object.
pub proof fn member_decreases(value: JsonView, key: Seq<char>)
    requires
        value.get(key) is Some,
    ensures
        decreases_to!(value => value.get(key)->0),
{
    let fields = value->Object_0;
    lookup_absent(fields, key);
    let k = choose|k: int|
        0 <= k < fields.len() && (#[trigger] fields[k]).0 == key && Some(fields[k].1) == lookup(
            fields,
            key,
        );
    assert(decreases_to!(value => fields));
    assert(decreases_to!(fields => fields[k]));
    assert(decreases_to!(fields[k] => fields[k].1));
}

// ---------------------------------------------------------------------------------------------
// Canonical values

/// Whether the members of every object in a value stand in ascending order of their keys, and
/// every integer is held as one.
pub open spec fn canonical(value: JsonView) -> bool
    decreases value,
{
    match value {
        JsonView::Array(items) => forall|i: int|
            0 <= i < items.len() ==> canonical(#[trigger] items[i]),
        JsonView::Object(fields) => ascending(keys(fields)) && forall|i: int|
            0 <= i < fields.len() ==> canonical((#[trigger] fields[i]).1),
        JsonView::Float(number) => integer_of(number) is None,
        _ => true,
    }
}

/// The value with the members of every object in ascending order of their keys, of which the last
/// of several with one key remains, and with every integer held as one.
pub open spec fn settled(value: JsonView) -> JsonView
    decreases value,
{
    match value {
        JsonView::Array(items) => JsonView::Array(settled_items(items)),
        JsonView::Object(fields) => JsonView::Object(collected(settled_fields(fields))),
        JsonView::Float(number) => number_view(number),
        _ => value,
    }
}

/// The items of an array, each settled.
pub open spec fn settled_items(items: Seq<JsonView>) -> Seq<JsonView>
    decreases items,
{
    if items.len() == 0 {
        Seq::empty()
    } else {
        settled_items(items.drop_last()).push(settled(items.last()))
    }
}

/// The members of an object, the value of each settled.
pub open spec fn settled_fields(fields: Seq<(Seq<char>, JsonView)>) -> Seq<(Seq<char>, JsonView)>
    decreases fields,
{
    if fields.len() == 0 {
        Seq::empty()
    } else {
        settled_fields(fields.drop_last()).push((fields.last().0, settled(fields.last().1)))
    }
}

/// A canonical value is settled.
pub proof fn canonical_is_settled(value: JsonView)
    requires
        canonical(value),
    ensures
        settled(value) == value,
    decreases value,
{
    match value {
        JsonView::Array(items) => {
            canonical_items_settled(items);
        },
        JsonView::Object(fields) => {
            canonical_fields_settled(fields);
            collected_ascending(fields);
        },
        _ => {},
    }
}

proof fn canonical_items_settled(items: Seq<JsonView>)
    requires
        forall|i: int| 0 <= i < items.len() ==> canonical(#[trigger] items[i]),
    ensures
        settled_items(items) == items,
    decreases items,
{
    if items.len() > 0 {
        assert(canonical(items[items.len() - 1]));
        canonical_is_settled(items.last());
        canonical_items_settled(items.drop_last());
        assert(settled_items(items) =~= items);
    }
}

proof fn canonical_fields_settled(fields: Seq<(Seq<char>, JsonView)>)
    requires
        forall|i: int| 0 <= i < fields.len() ==> canonical((#[trigger] fields[i]).1),
    ensures
        settled_fields(fields) == fields,
    decreases fields,
{
    if fields.len() > 0 {
        assert(canonical(fields[fields.len() - 1].1));
        canonical_is_settled(fields.last().1);
        canonical_fields_settled(fields.drop_last());
        assert(settled_fields(fields) =~= fields);
    }
}

/// Settling makes values canonical.
pub proof fn settled_is_canonical(value: JsonView)
    ensures
        canonical(settled(value)),
    decreases value,
{
    match value {
        JsonView::Array(items) => {
            settled_items_canonical(items);
            assert(canonical(JsonView::Array(settled_items(items))));
        },
        JsonView::Object(fields) => {
            settled_fields_canonical(fields);
            collected_canonical(settled_fields(fields));
        },
        JsonView::Float(number) => {
            assert(canonical(number_view(number)));
        },
        _ => {
            assert(canonical(value));
        },
    }
}

proof fn settled_items_canonical(items: Seq<JsonView>)
    ensures
        forall|i: int|
            0 <= i < settled_items(items).len() ==> canonical(
                #[trigger] settled_items(items)[i],
            ),
    decreases items,
{
    if items.len() > 0 {
        let rest = settled_items(items.drop_last());
        let all = settled_items(items);
        settled_items_canonical(items.drop_last());
        settled_is_canonical(items.last());
        assert forall|i: int| 0 <= i < all.len() implies canonical(#[trigger] all[i]) by {
            if i < rest.len() {
                assert(all[i] == rest[i]);
            }
        }
    }
}

proof fn settled_fields_canonical(fields: Seq<(Seq<char>, JsonView)>)
    ensures
        forall|i: int|
            0 <= i < settled_fields(fields).len() ==> canonical(
                (#[trigger] settled_fields(fields)[i]).1,
            ),
    decreases fields,
{
    if fields.len() > 0 {
        let rest = settled_fields(fields.drop_last());
        let all = settled_fields(fields);
        settled_fields_canonical(fields.drop_last());
        settled_is_canonical(fields.last().1);
        assert forall|i: int| 0 <= i < all.len() implies canonical((#[trigger] all[i]).1) by {
            if i < rest.len() {
                assert(all[i] == rest[i]);
            }
        }
    }
}

/// Collecting canonical values makes a canonical object.
proof fn collected_canonical(fields: Seq<(Seq<char>, JsonView)>)
    requires
        forall|i: int| 0 <= i < fields.len() ==> canonical((#[trigger] fields[i]).1),
    ensures
        canonical(JsonView::Object(collected(fields))),
    decreases fields.len(),
{
    collected_is_ascending(fields);
    if fields.len() > 0 {
        let rest = collected(fields.drop_last());
        let (key, value) = fields.last();
        collected_canonical(fields.drop_last());
        assert(canonical(fields[fields.len() - 1].1));
        place_splits(keys(rest), key);
        let p = place(keys(rest), key) as int;
        let all = collected(fields);
        assert forall|i: int| 0 <= i < all.len() implies canonical((#[trigger] all[i]).1) by {
            if i != p {
                let from = if i < p || all.len() == rest.len() {
                    i
                } else {
                    i - 1
                };
                assert(all[i] == rest[from]);
            }
        }
    }
}

// ---------------------------------------------------------------------------------------------
// Values of `serde_json`

/// `serde_json`'s value.
#[verifier::external_type_specification]
#[verifier::external_body]
pub struct ExValue(serde_json::Value);

/// `serde_json`'s number.
#[verifier::external_type_specification]
#[verifier::external_body]
pub struct ExNumber(serde_json::Number);

/// What a `serde_json` value holds.
pub uninterp spec fn json_of(value: serde_json::Value) -> JsonView;

/// The integer that a `serde_json` number holds, where it holds one.
pub uninterp spec fn integer_of(number: serde_json::Number) -> Option<int>;

/// What a `serde_json` number stands for.
pub open spec fn number_view(number: serde_json::Number) -> JsonView {
    match integer_of(number) {
        Some(n) => JsonView::Integer(n),
        None => JsonView::Float(number),
    }
}

/// The outermost layer of a `serde_json` value.
pub enum JsonShape {
    Null,
    Bool(bool),
    Number(serde_json::Number),
    Text(String),
    Array(Vec<serde_json::Value>),
    Object(Vec<(String, serde_json::Value)>),
}

/// What values of `serde_json` hold.
pub open spec fn values_view(items: Seq<serde_json::Value>) -> Seq<JsonView> {
    Seq::new(items.len(), |i: int| json_of(items[i]))
}

/// What members of `serde_json` objects hold.
pub open spec fn members_view(fields: Seq<(String, serde_json::Value)>) -> Seq<
    (Seq<char>, JsonView),
> {
    Seq::new(fields.len(), |i: int| (fields[i].0@, json_of(fields[i].1)))
}

impl View for JsonShape {
    type V = JsonView;

    open spec fn view(&self) -> JsonView {
        match self {
            JsonShape::Null => JsonView::Null,
            JsonShape::Bool(b) => JsonView::Bool(*b),
            JsonShape::Number(n) => number_view(*n),
            JsonShape::Text(t) => JsonView::Text(t@),
            JsonShape::Array(items) => JsonView::Array(values_view(items@)),
            JsonShape::Object(fields) => JsonView::Object(members_view(fields@)),
        }
    }
}

/// Takes a `serde_json::Value` apart by its variant. The members of an object come out in
/// ascending order of their keys, as the crate's map holds them.
#[verifier::external_body]
fn open_value(value: serde_json::Value) -> (r: JsonShape)
    ensures
        json_of(value) == r@,
        r matches JsonShape::Object(fields) ==> ascending(key_texts(fields@)),
{
    match value {
        serde_json::Value::Null => JsonShape::Null,
        serde_json::Value::Bool(b) => JsonShape::Bool(b),
        serde_json::Value::Number(n) => JsonShape::Number(n),
        serde_json::Value::String(s) => JsonShape::Text(s),
        serde_json::Value::Array(items) => JsonShape::Array(items),
        serde_json::Value::Object(map) => JsonShape::Object(map.into_iter().collect()),
    }
}

/// Makes a `serde_json::Value` of its variant's parts. `serde_json::Map` collects members in
/// ascending order of their keys, and a later member replaces an earlier one with the same key.
#[verifier::external_body]
fn close_value(shape: JsonShape) -> (r: serde_json::Value)
    ensures
        json_of(r) == (match shape {
            JsonShape::Object(fields) => JsonView::Object(collected(members_view(fields@))),
            _ => shape@,
        }),
{
    match shape {
        JsonShape::Null => serde_json::Value::Null,
        JsonShape::Bool(b) => serde_json::Value::Bool(b),
        JsonShape::Number(n) => serde_json::Value::Number(n),
        JsonShape::Text(s) => serde_json::Value::String(s),
        JsonShape::Array(items) => serde_json::Value::Array(items),
        JsonShape::Object(fields) => serde_json::Value::Object(fields.into_iter().collect()),
    }
}

/// `serde_json::Number::as_u64`: the integer that the number holds, unless it is negative.
#[verifier::external_body]
fn number_as_u64(number: &serde_json::Number) -> (r: Option<u64>)
    ensures
        match r {
            Some(n) => integer_of(*number) == Some(n as int),
            None => integer_of(*number) matches Some(n) ==> n < 0,
        },
{
    number.as_u64()
}

/// `serde_json::Number::as_i64`: the integer that the number holds, unless it exceeds 63 bits.
#[verifier::external_body]
fn number_as_i64(number: &serde_json::Number) -> (r: Option<i64>)
    ensures
        match r {
            Some(n) => integer_of(*number) == Some(n as int),
            None => integer_of(*number) matches Some(n) ==> n > i64::MAX,
        },
{
    number.as_i64()
}

/// `serde_json::Number::from` on an unsigned integer: the number holds that integer.
#[verifier::external_body]
fn number_from_u64(n: u64) -> (r: serde_json::Number)
    ensures
        integer_of(r) == Some(n as int),
{
    serde_json::Number::from(n)
}

/// `serde_json::Number::from` on a signed integer: the number holds that integer.
#[verifier::external_body]
fn number_from_i64(n: i64) -> (r: serde_json::Number)
    ensures
        integer_of(r) == Some(n as int),
{
    serde_json::Number::from(n)
}

/// `serde_json::Number::clone`: the clone is the same number.
#[verifier::external_body]
fn copy_number(number: &serde_json::Number) -> (r: serde_json::Number)
    ensures
        r == *number,
{
    number.clone()
}

/// The text that `serde_json::from_str` reads, as a value or as the text of its error.
pub uninterp spec fn parsed_json(text: Seq<char>) -> Result<JsonView, Seq<char>>;

/// The text that `serde_json::Value`'s `Display` writes: JSON without white space.
pub uninterp spec fn compact_json(value: JsonView) -> Seq<char>;

/// The text that `serde_json::to_string_pretty` writes: JSON with line breaks and indents.
pub uninterp spec fn pretty_json(value: JsonView) -> Seq<char>;

/// `serde_json::from_str`: reads one JSON value. An error comes as its text.
#[verifier::external_body]
fn parse_value(text: &str) -> (r: Result<serde_json::Value, String>)
    ensures
        match r {
            Ok(value) => parsed_json(text@) == Ok::<JsonView, Seq<char>>(json_of(value)),
            Err(error) => parsed_json(text@) == Err::<JsonView, Seq<char>>(error@),
        },
{
    serde_json::from_str(text).map_err(|error| error.to_string())
}

/// `serde_json::Value`'s `Display`: writes compact JSON.
#[verifier::external_body]
pub(crate) fn compact_value(value: &serde_json::Value) -> (r: String)
    ensures
        r@ == compact_json(json_of(*value)),
{
    value.to_string()
}

/// `serde_json::to_string_pretty` on a value: writes indented JSON. Writing a value to memory does
/// not fail.
#[verifier::external_body]
fn pretty_value(value: &serde_json::Value) -> (r: String)
    ensures
        r@ == pretty_json(json_of(*value)),
{
    serde_json::to_string_pretty(value).unwrap_or_default()
}

/// Compact JSON with the members of every object in the order in which they stand.
pub open spec fn ordered_json(value: JsonView) -> Seq<char>
    decreases value,
{
    match value {
        JsonView::Array(items) => "["@ + ordered_items(items) + "]"@,
        JsonView::Object(fields) => "{"@ + ordered_fields(fields) + "}"@,
        _ => compact_json(settled(value)),
    }
}

/// The items of an array in compact JSON, with commas between them.
pub open spec fn ordered_items(items: Seq<JsonView>) -> Seq<char>
    decreases items,
{
    if items.len() == 0 {
        Seq::empty()
    } else {
        ordered_items(items.drop_last()) + (if items.len() > 1 {
            ","@
        } else {
            Seq::empty()
        }) + ordered_json(items.last())
    }
}

/// The members of an object in compact JSON, with commas between them.
pub open spec fn ordered_fields(fields: Seq<(Seq<char>, JsonView)>) -> Seq<char>
    decreases fields,
{
    if fields.len() == 0 {
        Seq::empty()
    } else {
        ordered_fields(fields.drop_last()) + (if fields.len() > 1 {
            ","@
        } else {
            Seq::empty()
        }) + compact_json(JsonView::Text(fields.last().0)) + ":"@ + ordered_json(fields.last().1)
    }
}

// ---------------------------------------------------------------------------------------------
// Operations

impl JsonNumber {
    /// Classifies a `serde_json` number.
    fn from_number(number: serde_json::Number) -> (r: JsonNumber)
        ensures
            r@ == number_view(number),
    {
        match number_as_u64(&number) {
            Some(n) => JsonNumber::Unsigned(n),
            None => match number_as_i64(&number) {
                Some(n) => JsonNumber::Signed(n),
                None => JsonNumber::Float(number),
            },
        }
    }

    /// Makes a `serde_json` number.
    fn into_number(self) -> (r: serde_json::Number)
        ensures
            number_view(r) == settled(self@),
    {
        match self {
            JsonNumber::Unsigned(n) => number_from_u64(n),
            JsonNumber::Signed(n) => number_from_i64(n),
            JsonNumber::Float(number) => number,
        }
    }

    /// Copies a number.
    pub fn copy(&self) -> (r: JsonNumber)
        ensures
            r@ == self@,
    {
        match self {
            JsonNumber::Unsigned(n) => JsonNumber::Unsigned(*n),
            JsonNumber::Signed(n) => JsonNumber::Signed(*n),
            JsonNumber::Float(number) => JsonNumber::Float(copy_number(number)),
        }
    }
}

impl Json {
    /// Copies a value.
    pub fn copy(&self) -> (r: Json)
        ensures
            r@ == self@,
        decreases self,
    {
        match self {
            Json::Null => Json::Null,
            Json::Bool(b) => Json::Bool(*b),
            Json::Number(n) => Json::Number(n.copy()),
            Json::Text(t) => Json::Text(t.clone()),
            Json::Array(items) => {
                let mut out: Vec<Json> = Vec::new();
                let mut i: usize = 0;
                while i < items.len()
                    invariant
                        i <= items.len(),
                        self matches Json::Array(own) && own == items,
                        out.len() == i,
                        forall|k: int| 0 <= k < i ==> (#[trigger] out@[k])@ == items@[k]@,
                    decreases items.len() - i,
                {
                    assert(decreases_to!(self => items@[i as int]));
                    out.push(items[i].copy());
                    i += 1;
                }
                proof {
                    json_views_are(out@);
                    json_views_are(items@);
                    assert(json_views(out@) =~= json_views(items@));
                }
                Json::Array(out)
            },
            Json::Object(fields) => {
                let mut out: Vec<(String, Json)> = Vec::new();
                let mut i: usize = 0;
                while i < fields.len()
                    invariant
                        i <= fields.len(),
                        self matches Json::Object(own) && own == fields,
                        out.len() == i,
                        forall|k: int|
                            0 <= k < i ==> (#[trigger] out@[k]).0@ == fields@[k].0@ && out@[k].1@
                                == fields@[k].1@,
                    decreases fields.len() - i,
                {
                    assert(decreases_to!(self => fields@[i as int].1));
                    out.push((fields[i].0.clone(), fields[i].1.copy()));
                    i += 1;
                }
                proof {
                    field_views_are(out@);
                    field_views_are(fields@);
                    assert(field_views(out@) =~= field_views(fields@));
                }
                Json::Object(out)
            },
        }
    }

    /// The member of an object under a key.
    pub fn get(&self, key: &str) -> (r: Option<&Json>)
        ensures
            match r {
                Some(value) => self@.get(key@) == Some(value@) && decreases_to!(self => value),
                None => self@.get(key@) is None,
            },
    {
        match self {
            Json::Object(fields) => {
                proof {
                    field_views_are(fields@);
                }
                match find_key(fields, key) {
                    Some(i) => {
                        proof {
                            assert forall|k: int| 0 <= k < i implies (#[trigger] field_views(
                                fields@,
                            )[k]).0 != key@ by {
                                assert(fields@[k].0@ != key@);
                            }
                            lookup_at(field_views(fields@), key@, i as int);
                            assert(decreases_to!(self => fields@[i as int].1));
                        }
                        Some(&fields[i].1)
                    },
                    None => {
                        proof {
                            lookup_absent(field_views(fields@), key@);
                            assert forall|k: int| 0 <= k < fields@.len() implies (
                            #[trigger] field_views(fields@)[k]).0 != key@ by {
                                assert(fields@[k].0@ != key@);
                            }
                        }
                        None
                    },
                }
            },
            _ => None,
        }
    }

    /// The text of a string.
    pub fn as_str(&self) -> (r: Option<&str>)
        ensures
            match r {
                Some(text) => self@.text() == Some(text@),
                None => self@.text() is None,
            },
    {
        match self {
            Json::Text(text) => Some(text.as_str()),
            _ => None,
        }
    }

    /// The text of the string under a key.
    pub fn get_str(&self, key: &str) -> (r: Option<&str>)
        ensures
            match r {
                Some(text) => self@.get_text(key@) == Some(text@),
                None => self@.get_text(key@) is None,
            },
    {
        match self.get(key) {
            Some(value) => value.as_str(),
            None => None,
        }
    }

    /// The texts in the array under a key.
    pub fn get_texts(&self, key: &str) -> (r: Vec<String>)
        ensures
            texts(r@) == texts_under(self@, key@),
    {
        let mut out: Vec<String> = Vec::new();
        match self.get(key) {
            Some(Json::Array(items)) => {
                let mut i: usize = 0;
                proof {
                    json_views_are(items@);
                    assert(json_views(items@).take(0) =~= Seq::<JsonView>::empty());
                    assert(texts(out@) =~= Seq::<Seq<char>>::empty());
                }
                while i < items.len()
                    invariant
                        i <= items.len(),
                        json_views(items@).len() == items.len(),
                        forall|k: int|
                            0 <= k < items.len() ==> #[trigger] json_views(items@)[k] == items@[k]@,
                        texts(out@) == texts_among(json_views(items@).take(i as int)),
                    decreases items.len() - i,
                {
                    proof {
                        let next = json_views(items@).take(i + 1);
                        assert(next.drop_last() =~= json_views(items@).take(i as int));
                        assert(next.last() == items@[i as int]@);
                    }
                    let ghost before = texts(out@);
                    match &items[i] {
                        Json::Text(text) => {
                            out.push(text.clone());
                            assert(texts(out@) =~= before.push(text@));
                        },
                        _ => {},
                    }
                    i += 1;
                }
                assert(json_views(items@).take(items.len() as int) =~= json_views(items@));
            },
            _ => {
                assert(texts(out@) =~= Seq::<Seq<char>>::empty());
            },
        }
        out
    }

    /// Puts a value under a key of an object; on any other value nothing happens.
    pub fn insert(&mut self, key: String, value: Json)
        ensures
            final(self)@ == (match old(self)@ {
                JsonView::Object(fields) => JsonView::Object(inserted(fields, key@, value@)),
                other => other,
            }),
    {
        match self {
            Json::Object(fields) => {
                let ghost before = fields@;
                let ghost was = field_views(before);
                proof {
                    field_views_are(before);
                }
                let (i, found) = find_place(fields, key.as_str());
                if found {
                    fields.set(i, (key, value));
                } else {
                    fields.insert(i, (key, value));
                }
                proof {
                    field_views_are(fields@);
                    assert(keys(was) == key_texts(before));
                    assert(field_views(fields@) =~= inserted(was, key@, value@));
                }
            },
            _ => {},
        }
    }

    /// Reads a `serde_json` value.
    pub fn from_value(value: serde_json::Value) -> (r: Json)
        ensures
            r@ == json_of(value),
            canonical(r@),
        decreases json_of(value),
    {
        let ghost whole = json_of(value);
        match open_value(value) {
            JsonShape::Null => Json::Null,
            JsonShape::Bool(b) => Json::Bool(b),
            JsonShape::Number(n) => Json::Number(JsonNumber::from_number(n)),
            JsonShape::Text(t) => Json::Text(t),
            JsonShape::Array(values) => {
                let mut values = values;
                let ghost all = values@;
                let mut out: Vec<Json> = Vec::new();
                while values.len() > 0
                    invariant
                        whole == JsonView::Array(values_view(all)),
                        whole == json_of(value),
                        values.len() + out.len() == all.len(),
                        values@ == all.skip(out.len() as int),
                        forall|k: int|
                            0 <= k < out.len() ==> (#[trigger] out@[k])@ == json_of(all[k])
                                && canonical(out@[k]@),
                    decreases values.len(),
                {
                    let ghost n = out.len() as int;
                    let next = values.remove(0);
                    proof {
                        assert(next == all[n]);
                        assert(values_view(all)[n] == json_of(next));
                        assert(decreases_to!(whole => whole->Array_0));
                        assert(decreases_to!(values_view(all) => values_view(all)[n]));
                    }
                    out.push(Json::from_value(next));
                    assert(values@ =~= all.skip(n + 1));
                }
                proof {
                    json_views_are(out@);
                    assert(json_views(out@) =~= values_view(all));
                    assert forall|k: int| 0 <= k < json_views(out@).len() implies canonical(
                        #[trigger] json_views(out@)[k],
                    ) by {
                        assert(json_views(out@)[k] == out@[k]@);
                    }
                }
                Json::Array(out)
            },
            JsonShape::Object(members) => {
                let mut members = members;
                let ghost all = members@;
                let mut out: Vec<(String, Json)> = Vec::new();
                while members.len() > 0
                    invariant
                        whole == JsonView::Object(members_view(all)),
                        whole == json_of(value),
                        members.len() + out.len() == all.len(),
                        members@ == all.skip(out.len() as int),
                        forall|k: int|
                            0 <= k < out.len() ==> (#[trigger] out@[k]).0@ == all[k].0@ && out@[k].1@
                                == json_of(all[k].1) && canonical(out@[k].1@),
                    decreases members.len(),
                {
                    let ghost n = out.len() as int;
                    let (key, next) = members.remove(0);
                    proof {
                        assert(next == all[n].1);
                        assert(members_view(all)[n].1 == json_of(next));
                        assert(decreases_to!(whole => whole->Object_0));
                        assert(decreases_to!(members_view(all) => members_view(all)[n]));
                        assert(decreases_to!(members_view(all)[n] => members_view(all)[n].1));
                    }
                    out.push((key, Json::from_value(next)));
                    assert(members@ =~= all.skip(n + 1));
                }
                proof {
                    field_views_are(out@);
                    assert(field_views(out@) =~= members_view(all));
                    assert(keys(field_views(out@)) =~= key_texts(all));
                    assert forall|k: int| 0 <= k < field_views(out@).len() implies canonical(
                        (#[trigger] field_views(out@)[k]).1,
                    ) by {
                        assert(field_views(out@)[k].1 == out@[k].1@);
                    }
                }
                Json::Object(out)
            },
        }
    }

    /// Makes a `serde_json` value.
    pub fn to_value(&self) -> (r: serde_json::Value)
        ensures
            json_of(r) == settled(self@),
        decreases self,
    {
        match self {
            Json::Null => close_value(JsonShape::Null),
            Json::Bool(b) => close_value(JsonShape::Bool(*b)),
            Json::Number(n) => close_value(JsonShape::Number(n.copy().into_number())),
            Json::Text(t) => close_value(JsonShape::Text(t.clone())),
            Json::Array(items) => {
                let mut out: Vec<serde_json::Value> = Vec::new();
                let mut i: usize = 0;
                assert(items@.take(0) =~= Seq::<Json>::empty());
                assert(values_view(out@) =~= Seq::<JsonView>::empty());
                while i < items.len()
                    invariant
                        i <= items.len(),
                        self matches Json::Array(own) && own == items,
                        values_view(out@) == settled_items(json_views(items@.take(i as int))),
                    decreases items.len() - i,
                {
                    proof {
                        let next = items@.take(i + 1);
                        assert(next.drop_last() =~= items@.take(i as int));
                        assert(json_views(next).drop_last() =~= json_views(items@.take(i as int)));
                        assert(decreases_to!(self => items@[i as int]));
                    }
                    let ghost before = values_view(out@);
                    out.push(items[i].to_value());
                    assert(values_view(out@) =~= before.push(settled(items@[i as int]@)));
                    i += 1;
                }
                assert(items@.take(items.len() as int) =~= items@);
                close_value(JsonShape::Array(out))
            },
            Json::Object(fields) => {
                let mut out: Vec<(String, serde_json::Value)> = Vec::new();
                let mut i: usize = 0;
                assert(fields@.take(0) =~= Seq::<(String, Json)>::empty());
                assert(members_view(out@) =~= Seq::<(Seq<char>, JsonView)>::empty());
                while i < fields.len()
                    invariant
                        i <= fields.len(),
                        self matches Json::Object(own) && own == fields,
                        members_view(out@) == settled_fields(field_views(fields@.take(i as int))),
                    decreases fields.len() - i,
                {
                    proof {
                        let next = fields@.take(i + 1);
                        assert(next.drop_last() =~= fields@.take(i as int));
                        assert(field_views(next).drop_last() =~= field_views(
                            fields@.take(i as int),
                        ));
                        assert(decreases_to!(self => fields@[i as int].1));
                    }
                    let ghost before = members_view(out@);
                    out.push((fields[i].0.clone(), fields[i].1.to_value()));
                    assert(members_view(out@) =~= before.push(
                        (fields@[i as int].0@, settled(fields@[i as int].1@)),
                    ));
                    i += 1;
                }
                assert(fields@.take(fields.len() as int) =~= fields@);
                close_value(JsonShape::Object(out))
            },
        }
    }

    /// Reads one JSON value from text.
    pub fn parse(text: &str) -> (r: Result<Json, String>)
        ensures
            match r {
                Ok(value) => parsed_json(text@) == Ok::<JsonView, Seq<char>>(value@) && canonical(
                    value@,
                ),
                Err(error) => parsed_json(text@) == Err::<JsonView, Seq<char>>(error@),
            },
    {
        match parse_value(text) {
            Ok(value) => Ok(Json::from_value(value)),
            Err(error) => Err(error),
        }
    }

    /// Writes compact JSON.
    pub fn to_text(&self) -> (r: String)
        ensures
            r@ == compact_json(settled(self@)),
    {
        compact_value(&self.to_value())
    }

    /// Writes compact JSON behind a text, with the members of every object in their own order.
    fn write_ordered(&self, out: &mut String)
        ensures
            final(out)@ == old(out)@ + ordered_json(self@),
        decreases self,
    {
        let ghost start = out@;
        match self {
            Json::Array(items) => {
                out.append("[");
                let ghost opened = out@;
                let mut i: usize = 0;
                assert(items@.take(0) =~= Seq::<Json>::empty());
                assert(out@ =~= opened + ordered_items(json_views(items@.take(0))));
                while i < items.len()
                    invariant
                        i <= items.len(),
                        self matches Json::Array(own) && own == items,
                        out@ == opened + ordered_items(json_views(items@.take(i as int))),
                    decreases items.len() - i,
                {
                    let ghost next = items@.take(i + 1);
                    proof {
                        json_views_are(next);
                        assert(next.drop_last() =~= items@.take(i as int));
                        assert(json_views(next).drop_last() =~= json_views(items@.take(i as int)));
                        assert(decreases_to!(self => items@[i as int]));
                    }
                    if i > 0 {
                        out.append(",");
                    }
                    items[i].write_ordered(out);
                    assert(out@ =~= opened + ordered_items(json_views(next)));
                    i += 1;
                }
                assert(items@.take(items.len() as int) =~= items@);
                out.append("]");
            },
            Json::Object(fields) => {
                out.append("{");
                let ghost opened = out@;
                let mut i: usize = 0;
                assert(fields@.take(0) =~= Seq::<(String, Json)>::empty());
                assert(out@ =~= opened + ordered_fields(field_views(fields@.take(0))));
                while i < fields.len()
                    invariant
                        i <= fields.len(),
                        self matches Json::Object(own) && own == fields,
                        out@ == opened + ordered_fields(field_views(fields@.take(i as int))),
                    decreases fields.len() - i,
                {
                    let ghost next = fields@.take(i + 1);
                    proof {
                        field_views_are(next);
                        assert(next.drop_last() =~= fields@.take(i as int));
                        assert(field_views(next).drop_last() =~= field_views(
                            fields@.take(i as int),
                        ));
                        assert(decreases_to!(self => fields@[i as int].1));
                    }
                    if i > 0 {
                        out.append(",");
                    }
                    let key = close_value(JsonShape::Text(fields[i].0.clone()));
                    out.append(compact_value(&key).as_str());
                    out.append(":");
                    fields[i].1.write_ordered(out);
                    assert(out@ =~= opened + ordered_fields(field_views(next)));
                    i += 1;
                }
                assert(fields@.take(fields.len() as int) =~= fields@);
                out.append("}");
            },
            _ => {
                out.append(self.to_text().as_str());
            },
        }
        assert(out@ =~= start + ordered_json(self@));
    }

    /// Writes compact JSON with the members of every object in their own order.
    pub fn to_ordered_text(&self) -> (r: String)
        ensures
            r@ == ordered_json(self@),
    {
        let mut out = String::new();
        self.write_ordered(&mut out);
        assert(out@ =~= ordered_json(self@));
        out
    }

    /// Writes indented JSON.
    pub fn to_pretty_text(&self) -> (r: String)
        ensures
            r@ == pretty_json(settled(self@)),
    {
        pretty_value(&self.to_value())
    }
}

/// The items of an array are written in their order, with commas between them and nothing else.
pub proof fn items_are_written_in_order(items: Seq<JsonView>)
    ensures
        ordered_json(JsonView::Array(items)) == "["@ + crate::text::joined(
            Seq::new(items.len(), |i: int| ordered_json(items[i])),
            ","@,
        ) + "]"@,
{
    items_are_joined(items);
}

proof fn items_are_joined(items: Seq<JsonView>)
    ensures
        ordered_items(items) == crate::text::joined(
            Seq::new(items.len(), |i: int| ordered_json(items[i])),
            ","@,
        ),
    decreases items.len(),
{
    let parts = Seq::new(items.len(), |i: int| ordered_json(items[i]));
    if items.len() > 0 {
        let rest = items.drop_last();
        items_are_joined(rest);
        assert(parts.drop_last() =~= Seq::new(rest.len(), |i: int| ordered_json(rest[i])));
        if items.len() == 1 {
            assert(ordered_items(rest) =~= Seq::<char>::empty());
            assert(ordered_items(items) =~= ordered_json(items[0]));
        }
    }
}

/// The members of an object are written in the order in which they stand, each with its name and
/// its value, with commas between them and nothing else.
pub proof fn members_are_written_in_order(fields: Seq<(Seq<char>, JsonView)>)
    ensures
        ordered_json(JsonView::Object(fields)) == "{"@ + crate::text::joined(
            Seq::new(
                fields.len(),
                |i: int|
                    compact_json(JsonView::Text(fields[i].0)) + ":"@ + ordered_json(fields[i].1),
            ),
            ","@,
        ) + "}"@,
{
    members_are_joined(fields);
}

proof fn members_are_joined(fields: Seq<(Seq<char>, JsonView)>)
    ensures
        ordered_fields(fields) == crate::text::joined(
            Seq::new(
                fields.len(),
                |i: int|
                    compact_json(JsonView::Text(fields[i].0)) + ":"@ + ordered_json(fields[i].1),
            ),
            ","@,
        ),
    decreases fields.len(),
{
    let parts = Seq::new(
        fields.len(),
        |i: int| compact_json(JsonView::Text(fields[i].0)) + ":"@ + ordered_json(fields[i].1),
    );
    if fields.len() > 0 {
        let rest = fields.drop_last();
        members_are_joined(rest);
        assert(parts.drop_last() =~= Seq::new(
            rest.len(),
            |i: int| compact_json(JsonView::Text(rest[i].0)) + ":"@ + ordered_json(rest[i].1),
        ));
        if fields.len() == 1 {
            assert(ordered_fields(rest) =~= Seq::<char>::empty());
            assert(ordered_fields(fields) =~= parts[0]);
        } else {
            assert(ordered_fields(fields) =~= ordered_fields(rest) + ","@ + parts.last());
        }
    }
}

} // verus!
