//! RFC 3339 timestamps for tool inputs.
//!
//! There is one type for each library of times: [`with_jiff::Rfc3339`] and
//! [`with_chrono::Rfc3339`]. When parsing fails, the error holds the current time as an example.

use vstd::prelude::*;
use vstd::string::StringExecFns;

use crate::json::{field_views, field_views_are, Json, JsonView};

pub mod with_chrono;
pub mod with_jiff;

verus! {

/// What is said of a text that is not a timestamp.
pub open spec fn timestamp_error_text(
    text: Seq<char>,
    reason: Seq<char>,
    now: Seq<char>,
) -> Seq<char> {
    "invalid RFC 3339 timestamp '"@ + text + "': "@ + reason + "\nExample: current time is "@ + now
}

/// States that a text is not a timestamp, with the current time as an example.
pub fn timestamp_error(text: &str, reason: &str, now: &str) -> (r: String)
    ensures
        r@ == timestamp_error_text(text@, reason@, now@),
{
    let mut out = "invalid RFC 3339 timestamp '".to_owned();
    out.append(text);
    out.append("': ");
    out.append(reason);
    out.append("\nExample: current time is ");
    out.append(now);
    out
}

/// The schema of a timestamp: a string in the format of a date and time.
pub open spec fn timestamp_schema_view() -> JsonView {
    JsonView::Object(
        seq![
            ("format"@, JsonView::Text("date-time"@)),
            ("type"@, JsonView::Text("string"@)),
        ],
    )
}

/// Makes the schema of a timestamp.
pub fn timestamp_schema() -> (r: Json)
    ensures
        r@ == timestamp_schema_view(),
{
    let mut fields: Vec<(String, Json)> = Vec::new();
    let format = Json::Text("date-time".to_owned());
    assert(format@ == JsonView::Text("date-time"@));
    let kind = Json::Text("string".to_owned());
    assert(kind@ == JsonView::Text("string"@));
    fields.push(("format".to_owned(), format));
    fields.push(("type".to_owned(), kind));
    proof {
        field_views_are(fields@);
        assert(field_views(fields@)[0] == (fields@[0].0@, fields@[0].1@));
        assert(field_views(fields@)[1] == (fields@[1].0@, fields@[1].1@));
        assert(field_views(fields@) =~= timestamp_schema_view()->Object_0);
    }
    Json::Object(fields)
}

} // verus!
