//! RFC 3339 timestamps of `jiff`.

use vstd::prelude::*;

use crate::rfc3339::{timestamp_error, timestamp_error_text};

verus! {

/// `jiff`'s timestamp.
#[verifier::external_type_specification]
#[verifier::external_body]
pub struct ExTimestamp(jiff::Timestamp);

/// The timestamp that `jiff` reads from a text, or the text of its error.
pub uninterp spec fn jiff_parsed(text: Seq<char>) -> Result<jiff::Timestamp, Seq<char>>;

/// The text that `jiff` writes for a timestamp.
pub uninterp spec fn jiff_text(timestamp: jiff::Timestamp) -> Seq<char>;

/// `jiff::Timestamp::from_str`: reads a timestamp. An error comes as its text.
#[verifier::external_body]
fn read_timestamp(text: &str) -> (r: Result<jiff::Timestamp, String>)
    ensures
        match r {
            Ok(timestamp) => jiff_parsed(text@) == Ok::<jiff::Timestamp, Seq<char>>(timestamp),
            Err(error) => jiff_parsed(text@) == Err::<jiff::Timestamp, Seq<char>>(error@),
        },
{
    text.parse::<jiff::Timestamp>().map_err(|error| error.to_string())
}

/// `jiff::Timestamp`'s `Display`: writes a timestamp without loss, so that it is read back as the
/// same.
#[verifier::external_body]
fn write_timestamp(timestamp: &jiff::Timestamp) -> (r: String)
    ensures
        r@ == jiff_text(*timestamp),
        jiff_parsed(r@) is Ok,
        jiff_parsed(r@)->Ok_0 == *timestamp,
{
    timestamp.to_string()
}

/// `jiff::Timestamp::now` with `strftime`: the current time. The result depends on the clock:
/// nothing is stated of it.
#[verifier::external_body]
fn now_formatted() -> (r: String) {
    jiff::Timestamp::now().strftime("%Y-%m-%dT%H:%M:%S%:z").to_string()
}

/// RFC 3339 timestamp.
#[derive(Clone, Copy, Debug, PartialEq, Eq)]
pub struct Rfc3339(pub jiff::Timestamp);

impl Rfc3339 {
    /// Reads a timestamp.
    pub fn parse(text: &str) -> (r: Result<Rfc3339, String>)
        ensures
            match r {
                Ok(timestamp) => jiff_parsed(text@) == Ok::<jiff::Timestamp, Seq<char>>(
                    timestamp.0,
                ),
                Err(message) => jiff_parsed(text@) matches Err(reason) && exists|now: Seq<char>|
                    message@ == #[trigger] timestamp_error_text(text@, reason, now),
            },
    {
        match read_timestamp(text) {
            Ok(timestamp) => Ok(Rfc3339(timestamp)),
            Err(reason) => {
                let now = now_formatted();
                let message = timestamp_error(text, reason.as_str(), now.as_str());
                assert(message@ == timestamp_error_text(text@, jiff_parsed(text@)->Err_0, now@));
                Err(message)
            },
        }
    }

    /// Writes the timestamp, which is then read back as the same.
    pub fn to_string(&self) -> (r: String)
        ensures
            r@ == jiff_text(self.0),
            jiff_parsed(r@) == Ok::<jiff::Timestamp, Seq<char>>(self.0),
    {
        write_timestamp(&self.0)
    }
}

} // verus!
