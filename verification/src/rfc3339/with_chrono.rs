//! RFC 3339 timestamps of `chrono`.

use vstd::prelude::*;

use crate::rfc3339::{timestamp_error, timestamp_error_text};

verus! {

/// RFC 3339 timestamp: an instant, and the offset from UTC in which it was given.
#[derive(Clone, Copy, Debug, Eq)]
pub struct Rfc3339 {
    /// Seconds since the Unix epoch.
    seconds: i64,
    /// Nanoseconds within the second; a leap second has more than a second's worth.
    nanos: u32,
    /// Seconds east of UTC.
    offset: i32,
}

/// The seconds, nanoseconds and offset that `chrono` reads from a text, or the text of its error.
pub uninterp spec fn chrono_parsed(text: Seq<char>) -> Result<(i64, u32, i32), Seq<char>>;

/// The text that `chrono` writes for seconds, nanoseconds and an offset.
pub uninterp spec fn chrono_text(seconds: i64, nanos: u32, offset: i32) -> Seq<char>;

/// Whether RFC 3339 has a text for a time: the offset is less than a day in whole minutes, the year
/// there is one of four digits, and only the last second of a minute is a leap second.
pub open spec fn has_text(seconds: i64, nanos: u32, offset: i32) -> bool {
    &&& -86_400 < offset < 86_400
    &&& offset as int % 60 == 0
    &&& -62_167_219_200 <= seconds + offset <= 253_402_300_799
    &&& nanos < 1_000_000_000 || (nanos < 2_000_000_000 && seconds as int % 60 == 59)
}

/// `chrono::DateTime::parse_from_rfc3339`: reads a timestamp, which RFC 3339 has a text for. An
/// error comes as its text.
#[verifier::external_body]
fn read_timestamp(text: &str) -> (r: Result<(i64, u32, i32), String>)
    ensures
        match r {
            Ok(parts) => chrono_parsed(text@) == Ok::<(i64, u32, i32), Seq<char>>(parts)
                && has_text(parts.0, parts.1, parts.2),
            Err(error) => chrono_parsed(text@) == Err::<(i64, u32, i32), Seq<char>>(error@),
        },
{
    chrono::DateTime::parse_from_rfc3339(text)
        .map(|t| (t.timestamp(), t.timestamp_subsec_nanos(), t.offset().local_minus_utc()))
        .map_err(|error| error.to_string())
}

/// `chrono::DateTime::to_rfc3339_opts` with `SecondsFormat::AutoSi` and `Z` for UTC, on the instant
/// and offset that the parts stand for. The text is read back as the same parts. Times that RFC 3339
/// has no text for are left out: some are not read back, and on some `chrono` panics.
#[verifier::external_body]
fn write_timestamp(seconds: i64, nanos: u32, offset: i32) -> (r: String)
    requires
        has_text(seconds, nanos, offset),
    ensures
        r@ == chrono_text(seconds, nanos, offset),
        chrono_parsed(r@) is Ok,
        chrono_parsed(r@)->Ok_0 == (seconds, nanos, offset),
{
    let instant = chrono::DateTime::from_timestamp(seconds, nanos).unwrap_or_default();
    chrono::FixedOffset::east_opt(offset)
        .map(|zone| instant.with_timezone(&zone))
        .map(|time| time.to_rfc3339_opts(chrono::SecondsFormat::AutoSi, true))
        .unwrap_or_default()
}

/// `chrono::Utc::now` with `format`: the current time. The result depends on the clock: nothing is
/// stated of it.
#[verifier::external_body]
fn now_formatted() -> (r: String) {
    chrono::Utc::now().format("%Y-%m-%dT%H:%M:%S%:z").to_string()
}

impl Rfc3339 {
    /// The seconds, nanoseconds and offset.
    pub closed spec fn parts(&self) -> (i64, u32, i32) {
        (self.seconds, self.nanos, self.offset)
    }

    /// The timestamp can be written.
    #[verifier::type_invariant]
    spec fn writable(&self) -> bool {
        has_text(self.seconds, self.nanos, self.offset)
    }

    /// Reads a timestamp.
    pub fn parse(text: &str) -> (r: Result<Rfc3339, String>)
        ensures
            match r {
                Ok(timestamp) => chrono_parsed(text@) == Ok::<(i64, u32, i32), Seq<char>>(
                    timestamp.parts(),
                ),
                Err(message) => chrono_parsed(text@) matches Err(reason) && exists|now: Seq<char>|
                    message@ == #[trigger] timestamp_error_text(text@, reason, now),
            },
    {
        match read_timestamp(text) {
            Ok((seconds, nanos, offset)) => Ok(Rfc3339 { seconds, nanos, offset }),
            Err(reason) => {
                let now = now_formatted();
                let message = timestamp_error(text, reason.as_str(), now.as_str());
                assert(message@ == timestamp_error_text(text@, chrono_parsed(text@)->Err_0, now@));
                Err(message)
            },
        }
    }

    /// Returns the seconds since the Unix epoch.
    pub fn timestamp(&self) -> (r: i64)
        ensures
            r == self.parts().0,
    {
        self.seconds
    }

    /// Returns the nanoseconds within the second.
    pub fn timestamp_subsec_nanos(&self) -> (r: u32)
        ensures
            r == self.parts().1,
    {
        self.nanos
    }

    /// Returns the offset from UTC, in seconds to the east.
    pub fn offset(&self) -> (r: i32)
        ensures
            r == self.parts().2,
    {
        self.offset
    }

    /// Writes the timestamp, which is then read back as the same.
    pub fn to_string(&self) -> (r: String)
        ensures
            r@ == chrono_text(self.parts().0, self.parts().1, self.parts().2),
            chrono_parsed(r@) == Ok::<(i64, u32, i32), Seq<char>>(self.parts()),
    {
        proof {
            use_type_invariant(self);
        }
        write_timestamp(self.seconds, self.nanos, self.offset)
    }
}

/// Two timestamps are equal when they are the same instant, whatever their offsets.
impl PartialEq for Rfc3339 {
    fn eq(&self, other: &Rfc3339) -> (r: bool) {
        self.seconds == other.seconds && self.nanos == other.nanos
    }
}

impl vstd::std_specs::cmp::PartialEqSpecImpl for Rfc3339 {
    open spec fn obeys_eq_spec() -> bool {
        true
    }

    open spec fn eq_spec(&self, other: &Rfc3339) -> bool {
        self.parts().0 == other.parts().0 && self.parts().1 == other.parts().1
    }
}

} // verus!
