//! MCP session identifiers.

use vstd::prelude::*;
use vstd::string::StringExecFns;

use crate::text::{char_vec, push_char};

verus! {

/// Header name for the MCP session ID.
pub const HTTP_SESSION_ID_HEADER: &'static str = "mcp-session-id";

/// Unique identifier for an MCP session.
///
/// Wraps a 128-bit value, written as lowercase hex.
#[derive(Clone, Copy, Debug, PartialEq, Eq, Hash, Structural)]
pub struct McpSessionId(u128);

/// Error returned when parsing an [`McpSessionId`] fails.
#[derive(Clone, Copy, Debug)]
pub struct ParseSessionIdError;

// ---------------------------------------------------------------------------------------------
// Hexadecimal

/// The lowercase hexadecimal digit of a number below sixteen.
pub open spec fn hex_char(digit: int) -> char {
    if digit < 10 {
        (48 + digit) as char
    } else {
        (87 + digit) as char
    }
}

/// The number that a hexadecimal digit stands for.
pub open spec fn hex_digit(ch: char) -> Option<int> {
    let code = ch as int;
    if 48 <= code <= 57 {
        Some(code - 48)
    } else if 97 <= code <= 102 {
        Some(code - 87)
    } else if 65 <= code <= 70 {
        Some(code - 55)
    } else {
        None
    }
}

/// The lowest `width` hexadecimal digits of a number.
pub open spec fn hex_text(n: nat, width: nat) -> Seq<char>
    decreases width,
{
    if width == 0 {
        Seq::empty()
    } else {
        hex_text(n / 16, (width - 1) as nat).push(hex_char((n % 16) as int))
    }
}

/// The number that hexadecimal digits stand for.
pub open spec fn hex_value(text: Seq<char>) -> Option<nat>
    decreases text.len(),
{
    if text.len() == 0 {
        Some(0)
    } else {
        match (hex_value(text.drop_last()), hex_digit(text.last())) {
            (Some(rest), Some(digit)) => Some((rest * 16 + digit) as nat),
            _ => None,
        }
    }
}

/// The digits of a text, without a plus sign before them.
pub open spec fn unsigned_part(text: Seq<char>) -> Seq<char> {
    if text.len() > 0 && text[0] == '+' {
        text.drop_first()
    } else {
        text
    }
}

/// The identifier that a text stands for: hexadecimal digits, perhaps after a plus sign, that fit
/// 128 bits.
pub open spec fn parsed_id(text: Seq<char>) -> Option<u128> {
    let digits = unsigned_part(text);
    match hex_value(digits) {
        Some(n) => if digits.len() > 0 && n <= u128::MAX {
            Some(n as u128)
        } else {
            None
        },
        None => None,
    }
}

/// Sixteen to the power of `n`.
pub open spec fn power16(n: nat) -> nat
    decreases n,
{
    if n == 0 {
        1
    } else {
        16 * power16((n - 1) as nat)
    }
}

/// A hexadecimal digit is read back.
proof fn hex_char_is_digit(digit: int)
    requires
        0 <= digit < 16,
    ensures
        hex_digit(hex_char(digit)) == Some(digit),
        hex_char(digit) != '+',
{
}

/// A spelling has its width and is read back as the number it was made of, as far as it fits.
proof fn hex_text_reads_back(n: nat, width: nat)
    requires
        n < power16(width),
    ensures
        hex_text(n, width).len() == width,
        hex_value(hex_text(n, width)) == Some(n),
        width > 0 ==> hex_text(n, width)[0] != '+',
    decreases width,
{
    if width > 0 {
        let rest = hex_text(n / 16, (width - 1) as nat);
        let digit = (n % 16) as int;
        hex_text_reads_back(n / 16, (width - 1) as nat);
        hex_char_is_digit(digit);
        assert(hex_text(n, width).drop_last() =~= rest);
        assert(n == (n / 16) * 16 + n % 16);
    }
}

/// Thirty-two digits hold 128 bits.
proof fn power16_of_32()
    ensures
        power16(32) == u128::MAX + 1,
{
    reveal_with_fuel(power16, 33);
}

/// An identifier is written with 32 characters, and what was written is read back as the same
/// identifier.
pub proof fn id_text_round_trip(id: McpSessionId)
    ensures
        id.text().len() == 32,
        parsed_id(id.text()) == Some(id.raw()),
{
    power16_of_32();
    hex_text_reads_back(id.raw() as nat, 32);
}

/// An identifier is written in digits and small letters up to `f`, the highest digits first.
pub proof fn id_text_is_lowercase_hexadecimal(id: McpSessionId, i: int)
    requires
        0 <= i < 32,
    ensures
        '0' <= id.text()[i] <= '9' || 'a' <= id.text()[i] <= 'f',
        hex_digit(id.text()[31]) == Some(id.raw() as int % 16),
        i < 31 ==> hex_value(id.text().take(i + 1)) is Some,
        hex_value(id.text()) == Some(id.raw() as nat),
{
    power16_of_32();
    hex_text_reads_back(id.raw() as nat, 32);
    hex_text_digits(id.raw() as nat, 32, i);
    hex_value_prefix(id.text(), i + 1);
    assert(id.text().last() == id.text()[31]);
    hex_char_is_digit(id.raw() as int % 16);
}

proof fn hex_text_digits(n: nat, width: nat, i: int)
    requires
        0 <= i < width,
    ensures
        hex_text(n, width).len() == width,
        '0' <= hex_text(n, width)[i] <= '9' || 'a' <= hex_text(n, width)[i] <= 'f',
    decreases width,
{
    if width > 1 {
        hex_text_digits(
            n / 16,
            (width - 1) as nat,
            if i < width - 1 {
                i
            } else {
                0
            },
        );
    } else {
        assert(hex_text(n / 16, 0) =~= Seq::<char>::empty());
    }
}

proof fn hex_value_prefix(text: Seq<char>, n: int)
    requires
        0 <= n <= text.len(),
        hex_value(text) is Some,
    ensures
        hex_value(text.take(n)) is Some,
    decreases text.len(),
{
    if n < text.len() {
        hex_value_prefix(text.drop_last(), n);
        assert(text.drop_last().take(n) =~= text.take(n));
    } else {
        assert(text.take(n) =~= text);
    }
}

/// Another digit behind a text makes it sixteen times as large, and adds the digit; letters count
/// the same in both cases, and no other character is a digit.
pub proof fn ids_are_read_digit_by_digit(text: Seq<char>, ch: char)
    requires
        text.len() > 0,
        hex_value(unsigned_part(text)) matches Some(n) && n * 16 + 15 <= u128::MAX,
        unsigned_part(text).len() > 0,
    ensures
        parsed_id(text) is Some,
        '0' <= ch <= '9' ==> parsed_id(text.push(ch)) == Some(
            (parsed_id(text)->0 * 16 + (ch as int - '0' as int)) as u128,
        ),
        'a' <= ch <= 'f' ==> parsed_id(text.push(ch)) == Some(
            (parsed_id(text)->0 * 16 + 10 + (ch as int - 'a' as int)) as u128,
        ),
        'A' <= ch <= 'F' ==> parsed_id(text.push(ch)) == Some(
            (parsed_id(text)->0 * 16 + 10 + (ch as int - 'A' as int)) as u128,
        ),
        !('0' <= ch <= '9' || 'a' <= ch <= 'f' || 'A' <= ch <= 'F') ==> parsed_id(text.push(ch))
            is None,
{
    let digits = unsigned_part(text);
    assert(unsigned_part(text.push(ch)) =~= digits.push(ch));
    assert(digits.push(ch).drop_last() =~= digits);
}

/// A single digit stands for its number, perhaps after a plus sign; without a digit there is no
/// identifier.
pub proof fn ids_begin_with_a_digit(ch: char)
    ensures
        '0' <= ch <= '9' ==> parsed_id(seq![ch]) == Some((ch as int - '0' as int) as u128)
            && parsed_id(seq!['+', ch]) == parsed_id(seq![ch]),
        'a' <= ch <= 'f' ==> parsed_id(seq![ch]) == Some((10 + (ch as int - 'a' as int)) as u128)
            && parsed_id(seq!['+', ch]) == parsed_id(seq![ch]),
        !('0' <= ch <= '9' || 'a' <= ch <= 'f' || 'A' <= ch <= 'F') ==> parsed_id(seq![ch]) is None,
        parsed_id(Seq::empty()) is None,
        parsed_id(seq!['+']) is None,
{
    let none = Seq::<char>::empty();
    assert(seq!['+', ch].drop_first() =~= seq![ch]);
    assert(seq!['+'].drop_first() =~= none);
    assert(seq![ch].drop_first() =~= none);
    assert(seq![ch].drop_last() =~= none);
    reveal_with_fuel(hex_value, 2);
}

/// What does not fit 128 bits is no identifier.
pub proof fn ids_fit_128_bits(text: Seq<char>)
    ensures
        parsed_id(text) matches Some(id) ==> hex_value(unsigned_part(text)) == Some(id as nat),
        hex_value(unsigned_part(text)) matches Some(n) && n > u128::MAX ==> parsed_id(text) is None,
{
}

/// Returns the lowercase hexadecimal digit of a number below sixteen.
fn to_hex_char(digit: u128) -> (r: char)
    requires
        digit < 16,
    ensures
        r == hex_char(digit as int),
{
    if digit < 10 {
        (48u8 + digit as u8) as char
    } else {
        (87u8 + digit as u8) as char
    }
}

/// Returns the number that a hexadecimal digit stands for.
fn from_hex_char(ch: char) -> (r: Option<u128>)
    ensures
        match r {
            Some(n) => hex_digit(ch) == Some(n as int) && n < 16,
            None => hex_digit(ch) is None,
        },
{
    let code: u32 = ch as u32;
    if 48 <= code && code <= 57 {
        Some((code - 48) as u128)
    } else if 97 <= code && code <= 102 {
        Some((code - 87) as u128)
    } else if 65 <= code && code <= 70 {
        Some((code - 55) as u128)
    } else {
        None
    }
}

/// Writes the lowest digits of a number.
fn write_hex(n: u128, width: usize) -> (r: String)
    ensures
        r@ == hex_text(n as nat, width as nat),
    decreases width,
{
    if width == 0 {
        let r = String::new();
        assert(r@ =~= Seq::<char>::empty());
        r
    } else {
        let mut out = write_hex(n / 16, width - 1);
        push_char(&mut out, to_hex_char(n % 16));
        out
    }
}

/// A text with a longer prefix that stands for a number stands for no smaller one.
proof fn hex_value_grows(text: Seq<char>, k: nat)
    requires
        k <= text.len(),
    ensures
        hex_value(text) matches Some(n) ==> (hex_value(text.take(k as int)) matches Some(m) && m
            <= n),
    decreases text.len(),
{
    if k == text.len() {
        assert(text.take(k as int) =~= text);
    } else {
        assert(text.drop_last().take(k as int) =~= text.take(k as int));
        hex_value_grows(text.drop_last(), k);
    }
}

// ---------------------------------------------------------------------------------------------
// Identifiers

impl McpSessionId {
    /// The raw value.
    pub closed spec fn raw(&self) -> u128 {
        self.0
    }

    /// The identifier as it is written: 32 lowercase hexadecimal digits.
    pub open spec fn text(&self) -> Seq<char> {
        hex_text(self.raw() as nat, 32)
    }

    /// Creates a session ID from a raw u128 value.
    pub fn from_raw(value: u128) -> (r: McpSessionId)
        ensures
            r.raw() == value,
    {
        McpSessionId(value)
    }

    /// Returns the raw u128 value.
    pub fn as_raw(&self) -> (r: u128)
        ensures
            r == self.raw(),
    {
        self.0
    }

    /// Writes the session ID.
    pub fn to_string(&self) -> (r: String)
        ensures
            r@ == self.text(),
    {
        write_hex(self.0, 32)
    }

    /// Writes the session ID for diagnostics.
    pub fn to_debug_string(&self) -> (r: String)
        ensures
            r@ == "McpSessionId("@ + self.text() + ")"@,
    {
        let mut out = "McpSessionId(".to_owned();
        out.append(self.to_string().as_str());
        out.append(")");
        out
    }

    /// Reads a session ID.
    pub fn parse(text: &str) -> (r: Result<McpSessionId, ParseSessionIdError>)
        ensures
            match r {
                Ok(id) => parsed_id(text@) == Some(id.raw()),
                Err(_) => parsed_id(text@) is None,
            },
    {
        let chars = char_vec(text);
        let start: usize = if chars.len() > 0 && chars[0] == '+' {
            1
        } else {
            0
        };
        let ghost digits = unsigned_part(text@);
        assert(digits =~= text@.skip(start as int));
        if chars.len() == start {
            return Err(ParseSessionIdError);
        }
        let mut value: u128 = 0;
        let mut i: usize = start;
        assert(digits.take(0) =~= Seq::<char>::empty());
        while i < chars.len()
            invariant
                start <= i <= chars.len(),
                chars@ == text@,
                digits == text@.skip(start as int),
                digits == unsigned_part(text@),
                hex_value(digits.take(i - start)) == Some(value as nat),
            decreases chars.len() - i,
        {
            proof {
                let next = digits.take(i - start + 1);
                assert(next.drop_last() =~= digits.take(i - start));
                assert(next.last() == chars@[i as int]);
                hex_value_grows(digits, (i - start + 1) as nat);
            }
            match from_hex_char(chars[i]) {
                Some(digit) => {
                    if value > u128::MAX / 16 {
                        assert(value * 16 > u128::MAX);
                        return Err(ParseSessionIdError);
                    }
                    value = value * 16 + digit;
                },
                None => {
                    return Err(ParseSessionIdError);
                },
            }
            i += 1;
        }
        assert(digits.take(digits.len() as int) =~= digits);
        Ok(McpSessionId(value))
    }

    /// Creates a random session ID.
    pub fn random() -> (r: McpSessionId) {
        McpSessionId(random_bits())
    }
}

/// `rand::Rng::random` of `rand::rng` on a 128-bit integer. The result depends on chance: nothing is
/// stated of it.
#[verifier::external_body]
fn random_bits() -> (r: u128) {
    rand::Rng::random(&mut rand::rng())
}

impl ParseSessionIdError {
    /// States the error.
    pub fn to_string(&self) -> (r: String)
        ensures
            r@ == "invalid session ID format"@,
    {
        "invalid session ID format".to_owned()
    }
}

impl std::str::FromStr for McpSessionId {
    type Err = ParseSessionIdError;

    fn from_str(text: &str) -> (r: Result<McpSessionId, ParseSessionIdError>)
        ensures
            match r {
                Ok(id) => parsed_id(text@) == Some(id.raw()),
                Err(_) => parsed_id(text@) is None,
            },
    {
        McpSessionId::parse(text)
    }
}

} // verus!
