//! Base64 with padding, in the standard alphabet.

use vstd::prelude::*;

use crate::text::{char_vec, push_char};

verus! {

/// The character of a six-bit number.
pub open spec fn sextet_char(n: int) -> char {
    if n < 26 {
        (65 + n) as char
    } else if n < 52 {
        (71 + n) as char
    } else if n < 62 {
        (n - 4) as char
    } else if n == 62 {
        '+'
    } else {
        '/'
    }
}

/// The six-bit number of a character.
pub open spec fn sextet(ch: char) -> Option<int> {
    let code = ch as int;
    if 65 <= code <= 90 {
        Some(code - 65)
    } else if 97 <= code <= 122 {
        Some(code - 71)
    } else if 48 <= code <= 57 {
        Some(code + 4)
    } else if ch == '+' {
        Some(62)
    } else if ch == '/' {
        Some(63)
    } else {
        None
    }
}

/// The text that bytes are written as.
pub open spec fn encoded(bytes: Seq<u8>) -> Seq<char>
    decreases bytes.len(),
{
    if bytes.len() == 0 {
        Seq::empty()
    } else if bytes.len() == 1 {
        let a = bytes[0] as int;
        seq![sextet_char(a / 4), sextet_char(a % 4 * 16), '=', '=']
    } else if bytes.len() == 2 {
        let a = bytes[0] as int;
        let b = bytes[1] as int;
        seq![sextet_char(a / 4), sextet_char(a % 4 * 16 + b / 16), sextet_char(b % 16 * 4), '=']
    } else {
        let a = bytes[0] as int;
        let b = bytes[1] as int;
        let c = bytes[2] as int;
        seq![
            sextet_char(a / 4),
            sextet_char(a % 4 * 16 + b / 16),
            sextet_char(b % 16 * 4 + c / 64),
            sextet_char(c % 64),
        ] + encoded(bytes.skip(3))
    }
}

/// The bytes that one group of characters stands for; only the last group may be padded, and the
/// bits that padding leaves over are zero.
pub open spec fn decoded_group(
    first: char,
    second: char,
    third: char,
    fourth: char,
    last: bool,
) -> Option<Seq<u8>> {
    match (sextet(first), sextet(second)) {
        (Some(w), Some(x)) => if last && third == '=' && fourth == '=' {
            if x % 16 == 0 {
                Some(seq![(w * 4 + x / 16) as u8])
            } else {
                None
            }
        } else {
            match sextet(third) {
                Some(y) => if last && fourth == '=' {
                    if y % 4 == 0 {
                        Some(seq![(w * 4 + x / 16) as u8, (x % 16 * 16 + y / 4) as u8])
                    } else {
                        None
                    }
                } else {
                    match sextet(fourth) {
                        Some(z) => Some(
                            seq![
                                (w * 4 + x / 16) as u8,
                                (x % 16 * 16 + y / 4) as u8,
                                (y % 4 * 64 + z) as u8,
                            ],
                        ),
                        None => None,
                    }
                },
                None => None,
            }
        },
        _ => None,
    }
}

/// The bytes that a text stands for, if it is base64.
pub open spec fn decoded(text: Seq<char>) -> Option<Seq<u8>>
    decreases text.len(),
{
    if text.len() == 0 {
        Some(Seq::empty())
    } else if text.len() < 4 {
        None
    } else {
        match (
            decoded_group(text[0], text[1], text[2], text[3], text.len() == 4),
            decoded(text.skip(4)),
        ) {
            (Some(group), Some(rest)) => Some(group + rest),
            _ => None,
        }
    }
}

proof fn sextet_round_trip(n: int)
    requires
        0 <= n < 64,
    ensures
        sextet(sextet_char(n)) == Some(n),
        sextet_char(n) != '=',
{
}

/// The characters of six-bit numbers are the capitals, the small letters, the digits, a plus and a
/// slash, in this order, and no other character stands for a number.
pub proof fn alphabet_in_order(n: int, ch: char)
    requires
        0 <= n < 64,
    ensures
        n < 26 ==> sextet_char(n) as int == 'A' as int + n,
        26 <= n < 52 ==> sextet_char(n) as int == 'a' as int + (n - 26),
        52 <= n < 62 ==> sextet_char(n) as int == '0' as int + (n - 52),
        n == 62 ==> sextet_char(n) == '+',
        n == 63 ==> sextet_char(n) == '/',
        sextet(ch) == Some(n) <==> sextet_char(n) == ch,
        sextet(ch) is Some <==> exists|m: int| 0 <= m < 64 && #[trigger] sextet_char(m) == ch,
{
    if let Some(m) = sextet(ch) {
        assert(0 <= m < 64);
        assert(sextet_char(m) == ch);
    }
}

/// The number that characters stand for, six bits each, the first ones the highest.
pub open spec fn number_of_text(text: Seq<char>) -> int
    decreases text.len(),
{
    if text.len() == 0 {
        0
    } else {
        number_of_text(text.drop_last()) * 64 + sextet(text.last())->0
    }
}

/// The number that bytes stand for, eight bits each, the first ones the highest.
pub open spec fn number_of_bytes(bytes: Seq<u8>) -> int
    decreases bytes.len(),
{
    if bytes.len() == 0 {
        0
    } else {
        number_of_bytes(bytes.drop_last()) * 256 + bytes.last() as int
    }
}

proof fn numbers_of_four(text: Seq<char>)
    requires
        text.len() == 4,
    ensures
        number_of_text(text) == ((sextet(text[0])->0 * 64 + sextet(text[1])->0) * 64 + sextet(
            text[2],
        )->0) * 64 + sextet(text[3])->0,
        number_of_text(text.take(3)) == (sextet(text[0])->0 * 64 + sextet(text[1])->0) * 64
            + sextet(text[2])->0,
        number_of_text(text.take(2)) == sextet(text[0])->0 * 64 + sextet(text[1])->0,
{
    let one = text.take(1);
    let two = text.take(2);
    let three = text.take(3);
    assert(text.drop_last() =~= three);
    assert(three.drop_last() =~= two);
    assert(two.drop_last() =~= one);
    assert(one.drop_last() =~= Seq::<char>::empty());
    assert(number_of_text(one.drop_last()) == 0);
    assert(number_of_text(one) == sextet(text[0])->0);
    assert(number_of_text(two) == number_of_text(one) * 64 + sextet(text[1])->0);
    assert(number_of_text(three) == number_of_text(two) * 64 + sextet(text[2])->0);
}

proof fn numbers_of_three(bytes: Seq<u8>)
    ensures
        bytes.len() == 1 ==> number_of_bytes(bytes) == bytes[0] as int,
        bytes.len() == 2 ==> number_of_bytes(bytes) == bytes[0] as int * 256 + bytes[1] as int,
        bytes.len() == 3 ==> number_of_bytes(bytes) == (bytes[0] as int * 256 + bytes[1] as int)
            * 256 + bytes[2] as int,
{
    reveal_with_fuel(number_of_bytes, 4);
    if bytes.len() == 1 {
        assert(bytes.drop_last() =~= Seq::<u8>::empty());
    } else if bytes.len() == 2 {
        assert(bytes.drop_last() =~= seq![bytes[0]]);
        assert(seq![bytes[0]].drop_last() =~= Seq::<u8>::empty());
    } else if bytes.len() == 3 {
        assert(bytes.drop_last() =~= seq![bytes[0], bytes[1]]);
        assert(seq![bytes[0], bytes[1]].drop_last() =~= seq![bytes[0]]);
        assert(seq![bytes[0]].drop_last() =~= Seq::<u8>::empty());
    }
}

/// There are four characters for every three bytes, or what is left of them.
proof fn encoded_length(bytes: Seq<u8>)
    ensures
        encoded(bytes).len() == (bytes.len() + 2) / 3 * 4,
    decreases bytes.len(),
{
    if bytes.len() > 2 {
        encoded_length(bytes.skip(3));
        let n = bytes.len() as int;
        assert((n + 2) / 3 == (n - 3 + 2) / 3 + 1);
    } else if bytes.len() == 1 {
        assert((1int + 2) / 3 == 1);
    } else if bytes.len() == 2 {
        assert((2int + 2) / 3 == 1);
    }
}

/// Three bytes become four characters that stand for the same number. The one or two bytes that
/// may be left at the end are filled up with zero bits, and the group with equals signs.
pub proof fn groups_keep_the_bits(bytes: Seq<u8>, group: int)
    requires
        0 <= group,
        3 * group < bytes.len(),
    ensures
        encoded(bytes).len() == (bytes.len() + 2) / 3 * 4,
        3 * group + 3 <= bytes.len() ==> number_of_text(
            encoded(bytes).subrange(4 * group, 4 * group + 4),
        ) == number_of_bytes(bytes.subrange(3 * group, 3 * group + 3)),
        3 * group + 2 == bytes.len() ==> number_of_text(
            encoded(bytes).subrange(4 * group, 4 * group + 3),
        ) == number_of_bytes(bytes.skip(3 * group)) * 4 && encoded(bytes)[4 * group + 3] == '=',
        3 * group + 1 == bytes.len() ==> number_of_text(
            encoded(bytes).subrange(4 * group, 4 * group + 2),
        ) == number_of_bytes(bytes.skip(3 * group)) * 16 && encoded(bytes)[4 * group + 2] == '='
            && encoded(bytes)[4 * group + 3] == '=',
    decreases bytes.len(),
{
    let text = encoded(bytes);
    let rest = bytes.skip(3);
    encoded_length(bytes);
    if group > 0 {
        groups_keep_the_bits(rest, group - 1);
        let tail = encoded(rest);
        if 3 * group + 3 <= bytes.len() {
            assert(text.subrange(4 * group, 4 * group + 4) =~= tail.subrange(
                4 * group - 4,
                4 * group,
            ));
            assert(bytes.subrange(3 * group, 3 * group + 3) =~= rest.subrange(
                3 * group - 3,
                3 * group,
            ));
        } else if 3 * group + 2 == bytes.len() {
            assert(text.subrange(4 * group, 4 * group + 3) =~= tail.subrange(
                4 * group - 4,
                4 * group - 1,
            ));
            assert(bytes.skip(3 * group) =~= rest.skip(3 * group - 3));
            assert(text[4 * group + 3] == tail[4 * group - 1]);
        } else {
            assert(text.subrange(4 * group, 4 * group + 2) =~= tail.subrange(
                4 * group - 4,
                4 * group - 2,
            ));
            assert(bytes.skip(3 * group) =~= rest.skip(3 * group - 3));
            assert(text[4 * group + 2] == tail[4 * group - 2]);
            assert(text[4 * group + 3] == tail[4 * group - 1]);
        }
    } else {
        let a = bytes[0] as int;
        let four = text.take(4);
        assert(text.subrange(0, 4) =~= four);
        assert(text.subrange(0, 3) =~= four.take(3));
        assert(text.subrange(0, 2) =~= four.take(2));
        assert(bytes.skip(0) =~= bytes);
        numbers_of_four(four);
        sextet_round_trip(a / 4);
        if bytes.len() == 1 {
            numbers_of_three(bytes);
            sextet_round_trip(a % 4 * 16);
            assert(four[0] == sextet_char(a / 4) && four[1] == sextet_char(a % 4 * 16));
        } else if bytes.len() == 2 {
            let b = bytes[1] as int;
            numbers_of_three(bytes);
            sextet_round_trip(a % 4 * 16 + b / 16);
            sextet_round_trip(b % 16 * 4);
        } else {
            let b = bytes[1] as int;
            let c = bytes[2] as int;
            let three = bytes.subrange(0, 3);
            numbers_of_three(three);
            sextet_round_trip(a % 4 * 16 + b / 16);
            sextet_round_trip(b % 16 * 4 + c / 64);
            sextet_round_trip(c % 64);
            assert(four[0] == sextet_char(a / 4) && four[1] == sextet_char(a % 4 * 16 + b / 16)
                && four[2] == sextet_char(b % 16 * 4 + c / 64) && four[3] == sextet_char(c % 64));
        }
    }
}

/// The characters of a group are those that its bytes are written as.
proof fn group_is_encoded(text: Seq<char>, last: bool)
    requires
        text.len() == 4,
        decoded_group(text[0], text[1], text[2], text[3], last) is Some,
    ensures
        encoded(decoded_group(text[0], text[1], text[2], text[3], last)->0) == text,
        decoded_group(text[0], text[1], text[2], text[3], last)->0.len() <= 3,
        !last ==> decoded_group(text[0], text[1], text[2], text[3], last)->0.len() == 3,
        decoded_group(text[0], text[1], text[2], text[3], last)->0.len() > 0,
{
    let group = decoded_group(text[0], text[1], text[2], text[3], last)->0;
    let w = sextet(text[0])->0;
    let x = sextet(text[1])->0;
    alphabet_in_order(w, text[0]);
    alphabet_in_order(x, text[1]);
    let a = w * 4 + x / 16;
    assert(0 <= a < 256 && a / 4 == w && a % 4 == x / 16);
    if group.len() == 1 {
        assert(a % 4 * 16 == x);
        assert(encoded(group) =~= text);
    } else {
        let y = sextet(text[2])->0;
        alphabet_in_order(y, text[2]);
        let b = x % 16 * 16 + y / 4;
        assert(0 <= b < 256 && b / 16 == x % 16 && b % 16 == y / 4);
        assert(a % 4 * 16 + b / 16 == x);
        if group.len() == 2 {
            assert(b % 16 * 4 == y);
            assert(encoded(group) =~= text);
        } else {
            let z = sextet(text[3])->0;
            alphabet_in_order(z, text[3]);
            let c = y % 4 * 64 + z;
            assert(0 <= c < 256 && c / 64 == y % 4 && c % 64 == z);
            assert(b % 16 * 4 + c / 64 == y);
            assert(group.skip(3) =~= Seq::<u8>::empty());
            assert(encoded(group.skip(3)) =~= Seq::<char>::empty());
            assert(encoded(group) =~= text);
        }
    }
}

/// Only what bytes are written as is read: every text that stands for bytes is the text that these
/// bytes are written as.
pub proof fn decoded_is_encoded(text: Seq<char>)
    ensures
        decoded(text) matches Some(bytes) ==> encoded(bytes) == text,
    decreases text.len(),
{
    if decoded(text) is Some {
        if text.len() == 0 {
            assert(text =~= Seq::<char>::empty());
        } else {
            let last = text.len() == 4;
            let group = decoded_group(text[0], text[1], text[2], text[3], last)->0;
            let rest = decoded(text.skip(4))->0;
            let bytes = decoded(text)->0;
            decoded_is_encoded(text.skip(4));
            group_is_encoded(text.take(4), last);
            if last {
                assert(text.skip(4) =~= Seq::<char>::empty());
                assert(bytes =~= group);
                assert(text.take(4) =~= text);
            } else {
                assert(bytes.skip(3) =~= rest);
                assert(group.skip(3) =~= Seq::<u8>::empty());
                assert(encoded(group.skip(3)) =~= Seq::<char>::empty());
                assert(encoded(bytes) =~= encoded(group) + encoded(rest));
                assert(text.take(4) + text.skip(4) =~= text);
            }
        }
    }
}

/// What was written is read back as the same bytes.
pub proof fn encoded_is_decoded(bytes: Seq<u8>)
    ensures
        decoded(encoded(bytes)) == Some(bytes),
    decreases bytes.len(),
{
    let text = encoded(bytes);
    if bytes.len() == 1 {
        let a = bytes[0];
        sextet_round_trip(a as int / 4);
        sextet_round_trip(a as int % 4 * 16);
        assert(text.skip(4) =~= Seq::<char>::empty());
        assert(decoded(text.skip(4)) == Some(Seq::<u8>::empty()));
        assert((a as int / 4 * 4 + (a as int % 4 * 16) / 16) == a as int);
        assert(decoded(text)->0 =~= bytes);
    } else if bytes.len() == 2 {
        let a = bytes[0];
        let b = bytes[1];
        let x = a as int % 4 * 16 + b as int / 16;
        sextet_round_trip(a as int / 4);
        sextet_round_trip(x);
        sextet_round_trip(b as int % 16 * 4);
        assert(text.skip(4) =~= Seq::<char>::empty());
        assert(decoded(text.skip(4)) == Some(Seq::<u8>::empty()));
        assert(a as int / 4 * 4 + x / 16 == a as int);
        assert(x % 16 * 16 + (b as int % 16 * 4) / 4 == b as int);
        assert(decoded(text)->0 =~= bytes);
    } else if bytes.len() > 2 {
        let a = bytes[0];
        let b = bytes[1];
        let c = bytes[2];
        let rest = bytes.skip(3);
        let x = a as int % 4 * 16 + b as int / 16;
        let y = b as int % 16 * 4 + c as int / 64;
        sextet_round_trip(a as int / 4);
        sextet_round_trip(x);
        sextet_round_trip(y);
        sextet_round_trip(c as int % 64);
        encoded_is_decoded(rest);
        assert(text.skip(4) =~= encoded(rest));
        assert(a as int / 4 * 4 + x / 16 == a as int);
        assert(x % 16 * 16 + y / 4 == b as int);
        assert(y % 4 * 64 + c as int % 64 == c as int);
        assert(decoded(text)->0 =~= bytes);
    }
}

/// Returns the character of a six-bit number.
fn to_sextet_char(n: u8) -> (r: char)
    requires
        n < 64,
    ensures
        r == sextet_char(n as int),
{
    if n < 26 {
        (65 + n) as char
    } else if n < 52 {
        (71 + n) as char
    } else if n < 62 {
        (n - 4) as char
    } else if n == 62 {
        '+'
    } else {
        '/'
    }
}

/// Returns the six-bit number of a character.
fn from_sextet_char(ch: char) -> (r: Option<u8>)
    ensures
        match r {
            Some(n) => sextet(ch) == Some(n as int) && n < 64,
            None => sextet(ch) is None,
        },
{
    let code: u32 = ch as u32;
    if 65 <= code && code <= 90 {
        Some((code - 65) as u8)
    } else if 97 <= code && code <= 122 {
        Some((code - 71) as u8)
    } else if 48 <= code && code <= 57 {
        Some((code + 4) as u8)
    } else if ch == '+' {
        Some(62)
    } else if ch == '/' {
        Some(63)
    } else {
        None
    }
}

/// Writes bytes as base64.
pub fn encode(bytes: &[u8]) -> (r: String)
    ensures
        r@ == encoded(bytes@),
{
    let mut out = String::new();
    let mut i: usize = 0;
    assert(bytes@.skip(0) =~= bytes@);
    assert(out@ + encoded(bytes@) =~= encoded(bytes@));
    while bytes.len() - i >= 3
        invariant
            i <= bytes.len(),
            out@ + encoded(bytes@.skip(i as int)) == encoded(bytes@),
        decreases bytes.len() - i,
    {
        let ghost before = out@;
        let ghost rest = bytes@.skip(i as int);
        let a: u8 = bytes[i];
        let b: u8 = bytes[i + 1];
        let c: u8 = bytes[i + 2];
        push_char(&mut out, to_sextet_char(a / 4));
        push_char(&mut out, to_sextet_char(a % 4 * 16 + b / 16));
        push_char(&mut out, to_sextet_char(b % 16 * 4 + c / 64));
        push_char(&mut out, to_sextet_char(c % 64));
        proof {
            assert(rest[0] == a && rest[1] == b && rest[2] == c);
            assert(rest.skip(3) =~= bytes@.skip(i + 3));
            assert(out@ + encoded(bytes@.skip(i + 3)) =~= before + encoded(rest));
        }
        i += 3;
    }
    let ghost before = out@;
    let ghost rest = bytes@.skip(i as int);
    if bytes.len() - i == 2 {
        let a: u8 = bytes[i];
        let b: u8 = bytes[i + 1];
        assert(rest[0] == a && rest[1] == b);
        push_char(&mut out, to_sextet_char(a / 4));
        push_char(&mut out, to_sextet_char(a % 4 * 16 + b / 16));
        push_char(&mut out, to_sextet_char(b % 16 * 4));
        push_char(&mut out, '=');
    } else if bytes.len() - i == 1 {
        let a: u8 = bytes[i];
        assert(rest[0] == a);
        push_char(&mut out, to_sextet_char(a / 4));
        push_char(&mut out, to_sextet_char(a % 4 * 16));
        push_char(&mut out, '=');
        push_char(&mut out, '=');
    }
    assert(out@ =~= before + encoded(rest));
    out
}

/// Reads one group of base64 characters.
fn decode_group(first: char, second: char, third: char, fourth: char, last: bool) -> (r: Option<
    Vec<u8>,
>)
    ensures
        match r {
            Some(bytes) => decoded_group(first, second, third, fourth, last) == Some(bytes@),
            None => decoded_group(first, second, third, fourth, last) is None,
        },
{
    let mut out: Vec<u8> = Vec::new();
    let w: u8 = match from_sextet_char(first) {
        Some(n) => n,
        None => {
            return None;
        },
    };
    let x: u8 = match from_sextet_char(second) {
        Some(n) => n,
        None => {
            return None;
        },
    };
    out.push(w * 4 + x / 16);
    if last && third == '=' && fourth == '=' {
        assert(out@ =~= seq![(w as int * 4 + x as int / 16) as u8]);
        return if x % 16 == 0 {
            Some(out)
        } else {
            None
        };
    }
    let y: u8 = match from_sextet_char(third) {
        Some(n) => n,
        None => {
            return None;
        },
    };
    out.push(x % 16 * 16 + y / 4);
    if last && fourth == '=' {
        assert(out@ =~= seq![
            (w as int * 4 + x as int / 16) as u8,
            (x as int % 16 * 16 + y as int / 4) as u8,
        ]);
        return if y % 4 == 0 {
            Some(out)
        } else {
            None
        };
    }
    let z: u8 = match from_sextet_char(fourth) {
        Some(n) => n,
        None => {
            return None;
        },
    };
    out.push(y % 4 * 64 + z);
    assert(out@ =~= seq![
        (w as int * 4 + x as int / 16) as u8,
        (x as int % 16 * 16 + y as int / 4) as u8,
        (y as int % 4 * 64 + z as int) as u8,
    ]);
    Some(out)
}

/// Reads base64.
pub fn decode(text: &str) -> (r: Option<Vec<u8>>)
    ensures
        match r {
            Some(bytes) => decoded(text@) == Some(bytes@),
            None => decoded(text@) is None,
        },
{
    let chars = char_vec(text);
    let mut out: Vec<u8> = Vec::new();
    let mut i: usize = 0;
    assert(text@.skip(0) =~= text@);
    proof {
        if let Some(bytes) = decoded(text@) {
            assert(Seq::<u8>::empty() + bytes =~= bytes);
        }
    }
    while i < chars.len()
        invariant
            chars@ == text@,
            i <= chars.len(),
            match decoded(text@.skip(i as int)) {
                Some(rest) => decoded(text@) == Some(out@ + rest),
                None => decoded(text@) is None,
            },
        decreases chars.len() - i,
    {
        let ghost tail = text@.skip(i as int);
        if chars.len() - i < 4 {
            return None;
        }
        proof {
            assert(tail[0] == chars@[i as int] && tail[1] == chars@[i + 1]);
            assert(tail[2] == chars@[i + 2] && tail[3] == chars@[i + 3]);
            assert(tail.skip(4) =~= text@.skip(i + 4));
        }
        let last: bool = chars.len() - i == 4;
        let mut group = match decode_group(
            chars[i],
            chars[i + 1],
            chars[i + 2],
            chars[i + 3],
            last,
        ) {
            Some(group) => group,
            None => {
                return None;
            },
        };
        let ghost before = out@;
        let ghost found = group@;
        out.append(&mut group);
        proof {
            assert(out@ == before + found);
            if let Some(rest) = decoded(tail.skip(4)) {
                assert(before + (found + rest) =~= out@ + rest);
            }
        }
        i += 4;
    }
    assert(text@.skip(i as int) =~= Seq::<char>::empty());
    assert(out@ + Seq::<u8>::empty() =~= out@);
    Some(out)
}

} // verus!
