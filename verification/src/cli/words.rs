//! Where the words of a protocol name begin, and how its spelling is put together from them.

use vstd::prelude::*;

use crate::cli::names::{
    has_word, is_plain, is_separator, is_word, normalized, normalized_all, normalized_path,
    segments, spelled, spelled_at, starts_camel_word, starts_word,
};
use crate::text::joined;

verus! {

// ---------------------------------------------------------------------------------------------
// Characters

/// Whether a character is an ASCII letter or digit.
pub open spec fn alphanumeric(ch: char) -> bool {
    'a' <= ch <= 'z' || 'A' <= ch <= 'Z' || '0' <= ch <= '9'
}

/// Whether a character stands between words.
pub open spec fn between_words(ch: char) -> bool {
    ch == '_' || ch == '-' || ch == '.'
}

/// Whether a capital follows a lowercase letter or a digit.
pub open spec fn capital_after_small(name: Seq<char>, i: int) -> bool {
    0 < i < name.len() && 'A' <= name[i] <= 'Z' && ('a' <= name[i - 1] <= 'z' || '0' <= name[i - 1]
        <= '9')
}

/// Whether a capital follows another one and stands before a lowercase letter.
pub open spec fn capital_ends_run(name: Seq<char>, i: int) -> bool {
    0 < i && i + 1 < name.len() && 'A' <= name[i] <= 'Z' && 'A' <= name[i - 1] <= 'Z' && 'a'
        <= name[i + 1] <= 'z'
}

/// A name has a spelling exactly if it holds only letters, digits, underscores, hyphens and dots,
/// and at least one letter or digit.
pub proof fn spellable_names(name: Seq<char>)
    ensures
        normalized(name) is Some <==> (forall|i: int|
            0 <= i < name.len() ==> alphanumeric(#[trigger] name[i]) || between_words(name[i]))
            && (exists|i: int| 0 <= i < name.len() && alphanumeric(#[trigger] name[i])),
{
    if normalized(name) is Some {
        assert forall|i: int| 0 <= i < name.len() implies alphanumeric(#[trigger] name[i])
            || between_words(name[i]) by {
            assert(is_word(name[i]) || is_separator(name[i]));
        }
        let w = choose|w: int| 0 <= w < name.len() && !is_separator(#[trigger] name[w]);
        assert(alphanumeric(name[w]));
    }
    if (forall|i: int|
        0 <= i < name.len() ==> alphanumeric(#[trigger] name[i]) || between_words(name[i])) && (
    exists|i: int| 0 <= i < name.len() && alphanumeric(#[trigger] name[i])) {
        assert forall|i: int| 0 <= i < name.len() implies is_word(#[trigger] name[i])
            || is_separator(name[i]) by {
            assert(alphanumeric(name[i]) || between_words(name[i]));
        }
        let w = choose|w: int| 0 <= w < name.len() && alphanumeric(#[trigger] name[w]);
        assert(!is_separator(name[w]));
    }
}

// ---------------------------------------------------------------------------------------------
// Boundaries

/// A separator before a capital that starts a word spells nothing new.
proof fn separator_at_boundary(name: Seq<char>, i: int, separator: char, n: nat)
    requires
        0 < i < name.len(),
        starts_camel_word(name, i),
        is_separator(separator),
        n <= name.len(),
    ensures
        n <= i ==> spelled(name.insert(i, separator), n) == spelled(name, n),
        n >= i ==> spelled(name.insert(i, separator), n + 1) == spelled(name, n),
        n <= i ==> has_word(name.insert(i, separator), n as int) == has_word(name, n as int),
        n >= i ==> has_word(name.insert(i, separator), n as int + 1) == has_word(name, n as int),
    decreases n,
{
    let wide = name.insert(i, separator);
    assert forall|k: int| 0 <= k < i implies wide[k] == #[trigger] name[k] by {}
    assert forall|k: int| i <= k < name.len() implies wide[k + 1] == #[trigger] name[k] by {}
    assert(wide[i] == separator);
    assert(!is_separator(name[i - 1]));
    if n > 0 {
        let last = n - 1;
        separator_at_boundary(name, i, separator, last as nat);
        word_grows(name, n as int);
        if n <= i {
            word_grows(wide, n as int);
            assert(wide[last] == name[last]);
            assert(starts_camel_word(wide, last) == starts_camel_word(name, last));
            assert(starts_word(wide, last) == starts_word(name, last));
        }
        if n >= i {
            word_grows(wide, n as int + 1);
            if n == i {
                assert(spelled(wide, n + 1) =~= spelled(wide, n));
            } else if last == i {
                assert(has_word(name, i)) by {
                    assert(!is_separator(name[i - 1]));
                }
                assert(wide[n as int] == name[last]);
                assert(starts_word(wide, n as int));
                assert(starts_word(name, last));
            } else {
                assert(wide[n as int] == name[last] && wide[last] == name[last - 1]);
                assert(starts_camel_word(wide, n as int) == starts_camel_word(name, last)) by {
                    if n < name.len() {
                        assert(wide[n as int + 1] == name[n as int]);
                    }
                }
                assert(starts_word(wide, n as int) == starts_word(name, last));
            }
        }
    } else {
        assert(!has_word(name, 0));
        assert(!has_word(wide, 0));
    }
}

/// A prefix has a word if the prefix before its last character has one, or that character is part
/// of one.
proof fn word_grows(name: Seq<char>, n: int)
    requires
        0 < n <= name.len(),
    ensures
        has_word(name, n) == (has_word(name, n - 1) || !is_separator(name[n - 1])),
{
    if has_word(name, n - 1) {
        let w = choose|w: int| 0 <= w < n - 1 && !is_separator(#[trigger] name[w]);
        assert(!is_separator(name[w]));
    }
    if has_word(name, n) {
        let w = choose|w: int| 0 <= w < n && !is_separator(#[trigger] name[w]);
        if w < n - 1 {
            assert(has_word(name, n - 1));
        }
    }
}

/// A name with a separator put in is as plain as it was.
proof fn plain_with_separator(name: Seq<char>, i: int, separator: char)
    requires
        0 <= i <= name.len(),
        is_separator(separator),
    ensures
        is_plain(name.insert(i, separator)) == is_plain(name),
{
    let wide = name.insert(i, separator);
    if is_plain(name) {
        assert forall|k: int| 0 <= k < wide.len() implies is_word(#[trigger] wide[k])
            || is_separator(wide[k]) by {
            if k < i {
                assert(wide[k] == name[k]);
            } else if k > i {
                assert(wide[k] == name[k - 1]);
            }
        }
    }
    if is_plain(wide) {
        assert forall|k: int| 0 <= k < name.len() implies is_word(#[trigger] name[k])
            || is_separator(name[k]) by {
            if k < i {
                assert(is_word(wide[k]) || is_separator(wide[k]));
            } else {
                assert(is_word(wide[k + 1]) || is_separator(wide[k + 1]));
            }
        }
    }
}

/// A capital starts a word where it follows a lowercase letter or a digit, and where it ends a run
/// of capitals before a lowercase letter: a name is spelled like the same name with a separator
/// written there.
pub proof fn capitals_start_words(name: Seq<char>, i: int, separator: char)
    requires
        capital_after_small(name, i) || capital_ends_run(name, i),
        between_words(separator),
    ensures
        normalized(name) == normalized(name.insert(i, separator)),
{
    assert(starts_camel_word(name, i));
    separator_at_boundary(name, i, separator, name.len());
    plain_with_separator(name, i, separator);
}

// ---------------------------------------------------------------------------------------------
// Words

/// The spelling of a single word, prefix by prefix.
proof fn word_prefix(name: Seq<char>, n: nat)
    requires
        n <= name.len(),
        forall|i: int| 0 <= i < name.len() ==> alphanumeric(#[trigger] name[i]),
        forall|i: int| 0 <= i < name.len() ==> !#[trigger] capital_after_small(name, i),
        forall|i: int| 0 <= i < name.len() ==> !#[trigger] capital_ends_run(name, i),
    ensures
        spelled(name, n) == in_lowercase(name).take(n as int),
    decreases n,
{
    if n > 0 {
        let i = n - 1;
        word_prefix(name, i as nat);
        assert(alphanumeric(name[i]));
        if i > 0 {
            assert(alphanumeric(name[i - 1]));
        }
        assert(!capital_ends_run(name, i));
        assert(!capital_after_small(name, i));
        assert(!starts_word(name, i));
        assert(spelled(name, n) =~= in_lowercase(name).take(n as int));
    } else {
        assert(in_lowercase(name).take(0) =~= Seq::<char>::empty());
    }
}

/// A text with its capitals made small.
pub open spec fn in_lowercase(text: Seq<char>) -> Seq<char> {
    Seq::new(
        text.len(),
        |i: int|
            if 'A' <= text[i] <= 'Z' {
                (text[i] as int - 'A' as int + 'a' as int) as char
            } else {
                text[i]
            },
    )
}

/// A name of letters and digits in which no capital starts a word is spelled in lowercase, without
/// hyphens.
pub proof fn single_words(name: Seq<char>)
    requires
        name.len() > 0,
        forall|i: int| 0 <= i < name.len() ==> alphanumeric(#[trigger] name[i]),
        forall|i: int| 0 <= i < name.len() ==> !#[trigger] capital_after_small(name, i),
        forall|i: int| 0 <= i < name.len() ==> !#[trigger] capital_ends_run(name, i),
    ensures
        normalized(name) == Some(in_lowercase(name)),
{
    assert(alphanumeric(name[0]));
    spellable_names(name);
    word_prefix(name, name.len());
    assert(in_lowercase(name).take(name.len() as int) =~= in_lowercase(name));
}

/// What a prefix of two names around a separator is spelled like.
proof fn around_separator(a: Seq<char>, separator: char, b: Seq<char>, n: nat)
    requires
        is_separator(separator),
        n <= b.len(),
    ensures
        spelled(a.push(separator) + b, a.len() + 1 + n) == hyphenated(
            spelled(a, a.len()),
            has_word(a, a.len() as int),
            spelled(b, n),
            has_word(b, n as int),
        ),
        has_word(a.push(separator) + b, a.len() as int + 1 + n) == (has_word(a, a.len() as int)
            || has_word(b, n as int)),
    decreases n,
{
    let all = a.push(separator) + b;
    if n == 0 {
        before_separator(a, separator, b, a.len());
        word_grows(all, a.len() as int + 1);
        assert(all[a.len() as int] == separator);
        assert(!has_word(b, 0));
        assert(spelled(all, a.len() + 1) =~= spelled(all, a.len()));
        empty_spelling(a, a.len());
        assert(hyphenated(
            spelled(a, a.len()),
            has_word(a, a.len() as int),
            spelled(b, 0),
            false,
        ) =~= spelled(a, a.len()));
    } else {
        let i = n - 1;
        let at = a.len() + 1 + i;
        around_separator(a, separator, b, i as nat);
        word_grows(b, n as int);
        word_grows(all, at + 1);
        empty_spelling(a, a.len());
        empty_spelling(b, i as nat);
        assert(all[at] == b[i]);
        if i > 0 {
            assert(all[at - 1] == b[i - 1]);
        } else {
            assert(all[at - 1] == separator);
        }
        assert(starts_camel_word(all, at) == starts_camel_word(b, i)) by {
            if n < b.len() {
                assert(all[at + 1] == b[n as int]);
            }
        }
        assert(spelled(all, (at + 1) as nat) == spelled(all, at as nat) + spelled_at(all, at));
        assert(spelled(b, n) == spelled(b, i as nat) + spelled_at(b, i));
        if is_separator(b[i]) {
            assert(spelled(b, n) =~= spelled(b, i as nat));
            assert(spelled(all, (at + 1) as nat) =~= spelled(all, at as nat));
        } else if has_word(b, i) {
            assert(starts_word(all, at) == starts_word(b, i));
            assert(spelled(all, (at + 1) as nat) =~= hyphenated(
                spelled(a, a.len()),
                has_word(a, a.len() as int),
                spelled(b, n),
                true,
            ));
        } else {
            if i > 0 {
                assert(is_separator(b[i - 1]));
            }
            assert(!starts_word(b, i));
            assert(starts_word(all, at) == has_word(a, a.len() as int));
            assert(spelled(all, (at + 1) as nat) =~= hyphenated(
                spelled(a, a.len()),
                has_word(a, a.len() as int),
                spelled(b, n),
                true,
            ));
        }
    }
}

/// Two spellings with a hyphen between them, if both have a word.
spec fn hyphenated(a: Seq<char>, a_has: bool, b: Seq<char>, b_has: bool) -> Seq<char> {
    if a_has && b_has {
        a.push('-') + b
    } else {
        a + b
    }
}

/// Without a word nothing is spelled.
proof fn empty_spelling(name: Seq<char>, n: nat)
    requires
        n <= name.len(),
    ensures
        !has_word(name, n as int) ==> spelled(name, n) == Seq::<char>::empty(),
    decreases n,
{
    if n > 0 && !has_word(name, n as int) {
        word_grows(name, n as int);
        empty_spelling(name, (n - 1) as nat);
    }
}

/// What stands before a separator is spelled as it is alone.
proof fn before_separator(a: Seq<char>, separator: char, b: Seq<char>, n: nat)
    requires
        is_separator(separator),
        n <= a.len(),
    ensures
        spelled(a.push(separator) + b, n) == spelled(a, n),
        has_word(a.push(separator) + b, n as int) == has_word(a, n as int),
    decreases n,
{
    let all = a.push(separator) + b;
    if n > 0 {
        let i = n - 1;
        before_separator(a, separator, b, i as nat);
        word_grows(a, n as int);
        word_grows(all, n as int);
        assert(all[i] == a[i]);
        assert(starts_camel_word(all, i) == starts_camel_word(a, i)) by {
            if n < a.len() {
                assert(all[n as int] == a[n as int]);
            } else {
                assert(all[n as int] == separator);
            }
        }
        assert(starts_word(all, i) == starts_word(a, i));
    } else {
        assert(!has_word(all, 0) && !has_word(a, 0));
    }
}

/// Two names around a separator are plain if both are.
proof fn plain_around(a: Seq<char>, separator: char, b: Seq<char>)
    requires
        is_separator(separator),
    ensures
        is_plain(a.push(separator) + b) == (is_plain(a) && is_plain(b)),
{
    let all = a.push(separator) + b;
    assert(all[a.len() as int] == separator);
    if is_plain(all) {
        assert forall|k: int| 0 <= k < a.len() implies is_word(#[trigger] a[k]) || is_separator(
            a[k],
        ) by {
            assert(is_word(all[k]) || is_separator(all[k]));
        }
        assert forall|k: int| 0 <= k < b.len() implies is_word(#[trigger] b[k]) || is_separator(
            b[k],
        ) by {
            let at = a.len() + 1 + k;
            assert(is_word(all[at]) || is_separator(all[at]));
        }
    }
    if is_plain(a) && is_plain(b) {
        assert forall|k: int| 0 <= k < all.len() implies is_word(#[trigger] all[k])
            || is_separator(all[k]) by {
            if k < a.len() {
                assert(all[k] == a[k]);
            } else if k > a.len() {
                assert(all[k] == b[k - a.len() - 1]);
            }
        }
    }
}

/// Words on the two sides of a separator are joined by one hyphen: two names around a separator are
/// spelled like the two names, with a hyphen between them.
pub proof fn separators_join_words(a: Seq<char>, separator: char, b: Seq<char>)
    requires
        between_words(separator),
    ensures
        normalized(a) is Some && normalized(b) is Some ==> normalized(a.push(separator) + b) == Some(
            normalized(a)->0.push('-') + normalized(b)->0,
        ),
{
    if normalized(a) is Some && normalized(b) is Some {
        around_separator(a, separator, b, b.len());
        plain_around(a, separator, b);
    }
}

/// Separators before the first word, and behind the last, spell nothing.
pub proof fn outer_separators_spell_nothing(name: Seq<char>, separator: char)
    requires
        between_words(separator),
    ensures
        normalized(seq![separator] + name) == normalized(name),
        normalized(name.push(separator)) == normalized(name),
{
    let none = Seq::<char>::empty();
    assert(none.push(separator) + name =~= seq![separator] + name);
    assert(name.push(separator) + none =~= name.push(separator));
    assert(!has_word(none, 0));
    empty_spelling(none, 0);
    empty_spelling(name, name.len());
    around_separator(none, separator, name, name.len());
    around_separator(name, separator, none, 0);
    plain_around(none, separator, name);
    plain_around(name, separator, none);
    assert(none + spelled(name, name.len()) =~= spelled(name, name.len()));
    assert(spelled(name, name.len()) + none =~= spelled(name, name.len()));
}

// ---------------------------------------------------------------------------------------------
// Paths

/// A path has at least one segment.
proof fn some_segment(path: Seq<char>)
    ensures
        segments(path).len() > 0,
    decreases path.len(),
{
    if path.len() > 0 {
        some_segment(path.drop_last());
    }
}

/// A name without dots is one segment more.
proof fn segment_more(path: Seq<char>, name: Seq<char>)
    requires
        !name.contains('.'),
    ensures
        segments(path.push('.') + name) == segments(path).push(name),
    decreases name.len(),
{
    let all = path.push('.') + name;
    some_segment(path);
    if name.len() == 0 {
        assert(all =~= path.push('.'));
        assert(all.drop_last() =~= path);
        assert(name =~= Seq::<char>::empty());
    } else {
        let rest = name.drop_last();
        assert(!rest.contains('.')) by {
            if rest.contains('.') {
                let k = choose|k: int| 0 <= k < rest.len() && rest[k] == '.';
                assert(name[k] == '.');
            }
        }
        segment_more(path, rest);
        assert(all.drop_last() =~= path.push('.') + rest);
        assert(all.last() == name.last());
        assert(name[name.len() - 1] != '.');
        let before = segments(path.push('.') + rest);
        assert(rest.push(name.last()) =~= name);
        assert(before.update(before.len() - 1, before.last().push(name.last())) =~= segments(
            path,
        ).push(name));
    }
}

/// A name without dots is one segment.
proof fn one_segment(name: Seq<char>)
    requires
        !name.contains('.'),
    ensures
        segments(name) == seq![name],
    decreases name.len(),
{
    if name.len() == 0 {
        assert(name =~= Seq::<char>::empty());
    } else {
        let rest = name.drop_last();
        assert(!rest.contains('.')) by {
            if rest.contains('.') {
                let k = choose|k: int| 0 <= k < rest.len() && rest[k] == '.';
                assert(name[k] == '.');
            }
        }
        one_segment(rest);
        assert(name[name.len() - 1] != '.');
        assert(rest.push(name.last()) =~= name);
        assert(seq![rest].update(0, name) =~= seq![name]);
    }
}

/// A path of one segment is spelled like the name that it is.
pub proof fn short_paths(name: Seq<char>)
    requires
        !name.contains('.'),
    ensures
        normalized_path(name) == normalized(name),
{
    one_segment(name);
    reveal_with_fuel(normalized_all, 2);
    assert(seq![name].drop_last() =~= Seq::<Seq<char>>::empty());
    if normalized(name) is Some {
        assert(normalized_all(seq![name])->0 =~= seq![normalized(name)->0]);
    }
}

/// A path with one more segment is spelled like the path and the segment with a hyphen between
/// them, and has a spelling if both have one.
pub proof fn longer_paths(path: Seq<char>, name: Seq<char>)
    requires
        !name.contains('.'),
    ensures
        normalized_path(path.push('.') + name) == match (normalized_path(path), normalized(name)) {
            (Some(front), Some(back)) => Some(front.push('-') + back),
            _ => None,
        },
{
    reveal_strlit("-");
    segment_more(path, name);
    some_segment(path);
    let parts = segments(path);
    assert(parts.push(name).drop_last() =~= parts);
    all_spelled(parts);
    if normalized_all(parts) is Some && normalized(name) is Some {
        let done = normalized_all(parts)->0;
        let back = normalized(name)->0;
        assert(done.push(back).drop_last() =~= done);
        assert(joined(done.push(back), "-"@) =~= joined(done, "-"@).push('-') + back);
    }
}

/// There is a spelling for each segment.
proof fn all_spelled(parts: Seq<Seq<char>>)
    ensures
        normalized_all(parts) matches Some(done) ==> done.len() == parts.len(),
    decreases parts.len(),
{
    if parts.len() > 0 {
        all_spelled(parts.drop_last());
    }
}

} // verus!
