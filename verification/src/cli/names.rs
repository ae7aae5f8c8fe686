//! Command-line spellings of protocol names.

use vstd::prelude::*;

use crate::text::{char_vec, join_texts, joined, push_char, texts};

verus! {

// ---------------------------------------------------------------------------------------------
// Character classes

/// Whether a character separates words in a protocol name.
pub open spec fn is_separator(ch: char) -> bool {
    ch == '_' || ch == '-' || ch == '.'
}

/// Whether a character is an ASCII lowercase letter.
pub open spec fn is_lower(ch: char) -> bool {
    'a' <= ch <= 'z'
}

/// Whether a character is an ASCII uppercase letter.
pub open spec fn is_upper(ch: char) -> bool {
    'A' <= ch <= 'Z'
}

/// Whether a character is an ASCII digit.
pub open spec fn is_digit(ch: char) -> bool {
    '0' <= ch <= '9'
}

/// Whether a character may stand in a word of a protocol name.
pub open spec fn is_word(ch: char) -> bool {
    is_lower(ch) || is_upper(ch) || is_digit(ch)
}

/// The lowercase form of an ASCII letter; every other character is its own.
pub open spec fn lowered(ch: char) -> char {
    if is_upper(ch) {
        (ch as int + 32) as char
    } else {
        ch
    }
}

/// Whether a character separates words.
fn separates(ch: char) -> (r: bool)
    ensures
        r == is_separator(ch),
{
    ch == '_' || ch == '-' || ch == '.'
}

/// Whether a character is an ASCII lowercase letter.
fn lower(ch: char) -> (r: bool)
    ensures
        r == is_lower(ch),
{
    'a' <= ch && ch <= 'z'
}

/// Whether a character is an ASCII uppercase letter.
fn upper(ch: char) -> (r: bool)
    ensures
        r == is_upper(ch),
{
    'A' <= ch && ch <= 'Z'
}

/// Whether a character is an ASCII digit.
fn digit(ch: char) -> (r: bool)
    ensures
        r == is_digit(ch),
{
    '0' <= ch && ch <= '9'
}

/// The lowercase form of a character.
fn to_lower(ch: char) -> (r: char)
    ensures
        r == lowered(ch),
{
    if upper(ch) {
        (ch as u8 + 32) as char
    } else {
        ch
    }
}

// ---------------------------------------------------------------------------------------------
// Names

/// Whether every character of a name is a word character or a separator.
pub open spec fn is_plain(name: Seq<char>) -> bool {
    forall|i: int| 0 <= i < name.len() ==> is_word(#[trigger] name[i]) || is_separator(name[i])
}

/// Whether one of the first `n` characters of a name belongs to a word.
pub open spec fn has_word(name: Seq<char>, n: int) -> bool {
    exists|i: int| 0 <= i < n && !is_separator(#[trigger] name[i])
}

/// Whether the capital at `i` starts a word: after a lowercase letter or a digit, or as the last
/// capital of a run that a lowercase letter follows.
pub open spec fn starts_camel_word(name: Seq<char>, i: int) -> bool {
    &&& is_upper(name[i])
    &&& i > 0
    &&& {
        ||| is_lower(name[i - 1])
        ||| is_digit(name[i - 1])
        ||| is_upper(name[i - 1]) && i + 1 < name.len() && is_lower(name[i + 1])
    }
}

/// Whether a hyphen goes before the word character at `i`.
pub open spec fn starts_word(name: Seq<char>, i: int) -> bool {
    ||| i > 0 && is_separator(name[i - 1]) && has_word(name, i)
    ||| starts_camel_word(name, i)
}

/// What the character at `i` contributes to the spelling.
pub open spec fn spelled_at(name: Seq<char>, i: int) -> Seq<char> {
    if is_separator(name[i]) {
        Seq::empty()
    } else if starts_word(name, i) {
        seq!['-', lowered(name[i])]
    } else {
        seq![lowered(name[i])]
    }
}

/// The spelling of the first `n` characters of a name.
pub open spec fn spelled(name: Seq<char>, n: nat) -> Seq<char>
    decreases n,
{
    if n == 0 {
        Seq::empty()
    } else {
        spelled(name, (n - 1) as nat) + spelled_at(name, n - 1)
    }
}

/// The command-line spelling of a protocol name: its words in lowercase, joined by hyphens. A
/// name with any other character, or without a word, has none.
pub open spec fn normalized(name: Seq<char>) -> Option<Seq<char>> {
    if is_plain(name) && has_word(name, name.len() as int) {
        Some(spelled(name, name.len()))
    } else {
        None
    }
}

/// Normalizes one protocol name to common command-line spelling.
pub fn normalize_name(name: &str) -> (r: Result<String, ()>)
    ensures
        match r {
            Ok(spelling) => normalized(name@) == Some(spelling@),
            Err(_) => normalized(name@) is None,
        },
{
    let chars = char_vec(name);
    let mut output = String::new();
    let mut empty: bool = true;
    let mut i: usize = 0;
    while i < chars.len()
        invariant
            chars@ == name@,
            i <= chars.len(),
            output@ == spelled(name@, i as nat),
            empty == !has_word(name@, i as int),
            forall|k: int| 0 <= k < i ==> is_word(#[trigger] name@[k]) || is_separator(name@[k]),
        decreases chars.len() - i,
    {
        let ch: char = chars[i];
        if separates(ch) {
            assert(output@ + spelled_at(name@, i as int) =~= output@);
            assert(has_word(name@, i + 1) == has_word(name@, i as int)) by {
                if has_word(name@, i + 1) {
                    let w = choose|w: int| 0 <= w < i + 1 && !is_separator(#[trigger] name@[w]);
                    assert(w != i);
                    assert(has_word(name@, i as int));
                }
                if has_word(name@, i as int) {
                    let w = choose|w: int| 0 <= w < i && !is_separator(#[trigger] name@[w]);
                    assert(!is_separator(name@[w]));
                }
            }
            i += 1;
            continue;
        }
        if !lower(ch) && !upper(ch) && !digit(ch) {
            assert(!(is_word(name@[i as int]) || is_separator(name@[i as int])));
            return Err(());
        }
        let after_separator: bool = i > 0 && separates(chars[i - 1]) && !empty;
        let camel_boundary: bool = i > 0 && upper(ch) && (lower(chars[i - 1]) || digit(chars[i - 1])
            || (upper(chars[i - 1]) && i + 1 < chars.len() && lower(chars[i + 1])));
        if after_separator || camel_boundary {
            push_char(&mut output, '-');
        }
        push_char(&mut output, to_lower(ch));
        assert(output@ =~= spelled(name@, i as nat) + spelled_at(name@, i as int));
        assert(!is_separator(name@[i as int]));
        assert(has_word(name@, i + 1));
        empty = false;
        i += 1;
    }
    if empty {
        Err(())
    } else {
        Ok(output)
    }
}

// ---------------------------------------------------------------------------------------------
// Paths

/// The segments of a dotted path.
pub open spec fn segments(path: Seq<char>) -> Seq<Seq<char>>
    decreases path.len(),
{
    if path.len() == 0 {
        seq![Seq::empty()]
    } else {
        let rest = segments(path.drop_last());
        if path.last() == '.' {
            rest.push(Seq::empty())
        } else {
            rest.update(rest.len() - 1, rest.last().push(path.last()))
        }
    }
}

/// The spellings of path segments, unless one of them has none.
pub open spec fn normalized_all(parts: Seq<Seq<char>>) -> Option<Seq<Seq<char>>>
    decreases parts.len(),
{
    if parts.len() == 0 {
        Some(Seq::empty())
    } else {
        match (normalized_all(parts.drop_last()), normalized(parts.last())) {
            (Some(done), Some(last)) => Some(done.push(last)),
            _ => None,
        }
    }
}

/// The command-line spelling of a dotted property path.
pub open spec fn normalized_path(path: Seq<char>) -> Option<Seq<char>> {
    match normalized_all(segments(path)) {
        Some(parts) => Some(joined(parts, "-"@)),
        None => None,
    }
}

/// Splits a dotted path into its segments.
fn split_path(path: &str) -> (r: Vec<String>)
    ensures
        texts(r@) == segments(path@),
        r.len() > 0,
{
    let chars = char_vec(path);
    let mut done: Vec<String> = Vec::new();
    let mut current = String::new();
    let mut i: usize = 0;
    assert(path@.take(0) =~= Seq::<char>::empty());
    assert(texts(done@).push(current@) =~= segments(path@.take(0)));
    while i < chars.len()
        invariant
            chars@ == path@,
            i <= chars.len(),
            texts(done@).push(current@) == segments(path@.take(i as int)),
        decreases chars.len() - i,
    {
        let ghost before = texts(done@).push(current@);
        proof {
            assert(path@.take(i + 1).drop_last() =~= path@.take(i as int));
            assert(path@.take(i + 1).last() == path@[i as int]);
        }
        if chars[i] == '.' {
            done.push(current);
            current = String::new();
            assert(texts(done@).push(current@) =~= before.push(Seq::empty()));
        } else {
            push_char(&mut current, chars[i]);
            assert(texts(done@).push(current@) =~= before.update(
                before.len() - 1,
                before.last().push(path@[i as int]),
            ));
        }
        i += 1;
    }
    assert(path@.take(path@.len() as int) =~= path@);
    let ghost all = texts(done@).push(current@);
    done.push(current);
    assert(texts(done@) =~= all);
    done
}

/// Normalizes one dotted property path.
pub fn normalize_path(path: &str) -> (r: Result<String, ()>)
    ensures
        match r {
            Ok(spelling) => normalized_path(path@) == Some(spelling@),
            Err(_) => normalized_path(path@) is None,
        },
{
    let parts = split_path(path);
    let ghost names = texts(parts@);
    let mut spellings: Vec<String> = Vec::new();
    let mut i: usize = 0;
    assert(names.take(0) =~= Seq::<Seq<char>>::empty());
    assert(texts(spellings@) =~= Seq::<Seq<char>>::empty());
    while i < parts.len()
        invariant
            names == texts(parts@),
            names == segments(path@),
            i <= parts.len(),
            normalized_all(names.take(i as int)) == Some(texts(spellings@)),
        decreases parts.len() - i,
    {
        proof {
            assert(names.take(i + 1).drop_last() =~= names.take(i as int));
            assert(names.take(i + 1).last() == parts@[i as int]@);
        }
        match normalize_name(parts[i].as_str()) {
            Ok(spelling) => {
                let ghost before = texts(spellings@);
                spellings.push(spelling);
                assert(texts(spellings@) =~= before.push(spelling@));
            },
            Err(_) => {
                proof {
                    lemma_prefix_fails(names, i as nat + 1);
                }
                return Err(());
            },
        }
        i += 1;
    }
    assert(names.take(names.len() as int) =~= names);
    Ok(join_texts(&spellings, "-"))
}

/// A list with a prefix that has no spellings has none either.
proof fn lemma_prefix_fails(parts: Seq<Seq<char>>, n: nat)
    requires
        n <= parts.len(),
        normalized_all(parts.take(n as int)) is None,
    ensures
        normalized_all(parts) is None,
    decreases parts.len(),
{
    if n == parts.len() {
        assert(parts.take(n as int) =~= parts);
    } else {
        assert(parts.drop_last().take(n as int) =~= parts.take(n as int));
        lemma_prefix_fails(parts.drop_last(), n);
    }
}

// ---------------------------------------------------------------------------------------------
// Laws

/// Whether a text is in kebab case: lowercase words and digits joined by single hyphens.
pub open spec fn is_kebab(text: Seq<char>) -> bool {
    &&& text.len() > 0
    &&& text[0] != '-'
    &&& text.last() != '-'
    &&& forall|i: int|
        0 <= i < text.len() ==> is_lower(#[trigger] text[i]) || is_digit(text[i]) || text[i] == '-'
    &&& forall|i: int, j: int|
        0 <= i && j == i + 1 && j < text.len() && #[trigger] text[i] == '-' ==> #[trigger] text[j] != '-'
}

/// A hyphen only ever goes before a character that an earlier word precedes.
proof fn word_starts_after_word(name: Seq<char>, i: int)
    requires
        0 <= i < name.len(),
        starts_word(name, i),
    ensures
        has_word(name, i),
{
    if starts_camel_word(name, i) {
        assert(!is_separator(name[i - 1]));
    }
}

/// The spelling of a prefix is empty or in kebab case.
proof fn spelled_is_kebab(name: Seq<char>, n: nat)
    requires
        n <= name.len(),
        is_plain(name),
    ensures
        has_word(name, n as int) <==> spelled(name, n).len() > 0,
        spelled(name, n).len() > 0 ==> is_kebab(spelled(name, n)),
    decreases n,
{
    if n > 0 {
        let i = n - 1;
        let before = spelled(name, i as nat);
        let all = spelled(name, n);
        spelled_is_kebab(name, i as nat);
        assert(is_word(name[i]) || is_separator(name[i]));
        if is_separator(name[i]) {
            assert(all =~= before);
            if has_word(name, n as int) {
                let w = choose|w: int| 0 <= w < n && !is_separator(#[trigger] name[w]);
                assert(!is_separator(name[w]) && w < i);
                assert(has_word(name, i));
            }
            if has_word(name, i) {
                let w = choose|w: int| 0 <= w < i && !is_separator(#[trigger] name[w]);
                assert(!is_separator(name[w]));
                assert(has_word(name, n as int));
            }
        } else {
            assert(!is_separator(name[i]));
            assert(has_word(name, n as int));
            if starts_word(name, i) {
                word_starts_after_word(name, i);
            }
            let low = lowered(name[i]);
            assert(is_lower(low) || is_digit(low));
            assert(all.last() == low);
        }
    }
}

/// The command-line spelling of a name is in kebab case.
pub proof fn normalized_is_kebab(name: Seq<char>)
    ensures
        normalized(name) matches Some(spelling) ==> is_kebab(spelling),
{
    if normalized(name) is Some {
        spelled_is_kebab(name, name.len());
    }
}

/// A prefix of kebab case spells itself, short of a hyphen at its end.
proof fn kebab_spells_itself(text: Seq<char>, n: nat)
    requires
        is_kebab(text),
        n <= text.len(),
    ensures
        spelled(text, n) == (if n > 0 && text[n - 1] == '-' {
            text.take(n - 1)
        } else {
            text.take(n as int)
        }),
    decreases n,
{
    if n > 0 {
        let i = n - 1;
        kebab_spells_itself(text, i as nat);
        if text[i] == '-' {
            assert(i > 0);
            assert(text[i - 1] != '-') by {
                if text[i - 1] == '-' {
                    assert(text[i] != '-');
                }
            }
            assert(spelled(text, n) =~= text.take(i));
        } else {
            assert(is_lower(text[i]) || is_digit(text[i]));
            assert(!is_upper(text[i]));
            assert(lowered(text[i]) == text[i]);
            if i > 0 && text[i - 1] == '-' {
                assert(i - 1 > 0);
                assert(!is_separator(text[0]));
                assert(has_word(text, i));
                assert(spelled(text, n) =~= text.take(n as int));
            } else {
                if i > 0 {
                    assert(is_lower(text[i - 1]) || is_digit(text[i - 1]));
                }
                assert(!starts_word(text, i));
                assert(spelled(text, n) =~= text.take(n as int));
            }
        }
    } else {
        assert(text.take(0) =~= Seq::<char>::empty());
    }
}

/// A text in kebab case is its own spelling.
pub proof fn kebab_is_normalized(text: Seq<char>)
    requires
        is_kebab(text),
    ensures
        normalized(text) == Some(text),
{
    assert forall|i: int| 0 <= i < text.len() implies is_word(#[trigger] text[i]) || is_separator(
        text[i],
    ) by {
        assert(is_lower(text[i]) || is_digit(text[i]) || text[i] == '-');
    }
    assert(is_lower(text[0]) || is_digit(text[0]));
    assert(!is_separator(text[0]));
    kebab_spells_itself(text, text.len());
    assert(text.take(text.len() as int) =~= text);
}

/// Normalizing a spelling again changes nothing.
pub proof fn normalized_idempotent(name: Seq<char>)
    ensures
        normalized(name) matches Some(spelling) ==> normalized(spelling) == Some(spelling),
{
    normalized_is_kebab(name);
    if normalized(name) is Some {
        kebab_is_normalized(normalized(name)->0);
    }
}

/// What stands before the run of separators at the end of a name.
pub open spec fn before_run(name: Seq<char>) -> Seq<char>
    decreases name.len(),
{
    if name.len() > 0 && is_separator(name.last()) {
        before_run(name.drop_last())
    } else {
        name
    }
}

/// Whether two names differ only in what their runs of separators are made of: where one has a run
/// the other has one too, and all other characters are the same.
pub open spec fn respaced(a: Seq<char>, b: Seq<char>) -> bool
    decreases a.len(),
{
    if a.len() == 0 {
        b.len() == 0
    } else if is_separator(a.last()) {
        proof {
            before_run_is_prefix(a);
        }
        b.len() > 0 && is_separator(b.last()) && respaced(before_run(a), before_run(b))
    } else {
        b.len() > 0 && a.last() == b.last() && respaced(a.drop_last(), b.drop_last())
    }
}

/// What stands before a run is a prefix of the name, and the run holds separators only.
pub proof fn before_run_is_prefix(name: Seq<char>)
    ensures
        before_run(name).len() <= name.len(),
        before_run(name) == name.take(before_run(name).len() as int),
        forall|i: int|
            before_run(name).len() <= i < name.len() ==> is_separator(#[trigger] name[i]),
        name.len() > 0 && is_separator(name.last()) ==> before_run(name).len() < name.len(),
    decreases name.len(),
{
    if name.len() > 0 && is_separator(name.last()) {
        let rest = name.drop_last();
        before_run_is_prefix(rest);
        let k = before_run(name).len() as int;
        assert(rest.take(k) =~= name.take(k));
        assert forall|i: int| k <= i < name.len() implies is_separator(#[trigger] name[i]) by {
            if i < rest.len() {
                assert(rest[i] == name[i]);
            }
        }
    } else {
        assert(name.take(name.len() as int) =~= name);
    }
}

/// A run of separators spells nothing.
proof fn runs_spell_nothing(name: Seq<char>, k: nat, n: nat)
    requires
        k <= n <= name.len(),
        forall|i: int| k <= i < n ==> is_separator(#[trigger] name[i]),
    ensures
        spelled(name, n) == spelled(name, k),
        has_word(name, n as int) == has_word(name, k as int),
    decreases n,
{
    if k < n {
        runs_spell_nothing(name, k, (n - 1) as nat);
        assert(is_separator(name[n - 1]));
        assert(spelled(name, n) =~= spelled(name, (n - 1) as nat));
        if has_word(name, n as int) {
            let w = choose|w: int| 0 <= w < n && !is_separator(#[trigger] name[w]);
            assert(w < n - 1);
        }
    }
}

/// Whether what follows a prefix of one name is like what follows a prefix of the other.
spec fn follows_alike(a: Seq<char>, n: int, b: Seq<char>, m: int) -> bool {
    &&& n < a.len() <==> m < b.len()
    &&& n < a.len() ==> a[n] == b[m] || (is_separator(a[n]) && is_separator(b[m]))
}

/// Prefixes that differ only in their separators spell the same.
proof fn respaced_prefixes(a: Seq<char>, n: nat, b: Seq<char>, m: nat)
    requires
        n <= a.len(),
        m <= b.len(),
        respaced(a.take(n as int), b.take(m as int)),
        follows_alike(a, n as int, b, m as int),
    ensures
        spelled(a, n) == spelled(b, m),
        has_word(a, n as int) == has_word(b, m as int),
        (forall|i: int| 0 <= i < n ==> is_word(#[trigger] a[i]) || is_separator(a[i])) == (forall|
            i: int,
        |
            0 <= i < m ==> is_word(#[trigger] b[i]) || is_separator(b[i])),
    decreases n,
{
    let first = a.take(n as int);
    let second = b.take(m as int);
    if n > 0 {
        assert(first.last() == a[n - 1]);
        assert(m > 0);
        assert(second.last() == b[m - 1]);
        if is_separator(a[n - 1]) {
            before_run_is_prefix(first);
            before_run_is_prefix(second);
            let k = before_run(first).len();
            let l = before_run(second).len();
            assert(before_run(first) =~= a.take(k as int));
            assert(before_run(second) =~= b.take(l as int));
            assert forall|i: int| k <= i < n implies is_separator(#[trigger] a[i]) by {
                assert(first[i] == a[i]);
            }
            assert forall|i: int| l <= i < m implies is_separator(#[trigger] b[i]) by {
                assert(second[i] == b[i]);
            }
            runs_spell_nothing(a, k, n);
            runs_spell_nothing(b, l, m);
            respaced_prefixes(a, k, b, l);
        } else {
            let i = n - 1;
            let j = m - 1;
            assert(first.drop_last() =~= a.take(i));
            assert(second.drop_last() =~= b.take(j));
            respaced_prefixes(a, i as nat, b, j as nat);
            assert(respaced(a.take(i), b.take(j)));
            assert(i == 0 <==> j == 0) by {
                reveal_with_fuel(respaced, 2);
            }
            if i > 0 {
                assert(a.take(i).last() == a[i - 1]);
                assert(b.take(j).last() == b[j - 1]);
                assert(a[i - 1] == b[j - 1] || (is_separator(a[i - 1]) && is_separator(b[j - 1])))
                    by {
                    reveal_with_fuel(respaced, 2);
                }
            }
            assert(starts_camel_word(a, i) == starts_camel_word(b, j));
            assert(starts_word(a, i) == starts_word(b, j));
            assert(!is_separator(a[i]) && !is_separator(b[j]));
            assert(has_word(a, n as int) && has_word(b, m as int));
            if forall|x: int| 0 <= x < n ==> is_word(#[trigger] a[x]) || is_separator(a[x]) {
                assert(is_word(a[i]));
            }
            if forall|x: int| 0 <= x < m ==> is_word(#[trigger] b[x]) || is_separator(b[x]) {
                assert(is_word(b[j]));
            }
        }
    }
}

/// What runs of separators are made of does not matter: names that differ only in that have the
/// same spelling, or none.
pub proof fn separator_runs_do_not_matter(a: Seq<char>, b: Seq<char>)
    requires
        respaced(a, b),
    ensures
        normalized(a) == normalized(b),
{
    assert(a.take(a.len() as int) =~= a);
    assert(b.take(b.len() as int) =~= b);
    respaced_prefixes(a, a.len(), b, b.len());
}

/// Kebab-case texts joined by hyphens are in kebab case.
proof fn joined_is_kebab(parts: Seq<Seq<char>>)
    requires
        parts.len() > 0,
        forall|i: int| 0 <= i < parts.len() ==> is_kebab(#[trigger] parts[i]),
    ensures
        is_kebab(joined(parts, "-"@)),
    decreases parts.len(),
{
    reveal_strlit("-");
    if parts.len() > 1 {
        joined_is_kebab(parts.drop_last());
        let front = joined(parts.drop_last(), "-"@);
        let back = parts.last();
        assert(is_kebab(parts[parts.len() - 1]));
        let all = joined(parts, "-"@);
        assert(all.last() == back.last());
    }
}

/// All spellings of a list are in kebab case.
proof fn normalized_all_kebab(parts: Seq<Seq<char>>)
    ensures
        normalized_all(parts) matches Some(done) ==> done.len() == parts.len() && forall|i: int|
            0 <= i < done.len() ==> is_kebab(#[trigger] done[i]),
    decreases parts.len(),
{
    if parts.len() > 0 {
        normalized_all_kebab(parts.drop_last());
        normalized_is_kebab(parts.last());
    }
}

/// A path has at least one segment.
proof fn segments_nonempty(path: Seq<char>)
    ensures
        segments(path).len() > 0,
    decreases path.len(),
{
    if path.len() > 0 {
        segments_nonempty(path.drop_last());
    }
}

/// The command-line spelling of a property path is in kebab case.
pub proof fn normalized_path_is_kebab(path: Seq<char>)
    ensures
        normalized_path(path) matches Some(spelling) ==> is_kebab(spelling),
{
    segments_nonempty(path);
    normalized_all_kebab(segments(path));
    if let Some(parts) = normalized_all(segments(path)) {
        joined_is_kebab(parts);
    }
}

} // verus!
