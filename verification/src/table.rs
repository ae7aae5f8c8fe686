//! Tables of text keys in ascending order.

use vstd::prelude::*;

use crate::text::{
    same_text, text_before, text_lt, text_lt_irreflexive, text_lt_total, text_lt_transitive,
};

verus! {

/// The keys of a table.
pub open spec fn keys<V>(table: Seq<(Seq<char>, V)>) -> Seq<Seq<char>> {
    Seq::new(table.len(), |i: int| table[i].0)
}

/// The keys of an executable table.
pub open spec fn key_texts<V>(table: Seq<(String, V)>) -> Seq<Seq<char>> {
    Seq::new(table.len(), |i: int| table[i].0@)
}

/// Whether keys stand in strictly ascending order.
pub open spec fn ascending(keys: Seq<Seq<char>>) -> bool {
    forall|i: int, j: int| 0 <= i < j < keys.len() ==> text_lt(#[trigger] keys[i], #[trigger] keys[j])
}

/// The number of leading keys that come before `key`: its place among ascending keys.
pub open spec fn place(keys: Seq<Seq<char>>, key: Seq<char>) -> nat
    decreases keys.len(),
{
    if keys.len() == 0 || !text_lt(keys[0], key) {
        0
    } else {
        1 + place(keys.drop_first(), key)
    }
}

/// The value that the first entry with a key holds.
pub open spec fn lookup<V>(table: Seq<(Seq<char>, V)>, key: Seq<char>) -> Option<V>
    decreases table.len(),
{
    if table.len() == 0 {
        None
    } else if table[0].0 == key {
        Some(table[0].1)
    } else {
        lookup(table.drop_first(), key)
    }
}

/// The table with `value` under `key`, at the key's place.
pub open spec fn inserted<V>(table: Seq<(Seq<char>, V)>, key: Seq<char>, value: V) -> Seq<
    (Seq<char>, V),
> {
    let i = place(keys(table), key) as int;
    if i < table.len() && table[i].0 == key {
        table.update(i, (key, value))
    } else {
        table.insert(i, (key, value))
    }
}

/// The table that holds the given entries, of which a later one replaces an earlier one with the
/// same key.
pub open spec fn collected<V>(entries: Seq<(Seq<char>, V)>) -> Seq<(Seq<char>, V)>
    decreases entries.len(),
{
    if entries.len() == 0 {
        Seq::empty()
    } else {
        inserted(collected(entries.drop_last()), entries.last().0, entries.last().1)
    }
}

/// A place is within the table, the keys before it come before the key, and the key at it does
/// not.
pub proof fn place_splits(keys: Seq<Seq<char>>, key: Seq<char>)
    ensures
        place(keys, key) <= keys.len(),
        forall|i: int| 0 <= i < place(keys, key) ==> text_lt(#[trigger] keys[i], key),
        place(keys, key) < keys.len() ==> !text_lt(keys[place(keys, key) as int], key),
    decreases keys.len(),
{
    if keys.len() > 0 && text_lt(keys[0], key) {
        let rest = keys.drop_first();
        place_splits(rest, key);
        assert forall|i: int| 0 <= i < place(keys, key) implies text_lt(#[trigger] keys[i], key) by {
            if i > 0 {
                assert(keys[i] == rest[i - 1]);
            }
        }
    }
}

/// The place of a key is the only index that splits the keys in this way.
pub proof fn place_is(keys: Seq<Seq<char>>, key: Seq<char>, n: nat)
    requires
        n <= keys.len(),
        forall|i: int| 0 <= i < n ==> text_lt(#[trigger] keys[i], key),
        n < keys.len() ==> !text_lt(keys[n as int], key),
    ensures
        place(keys, key) == n,
    decreases keys.len(),
{
    if n > 0 {
        let rest = keys.drop_first();
        assert(text_lt(keys[0], key));
        assert forall|i: int| 0 <= i < n - 1 implies text_lt(#[trigger] rest[i], key) by {
            assert(rest[i] == keys[i + 1]);
        }
        place_is(rest, key, (n - 1) as nat);
    }
}

/// What a lookup finds, in terms of positions.
pub proof fn lookup_at<V>(table: Seq<(Seq<char>, V)>, key: Seq<char>, i: int)
    requires
        0 <= i < table.len(),
        table[i].0 == key,
        forall|k: int| 0 <= k < i ==> (#[trigger] table[k]).0 != key,
    ensures
        lookup(table, key) == Some(table[i].1),
    decreases i,
{
    if i > 0 {
        assert(table[0].0 != key);
        let rest = table.drop_first();
        assert forall|k: int| 0 <= k < i - 1 implies (#[trigger] rest[k]).0 != key by {
            assert(rest[k] == table[k + 1]);
        }
        lookup_at(rest, key, i - 1);
    }
}

/// A lookup finds nothing exactly when no entry has the key.
pub proof fn lookup_absent<V>(table: Seq<(Seq<char>, V)>, key: Seq<char>)
    ensures
        lookup(table, key) is None <==> forall|k: int|
            0 <= k < table.len() ==> (#[trigger] table[k]).0 != key,
        lookup(table, key) matches Some(v) ==> exists|k: int|
            0 <= k < table.len() && (#[trigger] table[k]).0 == key && table[k].1 == v,
    decreases table.len(),
{
    if table.len() > 0 {
        if table[0].0 != key {
            let rest = table.drop_first();
            lookup_absent(rest, key);
            if lookup(rest, key) is None {
                assert forall|k: int| 0 <= k < table.len() implies (#[trigger] table[k]).0 != key by {
                    if k > 0 {
                        assert(rest[k - 1] == table[k]);
                    }
                }
            } else {
                let k = choose|k: int|
                    0 <= k < rest.len() && (#[trigger] rest[k]).0 == key && Some(rest[k].1) == lookup(
                        rest,
                        key,
                    );
                assert(table[k + 1] == rest[k]);
            }
        }
    }
}

/// Inserting keeps a table ascending.
pub proof fn inserted_ascending<V>(table: Seq<(Seq<char>, V)>, key: Seq<char>, value: V)
    requires
        ascending(keys(table)),
    ensures
        ascending(keys(inserted(table, key, value))),
{
    let p = place(keys(table), key) as int;
    let t = inserted(table, key, value);
    place_splits(keys(table), key);
    if p < table.len() {
        assert(keys(table)[p] == table[p].0);
        text_lt_total(table[p].0, key);
    }
    assert forall|i: int, j: int| 0 <= i < j < keys(t).len() implies text_lt(
        #[trigger] keys(t)[i],
        #[trigger] keys(t)[j],
    ) by {
        if p < table.len() && table[p].0 == key {
            assert(keys(t) =~= keys(table));
        } else {
            let a = if i < p { i } else { i - 1 };
            let b = if j < p { j } else { j - 1 };
            if i != p && j != p {
                assert(keys(t)[i] == keys(table)[a]);
                assert(keys(t)[j] == keys(table)[b]);
            } else if j == p {
                assert(keys(t)[i] == keys(table)[i]);
            } else {
                assert(keys(t)[j] == keys(table)[j - 1]);
                if j - 1 > p {
                    assert(text_lt(keys(table)[p], keys(table)[j - 1]));
                    text_lt_transitive(key, keys(table)[p], keys(table)[j - 1]);
                }
            }
        }
    }
}

/// A lookup after an insertion finds the inserted value under its key, and under every other key
/// what it found before.
pub proof fn lookup_inserted<V>(
    table: Seq<(Seq<char>, V)>,
    key: Seq<char>,
    value: V,
    other: Seq<char>,
)
    requires
        ascending(keys(table)),
    ensures
        lookup(inserted(table, key, value), other) == (if other == key {
            Some(value)
        } else {
            lookup(table, other)
        }),
{
    let p = place(keys(table), key) as int;
    let t = inserted(table, key, value);
    place_splits(keys(table), key);
    text_lt_irreflexive(key);
    if other == key {
        assert forall|k: int| 0 <= k < p implies (#[trigger] t[k]).0 != key by {
            assert(t[k] == table[k]);
            assert(keys(table)[k] == table[k].0);
        }
        lookup_at(t, key, p);
    } else {
        lookup_absent(table, other);
        lookup_absent(t, other);
        let replaced = p < table.len() && table[p].0 == key;
        if lookup(table, other) is None {
            assert forall|k: int| 0 <= k < t.len() implies (#[trigger] t[k]).0 != other by {
                if k != p {
                    let from = if replaced || k < p { k } else { k - 1 };
                    assert(t[k] == table[from]);
                }
            }
        } else {
            let k = choose|k: int|
                0 <= k < table.len() && (#[trigger] table[k]).0 == other && Some(table[k].1) == lookup(
                    table,
                    other,
                );
            let to = if replaced || k < p { k } else { k + 1 };
            assert(t[to] == table[k]);
            assert forall|i: int| 0 <= i < to implies (#[trigger] t[i]).0 != other by {
                if i != p {
                    let from = if replaced || i < p { i } else { i - 1 };
                    assert(t[i] == table[from]);
                    assert(keys(table)[from] == table[from].0);
                    assert(keys(table)[k] == other);
                    text_lt_irreflexive(other);
                }
            }
            lookup_at(t, other, to);
        }
    }
}

/// An ascending table is what its own entries collect to.
pub proof fn collected_ascending<V>(entries: Seq<(Seq<char>, V)>)
    requires
        ascending(keys(entries)),
    ensures
        collected(entries) == entries,
    decreases entries.len(),
{
    if entries.len() > 0 {
        let rest = entries.drop_last();
        assert forall|i: int, j: int| 0 <= i < j < keys(rest).len() implies text_lt(
            #[trigger] keys(rest)[i],
            #[trigger] keys(rest)[j],
        ) by {
            assert(keys(rest)[i] == keys(entries)[i] && keys(rest)[j] == keys(entries)[j]);
        }
        collected_ascending(rest);
        let key = entries.last().0;
        assert forall|i: int| 0 <= i < rest.len() implies text_lt(#[trigger] keys(rest)[i], key) by {
            assert(keys(rest)[i] == keys(entries)[i]);
            assert(key == keys(entries)[entries.len() - 1]);
        }
        place_is(keys(rest), key, rest.len());
        assert(inserted(rest, key, entries.last().1) =~= entries);
    }
}

/// Collected entries are ascending.
pub proof fn collected_is_ascending<V>(entries: Seq<(Seq<char>, V)>)
    ensures
        ascending(keys(collected(entries))),
    decreases entries.len(),
{
    if entries.len() > 0 {
        collected_is_ascending(entries.drop_last());
        inserted_ascending(
            collected(entries.drop_last()),
            entries.last().0,
            entries.last().1,
        );
    }
}

/// Finds the place of a key and whether the key stands there.
pub(crate) fn find_place<V>(table: &Vec<(String, V)>, key: &str) -> (r: (usize, bool))
    ensures
        r.0 == place(key_texts(table@), key@),
        r.0 <= table.len(),
        r.1 == (r.0 < table.len() && table@[r.0 as int].0@ == key@),
{
    let mut i: usize = 0;
    while i < table.len() && text_before(table[i].0.as_str(), key)
        invariant
            i <= table.len(),
            forall|k: int| 0 <= k < i ==> text_lt(#[trigger] key_texts(table@)[k], key@),
        decreases table.len() - i,
    {
        i += 1;
    }
    proof {
        if i < table.len() {
            assert(key_texts(table@)[i as int] == table@[i as int].0@);
        }
        place_is(key_texts(table@), key@, i as nat);
    }
    let found: bool = i < table.len() && same_text(table[i].0.as_str(), key);
    (i, found)
}

/// Finds the first entry with a key.
pub(crate) fn find_key<V>(table: &Vec<(String, V)>, key: &str) -> (r: Option<usize>)
    ensures
        match r {
            Some(i) => i < table.len() && table@[i as int].0@ == key@ && forall|k: int|
                0 <= k < i ==> (#[trigger] table@[k]).0@ != key@,
            None => forall|k: int| 0 <= k < table.len() ==> (#[trigger] table@[k]).0@ != key@,
        },
{
    let mut i: usize = 0;
    while i < table.len()
        invariant
            i <= table.len(),
            forall|k: int| 0 <= k < i ==> (#[trigger] table@[k]).0@ != key@,
        decreases table.len() - i,
    {
        if same_text(table[i].0.as_str(), key) {
            return Some(i);
        }
        i += 1;
    }
    None
}

} // verus!
