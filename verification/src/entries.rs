//! Facts about the entries of a mapping: finding, taking out and changing.

use vstd::prelude::*;
use crate::document::{
    distinct_keys, has_key, listed, lookup, position, unlisted, with_child, without_key,
    without_keys, Doc,
};

verus! {

/// Where `position` finds an entry, that entry has the key and none before
/// it has.
pub proof fn lemma_position_found(entries: Seq<(Doc, Doc)>, key: Seq<char>)
    ensures
        position(entries, key) matches Some(i) ==> {
            &&& 0 <= i < entries.len()
            &&& entries[i].0 == Doc::Text(key)
            &&& forall|j: int| 0 <= j < i ==> (#[trigger] entries[j]).0 != Doc::Text(key)
        },
        position(entries, key) is None ==> !has_key(entries, key),
    decreases entries.len(),
{
    if entries.len() > 0 && entries[0].0 != Doc::Text(key) {
        let rest = entries.drop_first();
        lemma_position_found(rest, key);
        match position(rest, key) {
            Some(i) => {
                assert forall|j: int| 0 <= j < i + 1 implies (#[trigger] entries[j]).0
                    != Doc::Text(key) by {
                    if j > 0 {
                        assert(rest[j - 1] == entries[j]);
                    }
                }
            },
            None => {
                assert forall|j: int| 0 <= j < entries.len() implies (#[trigger] entries[j]).0
                    != Doc::Text(key) by {
                    if j > 0 {
                        assert(rest[j - 1] == entries[j]);
                    }
                }
            },
        }
    }
}

/// The first entry that has the key is the one that `position` finds.
pub proof fn lemma_position_is(entries: Seq<(Doc, Doc)>, key: Seq<char>, at: int)
    requires
        0 <= at < entries.len(),
        entries[at].0 == Doc::Text(key),
        forall|j: int| 0 <= j < at ==> (#[trigger] entries[j]).0 != Doc::Text(key),
    ensures
        position(entries, key) == Some(at),
    decreases entries.len(),
{
    if at > 0 {
        let rest = entries.drop_first();
        assert(entries[0].0 != Doc::Text(key));
        assert forall|j: int| 0 <= j < at - 1 implies (#[trigger] rest[j]).0 != Doc::Text(key) by {
            assert(rest[j] == entries[j + 1]);
        }
        lemma_position_is(rest, key, at - 1);
    }
}

/// Where no entry has the key, `position` finds none.
pub proof fn lemma_position_none(entries: Seq<(Doc, Doc)>, key: Seq<char>)
    requires
        !has_key(entries, key),
    ensures
        position(entries, key) is None,
{
    lemma_position_found(entries, key);
}

/// Taking out the entry under `key` leaves every other key with its value,
/// and where no key occurs twice, `key` is then gone.
pub proof fn lemma_without_key(entries: Seq<(Doc, Doc)>, key: Seq<char>, other: Seq<char>)
    ensures
        other != key ==> lookup(without_key(entries, key), other) == lookup(entries, other),
        distinct_keys(entries) ==> distinct_keys(without_key(entries, key)),
        distinct_keys(entries) ==> position(without_key(entries, key), key) is None,
        without_key(entries, key).len() <= entries.len(),
        forall|i: int|
            0 <= i < without_key(entries, key).len() ==> entries.contains(
                #[trigger] without_key(entries, key)[i],
            ),
{
    lemma_position_found(entries, key);
    lemma_position_found(entries, other);
    let rest = without_key(entries, key);
    match position(entries, key) {
        None => {
            assert forall|i: int| 0 <= i < rest.len() implies entries.contains(
                #[trigger] rest[i],
            ) by {
                assert(entries[i] == rest[i]);
            }
        },
        Some(at) => {
            assert forall|i: int| 0 <= i < rest.len() implies #[trigger] rest[i] == entries[if i
                < at {
                i
            } else {
                i + 1
            }] by {}
            assert forall|i: int| 0 <= i < rest.len() implies entries.contains(
                #[trigger] rest[i],
            ) by {
                let j = if i < at { i } else { i + 1 };
                assert(entries[j] == rest[i]);
            }
            if other != key {
                match position(entries, other) {
                    Some(j) => {
                        let moved = if j < at { j } else { j - 1 };
                        assert(rest[moved] == entries[j]);
                        assert forall|m: int| 0 <= m < moved implies (#[trigger] rest[m]).0
                            != Doc::Text(other) by {
                            let n = if m < at { m } else { m + 1 };
                            assert(rest[m] == entries[n]);
                        }
                        lemma_position_is(rest, other, moved);
                    },
                    None => {
                        assert forall|m: int| 0 <= m < rest.len() implies (#[trigger] rest[m]).0
                            != Doc::Text(other) by {
                            let n = if m < at { m } else { m + 1 };
                            assert(rest[m] == entries[n]);
                        }
                        lemma_position_none(rest, other);
                    },
                }
            }
            if distinct_keys(entries) {
                assert forall|i: int, j: int| 0 <= i < j < rest.len() implies (#[trigger] rest[i]).0
                    != (#[trigger] rest[j]).0 by {
                    let a = if i < at { i } else { i + 1 };
                    let b = if j < at { j } else { j + 1 };
                    assert(rest[i] == entries[a]);
                    assert(rest[j] == entries[b]);
                }
                assert forall|m: int| 0 <= m < rest.len() implies (#[trigger] rest[m]).0
                    != Doc::Text(key) by {
                    let n = if m < at { m } else { m + 1 };
                    assert(rest[m] == entries[n]);
                    assert(entries[n].0 != entries[at].0);
                }
                lemma_position_none(rest, key);
            }
        },
    }
}

/// Two lists of entries with the same keys in the same places give every
/// lookup the same place.
pub proof fn lemma_position_by_keys(a: Seq<(Doc, Doc)>, b: Seq<(Doc, Doc)>, key: Seq<char>)
    requires
        a.len() == b.len(),
        forall|i: int| 0 <= i < a.len() ==> (#[trigger] a[i]).0 == b[i].0,
    ensures
        position(a, key) == position(b, key),
        distinct_keys(a) ==> distinct_keys(b),
{
    lemma_position_found(a, key);
    match position(a, key) {
        Some(at) => {
            assert(b[at].0 == a[at].0);
            assert forall|j: int| 0 <= j < at implies (#[trigger] b[j]).0 != Doc::Text(key) by {
                assert(a[j].0 == b[j].0);
            }
            lemma_position_is(b, key, at);
        },
        None => {
            assert forall|j: int| 0 <= j < b.len() implies (#[trigger] b[j]).0 != Doc::Text(
                key,
            ) by {
                assert(a[j].0 == b[j].0);
            }
            lemma_position_none(b, key);
        },
    }
    if distinct_keys(a) {
        assert forall|i: int, j: int| 0 <= i < j < b.len() implies (#[trigger] b[i]).0 != (
        #[trigger] b[j]).0 by {
            assert(a[i].0 == b[i].0);
            assert(a[j].0 == b[j].0);
        }
    }
}

/// Giving the entry at `at` a new value changes what is found under its key,
/// and nothing else.
pub proof fn lemma_update_value(entries: Seq<(Doc, Doc)>, at: int, value: Doc, key: Seq<char>)
    requires
        0 <= at < entries.len(),
    ensures
        position(entries.update(at, (entries[at].0, value)), key) == position(entries, key),
        lookup(entries.update(at, (entries[at].0, value)), key) == (if position(entries, key)
            == Some(at) {
            Some(value)
        } else {
            lookup(entries, key)
        }),
        distinct_keys(entries) ==> distinct_keys(entries.update(at, (entries[at].0, value))),
{
    let changed = entries.update(at, (entries[at].0, value));
    lemma_position_by_keys(entries, changed, key);
    lemma_position_found(entries, key);
}

/// Taking out several keys leaves every other key with its value, and where
/// no key occurs twice, each of them is then gone.
pub proof fn lemma_without_keys(entries: Seq<(Doc, Doc)>, keys: Seq<Seq<char>>, other: Seq<char>)
    ensures
        !keys.contains(other) ==> lookup(without_keys(entries, keys), other) == lookup(
            entries,
            other,
        ),
        distinct_keys(entries) ==> distinct_keys(without_keys(entries, keys)),
        distinct_keys(entries) && keys.contains(other) ==> position(
            without_keys(entries, keys),
            other,
        ) is None,
        without_keys(entries, keys).len() <= entries.len(),
        forall|i: int|
            0 <= i < without_keys(entries, keys).len() ==> entries.contains(
                #[trigger] without_keys(entries, keys)[i],
            ),
    decreases keys.len(),
{
    if keys.len() > 0 {
        let before = without_keys(entries, keys.drop_last());
        let after = without_keys(entries, keys);
        lemma_without_keys(entries, keys.drop_last(), other);
        lemma_without_key(before, keys.last(), other);
        assert forall|i: int| 0 <= i < after.len() implies entries.contains(
            #[trigger] after[i],
        ) by {
            assert(before.contains(after[i]));
        }
        if !keys.contains(other) {
            assert(keys[keys.len() - 1] != other);
            assert forall|i: int| 0 <= i < keys.drop_last().len() implies keys.drop_last()[i]
                != other by {
                assert(keys[i] == keys.drop_last()[i]);
            }
        }
        if distinct_keys(entries) && keys.contains(other) {
            if other != keys.last() {
                let i = choose|i: int| 0 <= i < keys.len() && keys[i] == other;
                assert(keys.drop_last()[i] == other);
            }
        }
    }
}

/// A filter that every element passes changes nothing.
pub proof fn lemma_filter_all<A>(s: Seq<A>, pred: spec_fn(A) -> bool)
    requires
        forall|i: int| 0 <= i < s.len() ==> pred(#[trigger] s[i]),
    ensures
        s.filter(pred) == s,
    decreases s.len(),
{
    reveal(Seq::filter);
    if s.len() > 0 {
        lemma_filter_all(s.drop_last(), pred);
        assert(s.drop_last().push(s.last()) =~= s);
    }
}

/// A filter that no element passes leaves nothing.
pub proof fn lemma_filter_none<A>(s: Seq<A>, pred: spec_fn(A) -> bool)
    requires
        forall|i: int| 0 <= i < s.len() ==> !pred(#[trigger] s[i]),
    ensures
        s.filter(pred) == Seq::<A>::empty(),
    decreases s.len(),
{
    reveal(Seq::filter);
    if s.len() > 0 {
        lemma_filter_none(s.drop_last(), pred);
    } else {
        assert(s =~= Seq::<A>::empty());
    }
}

/// Filtering twice is filtering once by both tests.
pub proof fn lemma_filter_twice<A>(
    s: Seq<A>,
    first: spec_fn(A) -> bool,
    second: spec_fn(A) -> bool,
    both: spec_fn(A) -> bool,
)
    requires
        forall|x: A| #[trigger] both(x) == (first(x) && second(x)),
    ensures
        s.filter(first).filter(second) == s.filter(both),
    decreases s.len(),
{
    reveal(Seq::filter);
    if s.len() > 0 {
        lemma_filter_twice(s.drop_last(), first, second, both);
        let front = s.drop_last().filter(first);
        if first(s.last()) {
            assert(front.push(s.last()).drop_last() =~= front);
        }
    }
}

/// A filter keeps keys distinct.
pub proof fn lemma_filter_distinct(entries: Seq<(Doc, Doc)>, pred: spec_fn((Doc, Doc)) -> bool)
    requires
        distinct_keys(entries),
    ensures
        distinct_keys(entries.filter(pred)),
    decreases entries.len(),
{
    reveal(Seq::filter);
    if entries.len() > 0 {
        let front = entries.drop_last();
        assert forall|i: int, j: int| 0 <= i < j < front.len() implies (#[trigger] front[i]).0 != (
        #[trigger] front[j]).0 by {
            assert(front[i] == entries[i]);
            assert(front[j] == entries[j]);
        }
        lemma_filter_distinct(front, pred);
        let kept = front.filter(pred);
        if pred(entries.last()) {
            let all = kept.push(entries.last());
            assert forall|i: int, j: int| 0 <= i < j < all.len() implies (#[trigger] all[i]).0 != (
            #[trigger] all[j]).0 by {
                if j == kept.len() {
                    front.lemma_filter_contains_rev(pred, kept[i]);
                    let k = choose|k: int| 0 <= k < front.len() && front[k] == kept[i];
                    assert(entries[k] == kept[i]);
                    assert(entries[entries.len() - 1] == all[j]);
                } else {
                    assert(kept[i] == all[i]);
                    assert(kept[j] == all[j]);
                }
            }
        }
    }
}

/// Where no key occurs twice, taking out the entry under `key` is keeping the
/// entries with another key.
pub proof fn lemma_without_key_is_filter(entries: Seq<(Doc, Doc)>, key: Seq<char>)
    requires
        distinct_keys(entries),
    ensures
        without_key(entries, key) == entries.filter(|e: (Doc, Doc)| e.0 != Doc::Text(key)),
{
    let pred = |e: (Doc, Doc)| e.0 != Doc::Text(key);
    lemma_position_found(entries, key);
    match position(entries, key) {
        None => {
            lemma_filter_all(entries, pred);
        },
        Some(at) => {
            let front = entries.subrange(0, at);
            let one = entries.subrange(at, at + 1);
            let back = entries.subrange(at + 1, entries.len() as int);
            assert forall|i: int| 0 <= i < front.len() implies pred(#[trigger] front[i]) by {
                assert(front[i] == entries[i]);
            }
            assert forall|i: int| 0 <= i < back.len() implies pred(#[trigger] back[i]) by {
                assert(back[i] == entries[at + 1 + i]);
                assert(entries[at].0 != entries[at + 1 + i].0);
            }
            assert forall|i: int| 0 <= i < one.len() implies !pred(#[trigger] one[i]) by {
                assert(one[i] == entries[at]);
            }
            lemma_filter_all(front, pred);
            lemma_filter_all(back, pred);
            lemma_filter_none(one, pred);
            assert(entries =~= (front + one) + back);
            Seq::filter_distributes_over_add(front, one, pred);
            Seq::filter_distributes_over_add(front + one, back, pred);
            assert(entries.remove(at) =~= front + back);
            assert(front + Seq::<(Doc, Doc)>::empty() =~= front);
        },
    }
}

/// Where no key occurs twice, taking out several keys is keeping the entries
/// whose key is none of them: nothing else leaves, and what stays keeps its
/// order.
pub proof fn lemma_without_keys_is_filter(entries: Seq<(Doc, Doc)>, keys: Seq<Seq<char>>)
    requires
        distinct_keys(entries),
    ensures
        without_keys(entries, keys) == entries.filter(unlisted(keys)),
    decreases keys.len(),
{
    if keys.len() == 0 {
        lemma_filter_all(entries, unlisted(keys));
    } else {
        let earlier = keys.drop_last();
        let last = keys.last();
        lemma_without_keys_is_filter(entries, earlier);
        lemma_filter_distinct(entries, unlisted(earlier));
        let before = entries.filter(unlisted(earlier));
        lemma_without_key_is_filter(before, last);
        let second = |e: (Doc, Doc)| e.0 != Doc::Text(last);
        assert forall|e: (Doc, Doc)| #[trigger] unlisted(keys)(e) == (unlisted(earlier)(e)
            && second(e)) by {
            if listed(keys, e.0) {
                let i = choose|i: int| 0 <= i < keys.len() && e.0 == Doc::Text(#[trigger] keys[i]);
                if i < keys.len() - 1 {
                    assert(earlier[i] == keys[i]);
                }
            }
            if listed(earlier, e.0) {
                let i = choose|i: int|
                    0 <= i < earlier.len() && e.0 == Doc::Text(#[trigger] earlier[i]);
                assert(keys[i] == earlier[i]);
            }
            if e.0 == Doc::Text(last) {
                assert(keys[keys.len() - 1] == last);
            }
        }
        lemma_filter_twice(entries, unlisted(earlier), second, unlisted(keys));
    }
}

/// The entries of a well-formed mapping have distinct keys and well-formed
/// values.
pub proof fn lemma_well_formed_child(entries: Seq<(Doc, Doc)>, key: Seq<char>)
    requires
        Doc::Mapping(entries).well_formed(),
    ensures
        distinct_keys(entries),
        lookup(entries, key) matches Some(child) ==> child.well_formed(),
{
    lemma_position_found(entries, key);
}

/// A mapping made of entries of a well-formed mapping, with distinct keys, is
/// well formed.
pub proof fn lemma_well_formed_part(entries: Seq<(Doc, Doc)>, part: Seq<(Doc, Doc)>)
    requires
        Doc::Mapping(entries).well_formed(),
        distinct_keys(part),
        forall|i: int| 0 <= i < part.len() ==> entries.contains(#[trigger] part[i]),
    ensures
        Doc::Mapping(part).well_formed(),
{
    assert forall|i: int| 0 <= i < part.len() implies (#[trigger] part[i]).0.well_formed()
        && part[i].1.well_formed() by {
        let j = choose|j: int| 0 <= j < entries.len() && entries[j] == part[i];
        assert(entries[j].0.well_formed());
    }
}

/// A well-formed mapping stays well formed when one entry gets a well-formed
/// value.
pub proof fn lemma_well_formed_update(entries: Seq<(Doc, Doc)>, at: int, value: Doc)
    requires
        Doc::Mapping(entries).well_formed(),
        0 <= at < entries.len(),
        value.well_formed(),
    ensures
        Doc::Mapping(entries.update(at, (entries[at].0, value))).well_formed(),
{
    let changed = entries.update(at, (entries[at].0, value));
    lemma_update_value(entries, at, value, Seq::<char>::empty());
    assert forall|i: int| 0 <= i < changed.len() implies (#[trigger] changed[i]).0.well_formed()
        && changed[i].1.well_formed() by {
        assert(entries[i].0.well_formed());
    }
}

/// Taking out keys of which none is there changes nothing.
pub proof fn lemma_without_absent_keys(entries: Seq<(Doc, Doc)>, keys: Seq<Seq<char>>)
    requires
        forall|i: int| 0 <= i < keys.len() ==> position(entries, #[trigger] keys[i]) is None,
    ensures
        without_keys(entries, keys) == entries,
    decreases keys.len(),
{
    if keys.len() > 0 {
        assert forall|i: int| 0 <= i < keys.drop_last().len() implies position(
            entries,
            #[trigger] keys.drop_last()[i],
        ) is None by {
            assert(keys[i] == keys.drop_last()[i]);
        }
        lemma_without_absent_keys(entries, keys.drop_last());
        assert(keys[keys.len() - 1] == keys.last());
    }
}

/// Changing the mapping under `key` changes what is found under that key, and
/// nothing else.
pub proof fn lemma_with_child(
    entries: Seq<(Doc, Doc)>,
    key: Seq<char>,
    change: spec_fn(Seq<(Doc, Doc)>) -> Seq<(Doc, Doc)>,
    other: Seq<char>,
)
    ensures
        other != key ==> lookup(with_child(entries, key, change), other) == lookup(entries, other),
        lookup(with_child(entries, key, change), key) == (match lookup(entries, key) {
            Some(Doc::Mapping(inner)) => Some(Doc::Mapping(change(inner))),
            found => found,
        }),
        distinct_keys(entries) ==> distinct_keys(with_child(entries, key, change)),
        with_child(entries, key, change).len() == entries.len(),
{
    lemma_position_found(entries, key);
    lemma_position_found(entries, other);
    match position(entries, key) {
        Some(at) => match entries[at].1 {
            Doc::Mapping(inner) => {
                lemma_update_value(entries, at, Doc::Mapping(change(inner)), key);
                lemma_update_value(entries, at, Doc::Mapping(change(inner)), other);
            },
            _ => {},
        },
        None => {},
    }
}

/// Changing the mapping under `key` into a well-formed one keeps a mapping
/// well formed.
pub proof fn lemma_with_child_well_formed(
    entries: Seq<(Doc, Doc)>,
    key: Seq<char>,
    change: spec_fn(Seq<(Doc, Doc)>) -> Seq<(Doc, Doc)>,
)
    requires
        Doc::Mapping(entries).well_formed(),
        lookup(entries, key) matches Some(Doc::Mapping(inner)) ==> Doc::Mapping(
            change(inner),
        ).well_formed(),
    ensures
        Doc::Mapping(with_child(entries, key, change)).well_formed(),
{
    lemma_position_found(entries, key);
    match position(entries, key) {
        Some(at) => match entries[at].1 {
            Doc::Mapping(inner) => {
                lemma_well_formed_update(entries, at, Doc::Mapping(change(inner)));
            },
            _ => {},
        },
        None => {},
    }
}

/// Taking keys out of a well-formed mapping keeps it well formed.
pub proof fn lemma_without_keys_well_formed(entries: Seq<(Doc, Doc)>, keys: Seq<Seq<char>>)
    requires
        Doc::Mapping(entries).well_formed(),
    ensures
        Doc::Mapping(without_keys(entries, keys)).well_formed(),
{
    lemma_without_keys(entries, keys, Seq::<char>::empty());
    lemma_well_formed_part(entries, without_keys(entries, keys));
}

} // verus!
