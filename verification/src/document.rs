//! The model of a YAML document that the contracts speak of.

use vstd::prelude::*;

verus! {

/// The mathematical model of a YAML document: a tree of keyed nodes.
///
/// A mapping is the sequence of its entries in document order, each a key and
/// a value. Numbers and tags are carried as they are; nothing here looks
/// inside them.
pub ghost enum Doc {
    Null,
    Bool(bool),
    Number(serde_yaml::Number),
    Text(Seq<char>),
    Sequence(Seq<Doc>),
    Mapping(Seq<(Doc, Doc)>),
    Tagged(serde_yaml::value::Tag, Box<Doc>),
}

/// No two entries share a key.
pub open spec fn distinct_keys(entries: Seq<(Doc, Doc)>) -> bool {
    forall|i: int, j: int|
        0 <= i < j < entries.len() ==> (#[trigger] entries[i]).0 != (#[trigger] entries[j]).0
}

impl Doc {
    /// Every mapping in the document, at any depth, has pairwise distinct keys.
    pub open spec fn well_formed(self) -> bool
        decreases self,
    {
        match self {
            Doc::Sequence(items) => forall|i: int|
                0 <= i < items.len() ==> (#[trigger] items[i]).well_formed(),
            Doc::Mapping(entries) => {
                &&& distinct_keys(entries)
                &&& forall|i: int|
                    0 <= i < entries.len() ==> {
                        &&& (#[trigger] entries[i]).0.well_formed()
                        &&& entries[i].1.well_formed()
                    }
            },
            Doc::Tagged(_, inner) => inner.well_formed(),
            _ => true,
        }
    }

    /// The value that a mapping holds under the string `key`. A document that
    /// is no mapping holds nothing.
    pub open spec fn get(self, key: Seq<char>) -> Option<Doc> {
        match self {
            Doc::Mapping(entries) => lookup(entries, key),
            _ => None,
        }
    }
}

/// One step further down a path: the value under `key` in what was found so
/// far.
pub open spec fn then_get(found: Option<Doc>, key: Seq<char>) -> Option<Doc> {
    match found {
        Some(doc) => doc.get(key),
        None => None,
    }
}

/// The position of the first entry whose key is the string `key`, if there is
/// one.
pub open spec fn position(entries: Seq<(Doc, Doc)>, key: Seq<char>) -> Option<int>
    decreases entries.len(),
{
    if entries.len() == 0 {
        None
    } else if entries[0].0 == Doc::Text(key) {
        Some(0)
    } else {
        match position(entries.drop_first(), key) {
            Some(i) => Some(i + 1),
            None => None,
        }
    }
}

/// Some entry has the string `key` as its key.
pub open spec fn has_key(entries: Seq<(Doc, Doc)>, key: Seq<char>) -> bool {
    exists|i: int| 0 <= i < entries.len() && (#[trigger] entries[i]).0 == Doc::Text(key)
}

/// The value found under the string `key`, if there is one.
pub open spec fn lookup(entries: Seq<(Doc, Doc)>, key: Seq<char>) -> Option<Doc> {
    match position(entries, key) {
        Some(i) => Some(entries[i].1),
        None => None,
    }
}

/// The key is one of the strings `keys`.
pub open spec fn listed(keys: Seq<Seq<char>>, key: Doc) -> bool {
    exists|i: int| 0 <= i < keys.len() && key == Doc::Text(#[trigger] keys[i])
}

/// The test that an entry passes when its key is none of the strings `keys`.
pub open spec fn unlisted(keys: Seq<Seq<char>>) -> spec_fn((Doc, Doc)) -> bool {
    |e: (Doc, Doc)| !listed(keys, e.0)
}

/// The entries without the one found under `key`; the others keep their order.
pub open spec fn without_key(entries: Seq<(Doc, Doc)>, key: Seq<char>) -> Seq<(Doc, Doc)> {
    match position(entries, key) {
        Some(i) => entries.remove(i),
        None => entries,
    }
}

/// The entries after each of `keys` has been taken out in turn.
pub open spec fn without_keys(entries: Seq<(Doc, Doc)>, keys: Seq<Seq<char>>) -> Seq<(Doc, Doc)>
    decreases keys.len(),
{
    if keys.len() == 0 {
        entries
    } else {
        without_key(without_keys(entries, keys.drop_last()), keys.last())
    }
}

/// The entries with `change` applied to the mapping found under `key`. Where
/// there is no such entry, or its value is no mapping, nothing changes.
pub open spec fn with_child(
    entries: Seq<(Doc, Doc)>,
    key: Seq<char>,
    change: spec_fn(Seq<(Doc, Doc)>) -> Seq<(Doc, Doc)>,
) -> Seq<(Doc, Doc)> {
    match position(entries, key) {
        Some(i) => match entries[i].1 {
            Doc::Mapping(inner) => entries.update(i, (entries[i].0, Doc::Mapping(change(inner)))),
            _ => entries,
        },
        None => entries,
    }
}

} // verus!
