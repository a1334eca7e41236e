//! The YAML library as the sanitizer sees it: its values and mappings, and
//! what is taken on trust of them.

use vstd::prelude::*;
use crate::document::{Doc, position, without_key};

verus! {

/// `serde_yaml::Value`: any YAML value.
#[verifier::external_type_specification]
#[verifier::external_body]
pub struct ExValue(serde_yaml::Value);

/// `serde_yaml::Mapping`: a YAML mapping, which keeps its entries in the
/// order in which they came.
#[verifier::external_type_specification]
#[verifier::external_body]
pub struct ExMapping(serde_yaml::Mapping);

/// `serde_yaml::Number`: a YAML number, carried through as it is.
#[verifier::external_type_specification]
#[verifier::external_body]
pub struct ExNumber(serde_yaml::Number);

/// `serde_yaml::value::Tag`: the tag of a tagged value, carried through as
/// it is.
#[verifier::external_type_specification]
#[verifier::external_body]
pub struct ExTag(serde_yaml::value::Tag);

/// `serde_yaml::Error`: what the library reports when it cannot read or
/// write a document.
#[verifier::external_type_specification]
#[verifier::external_body]
pub struct ExError(serde_yaml::Error);

/// The document that a `serde_yaml::Value` holds.
pub uninterp spec fn value_content(v: serde_yaml::Value) -> Doc;

/// The entries that a `serde_yaml::Mapping` holds, in its iteration order.
pub uninterp spec fn mapping_entries(m: serde_yaml::Mapping) -> Seq<(Doc, Doc)>;

/// What `serde_yaml::from_str` makes of a text: the document, or `None` where
/// it reports an error.
pub uninterp spec fn yaml_parse(text: Seq<char>) -> Option<Doc>;

/// What `serde_yaml::to_string` writes for a document, or `None` where it
/// reports an error.
pub uninterp spec fn yaml_render(doc: Doc) -> Option<Seq<char>>;

/// `serde_yaml::from_str` at the type `serde_yaml::Value`.
///
/// Trusted: the outcome depends on the text alone, and a value that comes out
/// holds no mapping with a repeated key (a `Mapping` is an index map, and the
/// parser reports a repeated key as an error).
#[verifier::external_body]
pub(crate) fn parse_value(text: &str) -> (r: Result<serde_yaml::Value, serde_yaml::Error>)
    ensures
        match r {
            Ok(v) => yaml_parse(text@) == Some(value_content(v)) && value_content(v).well_formed(),
            Err(_) => yaml_parse(text@) is None,
        },
{
    serde_yaml::from_str::<serde_yaml::Value>(text)
}

/// `serde_yaml::to_string` on a `serde_yaml::Value`.
///
/// Trusted: the outcome depends on the document that the value holds, and on
/// nothing else.
#[verifier::external_body]
pub(crate) fn render_value(v: &serde_yaml::Value) -> (r: Result<String, serde_yaml::Error>)
    ensures
        match r {
            Ok(text) => yaml_render(value_content(*v)) == Some(text@),
            Err(_) => yaml_render(value_content(*v)) is None,
        },
{
    serde_yaml::to_string(v)
}

/// The variant `serde_yaml::Value::Mapping`, borrowed for change.
///
/// Trusted: a value that is a mapping hands out that mapping, and holds
/// whatever the mapping holds once the borrow ends; any other value hands out
/// nothing and stays as it is.
#[verifier::external_body]
pub(crate) fn as_mapping_mut(v: &mut serde_yaml::Value) -> (r: Option<&mut serde_yaml::Mapping>)
    ensures
        r is Some <==> value_content(*old(v)) is Mapping,
        r matches Some(m) ==> {
            &&& value_content(*old(v)) == Doc::Mapping(mapping_entries(*m))
            &&& value_content(*final(v)) == Doc::Mapping(mapping_entries(*final(m)))
        },
        r is None ==> *final(v) == *old(v),
{
    match v {
        serde_yaml::Value::Mapping(m) => Some(m),
        _ => None,
    }
}

/// `serde_yaml::Mapping::get_mut` with a string key, narrowed to a value that
/// is itself a mapping.
///
/// Trusted: the lookup finds the entry whose key is that string. Where its
/// value is a mapping, that mapping is handed out, and once the borrow ends
/// the entry holds what the mapping then holds, in the same place and under
/// the same key. Otherwise nothing is handed out and nothing changes.
#[verifier::external_body]
pub(crate) fn child_mapping_mut<'a>(m: &'a mut serde_yaml::Mapping, key: &str) -> (r: Option<
    &'a mut serde_yaml::Mapping,
>)
    ensures
        r is Some <==> (position(mapping_entries(*old(m)), key@) matches Some(i)
            && mapping_entries(*old(m))[i].1 is Mapping),
        r matches Some(c) ==> (position(mapping_entries(*old(m)), key@) matches Some(i) && {
            &&& mapping_entries(*old(m))[i].1 == Doc::Mapping(mapping_entries(*c))
            &&& mapping_entries(*final(m)) == mapping_entries(*old(m)).update(
                i,
                (mapping_entries(*old(m))[i].0, Doc::Mapping(mapping_entries(*final(c)))),
            )
        }),
        r is None ==> *final(m) == *old(m),
{
    match m.get_mut(key) {
        Some(serde_yaml::Value::Mapping(c)) => Some(c),
        _ => None,
    }
}

/// `serde_yaml::Mapping::shift_remove` with a string key.
///
/// Trusted: the entry under that key leaves, if there is one, and the entries
/// behind it move up without changing their order.
#[verifier::external_body]
pub(crate) fn remove_key(m: &mut serde_yaml::Mapping, key: &str)
    ensures
        mapping_entries(*final(m)) == without_key(mapping_entries(*old(m)), key@),
{
    m.shift_remove(key);
}

/// `serde_yaml::Mapping::is_empty`.
///
/// Trusted: it tells whether the mapping holds no entry.
#[verifier::external_body]
pub(crate) fn is_empty(m: &serde_yaml::Mapping) -> (r: bool)
    ensures
        r == (mapping_entries(*m).len() == 0),
{
    m.is_empty()
}

} // verus!
