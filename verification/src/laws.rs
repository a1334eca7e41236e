//! What holds of every sanitized manifest.

use vstd::prelude::*;
use crate::document::{
    listed, lookup, position, then_get, unlisted, with_child, without_key, without_keys, Doc,
};
use crate::entries::{
    lemma_position_found, lemma_update_value, lemma_well_formed_child, lemma_well_formed_part,
    lemma_well_formed_update, lemma_with_child, lemma_with_child_well_formed,
    lemma_without_absent_keys, lemma_without_key, lemma_without_keys, lemma_without_keys_is_filter,
    lemma_without_keys_well_formed,
};
use crate::sanitize::{
    clean_metadata, clean_root, clean_spec, clean_template, is_clean, pruned, pruned_section,
    sanitized, section_clean, server_fields, template_fields, vendor_annotations, vendor_labels,
};
use crate::yaml::yaml_render;

verus! {

/// The names of the sections and fields differ from each other where the
/// sanitizer relies on it.
pub proof fn lemma_names_differ()
    ensures
        "annotations"@ != "labels"@,
        !server_fields().contains("annotations"@),
        !server_fields().contains("labels"@),
        "metadata"@ != "status"@,
        "metadata"@ != "spec"@,
        "status"@ != "spec"@,
        template_fields().contains("annotations"@),
        template_fields().contains("creationTimestamp"@),
{
    reveal_strlit("annotations");
    reveal_strlit("labels");
    reveal_strlit("metadata");
    reveal_strlit("status");
    reveal_strlit("spec");
    reveal_strlit("managedFields");
    reveal_strlit("creationTimestamp");
    reveal_strlit("resourceVersion");
    reveal_strlit("selfLink");
    reveal_strlit("uid");
    reveal_strlit("generation");
    reveal_strlit("ownerReferences");
    assert("annotations"@.len() == 11);
    assert("labels"@.len() == 6);
    assert("metadata"@.len() == 8);
    assert("status"@.len() == 6);
    assert("spec"@.len() == 4);
    let fields = server_fields();
    assert(fields[0].len() == 13);
    assert(fields[1].len() == 17);
    assert(fields[2].len() == 15);
    assert(fields[3].len() == 8);
    assert(fields[4].len() == 3);
    assert(fields[5].len() == 10);
    assert(fields[6].len() == 15);
    assert(template_fields()[0] == "annotations"@);
    assert(template_fields()[1] == "creationTimestamp"@);
}

/// Pruning a section changes what is found under its name as
/// `pruned_section` says, and nothing else.
pub proof fn lemma_pruned(
    entries: Seq<(Doc, Doc)>,
    section: Seq<char>,
    keys: Seq<Seq<char>>,
    other: Seq<char>,
)
    requires
        Doc::Mapping(entries).well_formed(),
    ensures
        other != section ==> lookup(pruned(entries, section, keys), other) == lookup(
            entries,
            other,
        ),
        lookup(pruned(entries, section, keys), section) == pruned_section(
            lookup(entries, section),
            keys,
        ),
        Doc::Mapping(pruned(entries, section, keys)).well_formed(),
{
    lemma_position_found(entries, section);
    lemma_position_found(entries, other);
    lemma_well_formed_child(entries, section);
    match position(entries, section) {
        Some(at) => match entries[at].1 {
            Doc::Mapping(inner) => {
                let kept = without_keys(inner, keys);
                lemma_well_formed_child(inner, section);
                lemma_without_keys_is_filter(inner, keys);
                lemma_without_keys_well_formed(inner, keys);
                if kept.len() == 0 {
                    lemma_without_key(entries, section, other);
                    lemma_well_formed_part(entries, without_key(entries, section));
                } else {
                    lemma_update_value(entries, at, Doc::Mapping(kept), other);
                    lemma_update_value(entries, at, Doc::Mapping(kept), section);
                    lemma_well_formed_update(entries, at, Doc::Mapping(kept));
                }
            },
            _ => {},
        },
        None => {},
    }
}

/// What cleaning does to the entries of `metadata`, key by key.
pub proof fn lemma_clean_metadata(entries: Seq<(Doc, Doc)>, other: Seq<char>)
    requires
        Doc::Mapping(entries).well_formed(),
    ensures
        lookup(clean_metadata(entries), "annotations"@) == pruned_section(
            lookup(entries, "annotations"@),
            vendor_annotations(),
        ),
        lookup(clean_metadata(entries), "labels"@) == pruned_section(
            lookup(entries, "labels"@),
            vendor_labels(),
        ),
        server_fields().contains(other) ==> lookup(clean_metadata(entries), other) is None,
        other != "annotations"@ && other != "labels"@ && !server_fields().contains(other)
            ==> lookup(clean_metadata(entries), other) == lookup(entries, other),
        Doc::Mapping(clean_metadata(entries)).well_formed(),
{
    lemma_names_differ();
    let first = pruned(entries, "annotations"@, vendor_annotations());
    let second = without_keys(first, server_fields());
    lemma_pruned(entries, "annotations"@, vendor_annotations(), "labels"@);
    lemma_pruned(entries, "annotations"@, vendor_annotations(), other);
    lemma_well_formed_child(first, other);
    lemma_without_keys(first, server_fields(), "annotations"@);
    lemma_without_keys(first, server_fields(), "labels"@);
    lemma_without_keys(first, server_fields(), other);
    lemma_without_keys_well_formed(first, server_fields());
    lemma_pruned(second, "labels"@, vendor_labels(), "annotations"@);
    lemma_pruned(second, "labels"@, vendor_labels(), other);
}

/// What cleaning does to the entries of `spec`: only the `metadata` of the pod
/// template changes, and only where the path to it runs through mappings.
pub proof fn lemma_clean_spec(entries: Seq<(Doc, Doc)>, other: Seq<char>)
    requires
        Doc::Mapping(entries).well_formed(),
    ensures
        then_get(lookup(clean_spec(entries), "template"@), "metadata"@) == (match then_get(
            lookup(entries, "template"@),
            "metadata"@,
        ) {
            Some(Doc::Mapping(metadata)) => Some(
                Doc::Mapping(without_keys(metadata, template_fields())),
            ),
            found => found,
        }),
        template_fields().contains(other) ==> then_get(
            then_get(lookup(clean_spec(entries), "template"@), "metadata"@),
            other,
        ) is None,
        !(then_get(lookup(entries, "template"@), "metadata"@) matches Some(Doc::Mapping(_)))
            ==> clean_spec(entries) == entries,
        Doc::Mapping(clean_spec(entries)).well_formed(),
{
    let inner = |metadata: Seq<(Doc, Doc)>| without_keys(metadata, template_fields());
    let outer = |template: Seq<(Doc, Doc)>| clean_template(template);
    lemma_with_child(entries, "template"@, outer, "template"@);
    lemma_well_formed_child(entries, "template"@);
    lemma_position_found(entries, "template"@);
    match lookup(entries, "template"@) {
        Some(Doc::Mapping(template)) => {
            lemma_with_child(template, "metadata"@, inner, "metadata"@);
            lemma_well_formed_child(template, "metadata"@);
            lemma_position_found(template, "metadata"@);
            match lookup(template, "metadata"@) {
                Some(Doc::Mapping(metadata)) => {
                    lemma_well_formed_child(metadata, other);
                    lemma_without_keys(metadata, template_fields(), other);
                    lemma_without_keys_well_formed(metadata, template_fields());
                },
                _ => {
                    assert(clean_template(template) =~= template);
                },
            }
            lemma_with_child_well_formed(template, "metadata"@, inner);
            let at = position(entries, "template"@)->0;
            if clean_template(template) == template {
                assert(entries.update(at, (entries[at].0, Doc::Mapping(template))) =~= entries);
            }
        },
        _ => {},
    }
    lemma_with_child_well_formed(entries, "template"@, outer);
}

/// What cleaning does to the top-level entries of a manifest, key by key.
pub proof fn lemma_clean_root(entries: Seq<(Doc, Doc)>, other: Seq<char>)
    requires
        Doc::Mapping(entries).well_formed(),
    ensures
        lookup(clean_root(entries), "metadata"@) == (match lookup(entries, "metadata"@) {
            Some(Doc::Mapping(metadata)) => Some(Doc::Mapping(clean_metadata(metadata))),
            found => found,
        }),
        lookup(clean_root(entries), "status"@) is None,
        lookup(clean_root(entries), "spec"@) == (match lookup(entries, "spec"@) {
            Some(Doc::Mapping(spec)) => Some(Doc::Mapping(clean_spec(spec))),
            found => found,
        }),
        other != "metadata"@ && other != "status"@ && other != "spec"@ ==> lookup(
            clean_root(entries),
            other,
        ) == lookup(entries, other),
        Doc::Mapping(clean_root(entries)).well_formed(),
{
    lemma_names_differ();
    let on_metadata = |metadata: Seq<(Doc, Doc)>| clean_metadata(metadata);
    let on_spec = |spec: Seq<(Doc, Doc)>| clean_spec(spec);
    let first = with_child(entries, "metadata"@, on_metadata);
    let second = without_key(first, "status"@);
    lemma_well_formed_child(entries, "metadata"@);
    match lookup(entries, "metadata"@) {
        Some(Doc::Mapping(metadata)) => {
            lemma_clean_metadata(metadata, other);
        },
        _ => {},
    }
    lemma_with_child(entries, "metadata"@, on_metadata, "metadata"@);
    lemma_with_child(entries, "metadata"@, on_metadata, "status"@);
    lemma_with_child(entries, "metadata"@, on_metadata, "spec"@);
    lemma_with_child(entries, "metadata"@, on_metadata, other);
    lemma_with_child_well_formed(entries, "metadata"@, on_metadata);
    lemma_without_key(first, "status"@, "metadata"@);
    lemma_without_key(first, "status"@, "spec"@);
    lemma_without_key(first, "status"@, other);
    lemma_well_formed_child(first, other);
    lemma_well_formed_part(first, second);
    lemma_well_formed_child(second, "spec"@);
    match lookup(second, "spec"@) {
        Some(Doc::Mapping(spec)) => {
            lemma_clean_spec(spec, other);
        },
        _ => {},
    }
    lemma_with_child(second, "spec"@, on_spec, "spec"@);
    lemma_with_child(second, "spec"@, on_spec, "metadata"@);
    lemma_with_child(second, "spec"@, on_spec, "status"@);
    lemma_with_child(second, "spec"@, on_spec, other);
    lemma_with_child_well_formed(second, "spec"@, on_spec);
}

/// Pruning leaves a section clean.
pub proof fn lemma_pruned_section_clean(section: Option<Doc>, keys: Seq<Seq<char>>)
    requires
        section matches Some(doc) ==> doc.well_formed(),
    ensures
        section_clean(pruned_section(section, keys), keys),
        pruned_section(section, keys) matches Some(doc) ==> doc.well_formed(),
{
    match section {
        Some(Doc::Mapping(inner)) => {
            lemma_without_keys_is_filter(inner, keys);
            lemma_without_keys_well_formed(inner, keys);
            assert forall|i: int| 0 <= i < keys.len() implies lookup(
                without_keys(inner, keys),
                #[trigger] keys[i],
            ) is None by {
                lemma_without_keys(inner, keys, keys[i]);
            }
        },
        _ => {},
    }
}

/// Pruning changes nothing where the section is clean.
pub proof fn lemma_pruned_fixed(entries: Seq<(Doc, Doc)>, section: Seq<char>, keys: Seq<Seq<char>>)
    requires
        section_clean(lookup(entries, section), keys),
    ensures
        pruned(entries, section, keys) == entries,
{
    lemma_position_found(entries, section);
    match position(entries, section) {
        Some(at) => match entries[at].1 {
            Doc::Mapping(inner) => {
                lemma_without_absent_keys(inner, keys);
                assert(entries.update(at, (entries[at].0, Doc::Mapping(inner))) =~= entries);
            },
            _ => {},
        },
        None => {},
    }
}

/// Changing the mapping under `key` into itself changes nothing.
pub proof fn lemma_with_child_fixed(
    entries: Seq<(Doc, Doc)>,
    key: Seq<char>,
    change: spec_fn(Seq<(Doc, Doc)>) -> Seq<(Doc, Doc)>,
)
    requires
        lookup(entries, key) matches Some(Doc::Mapping(inner)) ==> change(inner) == inner,
    ensures
        with_child(entries, key, change) == entries,
{
    lemma_position_found(entries, key);
    match position(entries, key) {
        Some(at) => match entries[at].1 {
            Doc::Mapping(inner) => {
                assert(entries.update(at, (entries[at].0, Doc::Mapping(inner))) =~= entries);
            },
            _ => {},
        },
        None => {},
    }
}

/// Of a section from which keys are taken out, exactly the entries under
/// those keys leave: what stays has none of the keys, every entry with
/// another key stays, and what stays is the old section filtered, so it
/// keeps its order.
pub proof fn law_only_listed_keys_leave(entries: Seq<(Doc, Doc)>, keys: Seq<Seq<char>>)
    ensures
        pruned_section(Some(Doc::Mapping(entries)), keys) == (if entries.filter(
            unlisted(keys),
        ).len() == 0 {
            None
        } else {
            Some(Doc::Mapping(entries.filter(unlisted(keys))))
        }),
        forall|i: int|
            0 <= i < entries.filter(unlisted(keys)).len() ==> {
                &&& !listed(keys, (#[trigger] entries.filter(unlisted(keys))[i]).0)
                &&& entries.contains(entries.filter(unlisted(keys))[i])
            },
        forall|i: int|
            0 <= i < entries.len() && !listed(keys, (#[trigger] entries[i]).0)
                ==> entries.filter(unlisted(keys)).contains(entries[i]),
{
    let kept = entries.filter(unlisted(keys));
    assert forall|i: int| 0 <= i < kept.len() implies !listed(keys, (#[trigger] kept[i]).0)
        && entries.contains(kept[i]) by {
        entries.lemma_filter_pred(unlisted(keys), i);
        entries.lemma_filter_contains_rev(unlisted(keys), kept[i]);
    }
    assert forall|i: int|
        0 <= i < entries.len() && !listed(keys, (#[trigger] entries[i]).0) implies kept.contains(
        entries[i],
    ) by {
        entries.lemma_filter_contains(unlisted(keys), i);
    }
}

/// After sanitizing, `metadata.annotations` is what pruning the injected
/// annotation keys leaves of it: those keys are gone, every other annotation
/// is kept in its order, and the field is absent where nothing is left.
pub proof fn law_vendor_annotations_leave(doc: Doc)
    requires
        doc.well_formed(),
    ensures
        then_get(sanitized(doc).get("metadata"@), "annotations"@) == pruned_section(
            then_get(doc.get("metadata"@), "annotations"@),
            vendor_annotations(),
        ),
{
    match doc {
        Doc::Mapping(entries) => {
            lemma_clean_root(entries, "metadata"@);
            lemma_well_formed_child(entries, "metadata"@);
            match lookup(entries, "metadata"@) {
                Some(Doc::Mapping(metadata)) => {
                    lemma_clean_metadata(metadata, "annotations"@);
                },
                _ => {},
            }
        },
        _ => {},
    }
}

/// After sanitizing, `metadata.labels` is what pruning the injected label key
/// leaves of it: that key is gone, every other label is kept in its order,
/// and the field is absent where nothing is left.
pub proof fn law_vendor_labels_leave(doc: Doc)
    requires
        doc.well_formed(),
    ensures
        then_get(sanitized(doc).get("metadata"@), "labels"@) == pruned_section(
            then_get(doc.get("metadata"@), "labels"@),
            vendor_labels(),
        ),
{
    match doc {
        Doc::Mapping(entries) => {
            lemma_clean_root(entries, "metadata"@);
            lemma_well_formed_child(entries, "metadata"@);
            match lookup(entries, "metadata"@) {
                Some(Doc::Mapping(metadata)) => {
                    lemma_clean_metadata(metadata, "labels"@);
                },
                _ => {},
            }
        },
        _ => {},
    }
}

/// After sanitizing there is no `status`, and `metadata` holds none of the
/// fields that the server fills in.
pub proof fn law_server_fields_leave(doc: Doc)
    requires
        doc.well_formed(),
    ensures
        sanitized(doc).get("status"@) is None,
        forall|i: int|
            0 <= i < server_fields().len() ==> then_get(
                sanitized(doc).get("metadata"@),
                #[trigger] server_fields()[i],
            ) is None,
{
    match doc {
        Doc::Mapping(entries) => {
            lemma_clean_root(entries, "metadata"@);
            lemma_well_formed_child(entries, "metadata"@);
            match lookup(entries, "metadata"@) {
                Some(Doc::Mapping(metadata)) => {
                    assert forall|i: int| 0 <= i < server_fields().len() implies lookup(
                        clean_metadata(metadata),
                        #[trigger] server_fields()[i],
                    ) is None by {
                        lemma_clean_metadata(metadata, server_fields()[i]);
                    }
                },
                _ => {},
            }
        },
        _ => {},
    }
}

/// After sanitizing, the `metadata` of a pod template holds neither
/// annotations nor a creation time, and is otherwise what it was. A manifest
/// in which `spec.template.metadata` is no mapping keeps its `spec` as it is.
pub proof fn law_template_metadata(doc: Doc)
    requires
        doc.well_formed(),
    ensures
        ({
            let before = then_get(then_get(doc.get("spec"@), "template"@), "metadata"@);
            let after = then_get(then_get(sanitized(doc).get("spec"@), "template"@), "metadata"@);
            &&& then_get(after, "annotations"@) is None
            &&& then_get(after, "creationTimestamp"@) is None
            &&& after == (match before {
                Some(Doc::Mapping(metadata)) => Some(
                    Doc::Mapping(without_keys(metadata, template_fields())),
                ),
                found => found,
            })
            &&& !(before matches Some(Doc::Mapping(_))) ==> sanitized(doc).get("spec"@) == doc.get(
                "spec"@,
            )
        }),
{
    lemma_names_differ();
    match doc {
        Doc::Mapping(entries) => {
            lemma_clean_root(entries, "spec"@);
            lemma_well_formed_child(entries, "spec"@);
            match lookup(entries, "spec"@) {
                Some(Doc::Mapping(spec)) => {
                    lemma_clean_spec(spec, "annotations"@);
                    lemma_clean_spec(spec, "creationTimestamp"@);
                },
                _ => {},
            }
        },
        _ => {},
    }
}

/// Sanitizing a well-formed manifest gives a well-formed manifest that is
/// clean.
pub proof fn law_sanitized_is_clean(doc: Doc)
    requires
        doc.well_formed(),
    ensures
        sanitized(doc).well_formed(),
        is_clean(sanitized(doc)),
{
    law_vendor_annotations_leave(doc);
    law_vendor_labels_leave(doc);
    law_server_fields_leave(doc);
    law_template_metadata(doc);
    lemma_names_differ();
    match doc {
        Doc::Mapping(entries) => {
            lemma_clean_root(entries, "metadata"@);
            lemma_well_formed_child(entries, "metadata"@);
            match lookup(entries, "metadata"@) {
                Some(Doc::Mapping(metadata)) => {
                    lemma_well_formed_child(metadata, "annotations"@);
                    lemma_well_formed_child(metadata, "labels"@);
                },
                _ => {},
            }
        },
        _ => {},
    }
    lemma_pruned_section_clean(
        then_get(doc.get("metadata"@), "annotations"@),
        vendor_annotations(),
    );
    lemma_pruned_section_clean(then_get(doc.get("metadata"@), "labels"@), vendor_labels());
    let after = then_get(then_get(sanitized(doc).get("spec"@), "template"@), "metadata"@);
    assert forall|i: int| 0 <= i < template_fields().len() implies then_get(
        after,
        #[trigger] template_fields()[i],
    ) is None by {
        assert(template_fields()[0] == "annotations"@);
        assert(template_fields()[1] == "creationTimestamp"@);
    }
}

/// Sanitizing changes nothing in a manifest that is clean.
pub proof fn law_clean_is_unchanged(doc: Doc)
    requires
        is_clean(doc),
    ensures
        sanitized(doc) == doc,
{
    match doc {
        Doc::Mapping(entries) => {
            let on_metadata = |metadata: Seq<(Doc, Doc)>| clean_metadata(metadata);
            let on_spec = |spec: Seq<(Doc, Doc)>| clean_spec(spec);
            match lookup(entries, "metadata"@) {
                Some(Doc::Mapping(metadata)) => {
                    lemma_pruned_fixed(metadata, "annotations"@, vendor_annotations());
                    lemma_without_absent_keys(metadata, server_fields());
                    lemma_pruned_fixed(metadata, "labels"@, vendor_labels());
                },
                _ => {},
            }
            lemma_with_child_fixed(entries, "metadata"@, on_metadata);
            match lookup(entries, "spec"@) {
                Some(Doc::Mapping(spec)) => {
                    let on_template = |template: Seq<(Doc, Doc)>| clean_template(template);
                    let on_inner = |metadata: Seq<(Doc, Doc)>|
                        without_keys(metadata, template_fields());
                    match lookup(spec, "template"@) {
                        Some(Doc::Mapping(template)) => {
                            match lookup(template, "metadata"@) {
                                Some(Doc::Mapping(metadata)) => {
                                    lemma_without_absent_keys(metadata, template_fields());
                                },
                                _ => {},
                            }
                            lemma_with_child_fixed(template, "metadata"@, on_inner);
                        },
                        _ => {},
                    }
                    lemma_with_child_fixed(spec, "template"@, on_template);
                },
                _ => {},
            }
            lemma_with_child_fixed(entries, "spec"@, on_spec);
        },
        _ => {},
    }
}

/// Sanitizing leaves alone what it is not meant to take out: at the top level
/// every field but `metadata`, `status` and `spec`, and in `metadata` every
/// field but `annotations`, `labels` and those that the server fills in.
pub proof fn law_other_fields_stay(doc: Doc, key: Seq<char>)
    requires
        doc.well_formed(),
    ensures
        key != "metadata"@ && key != "status"@ && key != "spec"@ ==> sanitized(doc).get(key)
            == doc.get(key),
        key != "annotations"@ && key != "labels"@ && !server_fields().contains(key) ==> then_get(
            sanitized(doc).get("metadata"@),
            key,
        ) == then_get(doc.get("metadata"@), key),
{
    match doc {
        Doc::Mapping(entries) => {
            lemma_clean_root(entries, key);
            lemma_well_formed_child(entries, "metadata"@);
            match lookup(entries, "metadata"@) {
                Some(Doc::Mapping(metadata)) => {
                    lemma_clean_metadata(metadata, key);
                },
                _ => {},
            }
        },
        _ => {},
    }
}

/// Sanitizing twice gives what sanitizing once gives, and so the same text
/// when it is written out.
pub proof fn law_sanitize_idempotent(doc: Doc)
    requires
        doc.well_formed(),
    ensures
        sanitized(sanitized(doc)) == sanitized(doc),
        yaml_render(sanitized(sanitized(doc))) == yaml_render(sanitized(doc)),
{
    law_sanitized_is_clean(doc);
    law_clean_is_unchanged(sanitized(doc));
}

} // verus!
