//! Sanitizing a manifest: the fields that the cluster manages and the keys
//! that a management layer injects are taken out.

use vstd::prelude::*;
use crate::document::{
    lookup, position, then_get, unlisted, with_child, without_key, without_keys, Doc,
};
use crate::entries::{lemma_position_found, lemma_position_is};
use crate::laws::law_sanitized_is_clean;
use crate::yaml::{
    as_mapping_mut, child_mapping_mut, is_empty, mapping_entries, parse_value, remove_key,
    render_value, value_content, yaml_parse, yaml_render,
};

verus! {

/// The annotation keys that a management layer injects.
pub open spec fn vendor_annotations() -> Seq<Seq<char>> {
    seq![
        "field.cattle.io/targetWorkloadIds"@,
        "workload.cattle.io/targetWorkloadIdNoop"@,
        "workload.cattle.io/workloadPortBased"@,
        "field.cattle.io/ingressState"@,
        "field.cattle.io/publicEndpoints"@,
        "deployment.kubernetes.io/revision"@,
        "field.cattle.io/creatorId"@,
        "cattle.io/timestamp"@,
        "kubectl.kubernetes.io/last-applied-configuration"@,
        "objectset.rio.cattle.io/id"@,
        "objectset.rio.cattle.io/applied"@,
    ]
}

/// The label keys that a management layer injects.
pub open spec fn vendor_labels() -> Seq<Seq<char>> {
    seq!["cattle.io/creator"@]
}

/// The fields of `metadata` that the cluster fills in.
pub open spec fn server_fields() -> Seq<Seq<char>> {
    seq![
        "managedFields"@,
        "creationTimestamp"@,
        "resourceVersion"@,
        "selfLink"@,
        "uid"@,
        "generation"@,
        "ownerReferences"@,
    ]
}

/// The fields of a pod template's `metadata` that are dropped whole.
pub open spec fn template_fields() -> Seq<Seq<char>> {
    seq!["annotations"@, "creationTimestamp"@]
}

/// The views of a list of keys.
pub open spec fn key_views(keys: Seq<&'static str>) -> Seq<Seq<char>> {
    keys.map_values(|k: &'static str| k@)
}

/// The entries with `keys` taken out of the mapping found under `section`,
/// and without that section where this leaves it empty. A section that is
/// absent, or no mapping, is left alone.
pub open spec fn pruned(entries: Seq<(Doc, Doc)>, section: Seq<char>, keys: Seq<Seq<char>>) -> Seq<
    (Doc, Doc),
> {
    match position(entries, section) {
        Some(i) => match entries[i].1 {
            Doc::Mapping(inner) => {
                let kept = without_keys(inner, keys);
                if kept.len() == 0 {
                    entries.remove(i)
                } else {
                    entries.update(i, (entries[i].0, Doc::Mapping(kept)))
                }
            },
            _ => entries,
        },
        None => entries,
    }
}

/// What is left of a section from which `keys` are taken out: a mapping keeps
/// the entries with other keys, in their order, and is dropped where none is
/// left. A section that is absent, or no mapping, stays as it is.
pub open spec fn pruned_section(section: Option<Doc>, keys: Seq<Seq<char>>) -> Option<Doc> {
    match section {
        Some(Doc::Mapping(inner)) => {
            let kept = inner.filter(unlisted(keys));
            if kept.len() == 0 {
                None
            } else {
                Some(Doc::Mapping(kept))
            }
        },
        _ => section,
    }
}

/// What is left of the entries of `metadata`.
pub open spec fn clean_metadata(entries: Seq<(Doc, Doc)>) -> Seq<(Doc, Doc)> {
    pruned(
        without_keys(pruned(entries, "annotations"@, vendor_annotations()), server_fields()),
        "labels"@,
        vendor_labels(),
    )
}

/// What is left of the entries of a pod template: its `metadata`, where it is
/// a mapping, loses its annotations and its creation time.
pub open spec fn clean_template(entries: Seq<(Doc, Doc)>) -> Seq<(Doc, Doc)> {
    with_child(
        entries,
        "metadata"@,
        |metadata: Seq<(Doc, Doc)>| without_keys(metadata, template_fields()),
    )
}

/// What is left of the entries of `spec`: the pod template is cleaned, where
/// there is one.
pub open spec fn clean_spec(entries: Seq<(Doc, Doc)>) -> Seq<(Doc, Doc)> {
    with_child(entries, "template"@, |template: Seq<(Doc, Doc)>| clean_template(template))
}

/// What is left of the top-level entries of a manifest.
pub open spec fn clean_root(entries: Seq<(Doc, Doc)>) -> Seq<(Doc, Doc)> {
    with_child(
        without_key(
            with_child(entries, "metadata"@, |metadata: Seq<(Doc, Doc)>| clean_metadata(metadata)),
            "status"@,
        ),
        "spec"@,
        |spec: Seq<(Doc, Doc)>| clean_spec(spec),
    )
}

/// The manifest without what the cluster and the management layer added. A
/// document that is no mapping is left as it is.
pub open spec fn sanitized(doc: Doc) -> Doc {
    match doc {
        Doc::Mapping(entries) => Doc::Mapping(clean_root(entries)),
        _ => doc,
    }
}

/// A section holds none of `keys`, and is not an empty mapping.
pub open spec fn section_clean(section: Option<Doc>, keys: Seq<Seq<char>>) -> bool {
    section matches Some(Doc::Mapping(inner)) ==> {
        &&& inner.len() > 0
        &&& forall|i: int| 0 <= i < keys.len() ==> lookup(inner, #[trigger] keys[i]) is None
    }
}

/// The manifest holds nothing that sanitizing takes out: no `status`, none of
/// the server's fields in `metadata`, no injected annotation or label and no
/// empty `annotations` or `labels`, and in a pod template's `metadata`
/// neither annotations nor a creation time.
pub open spec fn is_clean(doc: Doc) -> bool {
    let metadata = doc.get("metadata"@);
    let template = then_get(then_get(doc.get("spec"@), "template"@), "metadata"@);
    &&& doc.get("status"@) is None
    &&& forall|i: int|
        0 <= i < server_fields().len() ==> then_get(metadata, #[trigger] server_fields()[i]) is None
    &&& section_clean(then_get(metadata, "annotations"@), vendor_annotations())
    &&& section_clean(then_get(metadata, "labels"@), vendor_labels())
    &&& forall|i: int|
        0 <= i < template_fields().len() ==> then_get(template, #[trigger] template_fields()[i])
            is None
}

/// The annotation keys that a management layer injects, in the order in which
/// they are taken out.
pub fn vendor_annotation_keys() -> (keys: Vec<&'static str>)
    ensures
        key_views(keys@) == vendor_annotations(),
{
    let keys = vec![
        "field.cattle.io/targetWorkloadIds",
        "workload.cattle.io/targetWorkloadIdNoop",
        "workload.cattle.io/workloadPortBased",
        "field.cattle.io/ingressState",
        "field.cattle.io/publicEndpoints",
        "deployment.kubernetes.io/revision",
        "field.cattle.io/creatorId",
        "cattle.io/timestamp",
        "kubectl.kubernetes.io/last-applied-configuration",
        "objectset.rio.cattle.io/id",
        "objectset.rio.cattle.io/applied",
    ];
    assert(key_views(keys@) =~= vendor_annotations());
    keys
}

/// The label keys that a management layer injects.
pub fn vendor_label_keys() -> (keys: Vec<&'static str>)
    ensures
        key_views(keys@) == vendor_labels(),
{
    let keys = vec!["cattle.io/creator"];
    assert(key_views(keys@) =~= vendor_labels());
    keys
}

/// The fields of `metadata` that the cluster fills in.
pub fn server_field_keys() -> (keys: Vec<&'static str>)
    ensures
        key_views(keys@) == server_fields(),
{
    let keys = vec![
        "managedFields",
        "creationTimestamp",
        "resourceVersion",
        "selfLink",
        "uid",
        "generation",
        "ownerReferences",
    ];
    assert(key_views(keys@) =~= server_fields());
    keys
}

/// The fields of a pod template's `metadata` that are dropped whole.
pub fn template_field_keys() -> (keys: Vec<&'static str>)
    ensures
        key_views(keys@) == template_fields(),
{
    let keys = vec!["annotations", "creationTimestamp"];
    assert(key_views(keys@) =~= template_fields());
    keys
}

/// Takes each of `keys` out of the mapping, in turn.
fn remove_keys(m: &mut serde_yaml::Mapping, keys: &Vec<&'static str>)
    ensures
        mapping_entries(*final(m)) == without_keys(mapping_entries(*old(m)), key_views(keys@)),
{
    let mut i: usize = 0;
    while i < keys.len()
        invariant
            i <= keys.len(),
            mapping_entries(*m) == without_keys(
                mapping_entries(*old(m)),
                key_views(keys@).take(i as int),
            ),
        decreases keys.len() - i,
    {
        remove_key(m, keys[i]);
        proof {
            let done = key_views(keys@).take(i as int + 1);
            assert(done.drop_last() =~= key_views(keys@).take(i as int));
            assert(done.last() == keys@[i as int]@);
        }
        i += 1;
    }
    proof {
        assert(key_views(keys@).take(keys.len() as int) =~= key_views(keys@));
    }
}

/// Takes `keys` out of the mapping found under `section`, and drops the
/// section where this leaves it empty.
fn prune(m: &mut serde_yaml::Mapping, section: &str, keys: &Vec<&'static str>)
    ensures
        mapping_entries(*final(m)) == pruned(
            mapping_entries(*old(m)),
            section@,
            key_views(keys@),
        ),
{
    if let Some(inner) = child_mapping_mut(m, section) {
        remove_keys(inner, keys);
        if is_empty(inner) {
            proof {
                let before = mapping_entries(*old(m));
                let at = position(before, section@)->0;
                lemma_position_found(before, section@);
                let after = before.update(at, (before[at].0, Doc::Mapping(mapping_entries(*inner))));
                lemma_position_is(after, section@, at);
                assert(after.remove(at) =~= before.remove(at));
            }
            remove_key(m, section);
        }
    }
}

/// Sanitizes the manifest in place: the fields that the cluster manages and
/// the keys that a management layer injects leave it, and everything else
/// stays where it was.
pub fn sanitize(doc: &mut serde_yaml::Value)
    ensures
        value_content(*final(doc)) == sanitized(value_content(*old(doc))),
        value_content(*old(doc)).well_formed() ==> {
            &&& value_content(*final(doc)).well_formed()
            &&& is_clean(value_content(*final(doc)))
        },
{
    proof {
        if value_content(*old(doc)).well_formed() {
            law_sanitized_is_clean(value_content(*old(doc)));
        }
    }
    if let Some(root) = as_mapping_mut(doc) {
        if let Some(metadata) = child_mapping_mut(root, "metadata") {
            let annotations = vendor_annotation_keys();
            prune(metadata, "annotations", &annotations);
            let fields = server_field_keys();
            remove_keys(metadata, &fields);
            let labels = vendor_label_keys();
            prune(metadata, "labels", &labels);
        }
        remove_key(root, "status");
        if let Some(spec) = child_mapping_mut(root, "spec") {
            if let Some(template) = child_mapping_mut(spec, "template") {
                if let Some(metadata) = child_mapping_mut(template, "metadata") {
                    let fields = template_field_keys();
                    remove_keys(metadata, &fields);
                }
            }
        }
    }
}

/// Why a manifest could not be cleaned. Each variant keeps the error that the
/// YAML library reported.
#[derive(Debug)]
pub enum CleanError {
    /// The text is no YAML document.
    Parse(serde_yaml::Error),
    /// The sanitized manifest could not be written out.
    Render(serde_yaml::Error),
}

/// Reads a manifest from YAML text.
pub fn parse_manifest(text: &str) -> (r: Result<serde_yaml::Value, CleanError>)
    ensures
        match r {
            Ok(doc) => yaml_parse(text@) == Some(value_content(doc)) && value_content(
                doc,
            ).well_formed(),
            Err(e) => yaml_parse(text@) is None && e is Parse,
        },
{
    match parse_value(text) {
        Ok(doc) => Ok(doc),
        Err(e) => Err(CleanError::Parse(e)),
    }
}

/// Writes a manifest out as YAML text.
pub fn render_manifest(doc: &serde_yaml::Value) -> (r: Result<String, CleanError>)
    ensures
        match r {
            Ok(text) => yaml_render(value_content(*doc)) == Some(text@),
            Err(e) => yaml_render(value_content(*doc)) is None && e is Render,
        },
{
    match render_value(doc) {
        Ok(text) => Ok(text),
        Err(e) => Err(CleanError::Render(e)),
    }
}

/// Cleans a manifest given as YAML text: reads it, sanitizes it and writes it
/// out again. Text that is no YAML document is refused, and nothing else is.
pub fn clean_yaml(yaml: &str) -> (r: Result<String, CleanError>)
    ensures
        match yaml_parse(yaml@) {
            None => r matches Err(e) && e is Parse,
            Some(doc) => match yaml_render(sanitized(doc)) {
                Some(text) => r matches Ok(out) && out@ == text,
                None => r matches Err(e) && e is Render,
            },
        },
        yaml_parse(yaml@) matches Some(doc) ==> doc.well_formed() && is_clean(sanitized(doc)),
{
    let mut doc = parse_manifest(yaml)?;
    sanitize(&mut doc);
    render_manifest(&doc)
}

} // verus!
