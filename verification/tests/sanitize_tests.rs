use serde_yaml::Value;
use yaml_backup::sanitize::{
    clean_yaml, parse_manifest, render_manifest, sanitize, server_field_keys,
    template_field_keys, vendor_annotation_keys, vendor_label_keys, CleanError,
};

fn parse(text: &str) -> Value {
    serde_yaml::from_str(text).unwrap()
}

fn cleaned(text: &str) -> Value {
    let mut doc = parse(text);
    sanitize(&mut doc);
    doc
}

/// The keys of the mapping found by following `path`, in their order.
fn keys_at(doc: &Value, path: &[&str]) -> Option<Vec<String>> {
    let mut here = doc;
    for step in path {
        here = here.as_mapping()?.get(*step)?;
    }
    let mut keys = Vec::new();
    for (key, _) in here.as_mapping()? {
        keys.push(key.as_str()?.to_string());
    }
    Some(keys)
}

fn has(doc: &Value, path: &[&str]) -> bool {
    let mut here = doc;
    for step in path {
        match here {
            Value::Mapping(map) => match map.get(*step) {
                Some(next) => here = next,
                None => return false,
            },
            _ => return false,
        }
    }
    true
}

const DEPLOYMENT: &str = "\
apiVersion: apps/v1
kind: Deployment
metadata:
  annotations:
    kubectl.kubernetes.io/last-applied-configuration: '{}'
    team: infra
  labels:
    cattle.io/creator: x
  name: web
spec:
  replicas: 2
  template:
    metadata:
      annotations:
        a: b
      labels:
        app: web
status:
  replicas: 2
";

#[test]
fn deployment_scenario_keeps_only_team_annotation() {
    let doc = cleaned(DEPLOYMENT);
    let expected = parse(
        "\
apiVersion: apps/v1
kind: Deployment
metadata:
  annotations:
    team: infra
  name: web
spec:
  replicas: 2
  template:
    metadata:
      labels:
        app: web
",
    );
    assert_eq!(doc, expected);
    assert_eq!(keys_at(&doc, &["metadata", "annotations"]), Some(vec!["team".to_string()]));
    assert!(!has(&doc, &["metadata", "labels"]));
    assert!(!has(&doc, &["status"]));
    assert!(!has(&doc, &["spec", "template", "metadata", "annotations"]));
    assert!(has(&doc, &["spec", "template", "metadata", "labels", "app"]));
}

#[test]
fn clean_yaml_writes_the_sanitized_manifest() {
    let out = clean_yaml(DEPLOYMENT).unwrap();
    assert_eq!(
        out,
        "\
apiVersion: apps/v1
kind: Deployment
metadata:
  annotations:
    team: infra
  name: web
spec:
  replicas: 2
  template:
    metadata:
      labels:
        app: web
"
    );
}

#[test]
fn clean_yaml_keeps_the_order_of_the_top_level_keys() {
    let out = clean_yaml("zeta: 1\nstatus: {}\nalpha: 2\nmetadata:\n  uid: u\n  name: n\nbeta: 3\n")
        .unwrap();
    assert_eq!(out, "zeta: 1\nalpha: 2\nmetadata:\n  name: n\nbeta: 3\n");
}

#[test]
fn clean_yaml_refuses_text_that_is_no_document() {
    let r = clean_yaml("a: [1, 2");
    assert!(matches!(r, Err(CleanError::Parse(_))));
}

#[test]
fn clean_yaml_refuses_a_repeated_key() {
    let r = clean_yaml("a: 1\na: 2\n");
    assert!(matches!(r, Err(CleanError::Parse(_))));
}

#[test]
fn parse_manifest_reports_a_parse_error() {
    assert!(matches!(parse_manifest("{"), Err(CleanError::Parse(_))));
    let doc = parse_manifest("a: 1\n").unwrap();
    assert_eq!(doc, parse("a: 1\n"));
}

#[test]
fn render_manifest_writes_yaml() {
    let text = render_manifest(&parse("b: 1\na:\n- x\n- y\n")).unwrap();
    assert_eq!(text, "b: 1\na:\n- x\n- y\n");
}

#[test]
fn every_vendor_annotation_leaves_and_no_other() {
    let mut text = String::from("metadata:\n  annotations:\n    first: '1'\n");
    for key in vendor_annotation_keys() {
        text.push_str(&format!("    {}: v\n", key));
        text.push_str(&format!("    keep-{}: v\n", key.replace('/', "-")));
    }
    text.push_str("    last: '2'\n");
    let before = parse(&text);
    let doc = cleaned(&text);
    let kept = keys_at(&doc, &["metadata", "annotations"]).unwrap();
    let all = keys_at(&before, &["metadata", "annotations"]).unwrap();
    let vendor: Vec<String> =
        vendor_annotation_keys().into_iter().map(|k| k.to_string()).collect();
    let expected: Vec<String> = all.into_iter().filter(|k| !vendor.contains(k)).collect();
    assert_eq!(kept.len(), 13);
    assert_eq!(kept, expected);
    for key in &vendor {
        assert!(!kept.contains(key));
    }
}

#[test]
fn a_subset_of_vendor_annotations_leaves() {
    let doc = cleaned(
        "\
metadata:
  annotations:
    b: '1'
    cattle.io/timestamp: t
    a: '2'
    field.cattle.io/creatorId: u
    c: '3'
",
    );
    assert_eq!(
        keys_at(&doc, &["metadata", "annotations"]),
        Some(vec!["b".to_string(), "a".to_string(), "c".to_string()])
    );
}

#[test]
fn the_vendor_annotation_keys_are_the_eleven_listed() {
    assert_eq!(
        vendor_annotation_keys(),
        vec![
            "field.cattle.io/targetWorkloadIds",
            "workload.cattle.io/targetWorkloadIdNoop",
            "workload.cattle.io/workloadPortBased",
            "field.cattle.io/ingressState",
            "field.cattle.io/publicEndpoints",
            "deployment.kubernetes.io/revision",
            "field.cattle.io/creatorId",
            "cattle.io/timestamp",
            "kubectl.kubernetes.io/last-applied-configuration",
            "objectset.rio.cattle.io/id",
            "objectset.rio.cattle.io/applied",
        ]
    );
    assert_eq!(vendor_label_keys(), vec!["cattle.io/creator"]);
    assert_eq!(
        server_field_keys(),
        vec![
            "managedFields",
            "creationTimestamp",
            "resourceVersion",
            "selfLink",
            "uid",
            "generation",
            "ownerReferences",
        ]
    );
    assert_eq!(template_field_keys(), vec!["annotations", "creationTimestamp"]);
}

#[test]
fn annotations_that_become_empty_are_dropped() {
    let doc = cleaned(
        "metadata:\n  name: n\n  annotations:\n    cattle.io/timestamp: t\n    objectset.rio.cattle.io/id: i\n",
    );
    assert_eq!(doc, parse("metadata:\n  name: n\n"));
}

#[test]
fn annotations_that_were_empty_are_dropped() {
    let doc = cleaned("metadata:\n  annotations: {}\n  name: n\n");
    assert_eq!(doc, parse("metadata:\n  name: n\n"));
}

#[test]
fn annotations_that_are_no_mapping_stay() {
    let text = "metadata:\n  annotations: null\n  labels: plain\n  name: n\n";
    assert_eq!(cleaned(text), parse(text));
}

#[test]
fn the_creator_label_leaves_and_other_labels_stay() {
    let doc = cleaned(
        "metadata:\n  labels:\n    app: web\n    cattle.io/creator: norman\n    tier: front\n",
    );
    assert_eq!(
        keys_at(&doc, &["metadata", "labels"]),
        Some(vec!["app".to_string(), "tier".to_string()])
    );
    let untouched = cleaned("metadata:\n  labels:\n    app: web\n    tier: front\n");
    assert_eq!(untouched, parse("metadata:\n  labels:\n    app: web\n    tier: front\n"));
}

#[test]
fn labels_that_become_empty_are_dropped() {
    let doc = cleaned("metadata:\n  labels:\n    cattle.io/creator: norman\n  name: n\n");
    assert_eq!(doc, parse("metadata:\n  name: n\n"));
}

#[test]
fn the_server_fields_and_status_leave() {
    let doc = cleaned(
        "\
kind: Service
metadata:
  creationTimestamp: '2024-01-01T00:00:00Z'
  generation: 3
  managedFields:
  - manager: kubectl
  name: svc
  namespace: default
  ownerReferences:
  - name: owner
  resourceVersion: '42'
  selfLink: /api/v1/namespaces/default/services/svc
  uid: 0000-1111
spec:
  clusterIP: 10.0.0.1
status:
  loadBalancer: {}
",
    );
    for field in server_field_keys() {
        assert!(!has(&doc, &["metadata", field]));
    }
    assert!(!has(&doc, &["status"]));
    assert_eq!(
        doc,
        parse(
            "kind: Service\nmetadata:\n  name: svc\n  namespace: default\nspec:\n  clusterIP: 10.0.0.1\n"
        )
    );
}

#[test]
fn the_template_metadata_loses_annotations_and_creation_time() {
    let doc = cleaned(
        "\
spec:
  template:
    metadata:
      annotations:
        team: infra
        cattle.io/timestamp: t
      creationTimestamp: null
      labels:
        app: web
    spec:
      containers: []
",
    );
    assert_eq!(
        doc,
        parse(
            "spec:\n  template:\n    metadata:\n      labels:\n        app: web\n    spec:\n      containers: []\n"
        )
    );
}

#[test]
fn a_manifest_without_a_template_keeps_its_spec() {
    let text = "spec:\n  annotations:\n    a: b\n  creationTimestamp: x\n  ports:\n  - 80\n";
    assert_eq!(cleaned(text), parse(text));
    let no_metadata = "spec:\n  template:\n    annotations:\n      a: b\n";
    assert_eq!(cleaned(no_metadata), parse(no_metadata));
    let scalar = "spec:\n  template:\n    metadata: none\n";
    assert_eq!(cleaned(scalar), parse(scalar));
}

#[test]
fn annotations_elsewhere_stay() {
    let text = "\
data:
  annotations:
    cattle.io/timestamp: t
  uid: u
spec:
  metadata:
    annotations:
      a: b
    uid: u
";
    assert_eq!(cleaned(text), parse(text));
}

#[test]
fn a_document_that_is_no_mapping_stays() {
    for text in ["- a\n- status\n", "plain\n", "42\n", "null\n", "!tagged\nstatus: {}\n"] {
        assert_eq!(cleaned(text), parse(text));
    }
}

#[test]
fn metadata_that_is_no_mapping_stays() {
    let doc = cleaned("metadata: text\nstatus: gone\nkind: Secret\n");
    assert_eq!(doc, parse("metadata: text\nkind: Secret\n"));
}

#[test]
fn a_key_that_is_no_string_is_not_taken_for_a_field() {
    let text = "metadata:\n  1: uid\n  true: generation\n";
    assert_eq!(cleaned(text), parse(text));
}

#[test]
fn sanitizing_twice_is_sanitizing_once() {
    let once = cleaned(DEPLOYMENT);
    let mut twice = once.clone();
    sanitize(&mut twice);
    assert_eq!(twice, once);
    assert_eq!(
        keys_at(&twice, &["metadata"]),
        Some(vec!["annotations".to_string(), "name".to_string()])
    );
    let text = clean_yaml(DEPLOYMENT).unwrap();
    assert_eq!(clean_yaml(&text).unwrap(), text);
}

#[test]
fn what_stays_keeps_its_place() {
    let doc = cleaned(
        "\
zeta: 1
status: {}
metadata:
  uid: u
  zz: 1
  labels:
    cattle.io/creator: c
  generation: 2
  aa: 2
  annotations:
    k: v
alpha: 2
",
    );
    assert_eq!(
        keys_at(&doc, &[]),
        Some(vec!["zeta".to_string(), "metadata".to_string(), "alpha".to_string()])
    );
    assert_eq!(
        keys_at(&doc, &["metadata"]),
        Some(vec!["zz".to_string(), "aa".to_string(), "annotations".to_string()])
    );
}
