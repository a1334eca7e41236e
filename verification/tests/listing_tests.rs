use yaml_backup::listing::{
    filter_namespaces, keep_namespace, parse_namespaces, parse_resource_names,
};

fn strings(items: &[&str]) -> Vec<String> {
    items.iter().map(|s| s.to_string()).collect()
}

#[test]
fn system_namespaces_are_left_out() {
    let names = strings(&["default", "kube-system", "cattle-system", "myapp"]);
    assert_eq!(filter_namespaces(&names), strings(&["default", "myapp"]));
}

#[test]
fn only_the_prefix_counts() {
    assert!(keep_namespace("default"));
    assert!(keep_namespace("kube"));
    assert!(keep_namespace("kubex-system"));
    assert!(keep_namespace("my-kube-system"));
    assert!(keep_namespace("cattle"));
    assert!(keep_namespace("Kube-system"));
    assert!(!keep_namespace("kube-"));
    assert!(!keep_namespace("kube-public"));
    assert!(!keep_namespace("cattle-"));
    assert!(!keep_namespace("cattle-fleet-system"));
    assert!(!keep_namespace(""));
}

#[test]
fn the_order_of_the_namespaces_is_kept() {
    let names = strings(&["zeta", "kube-node-lease", "alpha", "", "zeta", "cattle-x", "mid"]);
    assert_eq!(filter_namespaces(&names), strings(&["zeta", "alpha", "zeta", "mid"]));
    assert_eq!(filter_namespaces(&Vec::new()), Vec::<String>::new());
}

#[test]
fn namespaces_are_read_line_by_line() {
    let output = "\ndefault\nkube-system\ncattle-system\nmyapp\n";
    assert_eq!(parse_namespaces(output), strings(&["default", "myapp"]));
    assert_eq!(parse_namespaces("default\r\nkube-public\r\nshop"), strings(&["default", "shop"]));
    assert_eq!(parse_namespaces(""), Vec::<String>::new());
    assert_eq!(parse_namespaces("\n\n"), Vec::<String>::new());
    assert_eq!(parse_namespaces("a b\n c\n"), strings(&["a b", " c"]));
}

#[test]
fn namespaces_are_read_as_the_lines_of_the_text() {
    for output in ["x\ny", "x\r\n\r\ny\r", "kube-a\nb\r\r\n", "\r\n", "one"] {
        let expected: Vec<String> = output
            .lines()
            .filter(|l| !l.is_empty() && !l.starts_with("kube-") && !l.starts_with("cattle-"))
            .map(String::from)
            .collect();
        assert_eq!(parse_namespaces(output), expected);
    }
}

#[test]
fn resource_names_are_the_words_of_the_output() {
    assert_eq!(parse_resource_names("web api  db\n"), strings(&["web", "api", "db"]));
    assert_eq!(parse_resource_names(""), Vec::<String>::new());
    assert_eq!(parse_resource_names(" \t\n"), Vec::<String>::new());
    assert_eq!(parse_resource_names("single"), strings(&["single"]));
    assert_eq!(parse_resource_names("kube-dns cattle-agent"), strings(&["kube-dns", "cattle-agent"]));
}
