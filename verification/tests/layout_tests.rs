use yaml_backup::layout::{
    progress_message, resource_dir, resource_file, resource_reference, ResourceKind,
};

#[test]
fn the_seven_kinds_come_in_their_order() {
    let names: Vec<&str> = ResourceKind::all().iter().map(|k| k.name()).collect();
    assert_eq!(
        names,
        vec!["deployment", "configmap", "ingress", "service", "secret", "pv", "pvc"]
    );
}

#[test]
fn each_kind_has_its_name() {
    assert_eq!(ResourceKind::Deployment.name(), "deployment");
    assert_eq!(ResourceKind::ConfigMap.name(), "configmap");
    assert_eq!(ResourceKind::Ingress.name(), "ingress");
    assert_eq!(ResourceKind::Service.name(), "service");
    assert_eq!(ResourceKind::Secret.name(), "secret");
    assert_eq!(ResourceKind::PersistentVolume.name(), "pv");
    assert_eq!(ResourceKind::PersistentVolumeClaim.name(), "pvc");
}

#[test]
fn a_resource_is_filed_under_root_namespace_and_kind() {
    let dir = resource_dir("/tmp/yamlBackup", "default", ResourceKind::ConfigMap.name());
    assert_eq!(dir, "/tmp/yamlBackup/default/configmap");
    assert_eq!(resource_file(&dir, "settings"), "/tmp/yamlBackup/default/configmap/settings.yml");
    assert_eq!(resource_dir("", "", ""), "//");
    assert_eq!(resource_file("d", ""), "d/.yml");
}

#[test]
fn progress_names_namespace_and_kind() {
    assert_eq!(progress_message("shop", "pvc"), "YMLs of shop/pvc resource backed up.");
}

#[test]
fn a_resource_is_asked_for_by_kind_and_name() {
    assert_eq!(resource_reference("deployment", "web"), "deployment/web");
    assert_eq!(resource_reference("", ""), "/");
}
