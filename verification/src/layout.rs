//! The kinds of resource and the layout of the backup tree.

use vstd::prelude::*;

verus! {

/// The kinds of resource that are backed up.
#[derive(Clone, Copy, Debug, PartialEq, Eq)]
pub enum ResourceKind {
    Deployment,
    ConfigMap,
    Ingress,
    Service,
    Secret,
    PersistentVolume,
    PersistentVolumeClaim,
}

/// The name by which the cluster knows a kind; it also names the kind's
/// directory.
pub open spec fn kind_name(kind: ResourceKind) -> Seq<char> {
    match kind {
        ResourceKind::Deployment => "deployment"@,
        ResourceKind::ConfigMap => "configmap"@,
        ResourceKind::Ingress => "ingress"@,
        ResourceKind::Service => "service"@,
        ResourceKind::Secret => "secret"@,
        ResourceKind::PersistentVolume => "pv"@,
        ResourceKind::PersistentVolumeClaim => "pvc"@,
    }
}

/// The kinds in the order in which they are backed up.
pub open spec fn all_kinds() -> Seq<ResourceKind> {
    seq![
        ResourceKind::Deployment,
        ResourceKind::ConfigMap,
        ResourceKind::Ingress,
        ResourceKind::Service,
        ResourceKind::Secret,
        ResourceKind::PersistentVolume,
        ResourceKind::PersistentVolumeClaim,
    ]
}

/// The directory of one kind in one namespace.
pub open spec fn dir_path(root: Seq<char>, namespace: Seq<char>, kind: Seq<char>) -> Seq<char> {
    root + "/"@ + namespace + "/"@ + kind
}

/// The file of one resource in its kind's directory.
pub open spec fn file_path(dir: Seq<char>, name: Seq<char>) -> Seq<char> {
    dir + "/"@ + name + ".yml"@
}

/// How the cluster is asked for one resource: by kind and name.
pub open spec fn reference_text(kind: Seq<char>, name: Seq<char>) -> Seq<char> {
    kind + "/"@ + name
}

/// What is reported when one kind in one namespace is done.
pub open spec fn progress_text(namespace: Seq<char>, kind: Seq<char>) -> Seq<char> {
    "YMLs of "@ + namespace + "/"@ + kind + " resource backed up."@
}

impl ResourceKind {
    /// The name by which the cluster knows the kind.
    pub fn name(&self) -> (r: &'static str)
        ensures
            r@ == kind_name(*self),
    {
        match self {
            ResourceKind::Deployment => "deployment",
            ResourceKind::ConfigMap => "configmap",
            ResourceKind::Ingress => "ingress",
            ResourceKind::Service => "service",
            ResourceKind::Secret => "secret",
            ResourceKind::PersistentVolume => "pv",
            ResourceKind::PersistentVolumeClaim => "pvc",
        }
    }

    /// The kinds in the order in which they are backed up.
    pub fn all() -> (kinds: Vec<ResourceKind>)
        ensures
            kinds@ == all_kinds(),
    {
        let kinds = vec![
            ResourceKind::Deployment,
            ResourceKind::ConfigMap,
            ResourceKind::Ingress,
            ResourceKind::Service,
            ResourceKind::Secret,
            ResourceKind::PersistentVolume,
            ResourceKind::PersistentVolumeClaim,
        ];
        assert(kinds@ =~= all_kinds());
        kinds
    }
}

/// The directory of one kind in one namespace, under the backup root.
pub fn resource_dir(root: &str, namespace: &str, kind: &str) -> (dir: String)
    ensures
        dir@ == dir_path(root@, namespace@, kind@),
{
    let mut dir = String::from_str(root);
    dir.append("/");
    dir.append(namespace);
    dir.append("/");
    dir.append(kind);
    dir
}

/// The file of one resource in its kind's directory.
pub fn resource_file(dir: &str, name: &str) -> (file: String)
    ensures
        file@ == file_path(dir@, name@),
{
    let mut file = String::from_str(dir);
    file.append("/");
    file.append(name);
    file.append(".yml");
    file
}

/// How the cluster is asked for one resource: by kind and name.
pub fn resource_reference(kind: &str, name: &str) -> (reference: String)
    ensures
        reference@ == reference_text(kind@, name@),
{
    let mut reference = String::from_str(kind);
    reference.append("/");
    reference.append(name);
    reference
}

/// What is reported when one kind in one namespace is done.
pub fn progress_message(namespace: &str, kind: &str) -> (message: String)
    ensures
        message@ == progress_text(namespace@, kind@),
{
    let mut message = String::from_str("YMLs of ");
    message.append(namespace);
    message.append("/");
    message.append(kind);
    message.append(" resource backed up.");
    message
}

} // verus!
