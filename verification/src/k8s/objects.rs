use vstd::prelude::*;

verus! {

// The Kubernetes objects that the summaries are made from, holding as plain
// values the fields that the summaries read. Label maps are held as their
// entries, in the order in which the object's map yields them.

/// Metadata of a Kubernetes object.
#[derive(Debug)]
pub struct ObjectMeta {
    pub name: Option<String>,
    pub namespace: Option<String>,
    pub labels: Option<Vec<(String, String)>>,
}

/// A container of a pod's spec; `ports` are its container ports.
#[derive(Debug)]
pub struct ContainerObject {
    pub name: String,
    pub image: Option<String>,
    pub ports: Option<Vec<i32>>,
}

/// The spec of a pod.
#[derive(Debug)]
pub struct PodSpecObject {
    pub containers: Vec<ContainerObject>,
}

/// One condition of a pod's status.
#[derive(Debug)]
pub struct PodCondition {
    pub type_: String,
    pub status: String,
}

/// The status of a pod.
#[derive(Debug)]
pub struct PodStatusObject {
    pub conditions: Option<Vec<PodCondition>>,
}

/// A pod.
#[derive(Debug)]
pub struct PodObject {
    pub metadata: Option<ObjectMeta>,
    pub spec: Option<PodSpecObject>,
    pub status: Option<PodStatusObject>,
}

/// A replica set.
#[derive(Debug)]
pub struct ReplicaSetObject {
    pub metadata: Option<ObjectMeta>,
}

/// The label selector of a deployment.
#[derive(Debug)]
pub struct LabelSelectorObject {
    pub match_labels: Option<Vec<(String, String)>>,
}

/// The spec of a deployment.
#[derive(Debug)]
pub struct DeploymentSpecObject {
    pub selector: LabelSelectorObject,
}

/// A deployment.
#[derive(Debug)]
pub struct DeploymentObject {
    pub metadata: Option<ObjectMeta>,
    pub spec: Option<DeploymentSpecObject>,
}

/// The spec of a service.
#[derive(Debug)]
pub struct ServiceSpecObject {
    pub selector: Option<Vec<(String, String)>>,
    pub cluster_ip: Option<String>,
}

/// A service.
#[derive(Debug)]
pub struct ServiceObject {
    pub metadata: Option<ObjectMeta>,
    pub spec: Option<ServiceSpecObject>,
}

/// A namespace.
#[derive(Debug)]
pub struct NamespaceObject {
    pub metadata: Option<ObjectMeta>,
}

/// A list request for the objects of one namespace that match a label
/// selector (written as `key=value` terms joined by commas).
#[derive(Debug)]
pub struct ListQuery {
    pub namespace: String,
    pub labels: String,
}

} // verus!
