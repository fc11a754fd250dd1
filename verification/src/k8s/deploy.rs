use vstd::prelude::*;
use crate::k8s::error::NettingError;
use crate::k8s::labels::{label_selector, selector_text};
use crate::k8s::objects::{DeploymentObject, ListQuery, ObjectMeta, PodObject, ReplicaSetObject};
use crate::k8s::pod::{
    check_pods, details_ok_before, get_pods_details, lemma_pod_summary_fields, lemma_pods_details_shape,
    pod_details, pods_details, pods_reached_summarisable,
};
use crate::k8s::types::{
    replica_sets_view, DeploymentView, PodView, NettingDeployment, NettingReplicaSet,
    ReplicaSetView,
};

verus! {

/// The label selector of an optional label map (empty when there is none).
pub open spec fn labels_text(labels: Option<Vec<(String, String)>>) -> Seq<char> {
    match labels {
        Some(l) => selector_text(l@),
        None => Seq::empty(),
    }
}

/// Writes the label selector of an optional label map.
pub fn optional_label_selector(labels: &Option<Vec<(String, String)>>) -> (s: String)
    ensures
        s@ == labels_text(*labels),
{
    match labels {
        Some(l) => label_selector(l),
        None => String::new(),
    }
}

/// The query for the pods of a replica set: those of its namespace that
/// carry all its labels.
pub open spec fn replicaset_query_spec(rs: ReplicaSetObject) -> Result<(Seq<char>, Seq<char>), NettingError> {
    match rs.metadata {
        None => Err(NettingError::ReplicaSetMetadataUndefined),
        Some(meta) => Ok((meta.namespace.unwrap()@, labels_text(meta.labels))),
    }
}

/// A list query agrees with its specification.
pub open spec fn same_query(r: Result<ListQuery, NettingError>, s: Result<(Seq<char>, Seq<char>), NettingError>) -> bool {
    match (r, s) {
        (Ok(q), Ok(t)) => q.namespace@ == t.0 && q.labels@ == t.1,
        (Err(a), Err(b)) => a == b,
        _ => false,
    }
}

/// Returns the query that lists the pods of a replica set. A replica set
/// with metadata must name its namespace.
pub fn replicaset_pod_query(replicaset: &ReplicaSetObject) -> (q: Result<ListQuery, NettingError>)
    requires
        replicaset.metadata matches Some(meta) ==> meta.namespace is Some,
    ensures
        same_query(q, replicaset_query_spec(*replicaset)),
{
    match &replicaset.metadata {
        Some(meta) => {
            let labels = optional_label_selector(&meta.labels);
            let namespace = match &meta.namespace {
                Some(n) => n.clone(),
                None => { proof { assert(false); } String::new() },
            };
            Ok(ListQuery { namespace, labels })
        },
        None => Err(NettingError::ReplicaSetMetadataUndefined),
    }
}

/// The inputs on which summarising a replica set runs to an end: with
/// metadata, it names its namespace, each pod reached before the first
/// failing summary can be summarised, and where they all are, it names itself.
pub open spec fn replicaset_summarisable(rs: ReplicaSetObject, pods: Seq<PodObject>) -> bool {
    rs.metadata matches Some(meta) ==> {
        &&& meta.namespace is Some
        &&& pods_reached_summarisable(pods, false)
        &&& pods_details(pods, false) is Ok ==> meta.name is Some
    }
}

/// The summary of a replica set whose pods are `pods`, or the error met first.
pub open spec fn replicaset_details(rs: ReplicaSetObject, pods: Seq<PodObject>) -> Result<ReplicaSetView, NettingError> {
    match rs.metadata {
        None => Err(NettingError::ReplicaSetMetadataUndefined),
        Some(meta) => match pods_details(pods, false) {
            Err(e) => Err(e),
            Ok(ps) => Ok(ReplicaSetView {
                name: meta.name.unwrap()@,
                namespace: meta.namespace.unwrap()@,
                deployment: Seq::empty(),
                pods: ps,
            }),
        },
    }
}

/// A replica set's summary carries its name and namespace, no deployment,
/// and one unexposed summary per listed pod, in order, each that pod's own
/// summary; with metadata, summarising fails only with the error of the
/// first pod whose summary fails.
pub proof fn lemma_replicaset_summary_fields(rs: ReplicaSetObject, pods: Seq<PodObject>)
    ensures
        replicaset_details(rs, pods) matches Ok(v) ==> {
            &&& rs.metadata is Some
            &&& v.name == rs.metadata.unwrap().name.unwrap()@
            &&& v.namespace == rs.metadata.unwrap().namespace.unwrap()@
            &&& v.deployment.len() == 0
            &&& v.pods.len() == pods.len()
            &&& forall|i: int| 0 <= i < pods.len() ==> {
                &&& (#[trigger] pod_details(pods[i], false)) == Ok::<PodView, NettingError>(v.pods[i])
                &&& !v.pods[i].exposed
            }
        },
        (rs.metadata is Some && replicaset_details(rs, pods) is Err) ==> exists|j: int| 0 <= j < pods.len()
            && details_ok_before(pods, j, false)
            && (#[trigger] pod_details(pods[j], false)) == Err::<PodView, NettingError>(replicaset_details(rs, pods)->Err_0),
{
    lemma_pods_details_shape(pods, false);
    if let Ok(v) = replicaset_details(rs, pods) {
        assert forall|i: int| 0 <= i < pods.len() implies {
            &&& (#[trigger] pod_details(pods[i], false)) == Ok::<PodView, NettingError>(v.pods[i])
            &&& !v.pods[i].exposed
        } by {
            lemma_pod_summary_fields(pods[i], false);
        }
    }
}

/// Returns a wrapper object for the given replica set, whose pods (those
/// that its query lists) are `pods`; none of them is marked exposed.
pub fn get_replicaset_details(replicaset: ReplicaSetObject, pods: Vec<PodObject>) -> (r: Result<NettingReplicaSet, NettingError>)
    requires
        replicaset_summarisable(replicaset, pods@),
    ensures
        match (r, replicaset_details(replicaset, pods@)) {
            (Ok(a), Ok(b)) => a@ == b,
            (Err(a), Err(b)) => a == b,
            _ => false,
        },
{
    let ghost rs = replicaset;
    let ghost ps = pods@;
    let meta: ObjectMeta = match replicaset.metadata {
        Some(meta) => meta,
        None => { return Err(NettingError::ReplicaSetMetadataUndefined); },
    };
    let netting_pods = match get_pods_details(pods, false) {
        Ok(p) => p,
        Err(e) => { return Err(e); },
    };
    let name = match meta.name { Some(n) => n, None => { proof { assert(false); } String::new() } };
    let namespace = match meta.namespace { Some(n) => n, None => { proof { assert(false); } String::new() } };
    Ok(NettingReplicaSet { name, namespace, deployment: String::new(), pods: netting_pods })
}

/// Whether summarising the replica set with these pods runs to an end
/// (see `replicaset_summarisable`).
pub fn check_replicaset(replicaset: &ReplicaSetObject, pods: &Vec<PodObject>) -> (ok: bool)
    ensures
        ok == replicaset_summarisable(*replicaset, pods@),
{
    match &replicaset.metadata {
        None => true,
        Some(meta) => {
            let (summarisable, all_ok) = check_pods(pods);
            meta.namespace.is_some() && summarisable && (!all_ok || meta.name.is_some())
        },
    }
}

/// Whether the deployment can be summarised (see `deployment_summarisable`).
pub fn check_deployment(deploy: &DeploymentObject) -> (ok: bool)
    ensures
        ok == deployment_summarisable(*deploy),
{
    let labelled = match &deploy.spec {
        Some(spec) => spec.selector.match_labels.is_some(),
        None => false,
    };
    let named = match &deploy.metadata {
        Some(meta) => meta.name.is_some() && meta.namespace.is_some(),
        None => false,
    };
    labelled && named
}

/// A replica set with no label map and one with an empty label map are
/// queried and summarised alike: both select every pod of their namespace.
pub proof fn lemma_missing_or_empty_labels(
    rs1: ReplicaSetObject,
    rs2: ReplicaSetObject,
    pods: Seq<PodObject>,
)
    requires
        rs1.metadata is Some,
        rs2.metadata is Some,
        rs1.metadata.unwrap().name == rs2.metadata.unwrap().name,
        rs1.metadata.unwrap().namespace == rs2.metadata.unwrap().namespace,
        rs1.metadata.unwrap().labels is None,
        rs2.metadata.unwrap().labels matches Some(l) && l@.len() == 0,
    ensures
        replicaset_query_spec(rs1) == replicaset_query_spec(rs2),
        replicaset_query_spec(rs1) matches Ok(q) && q.1 == Seq::<char>::empty(),
        replicaset_details(rs1, pods) == replicaset_details(rs2, pods),
{
    assert(labels_text(rs2.metadata.unwrap().labels) =~= Seq::<char>::empty());
}

/// The inputs on which a deployment can be summarised: it has a spec whose
/// selector has labels to match, and metadata with its name and namespace.
pub open spec fn deployment_summarisable(d: DeploymentObject) -> bool {
    &&& d.spec matches Some(spec) && spec.selector.match_labels is Some
    &&& d.metadata matches Some(meta) && meta.name is Some && meta.namespace is Some
}

/// Returns the query that lists the replica sets of a deployment: those of
/// its namespace that carry the labels its selector matches.
pub fn deployment_replicaset_query(deploy: &DeploymentObject) -> (q: ListQuery)
    requires
        deployment_summarisable(*deploy),
    ensures
        q.namespace@ == deploy.metadata.unwrap().namespace.unwrap()@,
        q.labels@ == labels_text(deploy.spec.unwrap().selector.match_labels),
{
    let labels = match &deploy.spec {
        Some(spec) => optional_label_selector(&spec.selector.match_labels),
        None => { proof { assert(false); } String::new() },
    };
    let namespace = match &deploy.metadata {
        Some(meta) => match &meta.namespace {
            Some(n) => n.clone(),
            None => { proof { assert(false); } String::new() },
        },
        None => { proof { assert(false); } String::new() },
    };
    ListQuery { namespace, labels }
}

/// Returns a wrapper object for the given deployment, whose replica sets
/// (those that its query lists, summarised) are `replica_sets`.
pub fn get_deployment_details(deploy: DeploymentObject, replica_sets: Vec<NettingReplicaSet>) -> (d: NettingDeployment)
    requires
        deployment_summarisable(deploy),
    ensures
        d@ == (DeploymentView {
            name: deploy.metadata.unwrap().name.unwrap()@,
            namespace: deploy.metadata.unwrap().namespace.unwrap()@,
            replica_sets: replica_sets_view(replica_sets@),
        }),
{
    let meta = match deploy.metadata {
        Some(meta) => meta,
        None => { proof { assert(false); } ObjectMeta { name: None, namespace: None, labels: None } },
    };
    let name = match meta.name { Some(n) => n, None => { proof { assert(false); } String::new() } };
    let namespace = match meta.namespace { Some(n) => n, None => { proof { assert(false); } String::new() } };
    NettingDeployment { name, namespace, replica_sets }
}

} // verus!
