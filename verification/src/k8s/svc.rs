use vstd::prelude::*;
use crate::k8s::deploy::same_query;
use crate::k8s::error::NettingError;
use crate::k8s::labels::{label_selector, selector_text};
use crate::k8s::objects::{ListQuery, ObjectMeta, PodObject, ServiceObject, ServiceSpecObject};
use crate::k8s::pod::{
    check_pods, details_ok_before, get_pods_details, lemma_pod_summary_fields, lemma_pods_details_shape,
    pod_details, pods_details, pods_reached_summarisable,
};
use crate::k8s::types::{NettingService, PodView, ServiceView};

verus! {

/// The query for the pods of a service: those of its namespace that its
/// selector matches; or the error met first.
pub open spec fn service_query_spec(svc: ServiceObject) -> Result<(Seq<char>, Seq<char>), NettingError> {
    match svc.spec {
        None => Err(NettingError::ServiceSpecUndefined),
        Some(spec) => match spec.selector {
            None => Err(NettingError::ServiceSelectorUndefined),
            Some(selector) => match svc.metadata {
                None => Err(NettingError::ServiceMetadataUndefined),
                Some(meta) => Ok((meta.namespace.unwrap()@, selector_text(selector@))),
            },
        },
    }
}

/// A service that gets as far as listing its pods names its namespace.
pub open spec fn service_query_defined(svc: ServiceObject) -> bool {
    (svc.spec matches Some(spec) && spec.selector is Some && svc.metadata is Some)
        ==> svc.metadata.unwrap().namespace is Some
}

/// Returns the query that lists the pods that a service exposes.
pub fn service_pod_query(svc: &ServiceObject) -> (q: Result<ListQuery, NettingError>)
    requires
        service_query_defined(*svc),
    ensures
        same_query(q, service_query_spec(*svc)),
{
    let spec = match &svc.spec {
        Some(spec) => spec,
        None => { return Err(NettingError::ServiceSpecUndefined); },
    };
    let labels = match &spec.selector {
        Some(selector) => label_selector(selector),
        None => { return Err(NettingError::ServiceSelectorUndefined); },
    };
    match &svc.metadata {
        Some(meta) => {
            let namespace = match &meta.namespace {
                Some(n) => n.clone(),
                None => { proof { assert(false); } String::new() },
            };
            Ok(ListQuery { namespace, labels })
        },
        None => Err(NettingError::ServiceMetadataUndefined),
    }
}

/// The inputs on which summarising a service runs to an end: where it gets
/// as far as listing its pods it names its namespace, each pod reached
/// before the first failing summary can be summarised, and where they all
/// are it has a name and a cluster IP.
pub open spec fn service_summarisable(svc: ServiceObject, pods: Seq<PodObject>) -> bool {
    &&& service_query_defined(svc)
    &&& service_query_spec(svc) is Ok ==> {
        &&& pods_reached_summarisable(pods, true)
        &&& pods_details(pods, true) is Ok ==> {
            &&& svc.metadata.unwrap().name is Some
            &&& svc.spec.unwrap().cluster_ip is Some
        }
    }
}

/// Whether listing the service's pods runs to an end (see `service_query_defined`).
pub fn check_service_query(svc: &ServiceObject) -> (ok: bool)
    ensures
        ok == service_query_defined(*svc),
{
    let reaches = match &svc.spec {
        Some(spec) => spec.selector.is_some() && svc.metadata.is_some(),
        None => false,
    };
    match &svc.metadata {
        Some(meta) => !reaches || meta.namespace.is_some(),
        None => true,
    }
}

/// Whether summarising the service with these pods runs to an end (see
/// `service_summarisable`).
pub fn check_service(svc: &ServiceObject, pods: &Vec<PodObject>) -> (ok: bool)
    ensures
        ok == service_summarisable(*svc, pods@),
{
    if !check_service_query(svc) {
        return false;
    }
    match (&svc.spec, &svc.metadata) {
        (Some(spec), Some(meta)) => {
            if spec.selector.is_none() {
                return true;
            }
            let (summarisable, all_ok) = check_pods(pods);
            summarisable && (!all_ok || (meta.name.is_some() && spec.cluster_ip.is_some()))
        },
        _ => true,
    }
}

/// The summary of a service whose selected pods are `pods`, or the error met first.
pub open spec fn service_details(svc: ServiceObject, pods: Seq<PodObject>) -> Result<ServiceView, NettingError> {
    match service_query_spec(svc) {
        Err(e) => Err(e),
        Ok(_) => match pods_details(pods, true) {
            Err(e) => Err(e),
            Ok(ps) => Ok(ServiceView {
                name: svc.metadata.unwrap().name.unwrap()@,
                namespace: svc.metadata.unwrap().namespace.unwrap()@,
                cluster_ip: svc.spec.unwrap().cluster_ip.unwrap()@,
                pods_exposed: ps,
            }),
        },
    }
}

/// A service's summary carries its name, namespace and cluster IP, and one
/// exposed summary per selected pod, in order, each that pod's own summary;
/// once the query is made, summarising fails only with the error of the
/// first selected pod whose summary fails.
pub proof fn lemma_service_summary_fields(svc: ServiceObject, pods: Seq<PodObject>)
    ensures
        service_details(svc, pods) matches Ok(v) ==> {
            &&& svc.spec is Some && svc.spec.unwrap().selector is Some && svc.metadata is Some
            &&& v.name == svc.metadata.unwrap().name.unwrap()@
            &&& v.namespace == svc.metadata.unwrap().namespace.unwrap()@
            &&& v.cluster_ip == svc.spec.unwrap().cluster_ip.unwrap()@
            &&& v.pods_exposed.len() == pods.len()
            &&& forall|i: int| 0 <= i < pods.len() ==> {
                &&& (#[trigger] pod_details(pods[i], true)) == Ok::<PodView, NettingError>(v.pods_exposed[i])
                &&& v.pods_exposed[i].exposed
            }
        },
        (service_query_spec(svc) is Ok && service_details(svc, pods) is Err) ==> exists|j: int| 0 <= j < pods.len()
            && details_ok_before(pods, j, true)
            && (#[trigger] pod_details(pods[j], true)) == Err::<PodView, NettingError>(service_details(svc, pods)->Err_0),
{
    lemma_pods_details_shape(pods, true);
    if let Ok(v) = service_details(svc, pods) {
        assert forall|i: int| 0 <= i < pods.len() implies {
            &&& (#[trigger] pod_details(pods[i], true)) == Ok::<PodView, NettingError>(v.pods_exposed[i])
            &&& v.pods_exposed[i].exposed
        } by {
            lemma_pod_summary_fields(pods[i], true);
        }
    }
}

/// Returns a wrapper object for the given service, whose selected pods
/// (those that its query lists) are `pods`; they are all marked exposed.
pub fn get_svc_details(svc: ServiceObject, pods: Vec<PodObject>) -> (r: Result<NettingService, NettingError>)
    requires
        service_summarisable(svc, pods@),
    ensures
        match (r, service_details(svc, pods@)) {
            (Ok(a), Ok(b)) => a@ == b,
            (Err(a), Err(b)) => a == b,
            _ => false,
        },
{
    let ghost s = svc;
    let ServiceObject { metadata, spec } = svc;
    let spec: ServiceSpecObject = match spec {
        Some(spec) => spec,
        None => { return Err(NettingError::ServiceSpecUndefined); },
    };
    if spec.selector.is_none() {
        return Err(NettingError::ServiceSelectorUndefined);
    }
    let meta: ObjectMeta = match metadata {
        Some(meta) => meta,
        None => { return Err(NettingError::ServiceMetadataUndefined); },
    };
    let netting_pods = match get_pods_details(pods, true) {
        Ok(p) => p,
        Err(e) => { return Err(e); },
    };
    let name = match meta.name { Some(n) => n, None => { proof { assert(false); } String::new() } };
    let namespace = match meta.namespace { Some(n) => n, None => { proof { assert(false); } String::new() } };
    let cluster_ip = match spec.cluster_ip { Some(c) => c, None => { proof { assert(false); } String::new() } };
    Ok(NettingService { name, namespace, cluster_ip, pods_exposed: netting_pods })
}

} // verus!
