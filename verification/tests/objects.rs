use netting::k8s::decimal::i32_decimal;
use netting::k8s::deploy::{
    check_replicaset,
    deployment_replicaset_query, get_deployment_details, get_replicaset_details,
    replicaset_pod_query,
};
use netting::k8s::error::NettingError;
use netting::k8s::labels::label_selector;
use netting::k8s::namespace::get_namespaces;
use netting::k8s::objects::{
    ContainerObject, DeploymentObject, DeploymentSpecObject, LabelSelectorObject,
    NamespaceObject, ObjectMeta, PodCondition, PodObject, PodSpecObject, PodStatusObject,
    ReplicaSetObject, ServiceObject, ServiceSpecObject,
};
use netting::k8s::pod::{
    get_container_details, get_container_status, get_pod_details, get_pod_ports,
    get_pods_details,
};
use netting::k8s::svc::{check_service, get_svc_details, service_pod_query};
use netting::k8s::types::{NettingContainer, NettingPod};

fn s(x: &str) -> String {
    x.to_string()
}

fn meta(name: &str, namespace: &str) -> ObjectMeta {
    ObjectMeta { name: Some(s(name)), namespace: Some(s(namespace)), labels: None }
}

fn container(name: &str, image: &str, ports: Vec<i32>) -> ContainerObject {
    ContainerObject { name: s(name), image: Some(s(image)), ports: Some(ports) }
}

fn ready(status: &str) -> PodStatusObject {
    PodStatusObject {
        conditions: Some(vec![
            PodCondition { type_: s("Initialized"), status: s("True") },
            PodCondition { type_: s("Ready"), status: s(status) },
            PodCondition { type_: s("Ready"), status: s("Later") },
        ]),
    }
}

fn pod(name: &str, namespace: &str, containers: Vec<ContainerObject>) -> PodObject {
    PodObject {
        metadata: Some(meta(name, namespace)),
        spec: Some(PodSpecObject { containers }),
        status: Some(ready("True")),
    }
}

#[test]
fn label_selector_joins_terms_with_commas() {
    let labels = vec![(s("app"), s("web")), (s("tier"), s("front"))];
    assert_eq!(label_selector(&labels), "app=web,tier=front");
    assert_eq!(label_selector(&vec![(s("app"), s("web"))]), "app=web");
    assert_eq!(label_selector(&vec![]), "");
}

#[test]
fn decimal_matches_debug_format() {
    for n in [0, 7, 10, 80, 50051, -1, -305, i32::MAX, i32::MIN] {
        assert_eq!(i32_decimal(n), format!("{:?}", n));
    }
}

#[test]
fn container_details_copy_name_image_ports() {
    let c = get_container_details(container("web", "nginx:1", vec![80, 443])).unwrap();
    assert_eq!(c.name, "web");
    assert_eq!(c.image, "nginx:1");
    assert_eq!(c.ports, vec![80, 443]);
    let none = ContainerObject { name: s("side"), image: Some(s("busybox")), ports: None };
    assert_eq!(get_container_details(none).unwrap().ports, Vec::<i32>::new());
}

#[test]
fn container_status_is_first_ready_condition() {
    let p = pod("a", "default", vec![]);
    assert_eq!(get_container_status(&p).unwrap(), "True");
    let no_ready = PodObject {
        metadata: None,
        spec: None,
        status: Some(PodStatusObject {
            conditions: Some(vec![PodCondition { type_: s("Scheduled"), status: s("True") }]),
        }),
    };
    assert!(matches!(get_container_status(&no_ready), Err(NettingError::ReadyStatusUndefined)));
    let no_status = PodObject { metadata: None, spec: None, status: None };
    assert!(matches!(get_container_status(&no_status), Err(NettingError::ReadyStatusUndefined)));
}

#[test]
fn pod_details_summarise_pod() {
    let p = pod("web-1", "shop", vec![container("web", "nginx", vec![80]), container("log", "fluent", vec![])]);
    let d = get_pod_details(p, true).unwrap();
    assert_eq!(d.name, "web-1");
    assert_eq!(d.namespace, "shop");
    assert_eq!(d.replicaset, "");
    assert_eq!(d.status, "True");
    assert!(d.exposed);
    assert_eq!(d.containers.len(), 2);
    assert_eq!(d.containers[0].name, "web");
    assert_eq!(d.containers[1].image, "fluent");
}

#[test]
fn pod_details_report_each_error() {
    let no_spec = PodObject { metadata: Some(meta("a", "b")), spec: None, status: Some(ready("True")) };
    assert!(matches!(get_pod_details(no_spec, false), Err(NettingError::PodSpecUndefined)));
    let no_ready = PodObject {
        metadata: Some(meta("a", "b")),
        spec: Some(PodSpecObject { containers: vec![] }),
        status: None,
    };
    assert!(matches!(get_pod_details(no_ready, false), Err(NettingError::ReadyStatusUndefined)));
    let no_meta = PodObject { metadata: None, spec: Some(PodSpecObject { containers: vec![] }), status: Some(ready("False")) };
    assert!(matches!(get_pod_details(no_meta, false), Err(NettingError::PodMetadataUndefined)));
}

#[test]
fn pods_details_stop_at_first_error() {
    let good = pod("a", "ns", vec![]);
    let bad = PodObject { metadata: None, spec: Some(PodSpecObject { containers: vec![] }), status: Some(ready("True")) };
    let r = get_pods_details(vec![good, bad, pod("c", "ns", vec![])], false);
    assert!(matches!(r, Err(NettingError::PodMetadataUndefined)));
    let ok = get_pods_details(vec![pod("a", "ns", vec![]), pod("b", "ns", vec![])], false).unwrap();
    assert_eq!(ok.len(), 2);
    assert_eq!(ok[1].name, "b");
}

fn netting_pod(name: &str, ports: Vec<Vec<i32>>) -> NettingPod {
    NettingPod {
        name: s(name),
        namespace: s("default"),
        replicaset: s(""),
        containers: ports
            .into_iter()
            .map(|p| NettingContainer { name: s("c"), image: s("i"), ports: p })
            .collect(),
        status: s("True"),
        exposed: false,
    }
}

#[test]
fn pod_ports_collect_every_container_port() {
    let ports = get_pod_ports(netting_pod("a", vec![vec![80, 443], vec![80, 9090], vec![]]));
    let mut v: Vec<i32> = ports.into_iter().collect();
    v.sort();
    assert_eq!(v, vec![80, 443, 9090]);
    assert!(get_pod_ports(netting_pod("b", vec![])).is_empty());
}

#[test]
fn replicaset_query_and_details() {
    let rs = ReplicaSetObject {
        metadata: Some(ObjectMeta {
            name: Some(s("web-abc")),
            namespace: Some(s("shop")),
            labels: Some(vec![(s("app"), s("web")), (s("pod-template-hash"), s("abc"))]),
        }),
    };
    let q = replicaset_pod_query(&rs).unwrap();
    assert_eq!(q.namespace, "shop");
    assert_eq!(q.labels, "app=web,pod-template-hash=abc");
    let d = get_replicaset_details(rs, vec![pod("web-abc-1", "shop", vec![])]).unwrap();
    assert_eq!(d.name, "web-abc");
    assert_eq!(d.namespace, "shop");
    assert_eq!(d.deployment, "");
    assert_eq!(d.pods.len(), 1);
    assert!(!d.pods[0].exposed);
    let bare = ReplicaSetObject { metadata: None };
    assert!(matches!(replicaset_pod_query(&bare), Err(NettingError::ReplicaSetMetadataUndefined)));
    assert!(matches!(get_replicaset_details(bare, vec![]), Err(NettingError::ReplicaSetMetadataUndefined)));
    let unlabelled = ReplicaSetObject { metadata: Some(meta("x", "y")) };
    assert_eq!(replicaset_pod_query(&unlabelled).unwrap().labels, "");
}

#[test]
fn deployment_query_and_details() {
    let d = DeploymentObject {
        metadata: Some(meta("web", "shop")),
        spec: Some(DeploymentSpecObject {
            selector: LabelSelectorObject { match_labels: Some(vec![(s("app"), s("web"))]) },
        }),
    };
    let q = deployment_replicaset_query(&d);
    assert_eq!(q.namespace, "shop");
    assert_eq!(q.labels, "app=web");
    let dep = get_deployment_details(d, vec![]);
    assert_eq!(dep.name, "web");
    assert_eq!(dep.namespace, "shop");
    assert!(dep.replica_sets.is_empty());
}

fn service(selector: Option<Vec<(String, String)>>) -> ServiceObject {
    ServiceObject {
        metadata: Some(meta("web-svc", "shop")),
        spec: Some(ServiceSpecObject { selector, cluster_ip: Some(s("10.0.0.7")) }),
    }
}

#[test]
fn service_query_and_details() {
    let svc = service(Some(vec![(s("app"), s("web"))]));
    let q = service_pod_query(&svc).unwrap();
    assert_eq!(q.namespace, "shop");
    assert_eq!(q.labels, "app=web");
    let d = get_svc_details(svc, vec![pod("web-1", "shop", vec![])]).unwrap();
    assert_eq!(d.name, "web-svc");
    assert_eq!(d.cluster_ip, "10.0.0.7");
    assert_eq!(d.pods_exposed.len(), 1);
    assert!(d.pods_exposed[0].exposed);
}

#[test]
fn service_errors() {
    let no_selector = service(None);
    assert!(matches!(service_pod_query(&no_selector), Err(NettingError::ServiceSelectorUndefined)));
    assert!(matches!(get_svc_details(service(None), vec![]), Err(NettingError::ServiceSelectorUndefined)));
    let no_spec = ServiceObject { metadata: Some(meta("a", "b")), spec: None };
    assert!(matches!(service_pod_query(&no_spec), Err(NettingError::ServiceSpecUndefined)));
    let no_meta = ServiceObject {
        metadata: None,
        spec: Some(ServiceSpecObject { selector: Some(vec![]), cluster_ip: None }),
    };
    assert!(matches!(service_pod_query(&no_meta), Err(NettingError::ServiceMetadataUndefined)));
}

#[test]
fn error_messages() {
    assert_eq!(NettingError::PodSpecUndefined.message(), "Pod spec undefined");
    assert_eq!(NettingError::ReadyStatusUndefined.message(), "Ready status undefined in container");
    assert_eq!(
        NettingError::ServiceSelectorUndefined.message(),
        "No labels found in service, doesn't expose anything"
    );
    assert_eq!(NettingError::Api(s("boom")).message(), "boom");
}

#[test]
fn namespaces_in_order() {
    let ns = vec![
        NamespaceObject { metadata: Some(meta("default", "")) },
        NamespaceObject { metadata: Some(meta("kube-system", "")) },
    ];
    assert_eq!(get_namespaces(ns), vec![s("default"), s("kube-system")]);
}

fn imageless_pod() -> PodObject {
    PodObject {
        metadata: Some(meta("bad", "shop")),
        spec: Some(PodSpecObject {
            containers: vec![ContainerObject { name: s("c"), image: None, ports: None }],
        }),
        status: Some(ready("True")),
    }
}

fn specless_pod() -> PodObject {
    PodObject { metadata: Some(meta("nospec", "shop")), spec: None, status: Some(ready("True")) }
}

#[test]
fn service_first_pod_error_wins_over_later_pods() {
    let pods = vec![specless_pod(), imageless_pod()];
    assert!(check_service(&service(Some(vec![(s("app"), s("web"))])), &pods));
    let r = get_svc_details(service(Some(vec![(s("app"), s("web"))])), pods);
    assert!(matches!(r, Err(NettingError::PodSpecUndefined)));
}

#[test]
fn replicaset_first_pod_error_wins_over_later_pods() {
    let rs = ReplicaSetObject { metadata: Some(meta("web-abc", "shop")) };
    let pods = vec![specless_pod(), imageless_pod()];
    assert!(check_replicaset(&rs, &pods));
    assert!(matches!(get_replicaset_details(rs, pods), Err(NettingError::PodSpecUndefined)));
    let reached = vec![pod("ok", "shop", vec![]), imageless_pod()];
    let rs2 = ReplicaSetObject { metadata: Some(meta("web-abc", "shop")) };
    assert!(!check_replicaset(&rs2, &reached));
}

#[test]
fn missing_and_empty_label_maps_select_alike() {
    let none = ReplicaSetObject { metadata: Some(meta("rs", "shop")) };
    let empty = ReplicaSetObject {
        metadata: Some(ObjectMeta { name: Some(s("rs")), namespace: Some(s("shop")), labels: Some(vec![]) }),
    };
    let a = replicaset_pod_query(&none).unwrap();
    let b = replicaset_pod_query(&empty).unwrap();
    assert_eq!(a.labels, "");
    assert_eq!(a.labels, b.labels);
    assert_eq!(a.namespace, b.namespace);
    let da = get_replicaset_details(none, vec![pod("p", "shop", vec![])]).unwrap();
    let db = get_replicaset_details(empty, vec![pod("p", "shop", vec![])]).unwrap();
    assert_eq!(da.name, db.name);
    assert_eq!(da.pods.len(), db.pods.len());
}
