use std::collections::HashSet;
use netting::catalog::{Catalog, NamespaceListing};
use netting::catalogue::Catalogue;
use netting::comm;
use netting::k8s::error::NettingError;
use netting::k8s::inject::{build_patch, deployment_ports, redirect_command};
use netting::k8s::objects::{ObjectMeta, PodCondition, PodObject, PodSpecObject, PodStatusObject};
use netting::k8s::types::{NettingContainer, NettingDeployment, NettingPod, NettingReplicaSet, NettingService};
use netting::msg::InitSystem;
use netting::net;
use netting::table::NamespaceTable;

fn s(x: &str) -> String {
    x.to_string()
}

fn pod_object(name: &str, namespace: &str) -> PodObject {
    PodObject {
        metadata: Some(ObjectMeta { name: Some(s(name)), namespace: Some(s(namespace)), labels: None }),
        spec: Some(PodSpecObject { containers: vec![] }),
        status: Some(PodStatusObject {
            conditions: Some(vec![PodCondition { type_: s("Ready"), status: s("True") }]),
        }),
    }
}

fn broken_pod() -> PodObject {
    PodObject { metadata: None, spec: None, status: None }
}

fn netting_pod(name: &str, ports: Vec<i32>) -> NettingPod {
    NettingPod {
        name: s(name),
        namespace: s("shop"),
        replicaset: s(""),
        containers: vec![NettingContainer { name: s("c"), image: s("img"), ports }],
        status: s("True"),
        exposed: true,
    }
}

fn service(name: &str, pods: Vec<&str>) -> NettingService {
    NettingService {
        name: s(name),
        namespace: s("shop"),
        cluster_ip: s("10.0.0.1"),
        pods_exposed: pods.into_iter().map(|p| netting_pod(p, vec![])).collect(),
    }
}

fn deployment(name: &str, pods: Vec<NettingPod>) -> NettingDeployment {
    NettingDeployment {
        name: s(name),
        namespace: s("shop"),
        replica_sets: vec![NettingReplicaSet { name: s("rs"), namespace: s("shop"), deployment: s(""), pods }],
    }
}

#[test]
fn redirect_command_one_rule_per_port() {
    assert_eq!(redirect_command(&vec![]), "");
    assert_eq!(
        redirect_command(&vec![8080, 443]),
        "iptables -t nat -A PREROUTING -p tcp -i eth0 --dport 8080 -j REDIRECT --to-port 50051;\
         iptables -t nat -A PREROUTING -p tcp -i eth0 --dport 443 -j REDIRECT --to-port 50051;"
    );
}

#[test]
fn deployment_ports_union_of_pod_ports() {
    let d = deployment("web", vec![netting_pod("a", vec![80, 443]), netting_pod("b", vec![80, 9000])]);
    let mut v: Vec<i32> = deployment_ports(d).into_iter().collect();
    v.sort();
    assert_eq!(v, vec![80, 443, 9000]);
}

#[test]
fn build_patch_shape() {
    let container = NettingContainer { name: s("netting-tmp"), image: s("netting:v2"), ports: vec![50052, 1] };
    let ports: HashSet<i32> = [80, 443].into_iter().collect();
    let p = build_patch(container, ports);
    assert_eq!(p.api_version, "apps/v1");
    assert_eq!(p.kind, "Deployment");
    assert_eq!(p.containers.len(), 1);
    assert_eq!(p.containers[0].name, "netting-tmp");
    assert_eq!(p.containers[0].image, "netting:v2");
    assert_eq!(p.containers[0].ports.len(), 1);
    assert_eq!(p.containers[0].ports[0].container_port, 50052);
    assert_eq!(p.containers[0].ports[0].protocol, "TCP");
    let init = &p.init_containers[0];
    assert_eq!(init.name, "init-netting");
    assert_eq!(init.image, "init-netting:v2");
    assert_eq!(init.command[0], "bash");
    assert_eq!(init.command[1], "-c");
    let a = "iptables -t nat -A PREROUTING -p tcp -i eth0 --dport 80 -j REDIRECT --to-port 50051;";
    let b = "iptables -t nat -A PREROUTING -p tcp -i eth0 --dport 443 -j REDIRECT --to-port 50051;";
    assert!(init.command[2] == format!("{}{}", a, b) || init.command[2] == format!("{}{}", b, a));
    assert_eq!(init.capabilities_add, vec![s("NET_ADMIN")]);
    assert!(init.privileged);
}

#[test]
fn table_groups_and_marks() {
    let mut t: NamespaceTable<NettingPod> = NamespaceTable::new();
    t.append(s("shop"), netting_pod("a", vec![]));
    t.append(s("ops"), netting_pod("b", vec![]));
    t.append(s("shop"), netting_pod("a", vec![]));
    assert_eq!(t.len(), 2);
    assert_eq!(t.get(&s("shop")).unwrap().len(), 2);
    assert!(t.get(&s("none")).is_none());
    let mut fresh: NamespaceTable<NettingPod> = NamespaceTable::new();
    let mut p = netting_pod("x", vec![]);
    p.exposed = false;
    fresh.append(s("shop"), p);
    fresh.mark_exposed(&s("shop"), &s("y"));
    assert!(!fresh.get(&s("shop")).unwrap()[0].exposed);
    fresh.mark_exposed(&s("ops"), &s("x"));
    assert!(!fresh.get(&s("shop")).unwrap()[0].exposed);
    fresh.mark_exposed(&s("shop"), &s("x"));
    assert!(fresh.get(&s("shop")).unwrap()[0].exposed);
    t.clear();
    assert_eq!(t.len(), 0);
}

fn listings() -> Vec<NamespaceListing> {
    vec![
        NamespaceListing {
            namespace: s("shop"),
            pods: vec![pod_object("web-1", "shop"), broken_pod(), pod_object("db-1", "shop")],
            deployments: vec![deployment("web", vec![])],
            services: vec![Ok(service("web-svc", vec!["web-1"])), Err(NettingError::ServiceSpecUndefined)],
        },
        NamespaceListing {
            namespace: s("empty"),
            pods: vec![],
            deployments: vec![],
            services: vec![Err(NettingError::ServiceSelectorUndefined)],
        },
        NamespaceListing {
            namespace: s("ops"),
            pods: vec![pod_object("web-1", "ops")],
            deployments: vec![],
            services: vec![],
        },
    ]
}

#[test]
fn catalog_build_marks_exposed_pods() {
    let mut c = Catalog::new();
    c.build_catalog(listings());
    assert_eq!(c.namespaces, vec![s("shop"), s("empty"), s("ops")]);
    assert_eq!(c.pod_catalog.len(), 2);
    let shop = c.pod_catalog.get(&s("shop")).unwrap();
    assert_eq!(shop.len(), 2);
    assert_eq!(shop[0].name, "web-1");
    assert!(shop[0].exposed);
    assert_eq!(shop[1].name, "db-1");
    assert!(!shop[1].exposed);
    let ops = c.pod_catalog.get(&s("ops")).unwrap();
    assert!(!ops[0].exposed);
    assert!(c.pod_catalog.get(&s("empty")).is_none());
    assert_eq!(c.deploy_catalog.len(), 1);
    assert_eq!(c.deploy_catalog.get(&s("shop")).unwrap()[0].name, "web");
    assert_eq!(c.service_catalog.len(), 1);
    assert_eq!(c.service_catalog.get(&s("shop")).unwrap().len(), 1);
    c.clear_catalog();
    assert!(c.namespaces.is_empty());
    assert_eq!(c.pod_catalog.len(), 0);
    assert_eq!(c.deploy_catalog.len(), 0);
    assert_eq!(c.service_catalog.len(), 0);
}

#[test]
fn catalog_update_pod_marks_by_name() {
    let mut c = Catalog::new();
    c.build_catalog(vec![NamespaceListing {
        namespace: s("shop"),
        pods: vec![pod_object("a", "shop"), pod_object("b", "shop")],
        deployments: vec![],
        services: vec![],
    }]);
    c.update_pod(&s("shop"), &netting_pod("b", vec![]));
    let shop = c.pod_catalog.get(&s("shop")).unwrap();
    assert!(!shop[0].exposed);
    assert!(shop[1].exposed);
}

#[test]
fn catalogue_build_matches_catalog() {
    let mut c = Catalogue::new();
    c.build_catalogue(listings());
    let shop = c.pod_catalogue.get(&s("shop")).unwrap();
    assert!(shop[0].exposed);
    assert!(!shop[1].exposed);
    assert_eq!(c.service_catalogue.len(), 1);
    c.clear_catalogue();
    assert_eq!(c.pod_catalogue.len(), 0);
}

#[test]
fn talker_replies_netting() {
    let req = InitSystem { ip_address: s("10.1.2.3") };
    let mut a = comm::server::TalkerServer;
    assert_eq!(a.talk(&req).ip_address, "Netting");
    let mut b = net::server::TalkerServer::new();
    assert_eq!(b.status(), 1);
    assert_eq!(b.talk(&req).ip_address, "Netting");
    assert_eq!(b.status(), 1);
}

fn unexposed(name: &str) -> NettingPod {
    let mut p = netting_pod(name, vec![]);
    p.exposed = false;
    p
}

fn exposure_flags(t: &NamespaceTable<NettingPod>, ns: &str) -> Vec<bool> {
    t.get(&s(ns)).unwrap().iter().map(|p| p.exposed).collect()
}

#[test]
fn marking_twice_is_marking_once() {
    let mut once: NamespaceTable<NettingPod> = NamespaceTable::new();
    once.append(s("shop"), unexposed("a"));
    once.append(s("shop"), unexposed("b"));
    once.append(s("shop"), unexposed("a"));
    once.mark_exposed(&s("shop"), &s("a"));
    let after_once = exposure_flags(&once, "shop");
    once.mark_exposed(&s("shop"), &s("a"));
    assert_eq!(exposure_flags(&once, "shop"), after_once);
    assert_eq!(after_once, vec![true, false, true]);
}

#[test]
fn markings_commute() {
    let build = || {
        let mut t: NamespaceTable<NettingPod> = NamespaceTable::new();
        t.append(s("shop"), unexposed("a"));
        t.append(s("shop"), unexposed("b"));
        t.append(s("ops"), unexposed("a"));
        t
    };
    let mut x = build();
    x.mark_exposed(&s("shop"), &s("a"));
    x.mark_exposed(&s("ops"), &s("b"));
    let mut y = build();
    y.mark_exposed(&s("ops"), &s("b"));
    y.mark_exposed(&s("shop"), &s("a"));
    assert_eq!(exposure_flags(&x, "shop"), exposure_flags(&y, "shop"));
    assert_eq!(exposure_flags(&x, "ops"), exposure_flags(&y, "ops"));
    assert_eq!(exposure_flags(&x, "ops"), vec![false]);
}

#[test]
fn grouping_concatenates_lists_of_a_namespace_in_order() {
    let c = Catalog::new();
    let t = c.build_pod_catalog(vec![
        (s("shop"), vec![pod_object("a", "shop")]),
        (s("ops"), vec![broken_pod()]),
        (s("shop"), vec![pod_object("b", "shop"), pod_object("c", "shop")]),
    ]);
    assert_eq!(t.len(), 1);
    let names: Vec<String> = t.get(&s("shop")).unwrap().iter().map(|p| p.name.clone()).collect();
    assert_eq!(names, vec![s("a"), s("b"), s("c")]);
    assert!(t.get(&s("ops")).is_none());
}

#[test]
fn default_catalogues_are_empty() {
    let c = Catalog::default();
    assert_eq!(c.pod_catalog.len(), 0);
    assert!(c.namespaces.is_empty());
    let d = Catalogue::default();
    assert_eq!(d.service_catalogue.len(), 0);
    assert!(d.namespaces.is_empty());
}
