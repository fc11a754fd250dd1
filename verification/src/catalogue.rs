use vstd::prelude::*;
use crate::catalog::{
    deploy_groups, deploy_table, group, listed_deployments, listed_pods, listed_pods_summarisable,
    listed_services, pod_groups, pod_table, serve, serve_table, split_listings, NamespaceListing,
};
use crate::k8s::error::NettingError;
use crate::k8s::objects::PodObject;
use crate::k8s::types::{DeploymentView, NettingDeployment, NettingPod, NettingService, PodView, ServiceView};
use crate::table::{expose_in, NamespaceTable};

verus! {

/// A catalogue of a cluster, laid out as `Catalog` is: per namespace, its pods, deployments and
/// services, and the namespaces in the order they were listed.
#[derive(Debug)]
pub struct Catalogue {
    pub pod_catalogue: NamespaceTable<NettingPod>,
    pub deploy_catalogue: NamespaceTable<NettingDeployment>,
    pub service_catalogue: NamespaceTable<NettingService>,
    pub namespaces: Vec<String>,
}

impl Catalogue {
    /// Each of the three tables is well formed.
    pub open spec fn wf(&self) -> bool {
        &&& self.pod_catalogue.wf()
        &&& self.deploy_catalogue.wf()
        &&& self.service_catalogue.wf()
    }

    /// An empty catalogue.
    pub fn new() -> (c: Catalogue)
        ensures
            c.wf(),
            c.pod_catalogue.map() == Map::<Seq<char>, Seq<PodView>>::empty(),
            c.deploy_catalogue.map() == Map::<Seq<char>, Seq<DeploymentView>>::empty(),
            c.service_catalogue.map() == Map::<Seq<char>, Seq<ServiceView>>::empty(),
            c.namespaces@.len() == 0,
    {
        Catalogue {
            pod_catalogue: NamespaceTable::new(),
            deploy_catalogue: NamespaceTable::new(),
            service_catalogue: NamespaceTable::new(),
            namespaces: Vec::new(),
        }
    }

    /// Builds the catalogue from what the API lists in each namespace: the
    /// pods that can be summarised, the deployments and the services that
    /// could be summarised, each under its namespace, with the pods that a
    /// service exposes marked as exposed.
    pub fn build_catalogue(&mut self, listings: Vec<NamespaceListing>)
        requires
            listed_pods_summarisable(listed_pods(listings@)),
        ensures
            final(self).wf(),
            final(self).namespaces@ == listings@.map_values(|l: NamespaceListing| l.namespace),
            final(self).deploy_catalogue.map() == group(deploy_groups(listed_deployments(listings@))),
            (final(self).service_catalogue.map(), final(self).pod_catalogue.map()) == serve(
                (Map::empty(), group(pod_groups(listed_pods(listings@)))),
                listed_services(listings@),
            ),
    {
        let (namespaces, pods, deployments, services) = split_listings(listings);
        self.pod_catalogue = self.build_pod_catalogue(pods);
        self.deploy_catalogue = self.build_deploy_catalogue(deployments);
        self.service_catalogue = self.build_svc_catalogue(services);
        self.namespaces = namespaces;
    }

    /// Empties the catalogue.
    pub fn clear_catalogue(&mut self)
        ensures
            final(self).wf(),
            final(self).pod_catalogue.map() == Map::<Seq<char>, Seq<PodView>>::empty(),
            final(self).deploy_catalogue.map() == Map::<Seq<char>, Seq<DeploymentView>>::empty(),
            final(self).service_catalogue.map() == Map::<Seq<char>, Seq<ServiceView>>::empty(),
            final(self).namespaces@.len() == 0,
    {
        self.namespaces.clear();
        self.pod_catalogue.clear();
        self.deploy_catalogue.clear();
        self.service_catalogue.clear();
    }

    /// Builds a pod catalogue from the pods listed per namespace.
    pub fn build_pod_catalogue(&self, pods: Vec<(String, Vec<PodObject>)>) -> (t: NamespaceTable<NettingPod>)
        requires
            listed_pods_summarisable(pods@),
        ensures
            t.wf(),
            t.map() == group(pod_groups(pods@)),
    {
        pod_table(pods)
    }

    /// Builds a deployment catalogue from the deployments listed per namespace.
    pub fn build_deploy_catalogue(&self, deployments: Vec<(String, Vec<NettingDeployment>)>) -> (t: NamespaceTable<NettingDeployment>)
        ensures
            t.wf(),
            t.map() == group(deploy_groups(deployments@)),
    {
        deploy_table(deployments)
    }

    /// Marks the pods of `namespace` that bear the name of `pod` as exposed.
    pub fn update_pod(&mut self, namespace: &String, pod: &NettingPod)
        requires
            old(self).wf(),
        ensures
            final(self).wf(),
            final(self).pod_catalogue.map() == expose_in(old(self).pod_catalogue.map(), namespace@, pod.name@),
            final(self).deploy_catalogue == old(self).deploy_catalogue,
            final(self).service_catalogue == old(self).service_catalogue,
            final(self).namespaces == old(self).namespaces,
    {
        self.pod_catalogue.mark_exposed(namespace, &pod.name);
    }

    /// Builds a service catalogue from the services listed per namespace,
    /// marking the pods that they expose in the pod catalogue.
    pub fn build_svc_catalogue(&mut self, services: Vec<(String, Vec<Result<NettingService, NettingError>>)>) -> (t: NamespaceTable<NettingService>)
        requires
            old(self).pod_catalogue.wf(),
        ensures
            t.wf(),
            final(self).pod_catalogue.wf(),
            (t.map(), final(self).pod_catalogue.map()) == serve((Map::empty(), old(self).pod_catalogue.map()), services@),
            final(self).deploy_catalogue == old(self).deploy_catalogue,
            final(self).service_catalogue == old(self).service_catalogue,
            final(self).namespaces == old(self).namespaces,
    {
        serve_table(&mut self.pod_catalogue, services)
    }
}

impl Default for Catalogue {
    /// An empty catalogue, as `new` gives.
    fn default() -> (c: Self)
        ensures
            c.wf(),
            c.pod_catalogue.map() == Map::<Seq<char>, Seq<PodView>>::empty(),
            c.deploy_catalogue.map() == Map::<Seq<char>, Seq<DeploymentView>>::empty(),
            c.service_catalogue.map() == Map::<Seq<char>, Seq<ServiceView>>::empty(),
            c.namespaces@.len() == 0,
    {
        Catalogue::new()
    }
}

} // verus!
