use vstd::prelude::*;

verus! {

/// Summary of one container of a pod: its name, its image and the
/// container ports it declares.
#[derive(Clone, Debug)]
pub struct NettingContainer {
    pub name: String,
    pub image: String,
    pub ports: Vec<i32>,
}

/// Summary of a pod.
#[derive(Clone, Debug)]
pub struct NettingPod {
    pub name: String,
    pub namespace: String,
    pub replicaset: String,
    pub containers: Vec<NettingContainer>,
    pub status: String,
    pub exposed: bool,
}

/// Summary of a replica set and of the pods its labels select.
#[derive(Clone, Debug)]
pub struct NettingReplicaSet {
    pub name: String,
    pub namespace: String,
    pub deployment: String,
    pub pods: Vec<NettingPod>,
}

/// Summary of a deployment and of the replica sets its selector matches.
#[derive(Clone, Debug)]
pub struct NettingDeployment {
    pub name: String,
    pub namespace: String,
    pub replica_sets: Vec<NettingReplicaSet>,
}

/// Summary of a service and of the pods it exposes.
#[derive(Clone, Debug)]
pub struct NettingService {
    pub name: String,
    pub namespace: String,
    pub cluster_ip: String,
    pub pods_exposed: Vec<NettingPod>,
}

/// Mathematical value of a `NettingContainer`.
pub struct ContainerView {
    pub name: Seq<char>,
    pub image: Seq<char>,
    pub ports: Seq<i32>,
}

/// Mathematical value of a `NettingPod`.
pub struct PodView {
    pub name: Seq<char>,
    pub namespace: Seq<char>,
    pub replicaset: Seq<char>,
    pub containers: Seq<ContainerView>,
    pub status: Seq<char>,
    pub exposed: bool,
}

/// Mathematical value of a `NettingReplicaSet`.
pub struct ReplicaSetView {
    pub name: Seq<char>,
    pub namespace: Seq<char>,
    pub deployment: Seq<char>,
    pub pods: Seq<PodView>,
}

/// Mathematical value of a `NettingDeployment`.
pub struct DeploymentView {
    pub name: Seq<char>,
    pub namespace: Seq<char>,
    pub replica_sets: Seq<ReplicaSetView>,
}

/// Mathematical value of a `NettingService`.
pub struct ServiceView {
    pub name: Seq<char>,
    pub namespace: Seq<char>,
    pub cluster_ip: Seq<char>,
    pub pods_exposed: Seq<PodView>,
}

impl View for NettingContainer {
    type V = ContainerView;

    open spec fn view(&self) -> ContainerView {
        ContainerView { name: self.name@, image: self.image@, ports: self.ports@ }
    }
}

pub open spec fn containers_view(cs: Seq<NettingContainer>) -> Seq<ContainerView> {
    cs.map_values(|c: NettingContainer| c@)
}

impl View for NettingPod {
    type V = PodView;

    open spec fn view(&self) -> PodView {
        PodView {
            name: self.name@,
            namespace: self.namespace@,
            replicaset: self.replicaset@,
            containers: containers_view(self.containers@),
            status: self.status@,
            exposed: self.exposed,
        }
    }
}

pub open spec fn pods_view(ps: Seq<NettingPod>) -> Seq<PodView> {
    ps.map_values(|p: NettingPod| p@)
}

impl View for NettingReplicaSet {
    type V = ReplicaSetView;

    open spec fn view(&self) -> ReplicaSetView {
        ReplicaSetView {
            name: self.name@,
            namespace: self.namespace@,
            deployment: self.deployment@,
            pods: pods_view(self.pods@),
        }
    }
}

pub open spec fn replica_sets_view(rs: Seq<NettingReplicaSet>) -> Seq<ReplicaSetView> {
    rs.map_values(|r: NettingReplicaSet| r@)
}

impl View for NettingDeployment {
    type V = DeploymentView;

    open spec fn view(&self) -> DeploymentView {
        DeploymentView {
            name: self.name@,
            namespace: self.namespace@,
            replica_sets: replica_sets_view(self.replica_sets@),
        }
    }
}

impl View for NettingService {
    type V = ServiceView;

    open spec fn view(&self) -> ServiceView {
        ServiceView {
            name: self.name@,
            namespace: self.namespace@,
            cluster_ip: self.cluster_ip@,
            pods_exposed: pods_view(self.pods_exposed@),
        }
    }
}

impl PodView {
    /// The same pod, marked as exposed by a service.
    pub open spec fn with_exposed(self) -> PodView {
        PodView { exposed: true, ..self }
    }
}

} // verus!
