use vstd::prelude::*;
use std::collections::HashSet;
use vstd::std_specs::iter::IteratorSpec;
use crate::k8s::decimal::{decimal, i32_decimal};
use crate::k8s::pod::{get_pod_ports, lemma_pod_ports_members, pod_ports};
use crate::k8s::types::{ContainerView, DeploymentView, NettingContainer, NettingDeployment, NettingPod, NettingReplicaSet};

verus! {

broadcast use vstd::std_specs::hash::group_hash_axioms;

/// Walks a set of ports in the order that the set yields them.
fn walk_ports(ports: &HashSet<i32>) -> (order: Vec<i32>)
    ensures
        order@.no_duplicates(),
        order@.to_set() == ports@,
{
    let mut order: Vec<i32> = Vec::new();
    let ghost walk = ports.iter().remaining();
    proof {
        assert(walk.unref().to_set() == ports@);
        assert(walk.no_duplicates());
    }
    for port in it: ports.iter()
        invariant
            it.seq() == walk,
            order@.len() == it.index(),
            forall|j: int| 0 <= j < it.index() ==> order@[j] == *walk[j],
    {
        order.push(*port);
    }
    proof {
        assert(order@ =~= walk.unref());
        assert forall|a: int, b: int| 0 <= a < order@.len() && 0 <= b < order@.len() && a != b
            implies order@[a] != order@[b] by {
            assert(walk[a] != walk[b]);
        }
    }
    order
}

/// Adds every port of `more` to `acc`.
fn add_ports(acc: &mut HashSet<i32>, more: &HashSet<i32>)
    ensures
        final(acc)@ == old(acc)@.union(more@),
{
    let order = walk_ports(more);
    let mut i: usize = 0;
    while i < order.len()
        invariant
            i <= order.len(),
            acc@ == old(acc)@.union(order@.take(i as int).to_set()),
        decreases order.len() - i,
    {
        acc.insert(order[i]);
        proof {
            assert(order@.take(i + 1) =~= order@.take(i as int).push(order@[i as int]));
            order@.take(i as int).lemma_push_to_set_commute(order@[i as int]);
            assert(acc@ =~= old(acc)@.union(order@.take(i + 1).to_set()));
        }
        i = i + 1;
    }
    proof {
        assert(order@.take(order.len() as int) =~= order@);
    }
}

/// Port `x` is used by a pod of replica set `r` of the deployment, among
/// that replica set's first `limit` pods.
pub open spec fn uses_port(d: DeploymentView, r: int, limit: int, x: i32) -> bool {
    exists|q: int| 0 <= q < limit && q < d.replica_sets[r].pods.len()
        && #[trigger] pod_ports(d.replica_sets[r].pods[q]).contains(x)
}

/// The ports used by the pods of a deployment's replica sets.
pub open spec fn deployment_port_set(d: DeploymentView) -> Set<i32> {
    Set::new(|x: i32| exists|r: int| 0 <= r < d.replica_sets.len()
        && #[trigger] uses_port(d, r, d.replica_sets[r].pods.len() as int, x))
}

/// A port is used by a deployment exactly when some container of some pod
/// of some replica set of the deployment (any of them) declares it.
pub proof fn lemma_deployment_ports_members(d: DeploymentView, x: i32)
    ensures
        deployment_port_set(d).contains(x) <==> exists|r: int, q: int, c: int, j: int|
            0 <= r < d.replica_sets.len() && 0 <= q < d.replica_sets[r].pods.len()
            && 0 <= c < d.replica_sets[r].pods[q].containers.len()
            && 0 <= j < d.replica_sets[r].pods[q].containers[c].ports.len()
            && #[trigger] d.replica_sets[r].pods[q].containers[c].ports[j] == x,
{
    if deployment_port_set(d).contains(x) {
        let r = choose|r: int| 0 <= r < d.replica_sets.len()
            && #[trigger] uses_port(d, r, d.replica_sets[r].pods.len() as int, x);
        let q = choose|q: int| 0 <= q < d.replica_sets[r].pods.len() && q < d.replica_sets[r].pods.len()
            && #[trigger] pod_ports(d.replica_sets[r].pods[q]).contains(x);
        lemma_pod_ports_members(d.replica_sets[r].pods[q], x);
        let p = d.replica_sets[r].pods[q];
        let (c, j) = choose|c: int, j: int| 0 <= c < p.containers.len()
            && 0 <= j < p.containers[c].ports.len() && #[trigger] p.containers[c].ports[j] == x;
        assert(d.replica_sets[r].pods[q].containers[c].ports[j] == x);
    }
    if exists|r: int, q: int, c: int, j: int|
        0 <= r < d.replica_sets.len() && 0 <= q < d.replica_sets[r].pods.len()
        && 0 <= c < d.replica_sets[r].pods[q].containers.len()
        && 0 <= j < d.replica_sets[r].pods[q].containers[c].ports.len()
        && #[trigger] d.replica_sets[r].pods[q].containers[c].ports[j] == x {
        let (r, q, c, j) = choose|r: int, q: int, c: int, j: int|
            0 <= r < d.replica_sets.len() && 0 <= q < d.replica_sets[r].pods.len()
            && 0 <= c < d.replica_sets[r].pods[q].containers.len()
            && 0 <= j < d.replica_sets[r].pods[q].containers[c].ports.len()
            && #[trigger] d.replica_sets[r].pods[q].containers[c].ports[j] == x;
        let p = d.replica_sets[r].pods[q];
        lemma_pod_ports_members(p, x);
        assert(p.containers[c].ports[j] == x);
        assert(pod_ports(p).contains(x));
        assert(uses_port(d, r, d.replica_sets[r].pods.len() as int, x));
    }
}

/// Returns the set of ports that the pods of a deployment use: the traffic
/// that the injected sidecar is to receive.
pub fn deployment_ports(deploy: NettingDeployment) -> (ports: HashSet<i32>)
    ensures
        ports@ == deployment_port_set(deploy@),
{
    let ghost d = deploy@;
    let mut ports: HashSet<i32> = HashSet::new();
    let ghost rss = deploy.replica_sets@;
    for rs in it: deploy.replica_sets
        invariant
            it.seq() == rss,
            d.replica_sets == rss.map_values(|r: NettingReplicaSet| r@),
            forall|x: i32| ports@.contains(x) <==> exists|r: int| 0 <= r < it.index()
                && #[trigger] uses_port(d, r, d.replica_sets[r].pods.len() as int, x),
    {
        let ghost i = it.index();
        proof {
            assert(d.replica_sets[i] == rs@);
        }
        let ghost pods = rs.pods@;
        for pod in it2: rs.pods
            invariant
                it2.seq() == pods,
                0 <= i < d.replica_sets.len(),
                d.replica_sets[i].pods == pods.map_values(|p: NettingPod| p@),
                forall|x: i32| ports@.contains(x) <==> (exists|r: int| 0 <= r < i
                    && #[trigger] uses_port(d, r, d.replica_sets[r].pods.len() as int, x))
                    || uses_port(d, i, it2.index(), x),
        {
            let ghost q = it2.index();
            proof {
                assert(d.replica_sets[i].pods[q] == pod@);
            }
            let pod_set = get_pod_ports(pod);
            add_ports(&mut ports, &pod_set);
            proof {
                assert forall|x: i32| ports@.contains(x) <==> (exists|r: int| 0 <= r < i
                    && #[trigger] uses_port(d, r, d.replica_sets[r].pods.len() as int, x))
                    || uses_port(d, i, q + 1, x) by {
                    if uses_port(d, i, q + 1, x) && !pod_set@.contains(x) {
                        let w = choose|w: int| 0 <= w < q + 1 && w < d.replica_sets[i].pods.len()
                            && #[trigger] pod_ports(d.replica_sets[i].pods[w]).contains(x);
                        assert(w != q);
                        assert(uses_port(d, i, q, x));
                    }
                    if pod_set@.contains(x) {
                        assert(pod_ports(d.replica_sets[i].pods[q]).contains(x));
                    }
                }
            }
        }
        proof {
            assert forall|x: i32| ports@.contains(x) <==> exists|r: int| 0 <= r < i + 1
                && #[trigger] uses_port(d, r, d.replica_sets[r].pods.len() as int, x) by {
                if uses_port(d, i, d.replica_sets[i].pods.len() as int, x) {
                    assert(uses_port(d, i, pods.len() as int, x));
                }
            }
        }
    }
    proof {
        assert(ports@ =~= deployment_port_set(d));
    }
    ports
}

/// The NAT rule that redirects the TCP traffic of one port to the sidecar.
pub open spec fn redirect_rule(port: i32) -> Seq<char> {
    "iptables -t nat -A PREROUTING -p tcp -i eth0 --dport "@ + decimal(port as int)
        + " -j REDIRECT --to-port 50051;"@
}

/// The script of NAT rules for a list of ports, one rule per port, in order.
pub open spec fn redirect_script(ports: Seq<i32>) -> Seq<char>
    decreases ports.len(),
{
    if ports.len() == 0 {
        Seq::empty()
    } else {
        redirect_script(ports.drop_last()) + redirect_rule(ports.last())
    }
}

/// Scripts compose: the script for two lists of ports, one after the other,
/// is the first script followed by the second.
pub proof fn lemma_redirect_script_concat(a: Seq<i32>, b: Seq<i32>)
    ensures
        redirect_script(a + b) == redirect_script(a) + redirect_script(b),
    decreases b.len(),
{
    if b.len() == 0 {
        assert(a + b =~= a);
        assert(redirect_script(a) + Seq::<char>::empty() =~= redirect_script(a));
    } else {
        assert((a + b).drop_last() =~= a + b.drop_last());
        assert((a + b).last() == b.last());
        lemma_redirect_script_concat(a, b.drop_last());
        assert(redirect_script(a + b) =~= redirect_script(a) + redirect_script(b));
    }
}

/// The script for one port is that port's rule.
pub proof fn lemma_redirect_script_single(port: i32)
    ensures
        redirect_script(seq![port]) == redirect_rule(port),
{
    let s = seq![port];
    assert(s.drop_last() =~= Seq::<i32>::empty());
    assert(s.last() == port);
    assert(redirect_script(s.drop_last()) == Seq::<char>::empty());
    assert(redirect_script(s) == redirect_script(s.drop_last()) + redirect_rule(port));
    assert(Seq::<char>::empty() + redirect_rule(port) =~= redirect_rule(port));
}

/// Writes the script of NAT rules that redirects each of the ports, in order.
pub fn redirect_command(ports: &Vec<i32>) -> (cmd: String)
    ensures
        cmd@ == redirect_script(ports@),
{
    let mut cmd = String::new();
    let mut i: usize = 0;
    proof {
        assert(ports@.take(0) =~= Seq::<i32>::empty());
    }
    while i < ports.len()
        invariant
            i <= ports.len(),
            cmd@ == redirect_script(ports@.take(i as int)),
        decreases ports.len() - i,
    {
        let ghost before = cmd@;
        cmd.append("iptables -t nat -A PREROUTING -p tcp -i eth0 --dport ");
        let port_text = i32_decimal(ports[i]);
        cmd.append(port_text.as_str());
        cmd.append(" -j REDIRECT --to-port 50051;");
        proof {
            let t = ports@.take(i + 1);
            assert(t.drop_last() =~= ports@.take(i as int));
            assert(cmd@ =~= before + redirect_rule(ports@[i as int]));
        }
        i = i + 1;
    }
    proof {
        assert(ports@.take(ports.len() as int) =~= ports@);
    }
    cmd
}

/// A container port of the patched container.
#[derive(Debug)]
pub struct PortPatch {
    pub container_port: i32,
    pub protocol: String,
}

/// The container that the patch adds to the pod template.
#[derive(Debug)]
pub struct ContainerPatch {
    pub name: String,
    pub image: String,
    pub ports: Vec<PortPatch>,
}

/// The init container that the patch adds: it installs the NAT rules.
#[derive(Debug)]
pub struct InitContainerPatch {
    pub name: String,
    pub image: String,
    pub command: Vec<String>,
    pub capabilities_add: Vec<String>,
    pub privileged: bool,
}

/// A patch of a deployment's pod template, to be applied server-side.
#[derive(Debug)]
pub struct DeploymentPatch {
    pub api_version: String,
    pub kind: String,
    pub containers: Vec<ContainerPatch>,
    pub init_containers: Vec<InitContainerPatch>,
}

/// `p` is the patch that adds `container` (exposing its first port over TCP)
/// and the privileged init container `init-netting` that runs `script`.
pub open spec fn is_injection_patch(p: DeploymentPatch, container: ContainerView, script: Seq<char>) -> bool {
    &&& p.api_version@ == "apps/v1"@
    &&& p.kind@ == "Deployment"@
    &&& p.containers@.len() == 1
    &&& p.containers@[0].name@ == container.name
    &&& p.containers@[0].image@ == container.image
    &&& p.containers@[0].ports@.len() == 1
    &&& p.containers@[0].ports@[0].container_port == container.ports[0]
    &&& p.containers@[0].ports@[0].protocol@ == "TCP"@
    &&& p.init_containers@.len() == 1
    &&& p.init_containers@[0].name@ == "init-netting"@
    &&& p.init_containers@[0].image@ == "init-netting:v2"@
    &&& p.init_containers@[0].command@.len() == 3
    &&& p.init_containers@[0].command@[0]@ == "bash"@
    &&& p.init_containers@[0].command@[1]@ == "-c"@
    &&& p.init_containers@[0].command@[2]@ == script
    &&& p.init_containers@[0].capabilities_add@.len() == 1
    &&& p.init_containers@[0].capabilities_add@[0]@ == "NET_ADMIN"@
    &&& p.init_containers@[0].privileged
}

/// Builds the patch that injects `container` into a deployment, with an init
/// container whose script redirects each port of `port_to_redirect` to the
/// sidecar. The container must declare a port. The rules come in the order
/// in which the set yields its ports: the patch is the one for some order
/// of the set's ports without repetition.
pub fn build_patch(container: NettingContainer, port_to_redirect: HashSet<i32>) -> (patch: DeploymentPatch)
    requires
        container.ports@.len() > 0,
    ensures
        exists|order: Seq<i32>| #![trigger redirect_script(order)]
            order.no_duplicates() && order.to_set() == port_to_redirect@
            && is_injection_patch(patch, container@, redirect_script(order)),
{
    let ghost c = container@;
    let order = walk_ports(&port_to_redirect);
    let cmd = redirect_command(&order);
    let NettingContainer { name, image, ports } = container;
    let first_port = ports[0];
    let mut port_patches: Vec<PortPatch> = Vec::new();
    port_patches.push(PortPatch { container_port: first_port, protocol: "TCP".to_owned() });
    let mut containers: Vec<ContainerPatch> = Vec::new();
    containers.push(ContainerPatch { name, image, ports: port_patches });
    let mut command: Vec<String> = Vec::new();
    command.push("bash".to_owned());
    command.push("-c".to_owned());
    command.push(cmd);
    let mut capabilities_add: Vec<String> = Vec::new();
    capabilities_add.push("NET_ADMIN".to_owned());
    let mut init_containers: Vec<InitContainerPatch> = Vec::new();
    init_containers.push(InitContainerPatch {
        name: "init-netting".to_owned(),
        image: "init-netting:v2".to_owned(),
        command,
        capabilities_add,
        privileged: true,
    });
    let patch = DeploymentPatch {
        api_version: "apps/v1".to_owned(),
        kind: "Deployment".to_owned(),
        containers,
        init_containers,
    };
    proof {
        assert(is_injection_patch(patch, c, redirect_script(order@)));
    }
    patch
}

} // verus!
