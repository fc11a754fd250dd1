use vstd::prelude::*;
use std::collections::HashSet;
use crate::k8s::error::{same_result, NettingError};
use crate::k8s::objects::{ContainerObject, PodCondition, PodObject};
use crate::k8s::types::{pods_view, ContainerView, NettingContainer, NettingPod, PodView};

verus! {

broadcast use vstd::std_specs::hash::group_hash_axioms;

/// The container ports that a container declares (none when it declares no list).
pub open spec fn declared_ports(c: ContainerObject) -> Seq<i32> {
    match c.ports {
        Some(p) => p@,
        None => Seq::empty(),
    }
}

/// The summary of a container whose image is defined.
pub open spec fn container_summary(c: ContainerObject) -> ContainerView {
    ContainerView { name: c.name@, image: c.image.unwrap()@, ports: declared_ports(c) }
}

/// Returns a wrapper object for the given container. The container's image
/// must be defined (the summary is not made without one).
pub fn get_container_details(container: ContainerObject) -> (r: Result<NettingContainer, NettingError>)
    requires
        container.image is Some,
    ensures
        r matches Ok(c) && c@ == container_summary(container),
{
    let ghost whole = container;
    let ContainerObject { name, image, ports: declared } = container;
    let mut ports: Vec<i32> = Vec::new();
    if let Some(container_ports) = declared {
        let mut i: usize = 0;
        while i < container_ports.len()
            invariant
                i <= container_ports.len(),
                ports@ == container_ports@.take(i as int),
            decreases container_ports.len() - i,
        {
            ports.push(container_ports[i]);
            i = i + 1;
            proof {
                assert(ports@ =~= container_ports@.take(i as int));
            }
        }
        proof {
            assert(ports@ =~= container_ports@);
        }
    }
    let image = match image {
        Some(image) => image,
        None => { proof { assert(false); } String::new() },
    };
    Ok(NettingContainer { name, image, ports })
}

/// The status of the first condition of type `Ready` in a list of conditions.
pub open spec fn ready_in(conds: Seq<PodCondition>) -> Option<Seq<char>>
    decreases conds.len(),
{
    if conds.len() == 0 {
        None
    } else if conds[0].type_@ == "Ready"@ {
        Some(conds[0].status@)
    } else {
        ready_in(conds.drop_first())
    }
}

/// The pod's ready status: the status of its first `Ready` condition, if any.
pub open spec fn ready_status(pod: PodObject) -> Option<Seq<char>> {
    match pod.status {
        Some(st) => match st.conditions {
            Some(cs) => ready_in(cs@),
            None => None,
        },
        None => None,
    }
}

/// Returns the container ready status of the pod: the status of its first
/// condition of type `Ready`, or `ReadyStatusUndefined` when it has none.
pub fn get_container_status(pod: &PodObject) -> (r: Result<String, NettingError>)
    ensures
        match ready_status(*pod) {
            Some(s) => r matches Ok(t) && t@ == s,
            None => r matches Err(e) && e == NettingError::ReadyStatusUndefined,
        },
{
    if let Some(status) = &pod.status {
        if let Some(conditions) = &status.conditions {
            let ready = "Ready".to_owned();
            let mut i: usize = 0;
            proof {
                assert(conditions@.skip(0) =~= conditions@);
            }
            while i < conditions.len()
                invariant
                    i <= conditions.len(),
                    ready@ == "Ready"@,
                    ready_status(*pod) == ready_in(conditions@),
                    ready_in(conditions@) == ready_in(conditions@.skip(i as int)),
                decreases conditions.len() - i,
            {
                let condition = &conditions[i];
                proof {
                    assert(conditions@.skip(i as int)[0] == conditions@[i as int]);
                }
                if condition.type_ == ready {
                    proof {
                        let rest = conditions@.skip(i as int);
                        assert(rest.len() > 0);
                        assert(rest[0].type_@ == "Ready"@);
                        assert(ready_in(rest) == Some(condition.status@));
                    }
                    return Ok(condition.status.clone());
                }
                proof {
                    assert(conditions@.skip(i as int).drop_first() =~= conditions@.skip(i + 1));
                }
                i = i + 1;
            }
        }
    }
    Err(NettingError::ReadyStatusUndefined)
}

/// Every container of the list has its image defined.
pub open spec fn images_defined(cs: Seq<ContainerObject>) -> bool {
    forall|i: int| 0 <= i < cs.len() ==> (#[trigger] cs[i]).image is Some
}

/// The inputs on which summarising a pod runs to an end: where the pod has a
/// spec, each container has an image, and where it also has a ready status
/// and metadata, its name and namespace are defined.
pub open spec fn pod_summarisable(pod: PodObject) -> bool {
    pod.spec is Some ==> {
        &&& images_defined(pod.spec.unwrap().containers@)
        &&& (ready_status(pod) is Some && pod.metadata is Some) ==> {
            &&& pod.metadata.unwrap().name is Some
            &&& pod.metadata.unwrap().namespace is Some
        }
    }
}

/// The summary of a pod, or the error that summarising it meets first.
pub open spec fn pod_details(pod: PodObject, exposed: bool) -> Result<PodView, NettingError> {
    match pod.spec {
        None => Err(NettingError::PodSpecUndefined),
        Some(spec) => match ready_status(pod) {
            None => Err(NettingError::ReadyStatusUndefined),
            Some(status) => match pod.metadata {
                None => Err(NettingError::PodMetadataUndefined),
                Some(meta) => Ok(
                    PodView {
                        name: meta.name.unwrap()@,
                        namespace: meta.namespace.unwrap()@,
                        replicaset: Seq::empty(),
                        containers: spec.containers@.map_values(|c: ContainerObject| container_summary(c)),
                        status: status,
                        exposed: exposed,
                    },
                ),
            },
        },
    }
}

/// Returns a wrapper object for the given pod, marked exposed or not as the
/// caller says.
pub fn get_pod_details(pod: PodObject, exposed: bool) -> (r: Result<NettingPod, NettingError>)
    requires
        pod_summarisable(pod),
    ensures
        same_result(r, pod_details(pod, exposed)),
{
    let status = get_container_status(&pod);
    let PodObject { metadata, spec, status: _ } = pod;
    let spec = match spec {
        Some(spec) => spec,
        None => { return Err(NettingError::PodSpecUndefined); },
    };
    let ghost spec_containers = spec.containers@;
    let mut containers: Vec<NettingContainer> = Vec::new();
    for container in it: spec.containers
        invariant
            it.seq() == spec_containers,
            images_defined(spec_containers),
            containers@.len() == it.index(),
            forall|j: int| 0 <= j < it.index() ==>
                (#[trigger] containers@[j])@ == container_summary(spec_containers[j]),
    {
        proof {
            assert(spec_containers[it.index() as int] == container);
        }
        match get_container_details(container) {
            Ok(c) => containers.push(c),
            Err(e) => { return Err(e); },
        }
    }
    let status = match status {
        Ok(s) => s,
        Err(e) => { return Err(e); },
    };
    match metadata {
        Some(meta) => {
            let name = match meta.name { Some(n) => n, None => { proof { assert(false); } String::new() } };
            let namespace = match meta.namespace { Some(n) => n, None => { proof { assert(false); } String::new() } };
            let r = NettingPod {
                name,
                namespace,
                replicaset: String::new(),
                containers,
                status,
                exposed,
            };
            proof {
                assert(r@.containers =~= spec_containers.map_values(|c: ContainerObject| container_summary(c)));
            }
            Ok(r)
        },
        None => Err(NettingError::PodMetadataUndefined),
    }
}

/// The summaries of a list of pods, in order, or the first error met.
pub open spec fn pods_details(pods: Seq<PodObject>, exposed: bool) -> Result<Seq<PodView>, NettingError>
    decreases pods.len(),
{
    if pods.len() == 0 {
        Ok(Seq::empty())
    } else {
        match pods_details(pods.drop_last(), exposed) {
            Err(e) => Err(e),
            Ok(s) => match pod_details(pods.last(), exposed) {
                Err(e) => Err(e),
                Ok(p) => Ok(s.push(p)),
            },
        }
    }
}

/// Summarising each of the first `n` pods of the list succeeds.
pub open spec fn details_ok_before(pods: Seq<PodObject>, n: int, exposed: bool) -> bool {
    forall|k: int| 0 <= k < n ==> (#[trigger] pod_details(pods[k], exposed)) is Ok
}

/// Every pod that summarising the list reaches can be summarised: each pod
/// all of whose predecessors were summarised (summarising the list stops at
/// the first pod whose summary fails).
pub open spec fn pods_reached_summarisable(pods: Seq<PodObject>, exposed: bool) -> bool {
    forall|i: int| 0 <= i < pods.len() && details_ok_before(pods, i, exposed)
        ==> pod_summarisable(#[trigger] pods[i])
}

/// A list of summaries agrees with its specification.
pub open spec fn same_pods(r: Result<Vec<NettingPod>, NettingError>, s: Result<Seq<PodView>, NettingError>) -> bool {
    match (r, s) {
        (Ok(a), Ok(b)) => pods_view(a@) == b,
        (Err(a), Err(b)) => a == b,
        _ => false,
    }
}

/// Summarises each pod of a list, in order, all marked exposed or not as
/// the caller says; stops at the first pod that cannot be summarised.
pub fn get_pods_details(pods: Vec<PodObject>, exposed: bool) -> (r: Result<Vec<NettingPod>, NettingError>)
    requires
        pods_reached_summarisable(pods@, exposed),
    ensures
        same_pods(r, pods_details(pods@, exposed)),
{
    let ghost all = pods@;
    let mut out: Vec<NettingPod> = Vec::new();
    proof {
        assert(all.take(0) =~= Seq::<PodObject>::empty());
        assert(pods_view(out@) =~= Seq::<PodView>::empty());
    }
    for pod in it: pods
        invariant
            it.seq() == all,
            pods_reached_summarisable(all, exposed),
            pods_details(all.take(it.index()), exposed) == Ok::<Seq<PodView>, NettingError>(pods_view(out@)),
    {
        let ghost i = it.index();
        proof {
            assert(all[i] == pod);
            lemma_pods_details_ok(all.take(i), exposed);
            assert forall|k: int| 0 <= k < i implies (#[trigger] pod_details(all[k], exposed)) is Ok by {
                assert(all.take(i)[k] == all[k]);
                assert(pod_details(all.take(i)[k], exposed) is Ok);
            }
            assert(details_ok_before(all, i, exposed));
            assert(pod_summarisable(all[i]));
            assert(all.take(i + 1).drop_last() =~= all.take(i));
            assert(all.take(i + 1).last() == pod);
        }
        match get_pod_details(pod, exposed) {
            Ok(p) => {
                let ghost before = out@;
                out.push(p);
                proof {
                    assert(pods_view(out@) =~= pods_view(before).push(p@));
                }
            },
            Err(e) => {
                proof {
                    lemma_pods_details_error_persists(all, i + 1, exposed);
                }
                return Err(e);
            },
        }
    }
    proof {
        assert(all.take(all.len() as int) =~= all);
    }
    Ok(out)
}

/// Once summarising a prefix of a list fails, summarising the whole list
/// fails with the same error.
pub proof fn lemma_pods_details_error_persists(pods: Seq<PodObject>, n: int, exposed: bool)
    requires
        0 <= n <= pods.len(),
        pods_details(pods.take(n), exposed) is Err,
    ensures
        pods_details(pods, exposed) == pods_details(pods.take(n), exposed),
    decreases pods.len() - n,
{
    if n < pods.len() {
        assert(pods.take(n + 1).drop_last() =~= pods.take(n));
        lemma_pods_details_error_persists(pods, n + 1, exposed);
    } else {
        assert(pods.take(n) =~= pods);
    }
}

/// Whether summarising the pod succeeds (the flag does not matter).
pub fn pod_details_succeed(pod: &PodObject) -> (ok: bool)
    ensures
        ok == pod_details(*pod, false) is Ok,
        ok == pod_details(*pod, true) is Ok,
{
    pod.spec.is_some() && get_container_status(pod).is_ok() && pod.metadata.is_some()
}

/// Whether summarising the pod runs to an end (see `pod_summarisable`).
pub fn check_pod(pod: &PodObject) -> (ok: bool)
    ensures
        ok == pod_summarisable(*pod),
{
    match &pod.spec {
        None => true,
        Some(spec) => {
            let mut i: usize = 0;
            while i < spec.containers.len()
                invariant
                    i <= spec.containers@.len(),
                    pod.spec == Some(*spec),
                    forall|j: int| 0 <= j < i ==> (#[trigger] spec.containers@[j]).image is Some,
                decreases spec.containers.len() - i,
            {
                if spec.containers[i].image.is_none() {
                    proof {
                        assert(pod.spec.unwrap().containers@[i as int].image is None);
                        assert(!images_defined(pod.spec.unwrap().containers@));
                    }
                    return false;
                }
                i = i + 1;
            }
            let named = match &pod.metadata {
                Some(meta) => get_container_status(pod).is_err() || (meta.name.is_some() && meta.namespace.is_some()),
                None => true,
            };
            named
        },
    }
}

/// Summarising a list succeeds exactly when summarising each pod does.
pub proof fn lemma_pods_details_ok(pods: Seq<PodObject>, exposed: bool)
    ensures
        pods_details(pods, exposed) is Ok <==> forall|i: int| 0 <= i < pods.len()
            ==> (#[trigger] pod_details(pods[i], exposed)) is Ok,
    decreases pods.len(),
{
    if pods.len() > 0 {
        let prev = pods.drop_last();
        lemma_pods_details_ok(prev, exposed);
        if pods_details(pods, exposed) is Ok {
            assert forall|i: int| 0 <= i < pods.len() implies (#[trigger] pod_details(pods[i], exposed)) is Ok by {
                if i < prev.len() {
                    assert(pods[i] == prev[i]);
                }
            }
        }
        if forall|i: int| 0 <= i < pods.len() ==> (#[trigger] pod_details(pods[i], exposed)) is Ok {
            assert forall|i: int| 0 <= i < prev.len() implies (#[trigger] pod_details(prev[i], exposed)) is Ok by {
                assert(pods[i] == prev[i]);
            }
            assert(pod_details(pods[pods.len() - 1], exposed) is Ok);
        }
    }
}

/// Whether summarising a pod succeeds does not depend on the exposed flag.
pub proof fn lemma_details_ok_flag(pod: PodObject)
    ensures
        (pod_details(pod, false) is Ok) == (pod_details(pod, true) is Ok),
{
}

/// Whether every pod that summarising the list reaches can be summarised,
/// and whether summarising them all succeeds.
pub fn check_pods(pods: &Vec<PodObject>) -> (r: (bool, bool))
    ensures
        r.0 == pods_reached_summarisable(pods@, false),
        r.0 == pods_reached_summarisable(pods@, true),
        r.1 == (pods_details(pods@, false) is Ok),
        r.1 == (pods_details(pods@, true) is Ok),
{
    proof {
        lemma_pods_details_ok(pods@, false);
        lemma_pods_details_ok(pods@, true);
    }
    let mut reached_summarisable = true;
    let mut all_ok = true;
    let mut i: usize = 0;
    while i < pods.len()
        invariant
            i <= pods@.len(),
            reached_summarisable == forall|j: int| 0 <= j < i && details_ok_before(pods@, j, false)
                ==> pod_summarisable(#[trigger] pods@[j]),
            all_ok == details_ok_before(pods@, i as int, false),
        decreases pods.len() - i,
    {
        let summarisable = check_pod(&pods[i]);
        let ok = pod_details_succeed(&pods[i]);
        let ghost before = reached_summarisable;
        proof {
            assert forall|j: int| 0 <= j < i + 1 && details_ok_before(pods@, j, false)
                implies (pod_summarisable(#[trigger] pods@[j]) <== (before && (!all_ok || summarisable))) by {
            }
            if !(before && (!all_ok || summarisable)) {
                if !before {
                    let j = choose|j: int| 0 <= j < i && details_ok_before(pods@, j, false)
                        && !pod_summarisable(#[trigger] pods@[j]);
                    assert(0 <= j < i + 1 && details_ok_before(pods@, j, false) && !pod_summarisable(pods@[j]));
                } else {
                    assert(details_ok_before(pods@, i as int, false) && !pod_summarisable(pods@[i as int]));
                }
            }
            if !ok {
                assert(!(pod_details(pods@[i as int], false) is Ok));
            }
            if all_ok && ok {
                assert forall|k: int| 0 <= k < i + 1 implies (#[trigger] pod_details(pods@[k], false)) is Ok by {
                    if k < i {
                        assert(details_ok_before(pods@, i as int, false));
                    }
                }
            }
        }
        reached_summarisable = reached_summarisable && (!all_ok || summarisable);
        all_ok = all_ok && ok;
        i = i + 1;
    }
    proof {
        assert forall|j: int| 0 <= j <= pods@.len() implies
            details_ok_before(pods@, j, false) == details_ok_before(pods@, j, true) by {
            if details_ok_before(pods@, j, false) {
                assert forall|k: int| 0 <= k < j implies (#[trigger] pod_details(pods@[k], true)) is Ok by {
                    lemma_details_ok_flag(pods@[k]);
                }
            }
            if details_ok_before(pods@, j, true) {
                assert forall|k: int| 0 <= k < j implies (#[trigger] pod_details(pods@[k], false)) is Ok by {
                    lemma_details_ok_flag(pods@[k]);
                }
            }
        }
        if all_ok {
            assert forall|j: int| 0 <= j < pods@.len() implies (#[trigger] pod_details(pods@[j], true)) is Ok by {
                lemma_details_ok_flag(pods@[j]);
            }
        }
        if !all_ok {
            let j = choose|j: int| 0 <= j < pods@.len() && !((#[trigger] pod_details(pods@[j], false)) is Ok);
            lemma_details_ok_flag(pods@[j]);
        }
    }
    (reached_summarisable, all_ok)
}

/// A container's summary copies its name, its image and every port it
/// declares, in order (none when it declares no list).
pub proof fn lemma_container_summary_fields(c: ContainerObject)
    ensures
        container_summary(c).name == c.name@,
        c.image matches Some(i) ==> container_summary(c).image == i@,
        c.ports matches Some(p) ==> container_summary(c).ports == p@,
        c.ports is None ==> container_summary(c).ports.len() == 0,
{
}

/// The ready status is the status of the first condition of type `Ready`,
/// and there is none exactly when no condition has that type.
pub proof fn lemma_ready_in_first(conds: Seq<PodCondition>)
    ensures
        ready_in(conds) matches Some(s) ==> exists|i: int| 0 <= i < conds.len()
            && (#[trigger] conds[i]).type_@ == "Ready"@ && conds[i].status@ == s
            && forall|k: int| 0 <= k < i ==> (#[trigger] conds[k]).type_@ != "Ready"@,
        ready_in(conds) is None <==> forall|i: int| 0 <= i < conds.len() ==> (#[trigger] conds[i]).type_@ != "Ready"@,
    decreases conds.len(),
{
    if conds.len() > 0 {
        let rest = conds.drop_first();
        lemma_ready_in_first(rest);
        if conds[0].type_@ != "Ready"@ {
            if let Some(s) = ready_in(conds) {
                let j = choose|j: int| 0 <= j < rest.len() && (#[trigger] rest[j]).type_@ == "Ready"@ && rest[j].status@ == s
                    && forall|k: int| 0 <= k < j ==> (#[trigger] rest[k]).type_@ != "Ready"@;
                assert(conds[j + 1] == rest[j]);
                assert forall|k: int| 0 <= k < j + 1 implies (#[trigger] conds[k]).type_@ != "Ready"@ by {
                    if k > 0 {
                        assert(conds[k] == rest[k - 1]);
                    }
                }
            } else {
                assert forall|i: int| 0 <= i < conds.len() implies (#[trigger] conds[i]).type_@ != "Ready"@ by {
                    if i > 0 {
                        assert(conds[i] == rest[i - 1]);
                    }
                }
            }
            if forall|i: int| 0 <= i < conds.len() ==> (#[trigger] conds[i]).type_@ != "Ready"@ {
                assert forall|i: int| 0 <= i < rest.len() implies (#[trigger] rest[i]).type_@ != "Ready"@ by {
                    assert(conds[i + 1] == rest[i]);
                }
            }
        }
    }
}

/// A pod's summary carries the pod's name and namespace, the flag it was
/// asked for, and one summary per container of its spec, in order, each
/// with that container's name, image and every declared port; it fails
/// exactly when the spec, the ready status or the metadata is missing.
pub proof fn lemma_pod_summary_fields(pod: PodObject, exposed: bool)
    ensures
        pod_details(pod, exposed) is Ok <==> (pod.spec is Some && ready_status(pod) is Some && pod.metadata is Some),
        pod.spec is None ==> pod_details(pod, exposed) == Err::<PodView, NettingError>(NettingError::PodSpecUndefined),
        pod_details(pod, exposed) matches Ok(v) ==> {
            &&& v.name == pod.metadata.unwrap().name.unwrap()@
            &&& v.namespace == pod.metadata.unwrap().namespace.unwrap()@
            &&& v.replicaset.len() == 0
            &&& v.exposed == exposed
            &&& Some(v.status) == ready_status(pod)
            &&& v.containers.len() == pod.spec.unwrap().containers@.len()
            &&& forall|i: int| #![trigger v.containers[i]] 0 <= i < v.containers.len() ==> {
                let c = pod.spec.unwrap().containers@[i];
                &&& v.containers[i].name == c.name@
                &&& (c.image matches Some(img) ==> v.containers[i].image == img@)
                &&& (c.ports matches Some(p) ==> v.containers[i].ports == p@)
                &&& (c.ports is None ==> v.containers[i].ports.len() == 0)
            }
        },
{
    if let Ok(v) = pod_details(pod, exposed) {
        assert forall|i: int| #![trigger v.containers[i]] 0 <= i < v.containers.len() implies {
            let c = pod.spec.unwrap().containers@[i];
            &&& v.containers[i].name == c.name@
            &&& (c.image matches Some(img) ==> v.containers[i].image == img@)
            &&& (c.ports matches Some(p) ==> v.containers[i].ports == p@)
            &&& (c.ports is None ==> v.containers[i].ports.len() == 0)
        } by {
            lemma_container_summary_fields(pod.spec.unwrap().containers@[i]);
        }
    }
}

/// Summarising a list gives one summary per pod, in order, each the pod's
/// own summary; or fails with the error of the first pod whose summary
/// fails, all pods before it having been summarised.
pub proof fn lemma_pods_details_shape(pods: Seq<PodObject>, exposed: bool)
    ensures
        pods_details(pods, exposed) matches Ok(s) ==> {
            &&& s.len() == pods.len()
            &&& forall|i: int| 0 <= i < pods.len() ==> (#[trigger] pod_details(pods[i], exposed)) == Ok::<PodView, NettingError>(s[i])
        },
        pods_details(pods, exposed) matches Err(e) ==> exists|j: int| 0 <= j < pods.len()
            && details_ok_before(pods, j, exposed)
            && (#[trigger] pod_details(pods[j], exposed)) == Err::<PodView, NettingError>(e),
    decreases pods.len(),
{
    if pods.len() > 0 {
        let prev = pods.drop_last();
        lemma_pods_details_shape(prev, exposed);
        let n = pods.len() - 1;
        assert(pods[n] == pods.last());
        match pods_details(prev, exposed) {
            Ok(s0) => {
                assert forall|i: int| 0 <= i < n implies (#[trigger] pod_details(pods[i], exposed)) is Ok by {
                    assert(pods[i] == prev[i]);
                    assert(pod_details(prev[i], exposed) == Ok::<PodView, NettingError>(s0[i]));
                }
                if let Ok(s) = pods_details(pods, exposed) {
                    assert forall|i: int| 0 <= i < pods.len() implies (#[trigger] pod_details(pods[i], exposed)) == Ok::<PodView, NettingError>(s[i]) by {
                        if i < n {
                            assert(pods[i] == prev[i]);
                            assert(pod_details(prev[i], exposed) == Ok::<PodView, NettingError>(s0[i]));
                        }
                    }
                } else {
                    assert(details_ok_before(pods, n, exposed));
                }
            },
            Err(e) => {
                let j = choose|j: int| 0 <= j < prev.len() && details_ok_before(prev, j, exposed)
                    && (#[trigger] pod_details(prev[j], exposed)) == Err::<PodView, NettingError>(e);
                assert(pods[j] == prev[j]);
                assert forall|k: int| 0 <= k < j implies (#[trigger] pod_details(pods[k], exposed)) is Ok by {
                    assert(pods[k] == prev[k]);
                    assert(pod_details(prev[k], exposed) is Ok);
                }
                assert(details_ok_before(pods, j, exposed));
            },
        }
    }
}

/// A port is a pod's exactly when some container of the pod declares it.
pub proof fn lemma_pod_ports_members(p: PodView, x: i32)
    ensures
        pod_ports(p).contains(x) <==> exists|c: int, j: int| 0 <= c < p.containers.len()
            && 0 <= j < p.containers[c].ports.len() && #[trigger] p.containers[c].ports[j] == x,
{
    if pod_ports(p).contains(x) {
        let c = choose|c: int| 0 <= c < p.containers.len()
            && #[trigger] declares_port(p.containers, c, p.containers[c].ports.len() as int, x);
        let j = choose|j: int| 0 <= j < p.containers[c].ports.len() && j < p.containers[c].ports.len()
            && #[trigger] p.containers[c].ports[j] == x;
        assert(p.containers[c].ports[j] == x);
    }
    if exists|c: int, j: int| 0 <= c < p.containers.len()
        && 0 <= j < p.containers[c].ports.len() && #[trigger] p.containers[c].ports[j] == x {
        let (c, j) = choose|c: int, j: int| 0 <= c < p.containers.len()
            && 0 <= j < p.containers[c].ports.len() && #[trigger] p.containers[c].ports[j] == x;
        assert(declares_port(p.containers, c, p.containers[c].ports.len() as int, x));
    }
}

/// Port `x` is declared by container `i` of the list, at a position before
/// `limit` in that container's list.
pub open spec fn declares_port(cs: Seq<ContainerView>, i: int, limit: int, x: i32) -> bool {
    exists|j: int| 0 <= j < limit && j < cs[i].ports.len() && #[trigger] cs[i].ports[j] == x
}

/// The ports that the containers of a pod declare.
pub open spec fn pod_ports(p: PodView) -> Set<i32> {
    Set::new(|x: i32| exists|i: int| 0 <= i < p.containers.len()
        && #[trigger] declares_port(p.containers, i, p.containers[i].ports.len() as int, x))
}

/// Returns the set of ports that are used in a pod.
pub fn get_pod_ports(pod: NettingPod) -> (ports: HashSet<i32>)
    ensures
        ports@ == pod_ports(pod@),
{
    let ghost cs = pod@.containers;
    let mut ports: HashSet<i32> = HashSet::new();
    let mut i: usize = 0;
    while i < pod.containers.len()
        invariant
            i <= pod.containers.len(),
            cs == pod@.containers,
            forall|x: i32| ports@.contains(x) <==> exists|k: int| 0 <= k < i
                && #[trigger] declares_port(cs, k, cs[k].ports.len() as int, x),
        decreases pod.containers.len() - i,
    {
        let container = &pod.containers[i];
        proof {
            assert(cs[i as int] == container@);
        }
        let mut j: usize = 0;
        while j < container.ports.len()
            invariant
                i < pod.containers.len(),
                container == &pod.containers[i as int],
                cs == pod@.containers,
                cs[i as int] == container@,
                j <= container.ports.len(),
                forall|x: i32| ports@.contains(x) <==> (exists|k: int| 0 <= k < i
                    && #[trigger] declares_port(cs, k, cs[k].ports.len() as int, x))
                    || declares_port(cs, i as int, j as int, x),
            decreases container.ports.len() - j,
        {
            let p = container.ports[j];
            ports.insert(p);
            proof {
                assert forall|x: i32| ports@.contains(x) <==> (exists|k: int| 0 <= k < i
                    && #[trigger] declares_port(cs, k, cs[k].ports.len() as int, x))
                    || declares_port(cs, i as int, j + 1, x) by {
                    if x == p {
                        assert(cs[i as int].ports[j as int] == p);
                    }
                    if declares_port(cs, i as int, j + 1, x) && x != p {
                        let w = choose|w: int| 0 <= w < j + 1 && w < cs[i as int].ports.len() && #[trigger] cs[i as int].ports[w] == x;
                        assert(w < j);
                        assert(declares_port(cs, i as int, j as int, x));
                    }
                }
            }
            j = j + 1;
        }
        proof {
            assert forall|x: i32| ports@.contains(x) <==> exists|k: int| 0 <= k < i + 1
                && #[trigger] declares_port(cs, k, cs[k].ports.len() as int, x) by {
                if declares_port(cs, i as int, cs[i as int].ports.len() as int, x) {
                    assert(declares_port(cs, i as int, j as int, x));
                }
            }
        }
        i = i + 1;
    }
    proof {
        assert(ports@ =~= pod_ports(pod@));
    }
    ports
}

} // verus!
