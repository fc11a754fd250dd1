use vstd::prelude::*;
use crate::k8s::error::NettingError;
use crate::k8s::objects::PodObject;
use crate::k8s::pod::{check_pod, get_pod_details, pod_details, pod_summarisable};
use crate::k8s::types::{DeploymentView, NettingDeployment, NettingPod, NettingService, PodView, ServiceView};
use crate::table::{add_item, expose_in, NamespaceTable};

verus! {

/// The map after adding each of `items`, in order, to the list at `k`.
pub open spec fn add_all<T>(m: Map<Seq<char>, Seq<T>>, k: Seq<char>, items: Seq<T>) -> Map<Seq<char>, Seq<T>>
    decreases items.len(),
{
    if items.len() == 0 {
        m
    } else {
        add_item(add_all(m, k, items.drop_last()), k, items.last())
    }
}

/// The lists of `entries` grouped by namespace: each namespace maps to the
/// concatenation, in order, of the lists given for it, and a namespace is
/// present once an item was added for it.
pub open spec fn group<T>(entries: Seq<(Seq<char>, Seq<T>)>) -> Map<Seq<char>, Seq<T>>
    decreases entries.len(),
{
    if entries.len() == 0 {
        Map::empty()
    } else {
        add_all(group(entries.drop_last()), entries.last().0, entries.last().1)
    }
}

/// The summaries of the pods of a list that can be summarised (unexposed),
/// in order; the others are left out.
pub open spec fn ok_pods(objs: Seq<PodObject>) -> Seq<PodView>
    decreases objs.len(),
{
    if objs.len() == 0 {
        Seq::empty()
    } else {
        match pod_details(objs.last(), false) {
            Ok(p) => ok_pods(objs.drop_last()).push(p),
            Err(_) => ok_pods(objs.drop_last()),
        }
    }
}

/// The pods listed per namespace, as the summaries that the catalogue keeps.
pub open spec fn pod_groups(input: Seq<(String, Vec<PodObject>)>) -> Seq<(Seq<char>, Seq<PodView>)> {
    input.map_values(|e: (String, Vec<PodObject>)| (e.0@, ok_pods(e.1@)))
}

/// The deployments listed per namespace, by value.
pub open spec fn deploy_groups(input: Seq<(String, Vec<NettingDeployment>)>) -> Seq<(Seq<char>, Seq<DeploymentView>)> {
    input.map_values(|e: (String, Vec<NettingDeployment>)| (e.0@, e.1@.map_values(|d: NettingDeployment| d@)))
}

/// Every listed pod can be summarised.
pub open spec fn listed_pods_summarisable(input: Seq<(String, Vec<PodObject>)>) -> bool {
    forall|i: int, j: int| 0 <= i < input.len() && 0 <= j < input[i].1@.len()
        ==> pod_summarisable(#[trigger] input[i].1@[j])
}

/// Builds the pod catalogue: each pod that can be summarised is added,
/// unexposed, to the list of the namespace it was listed in.
pub fn pod_table(input: Vec<(String, Vec<PodObject>)>) -> (t: NamespaceTable<NettingPod>)
    requires
        listed_pods_summarisable(input@),
    ensures
        t.wf(),
        t.map() == group(pod_groups(input@)),
{
    let ghost all = input@;
    let ghost groups = pod_groups(all);
    let mut t: NamespaceTable<NettingPod> = NamespaceTable::new();
    proof {
        assert(groups.take(0) =~= Seq::<(Seq<char>, Seq<PodView>)>::empty());
    }
    for entry in it: input
        invariant
            it.seq() == all,
            groups == pod_groups(all),
            listed_pods_summarisable(all),
            t.wf(),
            t.map() == group(groups.take(it.index())),
    {
        let ghost i = it.index();
        let (namespace, pods) = entry;
        let ghost objs = pods@;
        let ghost start = t.map();
        proof {
            assert(all[i] == (namespace, pods));
            assert(objs.take(0) =~= Seq::<PodObject>::empty());
        }
        for pod in it2: pods
            invariant
                it2.seq() == objs,
                0 <= i < all.len(),
                all[i].1@ == objs,
                listed_pods_summarisable(all),
                t.wf(),
                t.map() == add_all(start, namespace@, ok_pods(objs.take(it2.index()))),
        {
            let ghost j = it2.index();
            proof {
                assert(objs[j] == pod);
                assert(pod_summarisable(all[i].1@[j]));
                assert(objs.take(j + 1).drop_last() =~= objs.take(j));
                assert(objs.take(j + 1).last() == pod);
            }
            let ghost before = ok_pods(objs.take(j));
            match get_pod_details(pod, false) {
                Ok(p) => {
                    proof {
                        assert(ok_pods(objs.take(j + 1)) == before.push(p@));
                        assert(before.push(p@).drop_last() =~= before);
                    }
                    t.append(namespace.clone(), p);
                },
                Err(_) => {
                    proof {
                        assert(ok_pods(objs.take(j + 1)) == before);
                    }
                },
            }
        }
        proof {
            assert(objs.take(objs.len() as int) =~= objs);
            assert(groups.take(i + 1).drop_last() =~= groups.take(i));
            assert(groups.take(i + 1).last() == (namespace@, ok_pods(objs)));
        }
    }
    proof {
        assert(groups.take(all.len() as int) =~= groups);
    }
    t
}

/// Builds the deployment catalogue: each deployment is added to the list of
/// the namespace it was listed in.
pub fn deploy_table(input: Vec<(String, Vec<NettingDeployment>)>) -> (t: NamespaceTable<NettingDeployment>)
    ensures
        t.wf(),
        t.map() == group(deploy_groups(input@)),
{
    let ghost all = input@;
    let ghost groups = deploy_groups(all);
    let mut t: NamespaceTable<NettingDeployment> = NamespaceTable::new();
    proof {
        assert(groups.take(0) =~= Seq::<(Seq<char>, Seq<DeploymentView>)>::empty());
    }
    for entry in it: input
        invariant
            it.seq() == all,
            groups == deploy_groups(all),
            t.wf(),
            t.map() == group(groups.take(it.index())),
    {
        let ghost i = it.index();
        let (namespace, deployments) = entry;
        let ghost ds = deployments@;
        let ghost dvs = ds.map_values(|d: NettingDeployment| d@);
        let ghost start = t.map();
        proof {
            assert(all[i] == (namespace, deployments));
            assert(dvs.take(0) =~= Seq::<DeploymentView>::empty());
        }
        for deploy in it2: deployments
            invariant
                it2.seq() == ds,
                dvs == ds.map_values(|d: NettingDeployment| d@),
                t.wf(),
                t.map() == add_all(start, namespace@, dvs.take(it2.index())),
        {
            let ghost j = it2.index();
            proof {
                assert(ds[j] == deploy);
                assert(dvs.take(j + 1).drop_last() =~= dvs.take(j));
                assert(dvs.take(j + 1).last() == deploy@);
            }
            t.append(namespace.clone(), deploy);
        }
        proof {
            assert(dvs.take(ds.len() as int) =~= dvs);
            assert(groups.take(i + 1).drop_last() =~= groups.take(i));
            assert(groups.take(i + 1).last() == (namespace@, dvs));
        }
    }
    proof {
        assert(groups.take(all.len() as int) =~= groups);
    }
    t
}

/// The pod catalogue after marking, in namespace `ns`, the pods named as
/// each of `pods` as exposed.
pub open spec fn expose_all(m: Map<Seq<char>, Seq<PodView>>, ns: Seq<char>, pods: Seq<PodView>) -> Map<Seq<char>, Seq<PodView>>
    decreases pods.len(),
{
    if pods.len() == 0 {
        m
    } else {
        expose_in(expose_all(m, ns, pods.drop_last()), ns, pods.last().name)
    }
}

/// The service catalogue and the pod catalogue after taking in, in order,
/// the services listed in namespace `ns`: each service that could be
/// summarised is added to the list of `ns`, and the pods it exposes are
/// marked exposed there; the others are left out.
pub open spec fn serve_list(
    st: (Map<Seq<char>, Seq<ServiceView>>, Map<Seq<char>, Seq<PodView>>),
    ns: Seq<char>,
    rs: Seq<Result<NettingService, NettingError>>,
) -> (Map<Seq<char>, Seq<ServiceView>>, Map<Seq<char>, Seq<PodView>>)
    decreases rs.len(),
{
    if rs.len() == 0 {
        st
    } else {
        let prev = serve_list(st, ns, rs.drop_last());
        match rs.last() {
            Ok(s) => (add_item(prev.0, ns, s@), expose_all(prev.1, ns, s@.pods_exposed)),
            Err(_) => prev,
        }
    }
}

/// `serve_list` over the services listed in each namespace, in order.
pub open spec fn serve(
    st: (Map<Seq<char>, Seq<ServiceView>>, Map<Seq<char>, Seq<PodView>>),
    entries: Seq<(String, Vec<Result<NettingService, NettingError>>)>,
) -> (Map<Seq<char>, Seq<ServiceView>>, Map<Seq<char>, Seq<PodView>>)
    decreases entries.len(),
{
    if entries.len() == 0 {
        st
    } else {
        serve_list(serve(st, entries.drop_last()), entries.last().0@, entries.last().1@)
    }
}

/// Marks, in namespace `namespace`, each pod that `svc` exposes as exposed.
pub fn expose_service_pods(pods: &mut NamespaceTable<NettingPod>, namespace: &String, svc: &NettingService)
    requires
        old(pods).wf(),
    ensures
        final(pods).wf(),
        final(pods).map() == expose_all(old(pods).map(), namespace@, svc@.pods_exposed),
{
    let ghost exposed = svc@.pods_exposed;
    let mut k: usize = 0;
    proof {
        assert(exposed.take(0) =~= Seq::<PodView>::empty());
    }
    while k < svc.pods_exposed.len()
        invariant
            k <= svc.pods_exposed@.len(),
            exposed == svc@.pods_exposed,
            pods.wf(),
            pods.map() == expose_all(old(pods).map(), namespace@, exposed.take(k as int)),
        decreases svc.pods_exposed.len() - k,
    {
        pods.mark_exposed(namespace, &svc.pods_exposed[k].name);
        proof {
            assert(exposed.take(k + 1).drop_last() =~= exposed.take(k as int));
            assert(exposed.take(k + 1).last() == svc.pods_exposed@[k as int]@);
        }
        k = k + 1;
    }
    proof {
        assert(exposed.take(exposed.len() as int) =~= exposed);
    }
}

/// Builds the service catalogue from the services listed per namespace,
/// marking the pods that each service exposes in the pod catalogue.
pub fn serve_table(
    pods: &mut NamespaceTable<NettingPod>,
    input: Vec<(String, Vec<Result<NettingService, NettingError>>)>,
) -> (t: NamespaceTable<NettingService>)
    requires
        old(pods).wf(),
    ensures
        t.wf(),
        final(pods).wf(),
        (t.map(), final(pods).map()) == serve((Map::empty(), old(pods).map()), input@),
{
    let ghost all = input@;
    let ghost init = (Map::<Seq<char>, Seq<ServiceView>>::empty(), pods.map());
    let mut t: NamespaceTable<NettingService> = NamespaceTable::new();
    proof {
        assert(all.take(0) =~= Seq::<(String, Vec<Result<NettingService, NettingError>>)>::empty());
    }
    for entry in it: input
        invariant
            it.seq() == all,
            t.wf(),
            pods.wf(),
            (t.map(), pods.map()) == serve(init, all.take(it.index())),
    {
        let ghost i = it.index();
        let (namespace, services) = entry;
        let ghost rs = services@;
        let ghost start = (t.map(), pods.map());
        proof {
            assert(all[i] == (namespace, services));
            assert(rs.take(0) =~= Seq::<Result<NettingService, NettingError>>::empty());
        }
        for result in it2: services
            invariant
                it2.seq() == rs,
                t.wf(),
                pods.wf(),
                (t.map(), pods.map()) == serve_list(start, namespace@, rs.take(it2.index())),
        {
            let ghost j = it2.index();
            proof {
                assert(rs[j] == result);
                assert(rs.take(j + 1).drop_last() =~= rs.take(j));
                assert(rs.take(j + 1).last() == result);
            }
            match result {
                Ok(svc) => {
                    expose_service_pods(pods, &namespace, &svc);
                    t.append(namespace.clone(), svc);
                },
                Err(_) => {},
            }
        }
        proof {
            assert(rs.take(rs.len() as int) =~= rs);
            assert(all.take(i + 1).drop_last() =~= all.take(i));
            assert(all.take(i + 1).last() == (namespace, services));
        }
    }
    proof {
        assert(all.take(all.len() as int) =~= all);
    }
    t
}

/// The items listed for namespace `k`: the lists of the entries for `k`,
/// concatenated in order.
pub open spec fn items_for<T>(entries: Seq<(Seq<char>, Seq<T>)>, k: Seq<char>) -> Seq<T>
    decreases entries.len(),
{
    if entries.len() == 0 {
        Seq::empty()
    } else {
        items_for(entries.drop_last(), k) + if entries.last().0 == k {
            entries.last().1
        } else {
            Seq::empty()
        }
    }
}

/// Adding items at `k` leaves the other keys alone, and appends the items
/// to the list at `k`, which is present afterwards when it was before or
/// some item was added.
pub proof fn lemma_add_all<T>(m: Map<Seq<char>, Seq<T>>, k: Seq<char>, items: Seq<T>)
    ensures
        forall|k2: Seq<char>| k2 != k ==> (#[trigger] add_all(m, k, items).contains_key(k2) <==> m.contains_key(k2)),
        forall|k2: Seq<char>| k2 != k && m.contains_key(k2) ==> #[trigger] add_all(m, k, items)[k2] == m[k2],
        add_all(m, k, items).contains_key(k) <==> (m.contains_key(k) || items.len() > 0),
        add_all(m, k, items).contains_key(k) ==> add_all(m, k, items)[k] == (if m.contains_key(k) {
            m[k]
        } else {
            Seq::empty()
        }) + items,
    decreases items.len(),
{
    if items.len() > 0 {
        lemma_add_all(m, k, items.drop_last());
        let prev = add_all(m, k, items.drop_last());
        let base = if m.contains_key(k) { m[k] } else { Seq::<T>::empty() };
        if prev.contains_key(k) {
            assert(prev[k] == base + items.drop_last());
            assert(base + items.drop_last().push(items.last()) =~= base + items);
            assert(items.drop_last().push(items.last()) =~= items);
            assert((base + items.drop_last()).push(items.last()) =~= base + items);
        } else {
            assert(items.drop_last().len() == 0);
            assert(!m.contains_key(k));
            assert(seq![items.last()] =~= Seq::<T>::empty() + items);
        }
    } else {
        assert(Seq::<T>::empty() + items =~= Seq::<T>::empty());
        if m.contains_key(k) {
            assert(m[k] + items =~= m[k]);
        }
    }
}

/// Grouping by namespace: a namespace is in the grouped map exactly when
/// some item was listed for it, and its list is then every item listed for
/// it, in the order listed.
pub proof fn lemma_group<T>(entries: Seq<(Seq<char>, Seq<T>)>, k: Seq<char>)
    ensures
        group(entries).contains_key(k) <==> items_for(entries, k).len() > 0,
        group(entries).contains_key(k) ==> group(entries)[k] == items_for(entries, k),
    decreases entries.len(),
{
    if entries.len() > 0 {
        let prev = entries.drop_last();
        lemma_group(prev, k);
        let (k0, items) = entries.last();
        lemma_add_all(group(prev), k0, items);
        if k0 == k {
            if group(prev).contains_key(k) {
                assert(group(entries)[k] == group(prev)[k] + items);
            } else {
                assert(items_for(prev, k).len() == 0);
                assert(items_for(prev, k) + items =~= items);
                assert(Seq::<T>::empty() + items =~= items);
            }
        } else {
            assert(items_for(prev, k) + Seq::<T>::empty() =~= items_for(prev, k));
        }
    }
}

/// The total length of the lists that `entries` gives for namespace `k`.
pub open spec fn entries_len<T>(entries: Seq<(Seq<char>, Seq<T>)>, k: Seq<char>) -> int
    decreases entries.len(),
{
    if entries.len() == 0 {
        0
    } else {
        entries_len(entries.drop_last(), k) + if entries.last().0 == k { entries.last().1.len() as int } else { 0 }
    }
}

proof fn lemma_items_for_len<T>(entries: Seq<(Seq<char>, Seq<T>)>, k: Seq<char>)
    ensures
        items_for(entries, k).len() == entries_len(entries, k),
    decreases entries.len(),
{
    if entries.len() > 0 {
        lemma_items_for_len(entries.drop_last(), k);
    }
}

proof fn lemma_items_for_absent<T>(entries: Seq<(Seq<char>, Seq<T>)>, k: Seq<char>)
    requires
        forall|i: int| 0 <= i < entries.len() ==> (#[trigger] entries[i]).0 != k,
    ensures
        items_for(entries, k) == Seq::<T>::empty(),
    decreases entries.len(),
{
    if entries.len() > 0 {
        let prev = entries.drop_last();
        assert forall|i: int| 0 <= i < prev.len() implies (#[trigger] prev[i]).0 != k by {
            assert(prev[i] == entries[i]);
        }
        lemma_items_for_absent(prev, k);
        assert(entries[entries.len() - 1] == entries.last());
        assert(Seq::<T>::empty() + Seq::<T>::empty() =~= Seq::<T>::empty());
    }
}

proof fn lemma_items_for_unique<T>(entries: Seq<(Seq<char>, Seq<T>)>, j: int)
    requires
        0 <= j < entries.len(),
        forall|i: int| 0 <= i < entries.len() && i != j ==> (#[trigger] entries[i]).0 != entries[j].0,
    ensures
        items_for(entries, entries[j].0) == entries[j].1,
    decreases entries.len(),
{
    let k = entries[j].0;
    let prev = entries.drop_last();
    let n = entries.len() - 1;
    assert(entries[n] == entries.last());
    if j == n {
        assert forall|i: int| 0 <= i < prev.len() implies (#[trigger] prev[i]).0 != k by {
            assert(prev[i] == entries[i]);
        }
        lemma_items_for_absent(prev, k);
        assert(Seq::<T>::empty() + entries[j].1 =~= entries[j].1);
    } else {
        assert(prev[j] == entries[j]);
        assert forall|i: int| 0 <= i < prev.len() && i != j implies (#[trigger] prev[i]).0 != prev[j].0 by {
            assert(prev[i] == entries[i]);
        }
        lemma_items_for_unique(prev, j);
        assert(items_for(prev, k) + Seq::<T>::empty() =~= items_for(prev, k));
    }
}

proof fn lemma_items_for_contains<T>(entries: Seq<(Seq<char>, Seq<T>)>, j: int, i: int)
    requires
        0 <= j < entries.len(),
        0 <= i < entries[j].1.len(),
    ensures
        items_for(entries, entries[j].0).contains(entries[j].1[i]),
    decreases entries.len(),
{
    let k = entries[j].0;
    let prev = entries.drop_last();
    let n = entries.len() - 1;
    assert(entries[n] == entries.last());
    let tail = if entries.last().0 == k { entries.last().1 } else { Seq::<T>::empty() };
    if j == n {
        assert((items_for(prev, k) + tail)[items_for(prev, k).len() + i] == entries[j].1[i]);
    } else {
        assert(prev[j] == entries[j]);
        lemma_items_for_contains(prev, j, i);
        let w = choose|w: int| 0 <= w < items_for(prev, k).len() && items_for(prev, k)[w] == entries[j].1[i];
        assert((items_for(prev, k) + tail)[w] == entries[j].1[i]);
    }
}

/// The number of deployments listed for namespace `ns`, over all listings.
pub open spec fn deployments_listed(input: Seq<(String, Vec<NettingDeployment>)>, ns: Seq<char>) -> int
    decreases input.len(),
{
    if input.len() == 0 {
        0
    } else {
        deployments_listed(input.drop_last(), ns) + if input.last().0@ == ns { input.last().1@.len() as int } else { 0 }
    }
}

proof fn lemma_deploy_groups_len(input: Seq<(String, Vec<NettingDeployment>)>, ns: Seq<char>)
    ensures
        entries_len(deploy_groups(input), ns) == deployments_listed(input, ns),
    decreases input.len(),
{
    if input.len() > 0 {
        assert(deploy_groups(input).drop_last() =~= deploy_groups(input.drop_last()));
        lemma_deploy_groups_len(input.drop_last(), ns);
    }
}

/// The deployment catalogue keeps every listed deployment: a namespace is
/// present exactly when some deployment is listed for it, and its list is
/// as long as the number of deployments listed for it.
pub proof fn lemma_deploy_catalog_keeps_all(input: Seq<(String, Vec<NettingDeployment>)>, ns: Seq<char>)
    ensures
        group(deploy_groups(input)).contains_key(ns) <==> deployments_listed(input, ns) > 0,
        group(deploy_groups(input)).contains_key(ns) ==> group(deploy_groups(input))[ns].len() == deployments_listed(input, ns),
{
    let g = deploy_groups(input);
    lemma_group(g, ns);
    lemma_items_for_len(g, ns);
    lemma_deploy_groups_len(input, ns);
}

/// Each listed deployment is in the deployment list of its namespace.
pub proof fn lemma_deploy_catalog_member(input: Seq<(String, Vec<NettingDeployment>)>, j: int, i: int)
    requires
        0 <= j < input.len(),
        0 <= i < input[j].1@.len(),
    ensures
        group(deploy_groups(input)).contains_key(input[j].0@),
        group(deploy_groups(input))[input[j].0@].contains(input[j].1@[i]@),
{
    let g = deploy_groups(input);
    let ns = input[j].0@;
    lemma_group(g, ns);
    assert(g[j] == (input[j].0@, input[j].1@.map_values(|d: NettingDeployment| d@)));
    assert(g[j].1[i] == input[j].1@[i]@);
    lemma_items_for_contains(g, j, i);
}

/// Where a namespace is listed once, its deployment list is exactly the
/// deployments listed there, in the order listed.
pub proof fn lemma_deploy_catalog_single_listing(input: Seq<(String, Vec<NettingDeployment>)>, j: int)
    requires
        0 <= j < input.len(),
        forall|k: int| 0 <= k < input.len() && k != j ==> (#[trigger] input[k]).0@ != input[j].0@,
    ensures
        group(deploy_groups(input)).contains_key(input[j].0@) <==> input[j].1@.len() > 0,
        input[j].1@.len() > 0 ==> {
            &&& group(deploy_groups(input))[input[j].0@].len() == input[j].1@.len()
            &&& forall|i: int| 0 <= i < input[j].1@.len()
                ==> group(deploy_groups(input))[input[j].0@][i] == (#[trigger] input[j].1@[i])@
        },
{
    let g = deploy_groups(input);
    let ns = input[j].0@;
    assert forall|k: int| 0 <= k < g.len() && k != j implies (#[trigger] g[k]).0 != g[j].0 by {
        assert(g[k].0 == input[k].0@);
    }
    lemma_items_for_unique(g, j);
    lemma_group(g, ns);
}

/// The pods kept from a list are summaries of its pods, and where every
/// pod can be summarised, they are all kept, in order.
pub proof fn lemma_ok_pods_keeps(objs: Seq<PodObject>)
    ensures
        ok_pods(objs).len() <= objs.len(),
        forall|k: int| #![trigger ok_pods(objs)[k]] 0 <= k < ok_pods(objs).len() ==> exists|i: int| 0 <= i < objs.len()
            && #[trigger] pod_details(objs[i], false) == Ok::<PodView, NettingError>(ok_pods(objs)[k]),
        (forall|i: int| 0 <= i < objs.len() ==> (#[trigger] pod_details(objs[i], false)) is Ok) ==> {
            &&& ok_pods(objs).len() == objs.len()
            &&& forall|i: int| 0 <= i < objs.len()
                ==> (#[trigger] pod_details(objs[i], false)) == Ok::<PodView, NettingError>(ok_pods(objs)[i])
        },
    decreases objs.len(),
{
    if objs.len() > 0 {
        let prev = objs.drop_last();
        let n = objs.len() - 1;
        lemma_ok_pods_keeps(prev);
        assert(objs[n] == objs.last());
        let kept = ok_pods(objs);
        assert forall|k: int| #![trigger kept[k]] 0 <= k < kept.len() implies exists|i: int| 0 <= i < objs.len()
            && #[trigger] pod_details(objs[i], false) == Ok::<PodView, NettingError>(kept[k]) by {
            if k < ok_pods(prev).len() {
                let i = choose|i: int| 0 <= i < prev.len()
                    && #[trigger] pod_details(prev[i], false) == Ok::<PodView, NettingError>(ok_pods(prev)[k]);
                assert(objs[i] == prev[i]);
                assert(kept[k] == ok_pods(prev)[k]);
            } else {
                assert(pod_details(objs[n], false) == Ok::<PodView, NettingError>(kept[k]));
            }
        }
        if forall|i: int| 0 <= i < objs.len() ==> (#[trigger] pod_details(objs[i], false)) is Ok {
            assert forall|i: int| 0 <= i < prev.len() implies (#[trigger] pod_details(prev[i], false)) is Ok by {
                assert(objs[i] == prev[i]);
                assert(pod_details(objs[i], false) is Ok);
            }
            assert(pod_details(objs[n], false) is Ok);
            assert forall|i: int| 0 <= i < objs.len()
                implies (#[trigger] pod_details(objs[i], false)) == Ok::<PodView, NettingError>(kept[i]) by {
                if i < n {
                    assert(objs[i] == prev[i]);
                    assert(pod_details(prev[i], false) == Ok::<PodView, NettingError>(ok_pods(prev)[i]));
                }
            }
        }
    }
}

/// Where a namespace is listed once and all its pods can be summarised,
/// its pod list is exactly those pods' summaries, in the order listed.
pub proof fn lemma_pod_catalog_single_listing(input: Seq<(String, Vec<PodObject>)>, j: int)
    requires
        0 <= j < input.len(),
        forall|k: int| 0 <= k < input.len() && k != j ==> (#[trigger] input[k]).0@ != input[j].0@,
        forall|i: int| 0 <= i < input[j].1@.len() ==> (#[trigger] pod_details(input[j].1@[i], false)) is Ok,
    ensures
        group(pod_groups(input)).contains_key(input[j].0@) <==> input[j].1@.len() > 0,
        input[j].1@.len() > 0 ==> {
            &&& group(pod_groups(input))[input[j].0@].len() == input[j].1@.len()
            &&& forall|i: int| 0 <= i < input[j].1@.len()
                ==> (#[trigger] pod_details(input[j].1@[i], false))
                    == Ok::<PodView, NettingError>(group(pod_groups(input))[input[j].0@][i])
        },
{
    let g = pod_groups(input);
    let ns = input[j].0@;
    assert forall|k: int| 0 <= k < g.len() && k != j implies (#[trigger] g[k]).0 != g[j].0 by {
        assert(g[k].0 == input[k].0@);
    }
    lemma_items_for_unique(g, j);
    lemma_group(g, ns);
    lemma_ok_pods_keeps(input[j].1@);
}

/// The services kept from a list are those summarised, and where every
/// service was, they are all kept, in order.
pub proof fn lemma_ok_services_keeps(rs: Seq<Result<NettingService, NettingError>>)
    ensures
        ok_services(rs).len() <= rs.len(),
        forall|k: int| #![trigger ok_services(rs)[k]] 0 <= k < ok_services(rs).len() ==> exists|i: int| 0 <= i < rs.len()
            && (#[trigger] rs[i]) is Ok && rs[i]->Ok_0@ == ok_services(rs)[k],
        (forall|i: int| 0 <= i < rs.len() ==> (#[trigger] rs[i]) is Ok) ==> {
            &&& ok_services(rs).len() == rs.len()
            &&& forall|i: int| 0 <= i < rs.len() ==> ok_services(rs)[i] == (#[trigger] rs[i])->Ok_0@
        },
    decreases rs.len(),
{
    if rs.len() > 0 {
        let prev = rs.drop_last();
        let n = rs.len() - 1;
        lemma_ok_services_keeps(prev);
        assert(rs[n] == rs.last());
        let kept = ok_services(rs);
        assert forall|k: int| #![trigger kept[k]] 0 <= k < kept.len() implies exists|i: int| 0 <= i < rs.len()
            && (#[trigger] rs[i]) is Ok && rs[i]->Ok_0@ == kept[k] by {
            if k < ok_services(prev).len() {
                let i = choose|i: int| 0 <= i < prev.len()
                    && (#[trigger] prev[i]) is Ok && prev[i]->Ok_0@ == ok_services(prev)[k];
                assert(rs[i] == prev[i]);
                assert(kept[k] == ok_services(prev)[k]);
            } else {
                assert(rs[n] is Ok && rs[n]->Ok_0@ == kept[k]);
            }
        }
        if forall|i: int| 0 <= i < rs.len() ==> (#[trigger] rs[i]) is Ok {
            assert forall|i: int| 0 <= i < prev.len() implies (#[trigger] prev[i]) is Ok by {
                assert(rs[i] == prev[i]);
            }
            assert(rs[n] is Ok);
            assert forall|i: int| 0 <= i < rs.len() implies kept[i] == (#[trigger] rs[i])->Ok_0@ by {
                if i < n {
                    assert(rs[i] == prev[i]);
                }
            }
        }
    }
}

/// What the Kubernetes API lists in one namespace: its pods, its
/// deployments (summarised), and its services (each summarised, or the
/// error met in summarising it).
#[derive(Debug)]
pub struct NamespaceListing {
    pub namespace: String,
    pub pods: Vec<PodObject>,
    pub deployments: Vec<NettingDeployment>,
    pub services: Vec<Result<NettingService, NettingError>>,
}

/// The pods of each listing, with its namespace.
pub open spec fn listed_pods(ls: Seq<NamespaceListing>) -> Seq<(String, Vec<PodObject>)> {
    ls.map_values(|l: NamespaceListing| (l.namespace, l.pods))
}

/// The deployments of each listing, with its namespace.
pub open spec fn listed_deployments(ls: Seq<NamespaceListing>) -> Seq<(String, Vec<NettingDeployment>)> {
    ls.map_values(|l: NamespaceListing| (l.namespace, l.deployments))
}

/// The services of each listing, with its namespace.
pub open spec fn listed_services(ls: Seq<NamespaceListing>) -> Seq<(String, Vec<Result<NettingService, NettingError>>)> {
    ls.map_values(|l: NamespaceListing| (l.namespace, l.services))
}

/// Whether every listed pod can be summarised.
pub fn check_listings(listings: &Vec<NamespaceListing>) -> (ok: bool)
    ensures
        ok == listed_pods_summarisable(listed_pods(listings@)),
{
    let ghost lp = listed_pods(listings@);
    let mut i: usize = 0;
    while i < listings.len()
        invariant
            i <= listings@.len(),
            lp == listed_pods(listings@),
            forall|a: int, b: int| 0 <= a < i && 0 <= b < lp[a].1@.len() ==> pod_summarisable(#[trigger] lp[a].1@[b]),
        decreases listings.len() - i,
    {
        let pods = &listings[i].pods;
        let mut j: usize = 0;
        while j < pods.len()
            invariant
                i < listings@.len(),
                j <= pods@.len(),
                lp == listed_pods(listings@),
                *pods == listings@[i as int].pods,
                forall|a: int, b: int| 0 <= a < i && 0 <= b < lp[a].1@.len() ==> pod_summarisable(#[trigger] lp[a].1@[b]),
                forall|b: int| 0 <= b < j ==> pod_summarisable(#[trigger] lp[i as int].1@[b]),
            decreases pods.len() - j,
        {
            if !check_pod(&pods[j]) {
                proof {
                    assert(lp[i as int].1@[j as int] == pods@[j as int]);
                }
                return false;
            }
            j = j + 1;
        }
        i = i + 1;
    }
    true
}

/// Splits listings into the namespaces, and the pods, deployments and
/// services of each namespace, in order.
pub fn split_listings(listings: Vec<NamespaceListing>) -> (r: (
    Vec<String>,
    Vec<(String, Vec<PodObject>)>,
    Vec<(String, Vec<NettingDeployment>)>,
    Vec<(String, Vec<Result<NettingService, NettingError>>)>,
))
    ensures
        r.0@ == listings@.map_values(|l: NamespaceListing| l.namespace),
        r.1@ == listed_pods(listings@),
        r.2@ == listed_deployments(listings@),
        r.3@ == listed_services(listings@),
{
    let ghost all = listings@;
    let mut names: Vec<String> = Vec::new();
    let mut pods: Vec<(String, Vec<PodObject>)> = Vec::new();
    let mut deployments: Vec<(String, Vec<NettingDeployment>)> = Vec::new();
    let mut services: Vec<(String, Vec<Result<NettingService, NettingError>>)> = Vec::new();
    for listing in it: listings
        invariant
            it.seq() == all,
            names@ == all.take(it.index()).map_values(|l: NamespaceListing| l.namespace),
            pods@ == listed_pods(all.take(it.index())),
            deployments@ == listed_deployments(all.take(it.index())),
            services@ == listed_services(all.take(it.index())),
    {
        let ghost i = it.index();
        let NamespaceListing { namespace, pods: listed_pods_here, deployments: listed_deployments_here, services: listed_services_here } = listing;
        names.push(namespace.clone());
        pods.push((namespace.clone(), listed_pods_here));
        deployments.push((namespace.clone(), listed_deployments_here));
        services.push((namespace, listed_services_here));
        proof {
            let t = all.take(i + 1);
            assert(t =~= all.take(i).push(listing));
            assert(names@ =~= t.map_values(|l: NamespaceListing| l.namespace));
            assert(pods@ =~= listed_pods(t));
            assert(deployments@ =~= listed_deployments(t));
            assert(services@ =~= listed_services(t));
        }
    }
    proof {
        assert(all.take(all.len() as int) =~= all);
    }
    (names, pods, deployments, services)
}

/// The catalogue of a cluster: per namespace, its pods, deployments and
/// services, and the namespaces in the order they were listed.
#[derive(Debug)]
pub struct Catalog {
    pub pod_catalog: NamespaceTable<NettingPod>,
    pub deploy_catalog: NamespaceTable<NettingDeployment>,
    pub service_catalog: NamespaceTable<NettingService>,
    pub namespaces: Vec<String>,
}

impl Catalog {
    /// Each of the three tables is well formed.
    pub open spec fn wf(&self) -> bool {
        &&& self.pod_catalog.wf()
        &&& self.deploy_catalog.wf()
        &&& self.service_catalog.wf()
    }

    /// An empty catalogue.
    pub fn new() -> (c: Catalog)
        ensures
            c.wf(),
            c.pod_catalog.map() == Map::<Seq<char>, Seq<PodView>>::empty(),
            c.deploy_catalog.map() == Map::<Seq<char>, Seq<DeploymentView>>::empty(),
            c.service_catalog.map() == Map::<Seq<char>, Seq<ServiceView>>::empty(),
            c.namespaces@.len() == 0,
    {
        Catalog {
            pod_catalog: NamespaceTable::new(),
            deploy_catalog: NamespaceTable::new(),
            service_catalog: NamespaceTable::new(),
            namespaces: Vec::new(),
        }
    }

    /// Builds the catalogue from what the API lists in each namespace: the
    /// pods that can be summarised, the deployments and the services that
    /// could be summarised, each under its namespace, with the pods that a
    /// service exposes marked as exposed.
    pub fn build_catalog(&mut self, listings: Vec<NamespaceListing>)
        requires
            listed_pods_summarisable(listed_pods(listings@)),
        ensures
            final(self).wf(),
            final(self).namespaces@ == listings@.map_values(|l: NamespaceListing| l.namespace),
            final(self).deploy_catalog.map() == group(deploy_groups(listed_deployments(listings@))),
            (final(self).service_catalog.map(), final(self).pod_catalog.map()) == serve(
                (Map::empty(), group(pod_groups(listed_pods(listings@)))),
                listed_services(listings@),
            ),
    {
        let (namespaces, pods, deployments, services) = split_listings(listings);
        self.pod_catalog = self.build_pod_catalog(pods);
        self.deploy_catalog = self.build_deploy_catalog(deployments);
        self.service_catalog = self.build_svc_catalog(services);
        self.namespaces = namespaces;
    }

    /// Empties the catalogue.
    pub fn clear_catalog(&mut self)
        ensures
            final(self).wf(),
            final(self).pod_catalog.map() == Map::<Seq<char>, Seq<PodView>>::empty(),
            final(self).deploy_catalog.map() == Map::<Seq<char>, Seq<DeploymentView>>::empty(),
            final(self).service_catalog.map() == Map::<Seq<char>, Seq<ServiceView>>::empty(),
            final(self).namespaces@.len() == 0,
    {
        self.namespaces.clear();
        self.pod_catalog.clear();
        self.deploy_catalog.clear();
        self.service_catalog.clear();
    }

    /// Builds a pod catalogue from the pods listed per namespace.
    pub fn build_pod_catalog(&self, pods: Vec<(String, Vec<PodObject>)>) -> (t: NamespaceTable<NettingPod>)
        requires
            listed_pods_summarisable(pods@),
        ensures
            t.wf(),
            t.map() == group(pod_groups(pods@)),
    {
        pod_table(pods)
    }

    /// Builds a deployment catalogue from the deployments listed per namespace.
    pub fn build_deploy_catalog(&self, deployments: Vec<(String, Vec<NettingDeployment>)>) -> (t: NamespaceTable<NettingDeployment>)
        ensures
            t.wf(),
            t.map() == group(deploy_groups(deployments@)),
    {
        deploy_table(deployments)
    }

    /// Marks the pods of `namespace` that bear the name of `pod` as exposed.
    pub fn update_pod(&mut self, namespace: &String, pod: &NettingPod)
        requires
            old(self).wf(),
        ensures
            final(self).wf(),
            final(self).pod_catalog.map() == expose_in(old(self).pod_catalog.map(), namespace@, pod.name@),
            final(self).deploy_catalog == old(self).deploy_catalog,
            final(self).service_catalog == old(self).service_catalog,
            final(self).namespaces == old(self).namespaces,
    {
        self.pod_catalog.mark_exposed(namespace, &pod.name);
    }

    /// Builds a service catalogue from the services listed per namespace,
    /// marking the pods that they expose in the pod catalogue.
    pub fn build_svc_catalog(&mut self, services: Vec<(String, Vec<Result<NettingService, NettingError>>)>) -> (t: NamespaceTable<NettingService>)
        requires
            old(self).pod_catalog.wf(),
        ensures
            t.wf(),
            final(self).pod_catalog.wf(),
            (t.map(), final(self).pod_catalog.map()) == serve((Map::empty(), old(self).pod_catalog.map()), services@),
            final(self).deploy_catalog == old(self).deploy_catalog,
            final(self).service_catalog == old(self).service_catalog,
            final(self).namespaces == old(self).namespaces,
    {
        serve_table(&mut self.pod_catalog, services)
    }
}

impl Default for Catalog {
    /// An empty catalogue, as `new` gives.
    fn default() -> (c: Self)
        ensures
            c.wf(),
            c.pod_catalog.map() == Map::<Seq<char>, Seq<PodView>>::empty(),
            c.deploy_catalog.map() == Map::<Seq<char>, Seq<DeploymentView>>::empty(),
            c.service_catalog.map() == Map::<Seq<char>, Seq<ServiceView>>::empty(),
            c.namespaces@.len() == 0,
    {
        Catalog::new()
    }
}

/// Some pod of the list bears the name `name`.
pub open spec fn names_pod(pods: Seq<PodView>, name: Seq<char>) -> bool {
    exists|j: int| 0 <= j < pods.len() && (#[trigger] pods[j]).name == name
}

/// Some service of namespace `ns` exposes a pod named `name`.
pub open spec fn exposes(svcs: Map<Seq<char>, Seq<ServiceView>>, ns: Seq<char>, name: Seq<char>) -> bool {
    svcs.contains_key(ns) && exists|i: int| 0 <= i < svcs[ns].len() && names_pod(
        (#[trigger] svcs[ns][i]).pods_exposed,
        name,
    )
}

/// The pod with its exposed flag set to `b`.
pub open spec fn exposed_as(p: PodView, b: bool) -> PodView {
    PodView { exposed: b, ..p }
}

/// `after` is the pod catalogue `before` in which each pod that some
/// service of `svcs` in its namespace exposes by name is marked exposed,
/// and nothing else changed.
pub open spec fn marked_by(
    before: Map<Seq<char>, Seq<PodView>>,
    after: Map<Seq<char>, Seq<PodView>>,
    svcs: Map<Seq<char>, Seq<ServiceView>>,
) -> bool {
    &&& after.dom() == before.dom()
    &&& forall|ns: Seq<char>| #[trigger] before.contains_key(ns) ==> after[ns].len() == before[ns].len()
    &&& forall|ns: Seq<char>, k: int| #![trigger after[ns][k]]
        before.contains_key(ns) && 0 <= k < before[ns].len() ==> after[ns][k] == exposed_as(
            before[ns][k],
            before[ns][k].exposed || exposes(svcs, ns, before[ns][k].name),
        )
}

/// Marking by name in one namespace marks the pods of that namespace that
/// bear a name of the list, and leaves everything else alone.
pub proof fn lemma_expose_all(m: Map<Seq<char>, Seq<PodView>>, ns: Seq<char>, pods: Seq<PodView>)
    ensures
        expose_all(m, ns, pods).dom() == m.dom(),
        forall|n2: Seq<char>| n2 != ns && m.contains_key(n2) ==> #[trigger] expose_all(m, ns, pods)[n2] == m[n2],
        m.contains_key(ns) ==> expose_all(m, ns, pods)[ns].len() == m[ns].len(),
        m.contains_key(ns) ==> forall|k: int| #![trigger expose_all(m, ns, pods)[ns][k]]
            0 <= k < m[ns].len() ==> expose_all(m, ns, pods)[ns][k] == exposed_as(
                m[ns][k],
                m[ns][k].exposed || names_pod(pods, m[ns][k].name),
            ),
    decreases pods.len(),
{
    if pods.len() == 0 {
        if m.contains_key(ns) {
            assert forall|k: int| #![trigger expose_all(m, ns, pods)[ns][k]]
                0 <= k < m[ns].len() implies expose_all(m, ns, pods)[ns][k] == exposed_as(
                m[ns][k],
                m[ns][k].exposed || names_pod(pods, m[ns][k].name),
            ) by {
                assert(exposed_as(m[ns][k], m[ns][k].exposed) == m[ns][k]);
            }
        }
    } else {
        let prev = pods.drop_last();
        lemma_expose_all(m, ns, prev);
        let mid = expose_all(m, ns, prev);
        let name = pods.last().name;
        assert(expose_all(m, ns, pods) == expose_in(mid, ns, name));
        assert(expose_all(m, ns, pods).dom() =~= m.dom());
        if m.contains_key(ns) {
            assert forall|k: int| #![trigger expose_all(m, ns, pods)[ns][k]]
                0 <= k < m[ns].len() implies expose_all(m, ns, pods)[ns][k] == exposed_as(
                m[ns][k],
                m[ns][k].exposed || names_pod(pods, m[ns][k].name),
            ) by {
                let p = m[ns][k];
                assert(mid[ns][k] == exposed_as(p, p.exposed || names_pod(prev, p.name)));
                if names_pod(prev, p.name) {
                    let j = choose|j: int| 0 <= j < prev.len() && (#[trigger] prev[j]).name == p.name;
                    assert(pods[j] == prev[j]);
                }
                if names_pod(pods, p.name) && !names_pod(prev, p.name) {
                    let j = choose|j: int| 0 <= j < pods.len() && (#[trigger] pods[j]).name == p.name;
                    if j < prev.len() {
                        assert(prev[j] == pods[j]);
                    }
                }
                if p.name == name {
                    assert(pods[pods.len() - 1] == pods.last());
                }
            }
        }
    }
}

/// A service added to namespace `ns` exposes, there, the pods it names.
pub proof fn lemma_exposes_add(svcs: Map<Seq<char>, Seq<ServiceView>>, ns: Seq<char>, s: ServiceView, n2: Seq<char>, name: Seq<char>)
    ensures
        exposes(add_item(svcs, ns, s), n2, name) <==> (exposes(svcs, n2, name) || (n2 == ns && names_pod(s.pods_exposed, name))),
{
    let after = add_item(svcs, ns, s);
    if n2 == ns {
        let before_list = if svcs.contains_key(ns) { svcs[ns] } else { Seq::<ServiceView>::empty() };
        assert(after[ns] =~= before_list.push(s));
        if exposes(after, n2, name) {
            let i = choose|i: int| 0 <= i < after[ns].len() && names_pod((#[trigger] after[ns][i]).pods_exposed, name);
            if i < before_list.len() {
                assert(after[ns][i] == svcs[ns][i]);
                assert(exposes(svcs, n2, name));
            } else {
                assert(after[ns][i] == s);
            }
        }
        if exposes(svcs, n2, name) {
            let i = choose|i: int| 0 <= i < svcs[ns].len() && names_pod((#[trigger] svcs[ns][i]).pods_exposed, name);
            assert(after[ns][i] == svcs[ns][i]);
        }
        if names_pod(s.pods_exposed, name) {
            assert(after[ns][before_list.len() as int] == s);
        }
    } else {
        assert(after.contains_key(n2) == svcs.contains_key(n2));
        if svcs.contains_key(n2) {
            assert(after[n2] == svcs[n2]);
        }
    }
}

proof fn lemma_marked_step(
    before: Map<Seq<char>, Seq<PodView>>,
    st: (Map<Seq<char>, Seq<ServiceView>>, Map<Seq<char>, Seq<PodView>>),
    ns: Seq<char>,
    s: ServiceView,
)
    requires
        marked_by(before, st.1, st.0),
    ensures
        marked_by(before, expose_all(st.1, ns, s.pods_exposed), add_item(st.0, ns, s)),
{
    let after = expose_all(st.1, ns, s.pods_exposed);
    let svcs = add_item(st.0, ns, s);
    lemma_expose_all(st.1, ns, s.pods_exposed);
    assert(after.dom() =~= before.dom());
    assert forall|n2: Seq<char>, k: int| #![trigger after[n2][k]]
        before.contains_key(n2) && 0 <= k < before[n2].len() implies after[n2][k] == exposed_as(
        before[n2][k],
        before[n2][k].exposed || exposes(svcs, n2, before[n2][k].name),
    ) by {
        let p = before[n2][k];
        lemma_exposes_add(st.0, ns, s, n2, p.name);
        assert(st.1[n2][k] == exposed_as(p, p.exposed || exposes(st.0, n2, p.name)));
        if n2 == ns {
            assert(after[ns][k] == exposed_as(st.1[ns][k], st.1[ns][k].exposed || names_pod(s.pods_exposed, st.1[ns][k].name)));
        }
    }
}

proof fn lemma_marked_serve_list(
    before: Map<Seq<char>, Seq<PodView>>,
    st: (Map<Seq<char>, Seq<ServiceView>>, Map<Seq<char>, Seq<PodView>>),
    ns: Seq<char>,
    rs: Seq<Result<NettingService, NettingError>>,
)
    requires
        marked_by(before, st.1, st.0),
    ensures
        marked_by(before, serve_list(st, ns, rs).1, serve_list(st, ns, rs).0),
    decreases rs.len(),
{
    if rs.len() > 0 {
        lemma_marked_serve_list(before, st, ns, rs.drop_last());
        match rs.last() {
            Ok(s) => {
                lemma_marked_step(before, serve_list(st, ns, rs.drop_last()), ns, s@);
            },
            Err(_) => {},
        }
    }
}

proof fn lemma_marked_serve(
    before: Map<Seq<char>, Seq<PodView>>,
    st: (Map<Seq<char>, Seq<ServiceView>>, Map<Seq<char>, Seq<PodView>>),
    entries: Seq<(String, Vec<Result<NettingService, NettingError>>)>,
)
    requires
        marked_by(before, st.1, st.0),
    ensures
        marked_by(before, serve(st, entries).1, serve(st, entries).0),
    decreases entries.len(),
{
    if entries.len() > 0 {
        lemma_marked_serve(before, st, entries.drop_last());
        lemma_marked_serve_list(before, serve(st, entries.drop_last()), entries.last().0@, entries.last().1@);
    }
}

/// Taking in the services of a cluster marks, in the pod catalogue, exactly
/// the pods that some service of their namespace exposes by name: every
/// other pod and every other field stays as it was.
pub proof fn lemma_serve_marks_exposed_pods(
    pods: Map<Seq<char>, Seq<PodView>>,
    entries: Seq<(String, Vec<Result<NettingService, NettingError>>)>,
)
    ensures
        marked_by(pods, serve((Map::empty(), pods), entries).1, serve((Map::empty(), pods), entries).0),
{
    let empty = Map::<Seq<char>, Seq<ServiceView>>::empty();
    assert forall|ns: Seq<char>, k: int| #![trigger pods[ns][k]]
        pods.contains_key(ns) && 0 <= k < pods[ns].len() implies pods[ns][k] == exposed_as(
        pods[ns][k],
        pods[ns][k].exposed || exposes(empty, ns, pods[ns][k].name),
    ) by {
        assert(exposed_as(pods[ns][k], pods[ns][k].exposed) == pods[ns][k]);
    }
    assert(marked_by(pods, pods, empty));
    lemma_marked_serve(pods, (empty, pods), entries);
}

/// The summaries of the services that could be summarised, in order.
pub open spec fn ok_services(rs: Seq<Result<NettingService, NettingError>>) -> Seq<ServiceView>
    decreases rs.len(),
{
    if rs.len() == 0 {
        Seq::empty()
    } else {
        match rs.last() {
            Ok(s) => ok_services(rs.drop_last()).push(s@),
            Err(_) => ok_services(rs.drop_last()),
        }
    }
}

/// The services listed per namespace that could be summarised.
pub open spec fn service_groups(
    entries: Seq<(String, Vec<Result<NettingService, NettingError>>)>,
) -> Seq<(Seq<char>, Seq<ServiceView>)> {
    entries.map_values(|e: (String, Vec<Result<NettingService, NettingError>>)| (e.0@, ok_services(e.1@)))
}

proof fn lemma_serve_list_services(
    st: (Map<Seq<char>, Seq<ServiceView>>, Map<Seq<char>, Seq<PodView>>),
    ns: Seq<char>,
    rs: Seq<Result<NettingService, NettingError>>,
)
    ensures
        serve_list(st, ns, rs).0 == add_all(st.0, ns, ok_services(rs)),
    decreases rs.len(),
{
    if rs.len() > 0 {
        lemma_serve_list_services(st, ns, rs.drop_last());
        match rs.last() {
            Ok(s) => {
                assert(ok_services(rs).drop_last() =~= ok_services(rs.drop_last()));
            },
            Err(_) => {},
        }
    }
}

/// The service catalogue holds, per namespace, the services listed there
/// that could be summarised, in order; whatever the pod catalogue was.
pub proof fn lemma_serve_groups_services(
    pods: Map<Seq<char>, Seq<PodView>>,
    entries: Seq<(String, Vec<Result<NettingService, NettingError>>)>,
)
    ensures
        serve((Map::empty(), pods), entries).0 == group(service_groups(entries)),
    decreases entries.len(),
{
    if entries.len() > 0 {
        let prev = entries.drop_last();
        lemma_serve_groups_services(pods, prev);
        lemma_serve_list_services(serve((Map::empty(), pods), prev), entries.last().0@, entries.last().1@);
        assert(service_groups(entries).drop_last() =~= service_groups(prev));
    }
}

/// No pod of the list is marked exposed.
pub open spec fn all_unexposed(ps: Seq<PodView>) -> bool {
    forall|k: int| 0 <= k < ps.len() ==> !(#[trigger] ps[k]).exposed
}

proof fn lemma_ok_pods_unexposed(objs: Seq<PodObject>)
    ensures
        all_unexposed(ok_pods(objs)),
    decreases objs.len(),
{
    if objs.len() > 0 {
        lemma_ok_pods_unexposed(objs.drop_last());
    }
}

proof fn lemma_items_for_unexposed(entries: Seq<(Seq<char>, Seq<PodView>)>, k: Seq<char>)
    requires
        forall|i: int| 0 <= i < entries.len() ==> all_unexposed(#[trigger] entries[i].1),
    ensures
        all_unexposed(items_for(entries, k)),
    decreases entries.len(),
{
    if entries.len() > 0 {
        lemma_items_for_unexposed(entries.drop_last(), k);
        assert(all_unexposed(entries[entries.len() - 1].1));
    }
}

/// The pods that the catalogue is built with are unexposed.
pub proof fn lemma_pod_groups_unexposed(pods: Seq<(String, Vec<PodObject>)>, ns: Seq<char>)
    requires
        group(pod_groups(pods)).contains_key(ns),
    ensures
        all_unexposed(group(pod_groups(pods))[ns]),
{
    let g = pod_groups(pods);
    assert forall|i: int| 0 <= i < g.len() implies all_unexposed(#[trigger] g[i].1) by {
        lemma_ok_pods_unexposed(pods[i].1@);
    }
    lemma_items_for_unexposed(g, ns);
    lemma_group(g, ns);
}

/// In a built catalogue, a pod is marked exposed exactly when some service
/// of its namespace exposes a pod of the same name; the pod catalogue has
/// the namespaces of the pods that could be summarised, and the service
/// catalogue the services that could be summarised, per namespace.
pub proof fn lemma_built_catalog_exposure(listings: Seq<NamespaceListing>)
    ensures
        ({
            let p0 = group(pod_groups(listed_pods(listings)));
            let r = serve((Map::empty(), p0), listed_services(listings));
            &&& r.0 == group(service_groups(listed_services(listings)))
            &&& r.1.dom() == p0.dom()
            &&& forall|ns: Seq<char>| #[trigger] r.1.contains_key(ns) ==> r.1[ns].len() == p0[ns].len()
            &&& forall|ns: Seq<char>, k: int| #![trigger r.1[ns][k]]
                r.1.contains_key(ns) && 0 <= k < r.1[ns].len() ==> {
                    &&& r.1[ns][k] == exposed_as(p0[ns][k], r.1[ns][k].exposed)
                    &&& (r.1[ns][k].exposed <==> exposes(r.0, ns, r.1[ns][k].name))
                }
        }),
{
    let p0 = group(pod_groups(listed_pods(listings)));
    let entries = listed_services(listings);
    let r = serve((Map::empty(), p0), entries);
    lemma_serve_marks_exposed_pods(p0, entries);
    lemma_serve_groups_services(p0, entries);
    assert forall|ns: Seq<char>, k: int| #![trigger r.1[ns][k]]
        r.1.contains_key(ns) && 0 <= k < r.1[ns].len() implies {
            &&& r.1[ns][k] == exposed_as(p0[ns][k], r.1[ns][k].exposed)
            &&& (r.1[ns][k].exposed <==> exposes(r.0, ns, r.1[ns][k].name))
        } by {
        assert(p0.contains_key(ns));
        lemma_pod_groups_unexposed(listed_pods(listings), ns);
        assert(!p0[ns][k].exposed);
    }
}

} // verus!
