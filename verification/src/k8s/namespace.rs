use vstd::prelude::*;
use crate::k8s::objects::NamespaceObject;

verus! {

/// Every namespace object of the list names its namespace.
pub open spec fn namespaces_named(ns: Seq<NamespaceObject>) -> bool {
    forall|i: int| 0 <= i < ns.len() ==> ((#[trigger] ns[i]).metadata matches Some(meta) && meta.name is Some)
}

/// Whether every namespace object of the list names its namespace.
pub fn check_namespaces(namespaces: &Vec<NamespaceObject>) -> (ok: bool)
    ensures
        ok == namespaces_named(namespaces@),
{
    let mut i: usize = 0;
    while i < namespaces.len()
        invariant
            i <= namespaces@.len(),
            forall|j: int| 0 <= j < i ==> ((#[trigger] namespaces@[j]).metadata matches Some(meta) && meta.name is Some),
        decreases namespaces.len() - i,
    {
        let named = match &namespaces[i].metadata {
            Some(meta) => meta.name.is_some(),
            None => false,
        };
        if !named {
            return false;
        }
        i = i + 1;
    }
    true
}

/// Returns the names of the listed namespaces, in order.
pub fn get_namespaces(namespaces: Vec<NamespaceObject>) -> (names: Vec<String>)
    requires
        namespaces_named(namespaces@),
    ensures
        names@.len() == namespaces@.len(),
        forall|i: int| 0 <= i < names@.len() ==>
            (#[trigger] names@[i])@ == namespaces@[i].metadata.unwrap().name.unwrap()@,
{
    let ghost all = namespaces@;
    let mut names: Vec<String> = Vec::new();
    for n in it: namespaces
        invariant
            it.seq() == all,
            namespaces_named(all),
            names@.len() == it.index(),
            forall|i: int| 0 <= i < it.index() ==>
                (#[trigger] names@[i])@ == all[i].metadata.unwrap().name.unwrap()@,
    {
        proof {
            assert(all[it.index()] == n);
        }
        let name = match n.metadata {
            Some(meta) => match meta.name {
                Some(name) => name,
                None => { proof { assert(false); } String::new() },
            },
            None => { proof { assert(false); } String::new() },
        };
        names.push(name);
    }
    names
}

} // verus!
