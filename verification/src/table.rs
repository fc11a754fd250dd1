use vstd::prelude::*;
use crate::k8s::types::{NettingPod, PodView};

verus! {

/// The map after adding `x` to the end of the list at `k` (a new list when
/// `k` has none).
pub open spec fn add_item<T>(m: Map<Seq<char>, Seq<T>>, k: Seq<char>, x: T) -> Map<Seq<char>, Seq<T>> {
    if m.contains_key(k) {
        m.insert(k, m[k].push(x))
    } else {
        m.insert(k, seq![x])
    }
}

/// A table of lists keyed by namespace name; each namespace occurs at most
/// once. Its value is the map from namespace to list.
#[derive(Debug)]
pub struct NamespaceTable<V> {
    keys: Vec<String>,
    entries: Vec<Vec<V>>,
}

impl<V: View> NamespaceTable<V> {
    /// The table is well formed: one list per key, and no key twice.
    pub closed spec fn wf(&self) -> bool {
        &&& self.keys@.len() == self.entries@.len()
        &&& forall|i: int, j: int| 0 <= i < self.keys@.len() && 0 <= j < self.keys@.len() && i != j
            ==> #[trigger] self.keys@[i]@ != #[trigger] self.keys@[j]@
    }

    spec fn has_key_at(&self, k: Seq<char>, i: int) -> bool {
        0 <= i < self.keys@.len() && self.keys@[i]@ == k
    }

    spec fn entry_view(&self, i: int) -> Seq<V::V> {
        self.entries@[i]@.map_values(|v: V| v@)
    }

    /// The map from each namespace of the table to its list.
    pub closed spec fn map(&self) -> Map<Seq<char>, Seq<V::V>> {
        Map::new(
            |k: Seq<char>| exists|i: int| self.has_key_at(k, i),
            |k: Seq<char>| self.entry_view(choose|i: int| self.has_key_at(k, i)),
        )
    }

    proof fn lemma_map_at(&self, i: int)
        requires
            self.wf(),
            0 <= i < self.keys@.len(),
        ensures
            self.map().contains_key(self.keys@[i]@),
            self.map()[self.keys@[i]@] == self.entry_view(i),
    {
        let k = self.keys@[i]@;
        assert(self.has_key_at(k, i));
        let j = choose|j: int| self.has_key_at(k, j);
        assert(self.has_key_at(k, j));
        if j != i {
            assert(self.keys@[i]@ != self.keys@[j]@);
        }
    }

    /// An empty table.
    pub fn new() -> (t: Self)
        ensures
            t.wf(),
            t.map() == Map::<Seq<char>, Seq<V::V>>::empty(),
    {
        let t = NamespaceTable { keys: Vec::new(), entries: Vec::new() };
        proof {
            assert(t.map() =~= Map::<Seq<char>, Seq<V::V>>::empty());
        }
        t
    }

    /// Removes every namespace from the table.
    pub fn clear(&mut self)
        ensures
            final(self).wf(),
            final(self).map() == Map::<Seq<char>, Seq<V::V>>::empty(),
    {
        self.keys.clear();
        self.entries.clear();
        proof {
            assert(self.map() =~= Map::<Seq<char>, Seq<V::V>>::empty());
        }
    }

    /// The number of namespaces in the table.
    pub fn len(&self) -> (n: usize)
        requires
            self.wf(),
        ensures
            n == self.map().len(),
    {
        proof {
            self.lemma_len();
        }
        self.keys.len()
    }

    proof fn lemma_len(&self)
        requires
            self.wf(),
        ensures
            self.map().len() == self.keys@.len(),
    {
        let ks = self.keys@.map_values(|s: String| s@);
        assert forall|a: int, b: int| 0 <= a < ks.len() && 0 <= b < ks.len() && a != b
            implies ks[a] != ks[b] by {
            assert(self.keys@[a]@ != self.keys@[b]@);
        }
        assert(ks.no_duplicates());
        assert forall|k: Seq<char>| self.map().dom().contains(k) <==> ks.to_set().contains(k) by {
            if self.map().dom().contains(k) {
                let i = choose|i: int| self.has_key_at(k, i);
                assert(ks[i] == k);
            }
            if ks.to_set().contains(k) {
                let i = choose|i: int| 0 <= i < ks.len() && ks[i] == k;
                assert(self.has_key_at(k, i));
            }
        }
        assert(self.map().dom() =~= ks.to_set());
        ks.unique_seq_to_set();
    }

    /// Finds the position of a namespace in the table.
    fn find(&self, key: &String) -> (r: Option<usize>)
        requires
            self.wf(),
        ensures
            match r {
                Some(i) => i < self.keys@.len() && self.keys@[i as int]@ == key@,
                None => !self.map().contains_key(key@),
            },
    {
        let mut i: usize = 0;
        while i < self.keys.len()
            invariant
                i <= self.keys@.len(),
                forall|j: int| 0 <= j < i ==> self.keys@[j]@ != key@,
            decreases self.keys.len() - i,
        {
            if self.keys[i] == *key {
                return Some(i);
            }
            i = i + 1;
        }
        None
    }

    /// The list of a namespace, if the table holds it.
    pub fn get(&self, key: &String) -> (r: Option<&Vec<V>>)
        requires
            self.wf(),
        ensures
            match r {
                Some(v) => self.map().contains_key(key@) && self.map()[key@] == v@.map_values(|x: V| x@),
                None => !self.map().contains_key(key@),
            },
    {
        match self.find(key) {
            Some(i) => {
                proof {
                    self.lemma_map_at(i as int);
                }
                Some(&self.entries[i])
            },
            None => None,
        }
    }

    /// Adds `item` to the end of the list of `key`, creating that list when
    /// the table does not hold `key` yet.
    pub fn append(&mut self, key: String, item: V)
        requires
            old(self).wf(),
        ensures
            final(self).wf(),
            final(self).map() == add_item(old(self).map(), key@, item@),
    {
        let ghost before = self.map();
        match self.find(&key) {
            Some(i) => {
                proof {
                    self.lemma_map_at(i as int);
                }
                let ghost old_entries = self.entries@;
                self.entries[i].push(item);
                proof {
                    assert(self.entry_view(i as int) =~= before[key@].push(item@));
                    assert forall|j: int| 0 <= j < self.keys@.len() && j != i
                        implies self.entry_view(j) == old(self).entry_view(j) by {
                        assert(self.entries@[j] == old_entries[j]);
                    }
                    assert forall|k: Seq<char>| #![auto] self.map().contains_key(k) <==> before.contains_key(k) by {
                        if self.map().contains_key(k) {
                            let j = choose|j: int| self.has_key_at(k, j);
                            assert(old(self).has_key_at(k, j));
                        }
                        if before.contains_key(k) {
                            let j = choose|j: int| old(self).has_key_at(k, j);
                            assert(self.has_key_at(k, j));
                        }
                    }
                    assert forall|k: Seq<char>| #![auto] self.map().contains_key(k)
                        implies self.map()[k] == add_item(before, key@, item@)[k] by {
                        let j = choose|j: int| self.has_key_at(k, j);
                        self.lemma_map_at(j);
                        old(self).lemma_map_at(j);
                    }
                    assert(self.map() =~= add_item(before, key@, item@));
                }
            },
            None => {
                let ghost n = self.keys@.len() as int;
                self.keys.push(key);
                let mut fresh: Vec<V> = Vec::new();
                fresh.push(item);
                self.entries.push(fresh);
                proof {
                    assert forall|i: int, j: int| 0 <= i < self.keys@.len() && 0 <= j < self.keys@.len() && i != j
                        implies #[trigger] self.keys@[i]@ != #[trigger] self.keys@[j]@ by {
                        if i == n {
                            assert(old(self).keys@[j] == self.keys@[j]);
                            if self.keys@[j]@ == key@ {
                                assert(old(self).has_key_at(key@, j));
                            }
                        } else if j == n {
                            assert(old(self).keys@[i] == self.keys@[i]);
                            if self.keys@[i]@ == key@ {
                                assert(old(self).has_key_at(key@, i));
                            }
                        } else {
                            assert(old(self).keys@[i] == self.keys@[i]);
                            assert(old(self).keys@[j] == self.keys@[j]);
                        }
                    }
                    assert(self.entry_view(n) =~= seq![item@]);
                    assert forall|k: Seq<char>| #![auto] self.map().contains_key(k) <==> before.insert(key@, seq![item@]).contains_key(k) by {
                        if self.map().contains_key(k) {
                            let j = choose|j: int| self.has_key_at(k, j);
                            if j < n {
                                assert(old(self).has_key_at(k, j));
                            }
                        }
                        if before.contains_key(k) {
                            let j = choose|j: int| old(self).has_key_at(k, j);
                            assert(self.has_key_at(k, j));
                        }
                        if k == key@ {
                            assert(self.has_key_at(k, n));
                        }
                    }
                    assert forall|k: Seq<char>| #![auto] self.map().contains_key(k)
                        implies self.map()[k] == before.insert(key@, seq![item@])[k] by {
                        let j = choose|j: int| self.has_key_at(k, j);
                        self.lemma_map_at(j);
                        if j < n {
                            old(self).lemma_map_at(j);
                            assert(self.entries@[j] == old(self).entries@[j]);
                        }
                    }
                    assert(self.map() =~= add_item(before, key@, item@));
                }
            },
        }
    }
}

/// The pods of a list, with those named `name` marked as exposed.
pub open spec fn expose_named(pods: Seq<PodView>, name: Seq<char>) -> Seq<PodView> {
    pods.map_values(|p: PodView| if p.name == name { p.with_exposed() } else { p })
}

/// The catalogue after marking the pods named `name` in namespace `ns` as
/// exposed; unchanged when it does not hold `ns`.
pub open spec fn expose_in(m: Map<Seq<char>, Seq<PodView>>, ns: Seq<char>, name: Seq<char>) -> Map<Seq<char>, Seq<PodView>> {
    if m.contains_key(ns) {
        m.insert(ns, expose_named(m[ns], name))
    } else {
        m
    }
}

/// Marking the pods of a name as exposed a second time changes nothing.
pub proof fn lemma_expose_idempotent(m: Map<Seq<char>, Seq<PodView>>, ns: Seq<char>, name: Seq<char>)
    ensures
        expose_in(expose_in(m, ns, name), ns, name) == expose_in(m, ns, name),
{
    if m.contains_key(ns) {
        let once = expose_named(m[ns], name);
        assert(expose_named(once, name) =~= once);
        assert(expose_in(expose_in(m, ns, name), ns, name) =~= expose_in(m, ns, name));
    }
}

/// Markings commute: the order in which services mark pods does not matter.
pub proof fn lemma_expose_commutes(
    m: Map<Seq<char>, Seq<PodView>>,
    ns1: Seq<char>,
    name1: Seq<char>,
    ns2: Seq<char>,
    name2: Seq<char>,
)
    ensures
        expose_in(expose_in(m, ns1, name1), ns2, name2) == expose_in(expose_in(m, ns2, name2), ns1, name1),
{
    let a = expose_in(expose_in(m, ns1, name1), ns2, name2);
    let b = expose_in(expose_in(m, ns2, name2), ns1, name1);
    if ns1 == ns2 && m.contains_key(ns1) {
        assert(expose_named(expose_named(m[ns1], name1), name2) =~= expose_named(expose_named(m[ns1], name2), name1));
    }
    assert(a =~= b);
}

impl NamespaceTable<NettingPod> {
    /// Marks every pod named `name` in the list of `namespace` as exposed.
    pub fn mark_exposed(&mut self, namespace: &String, name: &String)
        requires
            old(self).wf(),
        ensures
            final(self).wf(),
            final(self).map() == expose_in(old(self).map(), namespace@, name@),
    {
        let ghost before = self.map();
        match self.find(namespace) {
            None => {},
            Some(i) => {
                proof {
                    self.lemma_map_at(i as int);
                }
                let ghost old_entries = self.entries@;
                let mut pods: Vec<NettingPod> = Vec::new();
                std::mem::swap(&mut pods, &mut self.entries[i]);
                let ghost orig = pods@;
                let mut j: usize = 0;
                while j < pods.len()
                    invariant
                        j <= pods@.len(),
                        pods@.len() == orig.len(),
                        forall|k: int| 0 <= k < j ==> (#[trigger] pods@[k])@ == (if orig[k].name@ == name@ {
                            orig[k]@.with_exposed()
                        } else {
                            orig[k]@
                        }),
                        forall|k: int| j <= k < pods@.len() ==> #[trigger] pods@[k] == orig[k],
                    decreases pods.len() - j,
                {
                    if pods[j].name == *name {
                        pods[j].exposed = true;
                    }
                    j = j + 1;
                }
                std::mem::swap(&mut pods, &mut self.entries[i]);
                proof {
                    assert(self.entry_view(i as int) =~= expose_named(before[namespace@], name@));
                    assert forall|k: Seq<char>| #![auto] self.map().contains_key(k) <==> before.contains_key(k) by {
                        if self.map().contains_key(k) {
                            let w = choose|w: int| self.has_key_at(k, w);
                            assert(old(self).has_key_at(k, w));
                        }
                        if before.contains_key(k) {
                            let w = choose|w: int| old(self).has_key_at(k, w);
                            assert(self.has_key_at(k, w));
                        }
                    }
                    assert forall|k: Seq<char>| #![auto] self.map().contains_key(k)
                        implies self.map()[k] == expose_in(before, namespace@, name@)[k] by {
                        let w = choose|w: int| self.has_key_at(k, w);
                        self.lemma_map_at(w);
                        old(self).lemma_map_at(w);
                        if w != i {
                            assert(self.entries@[w] == old_entries[w]);
                        }
                    }
                    assert(self.map() =~= expose_in(before, namespace@, name@));
                }
            },
        }
    }
}

} // verus!
