//! An ordered table from small integer ids to abortable task handles.

use indexmap::IndexMap;
use tokio::task::JoinHandle;
use vstd::prelude::*;

verus! {

#[verifier::external_type_specification]
#[verifier::external_body]
#[verifier::reject_recursive_types(K)]
#[verifier::reject_recursive_types(V)]
#[verifier::reject_recursive_types(S)]
pub struct ExIndexMap<K, V, S>(IndexMap<K, V, S>);

#[verifier::external_type_specification]
#[verifier::external_body]
#[verifier::reject_recursive_types(T)]
pub struct ExJoinHandle<T>(JoinHandle<T>);

#[verifier::external_type_specification]
#[verifier::external_body]
pub struct ExJoinError(tokio::task::JoinError);

/// Relies on tokio's `JoinHandle::abort`: it only requests cancellation, and
/// may be called on a task that has already finished.
pub assume_specification<T>[ JoinHandle::<T>::abort ](h: &JoinHandle<T>);

/// The set of ids that an index map of task handles holds.
pub uninterp spec fn index_map_keys(m: IndexMap<u32, JoinHandle<()>>) -> Set<u32>;

/// Relies on `IndexMap::new`: the new map is empty.
#[verifier::external_body]
fn map_new() -> (r: IndexMap<u32, JoinHandle<()>>)
    ensures
        index_map_keys(r) == Set::<u32>::empty(),
{
    IndexMap::new()
}

/// Relies on `IndexMap::keys`: each key of the map, once.
#[verifier::external_body]
fn map_keys(m: &IndexMap<u32, JoinHandle<()>>) -> (r: Vec<u32>)
    ensures
        r@.to_set() == index_map_keys(*m),
        r@.no_duplicates(),
{
    m.keys().copied().collect()
}

/// Relies on `IndexMap::insert`: the key is present afterwards, the other keys
/// stay, and the value it replaced, if any, is handed back.
#[verifier::external_body]
fn map_insert(m: &mut IndexMap<u32, JoinHandle<()>>, k: u32, h: JoinHandle<()>) -> (r: Option<
    JoinHandle<()>,
>)
    ensures
        index_map_keys(*final(m)) == index_map_keys(*old(m)).insert(k),
        r.is_some() == index_map_keys(*old(m)).contains(k),
{
    m.insert(k, h)
}

/// Relies on `IndexMap::get`: a handle is found exactly when the key is present.
#[verifier::external_body]
fn map_get(m: &IndexMap<u32, JoinHandle<()>>, k: u32) -> (r: Option<&JoinHandle<()>>)
    ensures
        r.is_some() == index_map_keys(*m).contains(k),
{
    m.get(&k)
}

/// Relies on `IndexMap::swap_remove_entry`: the key is gone afterwards, the
/// other keys stay, and the entry is handed back exactly when it was present.
#[verifier::external_body]
fn map_swap_remove_entry(m: &mut IndexMap<u32, JoinHandle<()>>, k: u32) -> (r: Option<
    (u32, JoinHandle<()>),
>)
    ensures
        index_map_keys(*final(m)) == index_map_keys(*old(m)).remove(k),
        r.is_some() == index_map_keys(*old(m)).contains(k),
        r matches Some(e) ==> e.0 == k,
{
    m.swap_remove_entry(&k)
}

/// Relies on `IndexMap::drain` over the full range: every entry is handed
/// out, one per key, and the map is left empty.
#[verifier::external_body]
fn map_drain(m: &mut IndexMap<u32, JoinHandle<()>>) -> (r: Vec<JoinHandle<()>>)
    ensures
        index_map_keys(*final(m)) == Set::<u32>::empty(),
        r@.len() == index_map_keys(*old(m)).len(),
{
    m.drain(..).map(|e| e.1).collect()
}

/// `m` is the largest of `keys`.
pub open spec fn is_largest(keys: Set<u32>, m: u32) -> bool {
    keys.contains(m) && forall|k: u32| keys.contains(k) ==> k <= m
}

/// The id that a table with the given keys hands out next: one more than the
/// largest key, or zero when there is none.
pub open spec fn next_id_of(keys: Set<u32>) -> int {
    if exists|m: u32| is_largest(keys, m) {
        (choose|m: u32| is_largest(keys, m)) + 1
    } else {
        0
    }
}

/// A set has at most one largest element, so a known one fixes the next id.
pub proof fn lemma_next_id_from_largest(keys: Set<u32>, m: u32)
    requires
        is_largest(keys, m),
    ensures
        next_id_of(keys) == m + 1,
{
    let c = choose|x: u32| is_largest(keys, x);
    assert(is_largest(keys, c));
    assert(c <= m && m <= c);
}

/// Every finite, non-empty set of ids has a largest element.
pub proof fn lemma_largest_exists(keys: Set<u32>)
    requires
        keys.finite(),
        !keys.is_empty(),
    ensures
        exists|m: u32| is_largest(keys, m),
    decreases keys.len(),
{
    let x = keys.choose();
    let rest = keys.remove(x);
    if rest.is_empty() {
        assert forall|k: u32| keys.contains(k) implies k <= x by {
            if k != x {
                assert(rest.contains(k));
            }
        }
        assert(is_largest(keys, x));
    } else {
        lemma_largest_exists(rest);
        let m = choose|m: u32| is_largest(rest, m);
        let top = if m < x { x } else { m };
        assert(is_largest(keys, top));
    }
}

/// The next id of an empty table is zero.
pub proof fn lemma_next_id_empty()
    ensures
        next_id_of(Set::<u32>::empty()) == 0,
{
}

/// The next id lies above every id that the table holds, so it is never one
/// already in use.
pub proof fn lemma_next_id_is_fresh(keys: Set<u32>)
    requires
        keys.finite(),
    ensures
        forall|k: u32| keys.contains(k) ==> k < next_id_of(keys),
        next_id_of(keys) >= 0,
{
    if !keys.is_empty() {
        lemma_largest_exists(keys);
        let m = choose|m: u32| is_largest(keys, m);
        lemma_next_id_from_largest(keys, m);
    }
}

/// An ordered table from ids to handles of detached tasks.
pub struct HandleTable {
    entries: IndexMap<u32, JoinHandle<()>>,
}

impl View for HandleTable {
    type V = Set<u32>;

    closed spec fn view(&self) -> Set<u32> {
        index_map_keys(self.entries)
    }
}

impl HandleTable {
    /// The ids form a finite set.
    pub open spec fn wf(&self) -> bool {
        self@.finite()
    }

    /// An empty table.
    pub fn new() -> (r: HandleTable)
        ensures
            r.wf(),
            r@ == Set::<u32>::empty(),
    {
        HandleTable { entries: map_new() }
    }

    /// Whether the table holds no handle.
    pub fn is_empty(&self) -> (r: bool)
        requires
            self.wf(),
        ensures
            r == self@.is_empty(),
    {
        let keys = map_keys(&self.entries);
        proof {
            if keys@.len() == 0 {
                assert(keys@ =~= Seq::<u32>::empty());
                assert(keys@.to_set() =~= Set::<u32>::empty());
            } else {
                assert(keys@.to_set().contains(keys@[0]));
            }
        }
        keys.len() == 0
    }

    /// Whether `id` is in the table.
    pub fn contains(&self, id: u32) -> (r: bool)
        ensures
            r == self@.contains(id),
    {
        map_get(&self.entries, id).is_some()
    }

    /// The id that the next insertion takes: one more than the largest id
    /// present, or zero for an empty table. `None` when the largest id present
    /// is `u32::MAX`, so that no id is left.
    pub fn next_id(&self) -> (r: Option<u32>)
        requires
            self.wf(),
        ensures
            r matches Some(i) ==> i == next_id_of(self@),
            r is None <==> next_id_of(self@) > u32::MAX,
    {
        let keys = map_keys(&self.entries);
        if keys.len() == 0 {
            proof {
                assert(keys@ =~= Seq::<u32>::empty());
                assert(self@ =~= Set::<u32>::empty());
                lemma_next_id_empty();
            }
            return Some(0);
        }
        let mut largest: u32 = keys[0];
        let mut i: usize = 1;
        while i < keys.len()
            invariant
                1 <= i <= keys@.len(),
                exists|j: int| 0 <= j < i && keys@[j] == largest,
                forall|j: int| 0 <= j < i ==> keys@[j] <= largest,
            decreases keys@.len() - i,
        {
            if keys[i] > largest {
                largest = keys[i];
            }
            i = i + 1;
        }
        proof {
            let j = choose|j: int| 0 <= j < keys@.len() && keys@[j] == largest;
            assert(keys@.to_set().contains(keys@[j]));
            assert forall|k: u32| self@.contains(k) implies k <= largest by {
                assert(keys@.to_set().contains(k));
                let t = choose|t: int| 0 <= t < keys@.len() && keys@[t] == k;
            }
            assert(is_largest(self@, largest));
            lemma_next_id_from_largest(self@, largest);
        }
        if largest == u32::MAX {
            None
        } else {
            Some(largest + 1)
        }
    }

    /// Puts `handle` under `id`, and hands back the handle it replaced.
    pub fn insert(&mut self, id: u32, handle: JoinHandle<()>) -> (r: Option<JoinHandle<()>>)
        requires
            old(self).wf(),
        ensures
            final(self).wf(),
            final(self)@ == old(self)@.insert(id),
            r.is_some() == old(self)@.contains(id),
    {
        map_insert(&mut self.entries, id, handle)
    }

    /// Takes the handle under `id` out of the table; `None` when there is none.
    pub fn remove(&mut self, id: u32) -> (r: Option<JoinHandle<()>>)
        requires
            old(self).wf(),
        ensures
            final(self).wf(),
            final(self)@ == old(self)@.remove(id),
            r.is_some() == old(self)@.contains(id),
    {
        match map_swap_remove_entry(&mut self.entries, id) {
            Some(e) => Some(e.1),
            None => None,
        }
    }

    /// Takes every handle out of the table.
    pub fn drain_all(&mut self) -> (r: Vec<JoinHandle<()>>)
        requires
            old(self).wf(),
        ensures
            final(self).wf(),
            final(self)@ == Set::<u32>::empty(),
            r@.len() == old(self)@.len(),
    {
        map_drain(&mut self.entries)
    }

    /// Puts `handle` under the next id and returns that id. When no id is
    /// left the task is cancelled instead and the table stays as it was.
    pub fn push(&mut self, handle: JoinHandle<()>) -> (r: Option<u32>)
        requires
            old(self).wf(),
        ensures
            final(self).wf(),
            match r {
                Some(i) => i == next_id_of(old(self)@) && final(self)@ == old(self)@.insert(i),
                None => next_id_of(old(self)@) > u32::MAX && final(self)@ == old(self)@,
            },
    {
        match self.next_id() {
            Some(id) => {
                let _ = self.insert(id, handle);
                Some(id)
            },
            None => {
                handle.abort();
                None
            },
        }
    }
}

} // verus!
