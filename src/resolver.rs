use vstd::prelude::*;

use crate::fut::Fut;
use crate::keyed::{as_map, find_key, keys_unique, lemma_pos_unique, lemma_push, take_key, upsert};
use crate::ready::Ready;

verus! {

/// A keyed store of values that are fetched in the background.
///
/// A key is known once a fetch for it has been started (its slot is then
/// `NotReady`) or a value has been set for it (`Ready`). At most one fetch is
/// started for a key: a second request for a key that is not ready yet starts
/// nothing. Finished fetches are collected by `poll`.
#[verifier::reject_recursive_types(T)]
pub struct ResolverMap<V, T> {
    entries: Vec<(String, Ready<V>)>,
    pending: Vec<Fut<T>>,
}

impl<V, T> ResolverMap<V, T> {
    /// The slot of each known key.
    pub closed spec fn slots(&self) -> Map<Seq<char>, Ready<V>> {
        as_map(self.entries@)
    }

    /// The handles of the outstanding fetches, in the order registered.
    pub closed spec fn pending_handles(&self) -> Seq<Fut<T>> {
        self.pending@
    }

    /// How many fetches are outstanding.
    pub closed spec fn pending_count(&self) -> nat {
        self.pending@.len()
    }

    pub closed spec fn wf(&self) -> bool {
        keys_unique(self.entries@)
    }

    /// The value stored for `k`, if its slot is ready.
    pub open spec fn value_of(&self, k: Seq<char>) -> Option<V> {
        if self.slots().contains_key(k) {
            self.slots()[k].value()
        } else {
            None
        }
    }

    pub fn new() -> (r: Self)
        ensures
            r.wf(),
            r.slots() == Map::<Seq<char>, Ready<V>>::empty(),
            r.pending_count() == 0,
    {
        let r = ResolverMap { entries: Vec::new(), pending: Vec::new() };
        assert(as_map(r.entries@) =~= Map::<Seq<char>, Ready<V>>::empty());
        r
    }

    /// Whether `key` is known, ready or not.
    pub fn contains(&self, key: &str) -> (r: bool)
        requires
            self.wf(),
        ensures
            r == self.slots().contains_key(key@),
    {
        find_key(&self.entries, key).is_some()
    }

    /// The value stored for `key`, if it is ready; changes nothing.
    pub fn try_get(&self, key: &str) -> (r: Option<&V>)
        requires
            self.wf(),
        ensures
            r.is_some() == self.value_of(key@).is_some(),
            r.is_some() ==> *r.unwrap() == self.value_of(key@).unwrap(),
    {
        match find_key(&self.entries, key) {
            Some(i) => {
                proof {
                    lemma_pos_unique(self.entries@, i as int);
                }
                self.entries[i].1.as_option()
            },
            None => None,
        }
    }

    /// Whether `key` holds a value.
    pub fn is_ready(&self, key: &str) -> (r: bool)
        requires
            self.wf(),
        ensures
            r == self.value_of(key@).is_some(),
    {
        self.try_get(key).is_some()
    }

    /// The value for `key` if it is ready. A key never seen before gets a
    /// `NotReady` slot, and `fetch(key)` is called once to start its fetch; a
    /// key that is already known starts nothing.
    pub fn get_or_update<F: FnOnce(&str) -> Fut<T>>(&mut self, key: &str, fetch: F) -> (r: Option<&V>)
        requires
            old(self).wf(),
            fetch.requires((key,)),
        ensures
            requested(*old(self), *final(self), key@),
            old(self).slots().contains_key(key@) ==> final(self).pending_handles() == old(self).pending_handles(),
            !old(self).slots().contains_key(key@) ==> exists|h: Fut<T>|
                fetch.ensures((key,), h) && final(self).pending_handles() == old(self).pending_handles().push(h),
            r.is_some() == old(self).value_of(key@).is_some(),
            r.is_some() ==> *r.unwrap() == old(self).value_of(key@).unwrap(),
    {
        match find_key(&self.entries, key) {
            Some(i) => {
                proof {
                    lemma_pos_unique(self.entries@, i as int);
                }
                self.entries[i].1.as_option()
            },
            None => {
                let owned: String = key.to_owned();
                proof {
                    lemma_push(self.entries@, (owned, Ready::NotReady));
                }
                self.entries.push((owned, Ready::NotReady));
                let handle = fetch(key);
                let ghost h = handle;
                self.pending.push(handle);
                assert(fetch.ensures((key,), h) && self.pending_handles() == old(self).pending_handles().push(h));
                None
            },
        }
    }

    /// Marks `key` as being fetched through some other channel. Returns
    /// `true` when the key was unknown: it then holds a `NotReady` slot and
    /// the caller is to start its fetch. A known key is left as it is.
    pub fn insert_pending(&mut self, key: &str) -> (r: bool)
        requires
            old(self).wf(),
        ensures
            final(self).wf(),
            r == !old(self).slots().contains_key(key@),
            r ==> final(self).slots() == old(self).slots().insert(key@, Ready::NotReady),
            !r ==> final(self).slots() == old(self).slots(),
            final(self).pending_count() == old(self).pending_count(),
    {
        match find_key(&self.entries, key) {
            Some(_) => false,
            None => {
                let owned: String = key.to_owned();
                proof {
                    lemma_push(self.entries@, (owned, Ready::NotReady));
                }
                self.entries.push((owned, Ready::NotReady));
                true
            },
        }
    }

    /// How many fetches are outstanding.
    pub fn pending_len(&self) -> (r: usize)
        ensures
            r == self.pending_count(),
    {
        self.pending.len()
    }

    /// Registers a fetch that is not tied to one key (one that fills many).
    pub fn add(&mut self, fut: Fut<T>)
        ensures
            final(self).slots() == old(self).slots(),
            final(self).wf() == old(self).wf(),
            final(self).pending_count() == old(self).pending_count() + 1,
            final(self).pending_handles() == old(self).pending_handles().push(fut),
    {
        self.pending.push(fut);
    }

    /// Stores `value` for `key`, ready.
    pub fn set(&mut self, key: String, value: V)
        requires
            old(self).wf(),
        ensures
            final(self).wf(),
            final(self).slots() == old(self).slots().insert(key@, Ready::Ready(value)),
            final(self).pending_count() == old(self).pending_count(),
    {
        upsert(&mut self.entries, key, Ready::Ready(value));
    }

    /// Forgets `key`; returns its value if it was ready.
    pub fn remove(&mut self, key: &str) -> (r: Option<V>)
        requires
            old(self).wf(),
        ensures
            final(self).wf(),
            final(self).slots() == old(self).slots().remove(key@),
            final(self).pending_count() == old(self).pending_count(),
            r == old(self).value_of(key@),
    {
        match take_key(&mut self.entries, key) {
            Some(slot) => slot.into_option(),
            None => None,
        }
    }

    /// Forgets `key`; returns whether it was known.
    pub fn remove_by_key(&mut self, key: &str) -> (r: bool)
        requires
            old(self).wf(),
        ensures
            final(self).wf(),
            final(self).slots() == old(self).slots().remove(key@),
            final(self).pending_count() == old(self).pending_count(),
            r == old(self).slots().contains_key(key@),
    {
        let known = self.contains(key);
        let _ = self.remove(key);
        known
    }

    /// Collects the values of the fetches that have finished, in the order
    /// in which they were registered, and drops their handles; the others
    /// stay outstanding. The slots are not touched: callers store what they
    /// take from the result. Costs one check per outstanding fetch.
    pub fn poll(&mut self) -> (r: Vec<T>)
        ensures
            final(self).slots() == old(self).slots(),
            final(self).wf() == old(self).wf(),
            final(self).pending_count() + r@.len() == old(self).pending_count(),
            r@.len() == 0 ==> final(self).pending_count() == old(self).pending_count(),
    {
        let mut done: Vec<T> = Vec::new();
        let mut waiting: Vec<Fut<T>> = Vec::new();
        let mut rest: Vec<Fut<T>> = Vec::new();
        std::mem::swap(&mut rest, &mut self.pending);
        let ghost total = rest@.len();
        while rest.len() > 0
            invariant
                waiting@.len() + done@.len() + rest@.len() == total,
            decreases rest@.len(),
        {
            let mut handle = rest.remove(0);
            match handle.try_resolve() {
                Some(value) => done.push(value),
                None => waiting.push(handle),
            }
        }
        self.pending = waiting;
        done
    }
}

/// The state that one `get_or_update` of `k` leads to.
pub open spec fn requested<V, T>(before: ResolverMap<V, T>, after: ResolverMap<V, T>, k: Seq<char>) -> bool {
    &&& after.wf()
    &&& before.slots().contains_key(k) ==> {
        &&& after.slots() == before.slots()
        &&& after.pending_count() == before.pending_count()
    }
    &&& !before.slots().contains_key(k) ==> {
        &&& after.slots() == before.slots().insert(k, Ready::NotReady)
        &&& after.pending_count() == before.pending_count() + 1
    }
}

/// Asking twice for a key that has no value yet, with no poll in between,
/// starts exactly one fetch, whether or not the key was known before.
pub proof fn lemma_one_fetch_per_key<V, T>(
    m0: ResolverMap<V, T>,
    m1: ResolverMap<V, T>,
    m2: ResolverMap<V, T>,
    k: Seq<char>,
)
    requires
        m0.wf(),
        !m0.slots().contains_key(k),
        requested(m0, m1, k),
        requested(m1, m2, k),
    ensures
        m2.pending_count() == m0.pending_count() + 1,
        m2.slots() == m0.slots().insert(k, Ready::NotReady),
{
}

} // verus!
