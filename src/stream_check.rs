use vstd::prelude::*;

use std::collections::VecDeque;

use crate::channel::{enqueue, next_queued, queued_len};
use crate::data::Stream;
use crate::keyed::{as_map, find_key, keys_unique, take_key, upsert};
use crate::ready::Ready;
use crate::resolver::ResolverMap;

verus! {

/// How long the batcher gathers new subscriptions before it asks for them.
pub const BURST_WINDOW_MS: u64 = 1000;

/// How often the batcher asks again for every watched stream.
pub const REFRESH_MS: u64 = 30000;

/// A change in what is known: something appeared, or went away.
pub enum Action<T> {
    Added(T),
    Removed(T),
}

pub struct StreamStatus {
    pub user_id: String,
}

/// Whether some stream of `found` belongs to `id`.
pub open spec fn is_found(found: Seq<Stream>, id: Seq<char>) -> bool {
    exists|k: int| 0 <= k < found.len() && (#[trigger] found[k]).user_id@ == id
}

/// `j` is the first position of a stream of `found` that belongs to `id`.
pub open spec fn first_of(found: Seq<Stream>, id: Seq<char>, j: int) -> bool {
    0 <= j < found.len() && found[j].user_id@ == id && forall|i: int| 0 <= i < j ==> (#[trigger] found[i]).user_id@ != id
}

/// `id` is one of the requested ids.
pub open spec fn is_requested(requested: Seq<String>, id: Seq<char>) -> bool {
    exists|i: int| 0 <= i < requested.len() && (#[trigger] requested[i])@ == id
}

/// Some entry of `r` reports `id`.
pub open spec fn reports(r: Seq<(String, Option<Stream>)>, id: Seq<char>) -> bool {
    exists|k: int| 0 <= k < r.len() && (#[trigger] r[k]).0@ == id
}

/// What a batch answer says of `id`: the first stream that belongs to it,
/// or `None` when none came back.
pub open spec fn answer_for(found: Seq<Stream>, id: Seq<char>, a: Option<Stream>) -> bool {
    match a {
        Some(s) => exists|j: int| first_of(found, id, j) && s == found[j],
        None => !is_found(found, id),
    }
}

fn is_among(found: &Vec<Option<Stream>>, id: &String) -> (r: Option<usize>)
    ensures
        match r {
            Some(j) => j < found@.len() && found@[j as int] is Some && found@[j as int]->Some_0.user_id@ == id@
                && forall|i: int| 0 <= i < j ==> !(#[trigger] found@[i] is Some && found@[i]->Some_0.user_id@ == id@),
            None => forall|i: int| 0 <= i < found@.len() ==> !(#[trigger] found@[i] is Some && found@[i]->Some_0.user_id@ == id@),
        },
{
    let mut k: usize = 0;
    while k < found.len()
        invariant
            k <= found@.len(),
            forall|i: int| 0 <= i < k ==> !(#[trigger] found@[i] is Some && found@[i]->Some_0.user_id@ == id@),
        decreases found@.len() - k,
    {
        let hit = match &found[k] {
            Some(s) => s.user_id == *id,
            None => false,
        };
        if hit {
            return Some(k);
        }
        k = k + 1;
    }
    None
}

fn already(out: &Vec<(String, Option<Stream>)>, id: &String) -> (r: bool)
    ensures
        r == exists|k: int| 0 <= k < out@.len() && (#[trigger] out@[k]).0@ == id@,
{
    let mut k: usize = 0;
    while k < out.len()
        invariant
            k <= out@.len(),
            forall|i: int| 0 <= i < k ==> (#[trigger] out@[i]).0@ != id@,
        decreases out@.len() - k,
    {
        if out[k].0 == *id {
            return true;
        }
        k = k + 1;
    }
    false
}

/// Compares a batch's answer with what was asked: each requested id is
/// reported once, in the order first asked, with the first stream that
/// came back for it, or `None` when none did. Streams for ids that were not
/// asked for are ignored.
pub fn diff_statuses(requested: &Vec<String>, found: Vec<Stream>) -> (r: Vec<(String, Option<Stream>)>)
    ensures
        forall|k: int| #![trigger r@[k]] 0 <= k < r@.len() ==> is_requested(requested@, r@[k].0@) && answer_for(
            found@,
            r@[k].0@,
            r@[k].1,
        ),
        forall|i: int| 0 <= i < requested@.len() ==> reports(r@, #[trigger] requested@[i]@),
        forall|a: int, b: int| 0 <= a < b < r@.len() ==> (#[trigger] r@[a]).0@ != (#[trigger] r@[b]).0@,
{
    let ghost fv = found@;
    let mut slots: Vec<Option<Stream>> = Vec::new();
    let mut found = found;
    while found.len() > 0
        invariant
            slots@.len() + found@.len() == fv.len(),
            forall|j: int| 0 <= j < slots@.len() ==> #[trigger] slots@[j] == Some(fv[j]),
            forall|j: int| 0 <= j < found@.len() ==> #[trigger] found@[j] == fv[slots@.len() + j],
        decreases found@.len(),
    {
        let s = found.remove(0);
        slots.push(Some(s));
    }
    let mut out: Vec<(String, Option<Stream>)> = Vec::new();
    let mut i: usize = 0;
    while i < requested.len()
        invariant
            i <= requested@.len(),
            slots@.len() == fv.len(),
            forall|j: int| 0 <= j < slots@.len() && #[trigger] slots@[j] is Some ==> slots@[j] == Some(fv[j]),
            forall|j: int| 0 <= j < slots@.len() && #[trigger] slots@[j] is None ==> exists|k: int|
                0 <= k < out@.len() && (#[trigger] out@[k]).0@ == fv[j].user_id@,
            forall|k: int| #![trigger out@[k]] 0 <= k < out@.len() ==> is_requested(requested@, out@[k].0@)
                && answer_for(fv, out@[k].0@, out@[k].1),
            forall|q: int| 0 <= q < i ==> reports(out@, #[trigger] requested@[q]@),
            forall|a: int, b: int| 0 <= a < b < out@.len() ==> (#[trigger] out@[a]).0@ != (#[trigger] out@[b]).0@,
        decreases requested@.len() - i,
    {
        let id = &requested[i];
        if !already(&out, id) {
            let ghost before = out@;
            let ghost sb = slots@;
            // no earlier answer took a stream of this id
            assert forall|j: int| 0 <= j < sb.len() && fv[j].user_id@ == id@ implies #[trigger] sb[j] is Some by {
                if sb[j] is None {
                    let k = choose|k: int| 0 <= k < before.len() && (#[trigger] before[k]).0@ == fv[j].user_id@;
                }
            }
            let answer: Option<Stream> = match is_among(&slots, id) {
                Some(j) => {
                    proof {
                        assert(first_of(fv, id@, j as int)) by {
                            assert forall|q: int| 0 <= q < j implies (#[trigger] fv[q]).user_id@ != id@ by {
                                if fv[q].user_id@ == id@ {
                                    assert(sb[q] is Some);
                                    assert(sb[q] == Some(fv[q]));
                                }
                            }
                        }
                    }
                    let taken = slots.remove(j);
                    slots.insert(j, None);
                    proof {
                        assert(taken == Some(fv[j as int]));
                    }
                    taken
                },
                None => {
                    proof {
                        assert(!is_found(fv, id@)) by {
                            if is_found(fv, id@) {
                                let q = choose|q: int| 0 <= q < fv.len() && (#[trigger] fv[q]).user_id@ == id@;
                                assert(sb[q] is Some);
                                assert(sb[q] == Some(fv[q]));
                            }
                        }
                    }
                    None
                },
            };
            out.push((id.clone(), answer));
            proof {
                let n = before.len() as int;
                assert(out@[n].0@ == id@);
                assert forall|j: int| 0 <= j < slots@.len() && #[trigger] slots@[j] is None implies exists|k: int|
                    0 <= k < out@.len() && (#[trigger] out@[k]).0@ == fv[j].user_id@ by {
                    if sb[j] is None {
                        let k = choose|k: int| 0 <= k < before.len() && (#[trigger] before[k]).0@ == fv[j].user_id@;
                        assert(out@[k] == before[k]);
                    } else {
                        assert(fv[j].user_id@ == id@);
                    }
                }
                assert forall|j: int| 0 <= j < slots@.len() && #[trigger] slots@[j] is Some implies slots@[j] == Some(fv[j]) by {
                    assert(slots@[j] == sb[j]);
                }
                assert forall|k: int| #![trigger out@[k]] 0 <= k < out@.len() implies is_requested(requested@, out@[k].0@)
                    && answer_for(fv, out@[k].0@, out@[k].1) by {
                    if k < n {
                        assert(out@[k] == before[k]);
                    } else {
                        assert(requested@[i as int]@ == id@);
                    }
                }
                assert forall|q: int| 0 <= q < i + 1 implies reports(out@, #[trigger] requested@[q]@) by {
                    if q < i {
                        assert(reports(before, requested@[q]@));
                        let k = choose|k: int| 0 <= k < before.len() && (#[trigger] before[k]).0@ == requested@[q]@;
                        assert(out@[k] == before[k]);
                    } else {
                        assert(out@[n].0@ == requested@[q]@);
                    }
                }
                assert forall|a: int, b: int| 0 <= a < b < out@.len() implies (#[trigger] out@[a]).0@ != (#[trigger] out@[b]).0@ by {
                    assert(out@[a] == before[a]);
                    if b < n {
                        assert(out@[b] == before[b]);
                    }
                }
            }
        } else {
            proof {
                assert(reports(out@, requested@[i as int]@));
            }
        }
        i = i + 1;
    }
    out
}

/// An id that was asked for and did not come back is reported gone, and an
/// id that was not asked for is not reported at all.
pub proof fn lemma_absent_reported_gone(
    requested: Seq<String>,
    found: Seq<Stream>,
    r: Seq<(String, Option<Stream>)>,
    id: Seq<char>,
)
    requires
        forall|k: int| #![trigger r[k]] 0 <= k < r.len() ==> is_requested(requested, r[k].0@) && answer_for(
            found,
            r[k].0@,
            r[k].1,
        ),
        forall|i: int| 0 <= i < requested.len() ==> reports(r, #[trigger] requested[i]@),
    ensures
        is_requested(requested, id) && !is_found(found, id) ==> exists|k: int|
            0 <= k < r.len() && (#[trigger] r[k]).0@ == id && r[k].1 is None,
        !is_requested(requested, id) ==> forall|k: int| 0 <= k < r.len() ==> (#[trigger] r[k]).0@ != id,
{
    if is_requested(requested, id) && !is_found(found, id) {
        let i = choose|i: int| 0 <= i < requested.len() && (#[trigger] requested[i])@ == id;
        assert(reports(r, requested[i]@));
        let k = choose|k: int| 0 <= k < r.len() && (#[trigger] r[k]).0@ == requested[i]@;
        if r[k].1 is Some {
            let j = choose|j: int| first_of(found, id, j) && r[k].1->Some_0 == found[j];
        }
    }
}

/// The watch-set side of the stream-status engine: which ids are watched,
/// which were added since the last request, and when requests are due.
///
/// New subscriptions are gathered for `BURST_WINDOW_MS` from the first of
/// them and then asked for in one request; every `REFRESH_MS` the whole
/// watch-set is asked for again.
pub struct Batcher {
    watched: Vec<(String, ())>,
    batch: Vec<String>,
    batch_since: u64,
    last_refresh: u64,
}

/// `s` without the occurrences of `k`.
pub open spec fn without(s: Seq<Seq<char>>, k: Seq<char>) -> Seq<Seq<char>>
    decreases s.len(),
{
    if s.len() == 0 {
        s
    } else if s.last() == k {
        without(s.drop_last(), k)
    } else {
        without(s.drop_last(), k).push(s.last())
    }
}

/// The state that subscribing to `id` at `now` leads to.
pub open spec fn subscribed(before: Batcher, after: Batcher, id: Seq<char>, now: u64) -> bool {
    let fresh = !before.watch_set().contains(id);
    &&& after.wf()
    &&& after.watch_set() == before.watch_set().insert(id)
    &&& after.pending_batch() == if fresh {
        before.pending_batch().push(id)
    } else {
        before.pending_batch()
    }
    &&& after.batch_started() == if fresh && before.pending_batch().len() == 0 {
        now
    } else {
        before.batch_started()
    }
    &&& after.refreshed_at() == before.refreshed_at()
}

/// The whole watch-set is due to be asked for again at `now`.
pub open spec fn refresh_due(b: Batcher, now: u64) -> bool {
    now as int - b.refreshed_at() as int >= REFRESH_MS as int
}

/// The gathered subscriptions are due to be asked for at `now`.
pub open spec fn burst_due(b: Batcher, now: u64) -> bool {
    b.pending_batch().len() > 0 && now as int - b.batch_started() as int >= BURST_WINDOW_MS as int
}

/// The request that a tick at `now` issues, and the state after it.
pub open spec fn ticked(before: Batcher, after: Batcher, now: u64, r: Option<Seq<Seq<char>>>) -> bool {
    &&& after.wf()
    &&& after.watch_set() == before.watch_set()
    &&& after.watch_list() == before.watch_list()
    &&& if refresh_due(before, now) {
        &&& r == Some(before.watch_list())
        &&& after.pending_batch().len() == 0
        &&& after.refreshed_at() == now
    } else if burst_due(before, now) {
        &&& r == Some(before.pending_batch())
        &&& after.pending_batch().len() == 0
        &&& after.refreshed_at() == before.refreshed_at()
    } else {
        &&& r is None
        &&& after.pending_batch() == before.pending_batch()
        &&& after.batch_started() == before.batch_started()
        &&& after.refreshed_at() == before.refreshed_at()
    }
}

impl Batcher {
    pub closed spec fn wf(&self) -> bool {
        keys_unique(self.watched@)
    }

    /// The watched ids.
    pub closed spec fn watch_set(&self) -> Set<Seq<char>> {
        as_map(self.watched@).dom()
    }

    /// The watched ids, in the order a refresh asks for them.
    pub closed spec fn watch_list(&self) -> Seq<Seq<char>> {
        self.watched@.map_values(|e: (String, ())| e.0@)
    }

    /// The ids subscribed to since the last request, in order.
    pub closed spec fn pending_batch(&self) -> Seq<Seq<char>> {
        self.batch@.map_values(|s: String| s@)
    }

    /// When the first of the pending ids was subscribed to.
    pub closed spec fn batch_started(&self) -> u64 {
        self.batch_since
    }

    /// When the whole watch-set was last asked for.
    pub closed spec fn refreshed_at(&self) -> u64 {
        self.last_refresh
    }

    /// An empty batcher whose refresh clock starts at `now`.
    pub fn new(now: u64) -> (r: Batcher)
        ensures
            r.wf(),
            r.watch_set() == Set::<Seq<char>>::empty(),
            r.pending_batch().len() == 0,
            r.refreshed_at() == now,
    {
        let r = Batcher { watched: Vec::new(), batch: Vec::new(), batch_since: now, last_refresh: now };
        assert(as_map(r.watched@).dom() =~= Set::<Seq<char>>::empty());
        r
    }

    /// Starts watching `id` at `now`; an id already watched changes nothing.
    pub fn subscribe(&mut self, id: String, now: u64)
        requires
            old(self).wf(),
        ensures
            subscribed(*old(self), *final(self), id@, now),
    {
        match find_key(&self.watched, id.as_str()) {
            Some(i) => {
                proof {
                    crate::keyed::lemma_pos_unique(self.watched@, i as int);
                    assert(self.watch_set().insert(id@) =~= self.watch_set());
                }
            },
            None => {
                if self.batch.len() == 0 {
                    self.batch_since = now;
                }
                self.batch.push(id.clone());
                upsert(&mut self.watched, id, ());
                proof {
                    assert(self.pending_batch() =~= old(self).pending_batch().push(id@));
                }
            },
        }
    }

    /// Stops watching `id`.
    pub fn unsubscribe(&mut self, id: &str)
        requires
            old(self).wf(),
        ensures
            final(self).wf(),
            final(self).watch_set() == old(self).watch_set().remove(id@),
            final(self).pending_batch() == without(old(self).pending_batch(), id@),
            final(self).batch_started() == old(self).batch_started(),
            final(self).refreshed_at() == old(self).refreshed_at(),
    {
        let _ = take_key(&mut self.watched, id);
        let key: String = id.to_owned();
        let ghost all = self.pending_batch();
        let mut rest: Vec<String> = Vec::new();
        std::mem::swap(&mut rest, &mut self.batch);
        let n = rest.len();
        let mut kept: Vec<String> = Vec::new();
        let mut i: usize = 0;
        while i < n
            invariant
                n == rest@.len(),
                i <= n,
                all == rest@.map_values(|x: String| x@),
                key@ == id@,
                kept@.map_values(|x: String| x@) == without(all.subrange(0, i as int), id@),
            decreases n - i,
        {
            proof {
                let t = all.subrange(0, i + 1);
                assert(t.drop_last() =~= all.subrange(0, i as int));
                assert(t.last() == rest@[i as int]@);
            }
            if rest[i] != key {
                kept.push(rest[i].clone());
            }
            i = i + 1;
            assert(kept@.map_values(|x: String| x@) =~= without(all.subrange(0, i as int), id@));
        }
        assert(all.subrange(0, n as int) =~= all);
        self.batch = kept;
    }

    /// The ids of the request due at `now`, if one is due: every watched id
    /// when a refresh is due, else the gathered subscriptions once their
    /// window has passed.
    pub fn tick(&mut self, now: u64) -> (r: Option<Vec<String>>)
        requires
            old(self).wf(),
        ensures
            ticked(
                *old(self),
                *final(self),
                now,
                match r {
                    Some(v) => Some(v@.map_values(|s: String| s@)),
                    None => None,
                },
            ),
    {
        let refresh = now >= self.last_refresh && now - self.last_refresh >= REFRESH_MS;
        let burst = self.batch.len() > 0 && now >= self.batch_since && now - self.batch_since
            >= BURST_WINDOW_MS;
        if refresh {
            let mut all: Vec<String> = Vec::new();
            let mut i: usize = 0;
            while i < self.watched.len()
                invariant
                    i <= self.watched@.len(),
                    all@.len() == i,
                    forall|k: int| 0 <= k < i ==> (#[trigger] all@[k])@ == self.watched@[k].0@,
                decreases self.watched@.len() - i,
            {
                all.push(self.watched[i].0.clone());
                i = i + 1;
            }
            assert(all@.map_values(|s: String| s@) =~= self.watch_list());
            self.batch = Vec::new();
            self.last_refresh = now;
            Some(all)
        } else if burst {
            let mut taken: Vec<String> = Vec::new();
            std::mem::swap(&mut taken, &mut self.batch);
            Some(taken)
        } else {
            None
        }
    }
}

/// Subscriptions that arrive within one burst window are asked for
/// together, as soon as the window that the first of them opened has
/// passed: in one request that holds exactly the two of them, in order,
/// unless the periodic refresh falls due at that moment, whose request
/// holds them too. Before the window has passed nothing is asked for,
/// unless the refresh is due.
pub proof fn lemma_burst_coalesces(
    b0: Batcher,
    b1: Batcher,
    b2: Batcher,
    b3: Batcher,
    first: Seq<char>,
    second: Seq<char>,
    t1: u64,
    t2: u64,
    now: u64,
    r: Option<Seq<Seq<char>>>,
)
    requires
        b0.wf(),
        b0.pending_batch().len() == 0,
        !b0.watch_set().contains(first),
        !b0.watch_set().contains(second),
        first != second,
        subscribed(b0, b1, first, t1),
        subscribed(b1, b2, second, t2),
        t1 <= t2 <= now,
        ticked(b2, b3, now, r),
    ensures
        now >= t1 + BURST_WINDOW_MS ==> r is Some && r.unwrap().contains(first) && r.unwrap().contains(second)
            && b3.pending_batch().len() == 0,
        now >= t1 + BURST_WINDOW_MS && !refresh_due(b2, now) ==> r == Some(seq![first, second]),
        now < t1 + BURST_WINDOW_MS && !refresh_due(b2, now) ==> r is None,
{
    assert(b1.pending_batch() =~= seq![first]);
    assert(b2.pending_batch() =~= seq![first, second]);
    if refresh_due(b2, now) {
        lemma_watch_list_is_set(b2);
        assert(b2.watch_set().contains(first));
        assert(b2.watch_set().contains(second));
    } else if now >= t1 + BURST_WINDOW_MS {
        assert(seq![first, second][0] == first);
        assert(seq![first, second][1] == second);
    }
}

/// The order in which a refresh asks lists each watched id exactly once.
pub proof fn lemma_watch_list_is_set(b: Batcher)
    requires
        b.wf(),
    ensures
        forall|k: Seq<char>| b.watch_set().contains(k) <==> #[trigger] b.watch_list().contains(k),
        b.watch_list().no_duplicates(),
{
    assert forall|k: Seq<char>| b.watch_set().contains(k) <==> #[trigger] b.watch_list().contains(k) by {
        if b.watch_set().contains(k) {
            let i = choose|i: int| 0 <= i < b.watched@.len() && (#[trigger] b.watched@[i]).0@ == k;
            assert(b.watch_list()[i] == k);
        }
        if b.watch_list().contains(k) {
            let i = choose|i: int| 0 <= i < b.watch_list().len() && b.watch_list()[i] == k;
            assert(b.watched@[i].0@ == k);
        }
    }
    assert forall|i: int, j: int| 0 <= i < b.watch_list().len() && 0 <= j < b.watch_list().len() && i != j implies
        b.watch_list()[i] != b.watch_list()[j] by {
        assert(b.watched@[i].0@ != b.watched@[j].0@);
    }
}

/// A refresh asks for exactly the watched ids, each once, whether or not
/// anything was subscribed to or dropped since the last one.
pub proof fn lemma_refresh_asks_all(b: Batcher, after: Batcher, now: u64, r: Option<Seq<Seq<char>>>)
    requires
        b.wf(),
        refresh_due(b, now),
        ticked(b, after, now, r),
    ensures
        r is Some,
        forall|k: Seq<char>| b.watch_set().contains(k) <==> #[trigger] r.unwrap().contains(k),
        r.unwrap().no_duplicates(),
{
    lemma_watch_list_is_set(b);
}

/// The application's side of the stream-status engine: a cache of the
/// status of each stream asked about, filled from the background loop that
/// owns the watch-set, and a queue of what appeared and went away.
pub struct StreamCheck {
    map: ResolverMap<Option<Stream>, (String, Option<Stream>)>,
    watching: tokio::sync::mpsc::UnboundedSender<Action<String>>,
    update: tokio::sync::mpsc::UnboundedReceiver<(String, Option<Stream>)>,
    events: VecDeque<Action<StreamStatus>>,
    asked: Ghost<Seq<Action<String>>>,
}

/// An action that asks to watch `id`.
pub open spec fn is_added(a: Action<String>, id: Seq<char>) -> bool {
    match a {
        Action::Added(x) => x@ == id,
        _ => false,
    }
}

/// An action that asks to stop watching `id`.
pub open spec fn is_removed(a: Action<String>, id: Seq<char>) -> bool {
    match a {
        Action::Removed(x) => x@ == id,
        _ => false,
    }
}

/// `after` keeps every key of `before`, and each key it adds holds a value.
pub open spec fn grew<V>(before: Map<Seq<char>, Ready<V>>, after: Map<Seq<char>, Ready<V>>) -> bool {
    &&& forall|k: Seq<char>| #[trigger] before.contains_key(k) ==> after.contains_key(k)
    &&& forall|k: Seq<char>| #[trigger] after.contains_key(k) && !before.contains_key(k) ==> after[k] is Ready
}

pub proof fn lemma_grew_insert<V>(before: Map<Seq<char>, Ready<V>>, m: Map<Seq<char>, Ready<V>>, k: Seq<char>, v: V)
    requires
        grew(before, m),
    ensures
        grew(before, m.insert(k, Ready::Ready(v))),
{
    let n = m.insert(k, Ready::Ready(v));
    assert forall|j: Seq<char>| #[trigger] n.contains_key(j) && !before.contains_key(j) implies n[j] is Ready by {
        if j != k {
            assert(m.contains_key(j));
        }
    }
}

/// The id of a status change.
pub open spec fn action_id(a: Action<StreamStatus>) -> Seq<char> {
    match a {
        Action::Added(s) => s.user_id@,
        Action::Removed(s) => s.user_id@,
    }
}

impl StreamCheck {
    /// What is known of each stream asked about: `NotReady` until its first
    /// answer, then the stream, or `None` when it is not live.
    pub closed spec fn statuses(&self) -> Map<Seq<char>, Ready<Option<Stream>>> {
        self.map.slots()
    }

    /// The status changes not yet taken by the application, oldest first.
    pub closed spec fn pending_events(&self) -> Seq<Action<StreamStatus>> {
        self.events@
    }

    pub closed spec fn wf(&self) -> bool {
        self.map.wf()
    }

    /// What has been handed to the background loop so far, oldest first.
    pub closed spec fn watch_requests(&self) -> Seq<Action<String>> {
        self.asked@
    }

    /// A cache that asks the background loop through `watching` and hears
    /// back through `update`.
    pub fn new(
        watching: tokio::sync::mpsc::UnboundedSender<Action<String>>,
        update: tokio::sync::mpsc::UnboundedReceiver<(String, Option<Stream>)>,
    ) -> (r: StreamCheck)
        ensures
            r.wf(),
            r.statuses() == Map::<Seq<char>, Ready<Option<Stream>>>::empty(),
            r.pending_events().len() == 0,
            r.watch_requests().len() == 0,
    {
        StreamCheck { map: ResolverMap::new(), watching, update, events: VecDeque::new(), asked: Ghost(Seq::empty()) }
    }

    /// Records the answer for `id`: its stream, or `None` when it is not
    /// live, and queues the matching `Added` or `Removed`.
    pub fn record(&mut self, id: String, stream: Option<Stream>)
        requires
            old(self).wf(),
        ensures
            final(self).wf(),
            final(self).statuses() == old(self).statuses().insert(id@, Ready::Ready(stream)),
            final(self).pending_events().len() == old(self).pending_events().len() + 1,
            final(self).pending_events().drop_last() == old(self).pending_events(),
            action_id(final(self).pending_events().last()) == id@,
            stream is None <==> final(self).pending_events().last() is Removed,
            final(self).watch_requests() == old(self).watch_requests(),
    {
        let status = StreamStatus { user_id: id.clone() };
        let action = match &stream {
            None => Action::Removed(status),
            Some(_) => Action::Added(status),
        };
        self.map.set(id, stream);
        self.events.push_back(action);
        assert(self.events@.drop_last() =~= old(self).events@);
    }

    /// Takes in the answers that have arrived, without waiting.
    pub fn poll(&mut self)
        requires
            old(self).wf(),
        ensures
            final(self).wf(),
            final(self).pending_events().len() >= old(self).pending_events().len(),
            final(self).pending_events().subrange(0, old(self).pending_events().len() as int)
                == old(self).pending_events(),
            final(self).watch_requests() == old(self).watch_requests(),
            grew(old(self).statuses(), final(self).statuses()),
    {
        let n = queued_len(&self.update);
        let mut i: usize = 0;
        while i < n
            invariant
                self.wf(),
                self.events@.len() >= old(self).events@.len(),
                self.events@.subrange(0, old(self).events@.len() as int) == old(self).events@,
                self.asked == old(self).asked,
                grew(old(self).statuses(), self.statuses()),
            decreases n - i,
        {
            match next_queued(&mut self.update) {
                Some((id, stream)) => {
                    let ghost before = self.events@;
                    proof {
                        lemma_grew_insert(old(self).statuses(), self.statuses(), id@, stream);
                    }
                    self.record(id, stream);
                    assert(self.events@.subrange(0, old(self).events@.len() as int) =~= before.subrange(
                        0,
                        old(self).events@.len() as int,
                    ));
                },
                None => {},
            }
            i = i + 1;
        }
        let done = self.map.poll();
        let mut done = done;
        while done.len() > 0
            invariant
                self.wf(),
                self.events@.len() >= old(self).events@.len(),
                self.events@.subrange(0, old(self).events@.len() as int) == old(self).events@,
                self.asked == old(self).asked,
                grew(old(self).statuses(), self.statuses()),
            decreases done@.len(),
        {
            let (id, stream) = done.remove(0);
            let ghost before = self.events@;
            proof {
                lemma_grew_insert(old(self).statuses(), self.statuses(), id@, stream);
            }
            self.record(id, stream);
            assert(self.events@.subrange(0, old(self).events@.len() as int) =~= before.subrange(
                0,
                old(self).events@.len() as int,
            ));
        }
    }

    /// The oldest status change not yet taken, if any.
    pub fn poll_event(&mut self) -> (r: Option<Action<StreamStatus>>)
        ensures
            old(self).pending_events().len() == 0 ==> r is None && final(self).pending_events().len() == 0,
            old(self).pending_events().len() > 0 ==> r == Some(old(self).pending_events()[0])
                && final(self).pending_events() == old(self).pending_events().drop_first(),
            final(self).statuses() == old(self).statuses(),
            final(self).watch_requests() == old(self).watch_requests(),
            final(self).wf() == old(self).wf(),
    {
        self.events.pop_front()
    }

    /// The stream of `user_id` if it is known to be live. The first time an
    /// id is asked about, the background loop is told to watch it.
    pub fn get_or_subscribe(&mut self, user_id: &str) -> (r: Option<&Stream>)
        requires
            old(self).wf(),
        ensures
            final(self).wf(),
            final(self).pending_events() == old(self).pending_events(),
            old(self).statuses().contains_key(user_id@) ==> final(self).statuses() == old(self).statuses(),
            !old(self).statuses().contains_key(user_id@) ==> final(self).statuses()
                == old(self).statuses().insert(user_id@, Ready::NotReady) && r is None,
            r.is_some() <==> (old(self).statuses().contains_key(user_id@) && match old(self).statuses()[user_id@] {
                Ready::Ready(Some(_)) => true,
                _ => false,
            }),
            r.is_some() ==> Some(*r.unwrap()) == old(self).statuses()[user_id@]->Ready_0,
            old(self).statuses().contains_key(user_id@) ==> final(self).watch_requests() == old(self).watch_requests(),
            !old(self).statuses().contains_key(user_id@) ==> {
                &&& final(self).watch_requests().len() == old(self).watch_requests().len() + 1
                &&& final(self).watch_requests().drop_last() == old(self).watch_requests()
                &&& is_added(final(self).watch_requests().last(), user_id@)
            },
    {
        if self.map.insert_pending(user_id) {
            let action = Action::Added(user_id.to_owned());
            proof {
                self.asked = Ghost(self.asked@.push(action));
                assert(self.asked@.drop_last() =~= old(self).asked@);
            }
            enqueue(&self.watching, action);
            None
        } else {
            match self.map.try_get(user_id) {
                Some(known) => match known {
                    Some(stream) => Some(stream),
                    None => None,
                },
                None => None,
            }
        }
    }

    /// Tells the background loop to stop watching `user_id`.
    pub fn unsubscribe(&mut self, user_id: &str)
        ensures
            final(self).watch_requests().len() == old(self).watch_requests().len() + 1,
            final(self).watch_requests().drop_last() == old(self).watch_requests(),
            is_removed(final(self).watch_requests().last(), user_id@),
            final(self).statuses() == old(self).statuses(),
            final(self).pending_events() == old(self).pending_events(),
            final(self).wf() == old(self).wf(),
    {
        let action = Action::Removed(user_id.to_owned());
        proof {
            self.asked = Ghost(self.asked@.push(action));
            assert(self.asked@.drop_last() =~= old(self).asked@);
        }
        enqueue(&self.watching, action);
    }
}

} // verus!
