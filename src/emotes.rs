use vstd::prelude::*;
use vstd::string::*;

use crate::channel::{enqueue, next_queued, queued_len};
use crate::data::{Badge, EmoteSet};
use crate::domain::MetadataClient;
use crate::keyed::{as_map, find_key, keys_unique, lemma_pos_unique, upsert};
use crate::ready::Ready;
use crate::resolver::ResolverMap;

verus! {

/// The address of an emote image in the given variant.
pub open spec fn emote_url_text(id: Seq<char>, format: Seq<char>, theme: Seq<char>, scale: Seq<char>) -> Seq<
    char,
> {
    "https://static-cdn.jtvnw.net/emoticons/v2/"@ + id + "/"@ + format + "/"@ + theme + "/"@ + scale
}

/// The address of an emote image in the given variant.
pub fn emote_url(id: &str, format: &str, theme: &str, scale: &str) -> (r: String)
    ensures
        r@ == emote_url_text(id@, format@, theme@, scale@),
{
    let base: String = "https://static-cdn.jtvnw.net/emoticons/v2/".to_owned();
    base.concat(id).concat("/").concat(format).concat("/").concat(theme).concat("/").concat(scale)
}

/// The animated, dark-theme, 1x image of an emote.
pub fn animated_url(id: &str) -> (r: String)
    ensures
        r@ == emote_url_text(id@, "animated"@, "dark"@, "1.0"@),
{
    emote_url(id, "animated", "dark", "1.0")
}

/// The static, dark-theme, 1x image of an emote.
pub fn static_url(id: &str) -> (r: String)
    ensures
        r@ == emote_url_text(id@, "static"@, "dark"@, "1.0"@),
{
    emote_url(id, "static", "dark", "1.0")
}

/// The addresses to try for an emote whose image is unknown, in order: the
/// animated image first, then the static one.
pub fn probe_urls(id: &str) -> (r: Vec<String>)
    ensures
        r@.len() == 2,
        r@[0]@ == emote_url_text(id@, "animated"@, "dark"@, "1.0"@),
        r@[1]@ == emote_url_text(id@, "static"@, "dark"@, "1.0"@),
{
    let mut r: Vec<String> = Vec::new();
    r.push(animated_url(id));
    r.push(static_url(id));
    r
}

/// Whether `options` offers `k`.
pub open spec fn offers(options: Seq<String>, k: Seq<char>) -> bool {
    exists|i: int| 0 <= i < options.len() && (#[trigger] options[i])@ == k
}

/// The variant to ask for: `wanted` if offered; else `fallback` if there is
/// one; else the last one offered; `wanted` when nothing is offered.
pub open spec fn pick_variant(options: Seq<String>, wanted: Seq<char>, fallback: Option<Seq<char>>) -> Seq<char> {
    if offers(options, wanted) {
        wanted
    } else {
        match fallback {
            Some(f) => f,
            None => if options.len() > 0 {
                options.last()@
            } else {
                wanted
            },
        }
    }
}

pub fn pick(options: &Vec<String>, wanted: &str, fallback: Option<&str>) -> (r: String)
    ensures
        r@ == pick_variant(
            options@,
            wanted@,
            match fallback {
                Some(f) => Some(f@),
                None => None,
            },
        ),
{
    let w: String = wanted.to_owned();
    let mut i: usize = 0;
    while i < options.len()
        invariant
            i <= options@.len(),
            w@ == wanted@,
            forall|j: int| 0 <= j < i ==> (#[trigger] options@[j])@ != wanted@,
        decreases options@.len() - i,
    {
        if options[i] == w {
            return w;
        }
        i = i + 1;
    }
    match fallback {
        Some(f) => f.to_owned(),
        None => {
            if options.len() > 0 {
                options[options.len() - 1].clone()
            } else {
                w
            }
        },
    }
}

/// The image address used for an emote of a set: animated if offered, else
/// static; dark theme if offered, else light; scale 1.0 if offered, else the
/// largest offered.
pub open spec fn set_emote_url(set: EmoteSet) -> Seq<char> {
    emote_url_text(
        set.id@,
        pick_variant(set.format@, "animated"@, Some("static"@)),
        pick_variant(set.theme_mode@, "dark"@, Some("light"@)),
        pick_variant(set.scale@, "1.0"@, None),
    )
}

pub fn make_emote_url(set: &EmoteSet) -> (r: String)
    ensures
        r@ == set_emote_url(*set),
{
    let format = pick(&set.format, "animated", Some("static"));
    let theme = pick(&set.theme_mode, "dark", Some("light"));
    let scale = pick(&set.scale, "1.0", None);
    emote_url(set.id.as_str(), format.as_str(), theme.as_str(), scale.as_str())
}

/// The key of a badge image: the channel (`-` for global badges), the badge
/// set and the version, with a space between.
pub open spec fn badge_key_text(channel: Seq<char>, set_id: Seq<char>, id: Seq<char>) -> Seq<char> {
    channel + " "@ + set_id + " "@ + id
}

pub fn badge_key(channel: &str, set_id: &str, id: &str) -> (r: String)
    ensures
        r@ == badge_key_text(channel@, set_id@, id@),
{
    let c: String = channel.to_owned();
    c.concat(" ").concat(set_id).concat(" ").concat(id)
}

/// Looks up emote images by id on the image server, each id once. The
/// probing runs in the background; its findings come back as
/// `(id, address)`.
pub struct EmoteFetcher {
    seen: Vec<(String, ())>,
    sender: tokio::sync::mpsc::UnboundedSender<String>,
    ready: tokio::sync::mpsc::UnboundedReceiver<(String, String)>,
    probes: Ghost<Seq<Seq<char>>>,
}

impl EmoteFetcher {
    /// The ids asked for so far.
    pub closed spec fn seen_ids(&self) -> Set<Seq<char>> {
        as_map(self.seen@).dom()
    }

    pub closed spec fn wf(&self) -> bool {
        keys_unique(self.seen@)
    }

    /// The ids handed to the background probe so far, oldest first.
    pub closed spec fn probe_requests(&self) -> Seq<Seq<char>> {
        self.probes@
    }

    /// A fetcher that sends ids to probe through `sender` and hears back
    /// through `ready`.
    pub fn create(
        sender: tokio::sync::mpsc::UnboundedSender<String>,
        ready: tokio::sync::mpsc::UnboundedReceiver<(String, String)>,
    ) -> (r: EmoteFetcher)
        ensures
            r.wf(),
            r.seen_ids() == Set::<Seq<char>>::empty(),
            r.probe_requests().len() == 0,
    {
        let r = EmoteFetcher { seen: Vec::new(), sender, ready, probes: Ghost(Seq::empty()) };
        assert(as_map(r.seen@).dom() =~= Set::<Seq<char>>::empty());
        r
    }

    /// A finding of the background probe, if one has arrived.
    pub fn poll(&mut self) -> (r: Option<(String, String)>)
        ensures
            final(self).probe_requests() == old(self).probe_requests(),
            final(self).seen_ids() == old(self).seen_ids(),
            final(self).wf() == old(self).wf(),
    {
        next_queued(&mut self.ready)
    }

    /// The findings that have arrived, oldest first, without waiting.
    pub fn drain(&mut self) -> (r: Vec<(String, String)>)
        ensures
            final(self).probe_requests() == old(self).probe_requests(),
            final(self).seen_ids() == old(self).seen_ids(),
            final(self).wf() == old(self).wf(),
    {
        let n = queued_len(&self.ready);
        let mut out: Vec<(String, String)> = Vec::new();
        let mut i: usize = 0;
        while i < n
            invariant
                self.seen == old(self).seen,
                self.probes == old(self).probes,
            decreases n - i,
        {
            match next_queued(&mut self.ready) {
                Some(found) => out.push(found),
                None => {},
            }
            i = i + 1;
        }
        out
    }

    /// Asks for the image of emote `id`, unless it was asked for before.
    pub fn lookup(&mut self, id: &str)
        requires
            old(self).wf(),
        ensures
            final(self).wf(),
            final(self).seen_ids() == old(self).seen_ids().insert(id@),
            old(self).seen_ids().contains(id@) ==> final(self).probe_requests() == old(self).probe_requests(),
            !old(self).seen_ids().contains(id@) ==> final(self).probe_requests() == old(self).probe_requests().push(id@),
    {
        match find_key(&self.seen, id) {
            Some(i) => {
                proof {
                    lemma_pos_unique(self.seen@, i as int);
                    assert(self.seen_ids().insert(id@) =~= self.seen_ids());
                }
            },
            None => {
                upsert(&mut self.seen, id.to_owned(), ());
                proof {
                    self.probes = Ghost(self.probes@.push(id@));
                }
                enqueue(&self.sender, id.to_owned());
            },
        }
    }
}

/// The last position before `n` of an emote set of `sets` with id `k`, or
/// -1 when there is none.
pub open spec fn last_set_with(sets: Seq<EmoteSet>, k: Seq<char>, n: int) -> int
    decreases n,
{
    if n <= 0 {
        -1
    } else if sets[n - 1].id@ == k {
        n - 1
    } else {
        last_set_with(sets, k, n - 1)
    }
}

pub proof fn lemma_last_set_bounds(sets: Seq<EmoteSet>, k: Seq<char>, n: int)
    ensures
        -1 <= last_set_with(sets, k, n) < n || (n <= 0 && last_set_with(sets, k, n) == -1),
        last_set_with(sets, k, n) >= 0 ==> sets[last_set_with(sets, k, n)].id@ == k,
    decreases n,
{
    if n > 0 && sets[n - 1].id@ != k {
        lemma_last_set_bounds(sets, k, n - 1);
    }
}

/// The value at `k`, where `m` holds a ready one.
pub open spec fn ready_value<V>(m: Map<Seq<char>, Ready<V>>, k: Seq<char>) -> Option<V> {
    if m.contains_key(k) {
        m[k].value()
    } else {
        None
    }
}

/// The badge images of the versions of `set`, keyed for `channel`.
pub open spec fn version_writes(channel: Seq<char>, set: Badge) -> Seq<(Seq<char>, String)> {
    set.versions@.map_values(
        |v: crate::data::BadgeVersion| (badge_key_text(channel, set.set_id@, v.id@), v.image_url_1x),
    )
}

/// The badge images of each set of `sets` in turn, keyed for `channel`.
pub open spec fn badge_writes(channel: Seq<char>, sets: Seq<Badge>) -> Seq<(Seq<char>, String)>
    decreases sets.len(),
{
    if sets.len() == 0 {
        Seq::empty()
    } else {
        badge_writes(channel, sets.drop_last()) + version_writes(channel, sets.last())
    }
}

/// `m` after storing each `(key, address)` of `w` in turn.
pub open spec fn apply_writes(m: Map<Seq<char>, Ready<String>>, w: Seq<(Seq<char>, String)>) -> Map<
    Seq<char>,
    Ready<String>,
>
    decreases w.len(),
{
    if w.len() == 0 {
        m
    } else {
        apply_writes(m, w.drop_last()).insert(w.last().0, Ready::Ready(w.last().1))
    }
}

pub proof fn lemma_apply_concat(
    m: Map<Seq<char>, Ready<String>>,
    a: Seq<(Seq<char>, String)>,
    b: Seq<(Seq<char>, String)>,
)
    ensures
        apply_writes(m, a + b) == apply_writes(apply_writes(m, a), b),
    decreases b.len(),
{
    if b.len() == 0 {
        assert(a + b =~= a);
    } else {
        lemma_apply_concat(m, a, b.drop_last());
        assert((a + b).drop_last() =~= a + b.drop_last());
        assert((a + b).last() == b.last());
    }
}

pub proof fn lemma_apply_keeps_keys(m: Map<Seq<char>, Ready<String>>, w: Seq<(Seq<char>, String)>)
    ensures
        forall|k: Seq<char>| #[trigger] m.contains_key(k) ==> apply_writes(m, w).contains_key(k),
    decreases w.len(),
{
    if w.len() > 0 {
        lemma_apply_keeps_keys(m, w.drop_last());
    }
}

/// Emotes and badges: image addresses by emote id, emote ids by name, and
/// badge image addresses by channel, set and version.
pub struct EmoteMap<C> {
    name_to_id: Vec<(String, String)>,
    emote_map: Vec<(String, String)>,
    emote_fetcher: EmoteFetcher,
    emote_set_map: ResolverMap<String, Vec<EmoteSet>>,
    badge_map: ResolverMap<String, (Option<String>, Vec<Badge>)>,
    helix: C,
}

impl<C: MetadataClient> EmoteMap<C> {
    pub closed spec fn wf(&self) -> bool {
        &&& keys_unique(self.name_to_id@)
        &&& keys_unique(self.emote_map@)
        &&& self.emote_fetcher.wf()
        &&& self.emote_set_map.wf()
        &&& self.badge_map.wf()
    }

    /// Emote ids by emote name.
    pub closed spec fn names(&self) -> Map<Seq<char>, String> {
        as_map(self.name_to_id@)
    }

    /// Image addresses found by probing, by emote id.
    pub closed spec fn probed(&self) -> Map<Seq<char>, String> {
        as_map(self.emote_map@)
    }

    /// Image addresses of the emotes of fetched emote sets, by emote id.
    pub closed spec fn set_urls(&self) -> Map<Seq<char>, Ready<String>> {
        self.emote_set_map.slots()
    }

    /// Badge image addresses, by `badge_key_text`.
    pub closed spec fn badge_urls(&self) -> Map<Seq<char>, Ready<String>> {
        self.badge_map.slots()
    }

    /// Fetches that are still out.
    pub closed spec fn pending_count(&self) -> nat {
        self.emote_set_map.pending_count() + self.badge_map.pending_count()
    }

    /// The emote ids that have been handed to the probe.
    pub closed spec fn probing(&self) -> Set<Seq<char>> {
        self.emote_fetcher.seen_ids()
    }

    /// The same ids, in the order they were handed over.
    pub closed spec fn probe_requests(&self) -> Seq<Seq<char>> {
        self.emote_fetcher.probe_requests()
    }

    /// An empty map that starts fetching the global badges and emotes.
    pub fn create(helix: C, emote_fetcher: EmoteFetcher) -> (r: Self)
        requires
            emote_fetcher.wf(),
        ensures
            r.wf(),
            r.names() == Map::<Seq<char>, String>::empty(),
            r.probed() == Map::<Seq<char>, String>::empty(),
            r.set_urls() == Map::<Seq<char>, Ready<String>>::empty(),
            r.badge_urls() == Map::<Seq<char>, Ready<String>>::empty(),
            r.pending_count() == 2,
    {
        let mut this = EmoteMap {
            name_to_id: Vec::new(),
            emote_map: Vec::new(),
            emote_fetcher,
            emote_set_map: ResolverMap::new(),
            badge_map: ResolverMap::new(),
            helix,
        };
        assert(as_map(this.name_to_id@) =~= Map::<Seq<char>, String>::empty());
        assert(as_map(this.emote_map@) =~= Map::<Seq<char>, String>::empty());
        this.populate_global_badges();
        this.populate_global_emotes();
        this
    }

    pub fn populate_global_badges(&mut self)
        requires
            old(self).wf(),
        ensures
            final(self).wf(),
            final(self).badge_urls() == old(self).badge_urls(),
            final(self).set_urls() == old(self).set_urls(),
            final(self).names() == old(self).names(),
            final(self).probed() == old(self).probed(),
            final(self).pending_count() == old(self).pending_count() + 1,
    {
        let fut = self.helix.get_global_badges();
        self.badge_map.add(fut);
    }

    pub fn populate_channel_badges(&mut self, id: &str)
        requires
            old(self).wf(),
        ensures
            final(self).wf(),
            final(self).badge_urls() == old(self).badge_urls(),
            final(self).set_urls() == old(self).set_urls(),
            final(self).names() == old(self).names(),
            final(self).probed() == old(self).probed(),
            final(self).pending_count() == old(self).pending_count() + 1,
    {
        let fut = self.helix.get_channel_badges(id);
        self.badge_map.add(fut);
    }

    pub fn populate_global_emotes(&mut self)
        requires
            old(self).wf(),
        ensures
            final(self).wf(),
            final(self).badge_urls() == old(self).badge_urls(),
            final(self).set_urls() == old(self).set_urls(),
            final(self).names() == old(self).names(),
            final(self).probed() == old(self).probed(),
            final(self).pending_count() == old(self).pending_count() + 1,
    {
        let fut = self.helix.get_global_emotes();
        self.emote_set_map.add(fut);
    }

    pub fn populate_channel_emotes(&mut self, id: &str)
        requires
            old(self).wf(),
        ensures
            final(self).wf(),
            final(self).badge_urls() == old(self).badge_urls(),
            final(self).set_urls() == old(self).set_urls(),
            final(self).names() == old(self).names(),
            final(self).probed() == old(self).probed(),
            final(self).pending_count() == old(self).pending_count() + 1,
    {
        let fut = self.helix.get_channel_emotes(id);
        self.emote_set_map.add(fut);
    }

    pub fn populate_emote_set(&mut self, id: &str)
        requires
            old(self).wf(),
        ensures
            final(self).wf(),
            final(self).badge_urls() == old(self).badge_urls(),
            final(self).set_urls() == old(self).set_urls(),
            final(self).names() == old(self).names(),
            final(self).probed() == old(self).probed(),
            final(self).pending_count() == old(self).pending_count() + 1,
    {
        let fut = self.helix.get_emote_set(id);
        self.emote_set_map.add(fut);
    }

    /// The image of global badge `id` of set `set_id`, if known.
    pub fn get_badge_url(&self, set_id: &str, id: &str) -> (r: Option<&str>)
        requires
            self.wf(),
        ensures
            r.is_some() == ready_value(self.badge_urls(), badge_key_text("-"@, set_id@, id@)).is_some(),
            r.is_some() ==> r.unwrap()@ == ready_value(self.badge_urls(), badge_key_text("-"@, set_id@, id@)).unwrap()@,
    {
        let key = badge_key("-", set_id, id);
        match self.badge_map.try_get(key.as_str()) {
            Some(url) => Some(url.as_str()),
            None => None,
        }
    }

    /// The image of badge `id` of set `set_id` in the channel of `user_id`,
    /// or else the global one, if known.
    pub fn get_channel_badge_url(&self, user_id: &str, set_id: &str, id: &str) -> (r: Option<&str>)
        requires
            self.wf(),
        ensures
            ({
                let own = ready_value(self.badge_urls(), badge_key_text(user_id@, set_id@, id@));
                let global = ready_value(self.badge_urls(), badge_key_text("-"@, set_id@, id@));
                &&& r.is_some() == (own.is_some() || global.is_some())
                &&& own.is_some() ==> r.unwrap()@ == own.unwrap()@
                &&& own.is_none() && global.is_some() ==> r.unwrap()@ == global.unwrap()@
            }),
    {
        let key = badge_key(user_id, set_id, id);
        match self.badge_map.try_get(key.as_str()) {
            Some(url) => Some(url.as_str()),
            None => self.get_badge_url(set_id, id),
        }
    }

    /// Notes that emote `id` is called `name`, and has its image probed for
    /// unless its address is already known.
    pub fn insert_emote(&mut self, id: &str, name: &str)
        requires
            old(self).wf(),
        ensures
            final(self).wf(),
            final(self).names().dom() == old(self).names().dom().insert(name@),
            final(self).names()[name@]@ == id@,
            forall|n: Seq<char>| n != name@ && #[trigger] old(self).names().contains_key(n)
                ==> final(self).names()[n] == old(self).names()[n],
            old(self).probed().contains_key(id@) ==> final(self).probing() == old(self).probing(),
            !old(self).probed().contains_key(id@) ==> final(self).probing() == old(self).probing().insert(id@),
            !old(self).probed().contains_key(id@) && !old(self).probing().contains(id@)
                ==> final(self).probe_requests() == old(self).probe_requests().push(id@),
            old(self).probed().contains_key(id@) || old(self).probing().contains(id@)
                ==> final(self).probe_requests() == old(self).probe_requests(),
            final(self).probed() == old(self).probed(),
            final(self).set_urls() == old(self).set_urls(),
            final(self).badge_urls() == old(self).badge_urls(),
    {
        if find_key(&self.emote_map, id).is_none() {
            self.emote_fetcher.lookup(id);
        }
        upsert(&mut self.name_to_id, name.to_owned(), id.to_owned());
        proof {
            assert(self.names().dom() =~= old(self).names().dom().insert(name@));
        }
    }

    /// The id of the emote called `name`, if known.
    pub fn get_emote_id(&self, name: &str) -> (r: Option<&str>)
        requires
            self.wf(),
        ensures
            r.is_some() == self.names().contains_key(name@),
            r.is_some() ==> r.unwrap()@ == self.names()[name@]@,
    {
        match find_key(&self.name_to_id, name) {
            Some(i) => {
                proof {
                    lemma_pos_unique(self.name_to_id@, i as int);
                }
                Some(self.name_to_id[i].1.as_str())
            },
            None => None,
        }
    }

    /// The image of emote `id`: from its emote set if one was fetched, else
    /// from probing, if known.
    pub fn get_emote_url(&self, id: &str) -> (r: Option<&str>)
        requires
            self.wf(),
        ensures
            ({
                let from_set = ready_value(self.set_urls(), id@);
                &&& r.is_some() == (from_set.is_some() || self.probed().contains_key(id@))
                &&& from_set.is_some() ==> r.unwrap()@ == from_set.unwrap()@
                &&& from_set.is_none() && self.probed().contains_key(id@) ==> r.unwrap()@
                    == self.probed()[id@]@
            }),
    {
        match self.emote_set_map.try_get(id) {
            Some(url) => Some(url.as_str()),
            None => match find_key(&self.emote_map, id) {
                Some(i) => {
                    proof {
                        lemma_pos_unique(self.emote_map@, i as int);
                    }
                    Some(self.emote_map[i].1.as_str())
                },
                None => None,
            },
        }
    }

    /// Stores the emotes of a fetched list: each emote's image address under
    /// its id, and its id under its name; a later emote with the same id or
    /// name wins.
    pub fn store_emote_sets(&mut self, sets: Vec<EmoteSet>)
        requires
            old(self).wf(),
        ensures
            final(self).wf(),
            forall|k: Seq<char>| #![trigger final(self).set_urls().contains_key(k)]
                final(self).set_urls().contains_key(k) == (old(self).set_urls().contains_key(k)
                    || last_set_with(sets@, k, sets@.len() as int) >= 0),
            forall|k: Seq<char>| #![trigger final(self).set_urls()[k]] last_set_with(sets@, k, sets@.len() as int) >= 0
                ==> final(self).set_urls()[k] is Ready && final(self).set_urls()[k]->Ready_0@ == set_emote_url(
                sets@[last_set_with(sets@, k, sets@.len() as int)],
            ),
            forall|k: Seq<char>| #![trigger final(self).set_urls()[k]] last_set_with(sets@, k, sets@.len() as int) < 0
                && old(self).set_urls().contains_key(k) ==> final(self).set_urls()[k] == old(self).set_urls()[k],
            final(self).badge_urls() == old(self).badge_urls(),
            final(self).probed() == old(self).probed(),
            final(self).pending_count() == old(self).pending_count(),
            forall|k: Seq<char>| #[trigger] old(self).names().contains_key(k) ==> final(self).names().contains_key(k),
            final(self).probing() == old(self).probing(),
            final(self).probe_requests() == old(self).probe_requests(),
    {
        let ghost all = sets@;
        let n = sets.len();
        let mut sets = sets;
        let mut i: usize = 0;
        while sets.len() > 0
            invariant
                self.wf(),
                n == all.len(),
                i + sets@.len() == n,
                forall|j: int| 0 <= j < sets@.len() ==> #[trigger] sets@[j] == all[i + j],
                forall|k: Seq<char>| #![trigger self.set_urls().contains_key(k)]
                    self.set_urls().contains_key(k) == (old(self).set_urls().contains_key(k) || last_set_with(all, k, i as int) >= 0),
                forall|k: Seq<char>| #![trigger self.set_urls()[k]] last_set_with(all, k, i as int) >= 0
                    ==> self.set_urls()[k] is Ready && self.set_urls()[k]->Ready_0@ == set_emote_url(
                    all[last_set_with(all, k, i as int)],
                ),
                forall|k: Seq<char>| #![trigger self.set_urls()[k]] last_set_with(all, k, i as int) < 0
                    && old(self).set_urls().contains_key(k) ==> self.set_urls()[k] == old(self).set_urls()[k],
                self.badge_map == old(self).badge_map,
                self.emote_map == old(self).emote_map,
                self.emote_fetcher == old(self).emote_fetcher,
                self.emote_set_map.pending_count() == old(self).emote_set_map.pending_count(),
                forall|k: Seq<char>| #[trigger] old(self).names().contains_key(k) ==> self.names().contains_key(k),
            decreases sets@.len(),
        {
            let set = sets.remove(0);
            assert(set == all[i as int]);
            let url = make_emote_url(&set);
            let ghost key = set.id@;
            let ghost uv = url;
            let ghost before = self.set_urls();
            self.emote_set_map.set(set.id.clone(), url);
            upsert(&mut self.name_to_id, set.name, set.id);
            i = i + 1;
            proof {
                assert(self.set_urls() == before.insert(key, Ready::Ready(uv)));
                assert(uv@ == set_emote_url(all[i - 1]));
                assert forall|k: Seq<char>| #![trigger self.set_urls().contains_key(k)]
                    self.set_urls().contains_key(k) == (old(self).set_urls().contains_key(k) || last_set_with(all, k, i as int) >= 0) by {
                    lemma_last_set_bounds(all, k, i as int);
                    lemma_last_set_bounds(all, k, i - 1);
                    if k != key {
                        assert(last_set_with(all, k, i as int) == last_set_with(all, k, i - 1));
                    } else {
                        assert(all[i - 1].id@ == key);
                        assert(last_set_with(all, k, i as int) == i - 1);
                    }
                }
                assert forall|k: Seq<char>| #![trigger self.set_urls()[k]] last_set_with(all, k, i as int) >= 0
                    implies self.set_urls()[k] is Ready && self.set_urls()[k]->Ready_0@ == set_emote_url(
                    all[last_set_with(all, k, i as int)],
                ) by {
                    lemma_last_set_bounds(all, k, i as int);
                    lemma_last_set_bounds(all, k, i - 1);
                    if k != key {
                        assert(last_set_with(all, k, i as int) == last_set_with(all, k, i - 1));
                    } else {
                        assert(all[i - 1].id@ == key);
                        assert(last_set_with(all, k, i as int) == i - 1);
                    }
                }
                assert forall|k: Seq<char>| #![trigger self.set_urls()[k]] last_set_with(all, k, i as int) < 0
                    && old(self).set_urls().contains_key(k) implies self.set_urls()[k] == old(self).set_urls()[k] by {
                    lemma_last_set_bounds(all, k, i as int);
                    lemma_last_set_bounds(all, k, i - 1);
                    if k != key {
                        assert(last_set_with(all, k, i as int) == last_set_with(all, k, i - 1));
                    } else {
                        assert(all[i - 1].id@ == key);
                        assert(last_set_with(all, k, i as int) == i - 1);
                    }
                }
            }
        }
    }

    /// Stores the badge images of a fetched list of badge sets, under the
    /// channel they were asked for (`-` for global ones): the 1x image of
    /// each version, in order, a later one for the same key winning.
    pub fn store_badges(&mut self, channel: Option<String>, sets: Vec<Badge>)
        requires
            old(self).wf(),
        ensures
            final(self).wf(),
            final(self).badge_urls() == apply_writes(
                old(self).badge_urls(),
                badge_writes(
                    match channel {
                        Some(c) => c@,
                        None => "-"@,
                    },
                    sets@,
                ),
            ),
            final(self).set_urls() == old(self).set_urls(),
            final(self).names() == old(self).names(),
            final(self).probed() == old(self).probed(),
            final(self).pending_count() == old(self).pending_count(),
            final(self).probing() == old(self).probing(),
            final(self).probe_requests() == old(self).probe_requests(),
    {
        let cid: String = match channel {
            Some(c) => c,
            None => "-".to_owned(),
        };
        let ghost c = cid@;
        let ghost all = sets@;
        let ghost m0 = self.badge_urls();
        let n = sets.len();
        let mut sets = sets;
        let mut i: usize = 0;
        assert(all.subrange(0, 0) =~= Seq::<Badge>::empty());
        while sets.len() > 0
            invariant
                self.wf(),
                n == all.len(),
                i + sets@.len() == n,
                forall|k: int| 0 <= k < sets@.len() ==> #[trigger] sets@[k] == all[i + k],
                cid@ == c,
                self.badge_urls() == apply_writes(m0, badge_writes(c, all.subrange(0, i as int))),
                self.emote_set_map == old(self).emote_set_map,
                self.name_to_id == old(self).name_to_id,
                self.emote_map == old(self).emote_map,
                self.emote_fetcher == old(self).emote_fetcher,
                self.badge_map.pending_count() == old(self).badge_map.pending_count(),
            decreases sets@.len(),
        {
            let set = sets.remove(0);
            assert(set == all[i as int]);
            let ghost mi = self.badge_urls();
            let ghost w = version_writes(c, set);
            let mut versions = set.versions;
            let ghost mut j: int = 0;
            assert(w.subrange(0, 0) =~= Seq::<(Seq<char>, String)>::empty());
            while versions.len() > 0
                invariant
                    self.wf(),
                    cid@ == c,
                    w == version_writes(c, set),
                    j + versions@.len() == set.versions@.len(),
                    forall|k: int| 0 <= k < versions@.len() ==> #[trigger] versions@[k] == set.versions@[j + k],
                    0 <= j,
                    self.badge_urls() == apply_writes(mi, w.subrange(0, j)),
                    self.emote_set_map == old(self).emote_set_map,
                    self.name_to_id == old(self).name_to_id,
                    self.emote_map == old(self).emote_map,
                    self.emote_fetcher == old(self).emote_fetcher,
                    self.badge_map.pending_count() == old(self).badge_map.pending_count(),
                decreases versions@.len(),
            {
                let version = versions.remove(0);
                assert(version == set.versions@[j]);
                let key = badge_key(cid.as_str(), set.set_id.as_str(), version.id.as_str());
                self.badge_map.set(key, version.image_url_1x);
                proof {
                    let t = w.subrange(0, j + 1);
                    assert(t.drop_last() =~= w.subrange(0, j));
                    assert(t.last() == w[j]);
                    j = j + 1;
                }
            }
            proof {
                assert(w.subrange(0, j) =~= w);
                let p = all.subrange(0, i + 1);
                assert(p.drop_last() =~= all.subrange(0, i as int));
                assert(p.last() == all[i as int]);
                lemma_apply_concat(m0, badge_writes(c, all.subrange(0, i as int)), w);
            }
            i = i + 1;
        }
        assert(all.subrange(0, n as int) =~= all);
    }

    /// Takes in what has arrived: probed emote images, fetched emote sets
    /// and fetched badge sets. Nothing known is forgotten, no fetch is
    /// started, and each finished fetch is stored and dropped.
    pub fn poll(&mut self)
        requires
            old(self).wf(),
        ensures
            final(self).wf(),
            forall|k: Seq<char>| #[trigger] old(self).names().contains_key(k) ==> final(self).names().contains_key(k),
            forall|k: Seq<char>| #[trigger] old(self).probed().contains_key(k) ==> final(self).probed().contains_key(k),
            forall|k: Seq<char>| #[trigger] old(self).set_urls().contains_key(k) ==> final(self).set_urls().contains_key(k),
            forall|k: Seq<char>| #[trigger] old(self).badge_urls().contains_key(k) ==> final(self).badge_urls().contains_key(k),
            final(self).pending_count() <= old(self).pending_count(),
            final(self).probing() == old(self).probing(),
            final(self).probe_requests() == old(self).probe_requests(),
    {
        let found = self.emote_fetcher.drain();
        let mut found = found;
        while found.len() > 0
            invariant
                self.wf(),
                self.emote_set_map == old(self).emote_set_map,
                self.badge_map == old(self).badge_map,
                self.name_to_id == old(self).name_to_id,
                self.emote_fetcher.probe_requests() == old(self).emote_fetcher.probe_requests(),
                self.emote_fetcher.seen_ids() == old(self).emote_fetcher.seen_ids(),
                forall|k: Seq<char>| #[trigger] old(self).probed().contains_key(k) ==> self.probed().contains_key(k),
            decreases found@.len(),
        {
            let (id, url) = found.remove(0);
            upsert(&mut self.emote_map, id, url);
        }
        let ghost p0 = self.emote_set_map.pending_count();
        let mut lists = self.emote_set_map.poll();
        while lists.len() > 0
            invariant
                self.wf(),
                self.emote_fetcher.probe_requests() == old(self).emote_fetcher.probe_requests(),
                self.emote_fetcher.seen_ids() == old(self).emote_fetcher.seen_ids(),
                self.pending_count() <= old(self).pending_count(),
                forall|k: Seq<char>| #[trigger] old(self).badge_urls().contains_key(k) ==> self.badge_urls().contains_key(k),
                forall|k: Seq<char>| #[trigger] old(self).names().contains_key(k) ==> self.names().contains_key(k),
                forall|k: Seq<char>| #[trigger] old(self).probed().contains_key(k) ==> self.probed().contains_key(k),
                forall|k: Seq<char>| #[trigger] old(self).set_urls().contains_key(k) ==> self.set_urls().contains_key(k),
            decreases lists@.len(),
        {
            let list = lists.remove(0);
            self.store_emote_sets(list);
        }
        let mut badges = self.badge_map.poll();
        while badges.len() > 0
            invariant
                self.wf(),
                self.emote_fetcher.probe_requests() == old(self).emote_fetcher.probe_requests(),
                self.emote_fetcher.seen_ids() == old(self).emote_fetcher.seen_ids(),
                self.pending_count() <= old(self).pending_count(),
                forall|k: Seq<char>| #[trigger] old(self).names().contains_key(k) ==> self.names().contains_key(k),
                forall|k: Seq<char>| #[trigger] old(self).probed().contains_key(k) ==> self.probed().contains_key(k),
                forall|k: Seq<char>| #[trigger] old(self).set_urls().contains_key(k) ==> self.set_urls().contains_key(k),
                forall|k: Seq<char>| #[trigger] old(self).badge_urls().contains_key(k) ==> self.badge_urls().contains_key(k),
            decreases badges@.len(),
        {
            let (cid, list) = badges.remove(0);
            let ghost before = self.badge_urls();
            let ghost c = match &cid {
                Some(x) => x@,
                None => "-"@,
            };
            self.store_badges(cid, list);
            proof {
                lemma_apply_keeps_keys(before, badge_writes(c, list@));
            }
        }
    }
}

} // verus!
