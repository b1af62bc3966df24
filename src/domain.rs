use vstd::prelude::*;

use crate::data::{Badge, EmoteSet, Game, User};
use crate::fut::Fut;
use crate::ready::Ready;
use crate::resolver::ResolverMap;
use crate::text::{replace, replace_all, strip_channel, strip_octo};

verus! {

/// The lookups of the metadata service that the domain caches start. Each
/// returns at once with a handle on the answer.
pub trait MetadataClient {
    /// The game with id `id`, or `None` when there is none.
    fn get_game(&self, id: &str) -> Fut<Option<Game>>;

    /// The user with login `login`, with that login, or `None`.
    fn get_user(&self, login: &str) -> Fut<Option<(String, User)>>;

    /// The global badge sets, tagged `None`.
    fn get_global_badges(&self) -> Fut<(Option<String>, Vec<Badge>)>;

    /// The badge sets of the channel with id `id`, tagged with that id.
    fn get_channel_badges(&self, id: &str) -> Fut<(Option<String>, Vec<Badge>)>;

    /// The global emotes.
    fn get_global_emotes(&self) -> Fut<Vec<EmoteSet>>;

    /// The emotes of the channel with id `id`.
    fn get_channel_emotes(&self, id: &str) -> Fut<Vec<EmoteSet>>;

    /// The emotes of the emote set with id `id`.
    fn get_emote_set(&self, id: &str) -> Fut<Vec<EmoteSet>>;
}

/// A box-art template with the size it is shown at, 144 by 152, filled in.
pub open spec fn sized_box_art(url: Seq<char>) -> Seq<char> {
    replace_all(replace_all(url, "{width}"@, "144"@), "{height}"@, "152"@)
}

/// What to do with the answer to a metadata request.
#[derive(Clone, Copy, PartialEq, Eq, Structural, Debug)]
pub enum RetryStep {
    /// Use the answer.
    Done,
    /// The token was refused: drop it, fetch a new one and ask again.
    RefreshAndRetry,
}

/// A request answered `401 Unauthorized` is retried once, with a fresh
/// token; any other answer, or a second refusal, is final.
pub fn after_status(status: u16, retried: bool) -> (r: RetryStep)
    ensures
        r == (if status == 401 && !retried {
            RetryStep::RefreshAndRetry
        } else {
            RetryStep::Done
        }),
{
    if status == 401 && !retried {
        RetryStep::RefreshAndRetry
    } else {
        RetryStep::Done
    }
}

/// Some finished lookup of `done` found the user with login `k`.
pub open spec fn found_user(done: Seq<Option<(String, User)>>, k: Seq<char>) -> bool {
    exists|j: int| 0 <= j < done.len() && (#[trigger] done[j]) is Some && done[j]->Some_0.1.login@ == k
}

/// `after` is `before` with the users found by `done` stored under their
/// logins; lookups that found nothing leave everything as it was.
pub open spec fn users_stored(
    before: Map<Seq<char>, Ready<User>>,
    done: Seq<Option<(String, User)>>,
    after: Map<Seq<char>, Ready<User>>,
) -> bool {
    forall|k: Seq<char>| #![trigger after.contains_key(k)] if found_user(done, k) {
        after.contains_key(k) && exists|j: int|
            0 <= j < done.len() && (#[trigger] done[j]) is Some && done[j]->Some_0.1.login@ == k && after[k]
                == Ready::Ready(done[j]->Some_0.1)
    } else {
        after.contains_key(k) == before.contains_key(k) && (before.contains_key(k) ==> after[k] == before[k])
    }
}

/// Some finished lookup of `done` found a game with id `k`.
pub open spec fn found_game(done: Seq<Option<Game>>, k: Seq<char>) -> bool {
    exists|j: int| 0 <= j < done.len() && (#[trigger] done[j]) is Some && done[j]->Some_0.id@ == k
}

/// `g` is `found` as stored: the same game with its box-art size filled in.
pub open spec fn stored_game(g: Game, found: Game) -> bool {
    &&& g.box_art_url@ == sized_box_art(found.box_art_url@)
    &&& g.id == found.id
    &&& g.igdb_id == found.igdb_id
    &&& g.name == found.name
}

/// `after` is `before` with the games found by `done` stored under their
/// ids; lookups that found nothing leave everything as it was.
pub open spec fn games_stored(
    before: Map<Seq<char>, Ready<Game>>,
    done: Seq<Option<Game>>,
    after: Map<Seq<char>, Ready<Game>>,
) -> bool {
    forall|k: Seq<char>| #![trigger after.contains_key(k)] if found_game(done, k) {
        after.contains_key(k) && after[k] is Ready && exists|j: int|
            0 <= j < done.len() && (#[trigger] done[j]) is Some && done[j]->Some_0.id@ == k && stored_game(
                after[k]->Ready_0,
                done[j]->Some_0,
            )
    } else {
        after.contains_key(k) == before.contains_key(k) && (before.contains_key(k) ==> after[k] == before[k])
    }
}

/// Games by id, each fetched once.
pub struct GameMap<C> {
    map: ResolverMap<Game, Option<Game>>,
    helix: C,
}

impl<C: MetadataClient> GameMap<C> {
    pub closed spec fn slots(&self) -> Map<Seq<char>, Ready<Game>> {
        self.map.slots()
    }

    pub closed spec fn pending_count(&self) -> nat {
        self.map.pending_count()
    }

    pub closed spec fn wf(&self) -> bool {
        self.map.wf()
    }

    pub fn create(helix: C) -> (r: Self)
        ensures
            r.wf(),
            r.slots() == Map::<Seq<char>, Ready<Game>>::empty(),
            r.pending_count() == 0,
    {
        GameMap { map: ResolverMap::new(), helix }
    }

    /// The game with id `game_id` if it has arrived; the first request for
    /// an id starts its fetch.
    pub fn get(&mut self, game_id: &str) -> (r: Option<&Game>)
        requires
            old(self).wf(),
        ensures
            final(self).wf(),
            old(self).slots().contains_key(game_id@) ==> final(self).slots() == old(self).slots()
                && final(self).pending_count() == old(self).pending_count(),
            !old(self).slots().contains_key(game_id@) ==> final(self).slots() == old(self).slots().insert(
                game_id@,
                Ready::NotReady,
            ) && final(self).pending_count() == old(self).pending_count() + 1,
            r.is_some() == (old(self).slots().contains_key(game_id@) && old(self).slots()[game_id@] is Ready),
            r.is_some() ==> *r.unwrap() == old(self).slots()[game_id@]->Ready_0,
    {
        let helix = &self.helix;
        self.map.get_or_update(game_id, |id: &str| -> (f: Fut<Option<Game>>) { helix.get_game(id) })
    }

    /// Stores the games whose fetches have finished, with the box-art size
    /// filled in; a fetch that found nothing stores nothing, and is not
    /// retried.
    pub fn poll(&mut self)
        requires
            old(self).wf(),
        ensures
            final(self).wf(),
            exists|done: Seq<Option<Game>>|
                final(self).pending_count() + done.len() == old(self).pending_count() && games_stored(
                    old(self).slots(),
                    done,
                    final(self).slots(),
                ),
    {
        let done = self.map.poll();
        let ghost all = done@;
        let ghost s0 = self.slots();
        let ghost p = self.pending_count();
        let mut done = done;
        let ghost mut i: int = 0;
        assert(games_stored(s0, all.subrange(0, 0), self.slots()));
        while done.len() > 0
            invariant
                self.map.wf(),
                0 <= i,
                i + done@.len() == all.len(),
                forall|j: int| 0 <= j < done@.len() ==> #[trigger] done@[j] == all[i + j],
                self.pending_count() == p,
                games_stored(s0, all.subrange(0, i), self.slots()),
            decreases done@.len(),
        {
            let ghost before = self.slots();
            let ghost pre = all.subrange(0, i);
            let ghost post = all.subrange(0, i + 1);
            let item = done.remove(0);
            assert(item == all[i]);
            match item {
                Some(game) => {
                    let ghost g = game;
                    self.store(game);
                    proof {
                        assert forall|k: Seq<char>| #![trigger self.slots().contains_key(k)] if found_game(post, k) {
                            self.slots().contains_key(k) && self.slots()[k] is Ready && exists|j: int|
                                0 <= j < post.len() && (#[trigger] post[j]) is Some && post[j]->Some_0.id@ == k
                                    && stored_game(self.slots()[k]->Ready_0, post[j]->Some_0)
                        } else {
                            self.slots().contains_key(k) == s0.contains_key(k) && (s0.contains_key(k) ==> self.slots()[k]
                                == s0[k])
                        } by {
                            assert(post[i] == Some(g));
                            if k == g.id@ {
                                assert(found_game(post, k));
                            } else {
                                assert(before.contains_key(k) == self.slots().contains_key(k));
                                if found_game(post, k) {
                                    let j = choose|j: int| 0 <= j < post.len() && (#[trigger] post[j]) is Some && post[j]->Some_0.id@ == k;
                                    assert(j < i);
                                    assert(post[j] == pre[j]);
                                    assert(found_game(pre, k));
                                    assert(before.contains_key(k));
                                    let j2 = choose|j2: int| 0 <= j2 < pre.len() && (#[trigger] pre[j2]) is Some && pre[j2]->Some_0.id@ == k
                                        && stored_game(before[k]->Ready_0, pre[j2]->Some_0);
                                    assert(post[j2] == pre[j2]);
                                } else {
                                    assert forall|j: int| 0 <= j < pre.len() && (#[trigger] pre[j]) is Some implies pre[j]->Some_0.id@ != k by {
                                        assert(post[j] == pre[j]);
                                    }
                                    assert(!found_game(pre, k));
                                    assert(before.contains_key(k) == s0.contains_key(k));
                                }
                            }
                        }
                    }
                },
                None => {
                    proof {
                        assert forall|k: Seq<char>| #![trigger self.slots().contains_key(k)] found_game(post, k) == found_game(pre, k) by {
                            if found_game(post, k) {
                                let j = choose|j: int| 0 <= j < post.len() && (#[trigger] post[j]) is Some && post[j]->Some_0.id@ == k;
                                assert(post[j] == pre[j]);
                            }
                            if found_game(pre, k) {
                                let j = choose|j: int| 0 <= j < pre.len() && (#[trigger] pre[j]) is Some && pre[j]->Some_0.id@ == k;
                                assert(post[j] == pre[j]);
                            }
                        }
                        assert forall|k: Seq<char>| #![trigger self.slots().contains_key(k)] found_game(post, k) implies exists|j: int|
                            0 <= j < post.len() && (#[trigger] post[j]) is Some && post[j]->Some_0.id@ == k
                                && stored_game(self.slots()[k]->Ready_0, post[j]->Some_0) by {
                            assert(self.slots().contains_key(k));
                            let j2 = choose|j2: int| 0 <= j2 < pre.len() && (#[trigger] pre[j2]) is Some && pre[j2]->Some_0.id@ == k
                                && stored_game(self.slots()[k]->Ready_0, pre[j2]->Some_0);
                            assert(post[j2] == pre[j2]);
                        }
                    }
                },
            }
            proof {
                i = i + 1;
            }
        }
        assert(all.subrange(0, i) =~= all);
        assert(s0 == old(self).slots());
        assert(p + all.len() == old(self).pending_count());
        assert(games_stored(old(self).slots(), all, self.slots()));
    }

    /// Stores `game` under its id, with the box-art size filled in.
    pub fn store(&mut self, game: Game)
        requires
            old(self).wf(),
        ensures
            final(self).wf(),
            final(self).slots() == old(self).slots().insert(game.id@, final(self).slots()[game.id@]),
            final(self).slots()[game.id@] is Ready,
            final(self).slots()[game.id@]->Ready_0.box_art_url@ == sized_box_art(game.box_art_url@),
            final(self).slots()[game.id@]->Ready_0.id == game.id,
            final(self).slots()[game.id@]->Ready_0.name == game.name,
            final(self).slots()[game.id@]->Ready_0.igdb_id == game.igdb_id,
            final(self).pending_count() == old(self).pending_count(),
    {
        let sized = Self::size_box_art(game);
        let id = sized.id.clone();
        self.map.set(id, sized);
    }

    /// `game` with the size filled into its box-art template.
    pub fn size_box_art(game: Game) -> (r: Game)
        ensures
            r.box_art_url@ == sized_box_art(game.box_art_url@),
            r.id == game.id,
            r.igdb_id == game.igdb_id,
            r.name == game.name,
    {
        proof {
            reveal_strlit("{width}");
            reveal_strlit("{height}");
        }
        let wide = replace(game.box_art_url.as_str(), "{width}", "144");
        let url = replace(wide.as_str(), "{height}", "152");
        Game { box_art_url: url, id: game.id, igdb_id: game.igdb_id, name: game.name }
    }
}

/// Users by login (a leading `#` is ignored), each fetched once.
pub struct UserMap<C> {
    map: ResolverMap<User, Option<(String, User)>>,
    helix: C,
}

impl<C: MetadataClient> UserMap<C> {
    pub closed spec fn slots(&self) -> Map<Seq<char>, Ready<User>> {
        self.map.slots()
    }

    pub closed spec fn pending_count(&self) -> nat {
        self.map.pending_count()
    }

    pub closed spec fn wf(&self) -> bool {
        self.map.wf()
    }

    pub fn create(helix: C) -> (r: Self)
        ensures
            r.wf(),
            r.slots() == Map::<Seq<char>, Ready<User>>::empty(),
            r.pending_count() == 0,
    {
        UserMap { map: ResolverMap::new(), helix }
    }

    /// The user with login `login` if it has arrived; the first request for
    /// a login starts its fetch.
    pub fn get(&mut self, login: &str) -> (r: Option<&User>)
        requires
            old(self).wf(),
        ensures
            final(self).wf(),
            old(self).slots().contains_key(strip_octo(login@)) ==> final(self).slots() == old(self).slots()
                && final(self).pending_count() == old(self).pending_count(),
            !old(self).slots().contains_key(strip_octo(login@)) ==> final(self).slots() == old(self).slots().insert(
                strip_octo(login@),
                Ready::NotReady,
            ) && final(self).pending_count() == old(self).pending_count() + 1,
            r.is_some() == (old(self).slots().contains_key(strip_octo(login@)) && old(self).slots()[strip_octo(
                login@,
            )] is Ready),
            r.is_some() ==> *r.unwrap() == old(self).slots()[strip_octo(login@)]->Ready_0,
    {
        let login = strip_channel(login);
        let helix = &self.helix;
        self.map.get_or_update(login, |name: &str| -> (f: Fut<Option<(String, User)>>) { helix.get_user(name) })
    }

    /// Stores `user` under its login.
    pub fn store(&mut self, user: User)
        requires
            old(self).wf(),
        ensures
            final(self).wf(),
            final(self).slots() == old(self).slots().insert(user.login@, Ready::Ready(user)),
            final(self).pending_count() == old(self).pending_count(),
    {
        let login = user.login.clone();
        self.map.set(login, user);
    }

    /// Stores the users whose fetches have finished, under their logins; a
    /// fetch that found nothing stores nothing, and is not retried.
    pub fn poll(&mut self)
        requires
            old(self).wf(),
        ensures
            final(self).wf(),
            exists|done: Seq<Option<(String, User)>>|
                final(self).pending_count() + done.len() == old(self).pending_count() && users_stored(
                    old(self).slots(),
                    done,
                    final(self).slots(),
                ),
    {
        let done = self.map.poll();
        let ghost all = done@;
        let ghost s0 = self.slots();
        let ghost p = self.pending_count();
        let mut done = done;
        let ghost mut i: int = 0;
        assert(users_stored(s0, all.subrange(0, 0), self.slots()));
        while done.len() > 0
            invariant
                self.map.wf(),
                0 <= i,
                i + done@.len() == all.len(),
                forall|j: int| 0 <= j < done@.len() ==> #[trigger] done@[j] == all[i + j],
                self.pending_count() == p,
                users_stored(s0, all.subrange(0, i), self.slots()),
            decreases done@.len(),
        {
            let ghost before = self.slots();
            let ghost pre = all.subrange(0, i);
            let ghost post = all.subrange(0, i + 1);
            let item = done.remove(0);
            assert(item == all[i]);
            match item {
                Some((name, user)) => {
                    let ghost e = (name, user);
                    self.store(user);
                    proof {
                        assert forall|k: Seq<char>| #![trigger self.slots().contains_key(k)] if found_user(post, k) {
                            self.slots().contains_key(k) && exists|j: int|
                                0 <= j < post.len() && (#[trigger] post[j]) is Some && post[j]->Some_0.1.login@ == k
                                    && self.slots()[k] == Ready::Ready(post[j]->Some_0.1)
                        } else {
                            self.slots().contains_key(k) == s0.contains_key(k) && (s0.contains_key(k) ==> self.slots()[k]
                                == s0[k])
                        } by {
                            assert(post[i] == Some(e));
                            if k == e.1.login@ {
                                assert(found_user(post, k));
                                assert(post[i]->Some_0.1 == e.1);
                                assert(self.slots()[k] == Ready::Ready(post[i]->Some_0.1));
                            } else {
                                assert(before.contains_key(k) == self.slots().contains_key(k));
                                if found_user(post, k) {
                                    let j = choose|j: int| 0 <= j < post.len() && (#[trigger] post[j]) is Some && post[j]->Some_0.1.login@ == k;
                                    assert(j < i);
                                    assert(post[j] == pre[j]);
                                    assert(found_user(pre, k));
                                    assert(before.contains_key(k));
                                    let j2 = choose|j2: int| 0 <= j2 < pre.len() && (#[trigger] pre[j2]) is Some && pre[j2]->Some_0.1.login@ == k
                                        && before[k] == Ready::Ready(pre[j2]->Some_0.1);
                                    assert(post[j2] == pre[j2]);
                                } else {
                                    assert forall|j: int| 0 <= j < pre.len() && (#[trigger] pre[j]) is Some implies pre[j]->Some_0.1.login@ != k by {
                                        assert(post[j] == pre[j]);
                                    }
                                    assert(!found_user(pre, k));
                                    assert(before.contains_key(k) == s0.contains_key(k));
                                }
                            }
                        }
                    }
                },
                None => {
                    proof {
                        assert forall|k: Seq<char>| #![trigger self.slots().contains_key(k)] found_user(post, k) == found_user(pre, k) by {
                            if found_user(post, k) {
                                let j = choose|j: int| 0 <= j < post.len() && (#[trigger] post[j]) is Some && post[j]->Some_0.1.login@ == k;
                                assert(post[j] == pre[j]);
                            }
                            if found_user(pre, k) {
                                let j = choose|j: int| 0 <= j < pre.len() && (#[trigger] pre[j]) is Some && pre[j]->Some_0.1.login@ == k;
                                assert(post[j] == pre[j]);
                            }
                        }
                        assert forall|k: Seq<char>| #![trigger self.slots().contains_key(k)] found_user(post, k) implies exists|j: int|
                            0 <= j < post.len() && (#[trigger] post[j]) is Some && post[j]->Some_0.1.login@ == k
                                && self.slots()[k] == Ready::Ready(post[j]->Some_0.1) by {
                            assert(self.slots().contains_key(k));
                            let j2 = choose|j2: int| 0 <= j2 < pre.len() && (#[trigger] pre[j2]) is Some && pre[j2]->Some_0.1.login@ == k
                                && self.slots()[k] == Ready::Ready(pre[j2]->Some_0.1);
                            assert(post[j2] == pre[j2]);
                        }
                    }
                },
            }
            proof {
                i = i + 1;
            }
        }
        assert(all.subrange(0, i) =~= all);
        assert(s0 == old(self).slots());
        assert(p + all.len() == old(self).pending_count());
        assert(users_stored(old(self).slots(), all, self.slots()));
    }
}

/// Downloads and decodes images in the background.
pub trait ImageSource<I> {
    /// The image at `url`, with that address; `None` when it could not be
    /// had.
    fn get_image(&self, url: &str) -> Fut<(String, Option<I>)>;
}

/// Images by address, each downloaded once.
#[verifier::reject_recursive_types(I)]
pub struct ImageCache<I, S> {
    images: ResolverMap<I, (String, Option<I>)>,
    fetcher: S,
}

impl<I, S: ImageSource<I>> ImageCache<I, S> {
    pub closed spec fn slots(&self) -> Map<Seq<char>, Ready<I>> {
        self.images.slots()
    }

    pub closed spec fn wf(&self) -> bool {
        self.images.wf()
    }

    pub fn new(fetcher: S) -> (r: Self)
        ensures
            r.wf(),
            r.slots() == Map::<Seq<char>, Ready<I>>::empty(),
    {
        ImageCache { images: ResolverMap::new(), fetcher }
    }

    /// Stores an image that was had some other way.
    pub fn set(&mut self, url: String, image: I)
        requires
            old(self).wf(),
        ensures
            final(self).wf(),
            final(self).slots() == old(self).slots().insert(url@, Ready::Ready(image)),
    {
        self.images.set(url, image);
    }

    /// The image at `url` if it has arrived; the first request for an
    /// address starts its download.
    pub fn get_image(&mut self, url: &str) -> (r: Option<&I>)
        requires
            old(self).wf(),
        ensures
            final(self).wf(),
            old(self).slots().contains_key(url@) ==> final(self).slots() == old(self).slots(),
            !old(self).slots().contains_key(url@) ==> final(self).slots() == old(self).slots().insert(
                url@,
                Ready::NotReady,
            ),
            r.is_some() == (old(self).slots().contains_key(url@) && old(self).slots()[url@] is Ready),
            r.is_some() ==> *r.unwrap() == old(self).slots()[url@]->Ready_0,
    {
        let fetcher = &self.fetcher;
        self.images.get_or_update(url, |u: &str| -> (f: Fut<(String, Option<I>)>) { fetcher.get_image(u) })
    }

    /// Stores the images whose downloads have finished; an address whose
    /// download failed stays not ready.
    pub fn poll(&mut self)
        requires
            old(self).wf(),
        ensures
            final(self).wf(),
            forall|k: Seq<char>| #[trigger] old(self).slots().contains_key(k) ==> final(self).slots().contains_key(k),
    {
        let mut done = self.images.poll();
        while done.len() > 0
            invariant
                self.images.wf(),
                forall|k: Seq<char>| #[trigger] old(self).images.slots().contains_key(k) ==> self.images.slots().contains_key(k),
            decreases done@.len(),
        {
            let (url, image) = done.remove(0);
            match image {
                Some(image) => self.images.set(url, image),
                None => {},
            }
        }
    }
}

} // verus!
