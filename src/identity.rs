use vstd::prelude::*;

use crate::keyed::{as_map, find_key, keys_unique, lemma_pos_unique, lemma_push, upsert};
use crate::text::{strip_channel, strip_octo};

verus! {

/// `m` after storing each `(set, version)` of `bs` in turn; a later pair for
/// the same set wins.
pub open spec fn upsert_all(m: Map<Seq<char>, String>, bs: Seq<(String, String)>) -> Map<
    Seq<char>,
    String,
>
    decreases bs.len(),
{
    if bs.len() == 0 {
        m
    } else {
        upsert_all(m, bs.drop_last()).insert(bs.last().0@, bs.last().1)
    }
}

/// Stores each pair of `bs` in `entries`, in order.
fn upsert_pairs(entries: &mut Vec<(String, String)>, bs: &Vec<(String, String)>)
    requires
        keys_unique(old(entries)@),
    ensures
        keys_unique(final(entries)@),
        as_map(final(entries)@) == upsert_all(as_map(old(entries)@), bs@),
{
    let mut i: usize = 0;
    while i < bs.len()
        invariant
            i <= bs@.len(),
            keys_unique(entries@),
            as_map(entries@) == upsert_all(as_map(old(entries)@), bs@.subrange(0, i as int)),
        decreases bs@.len() - i,
    {
        proof {
            let t = bs@.subrange(0, i + 1);
            assert(t.drop_last() =~= bs@.subrange(0, i as int));
            assert(t.last() == bs@[i as int]);
        }
        upsert(entries, bs[i].0.clone(), bs[i].1.clone());
        i = i + 1;
    }
    assert(bs@.subrange(0, bs@.len() as int) =~= bs@);
}

/// The authenticated session: who we are, and the badges we hold in each
/// channel.
pub struct Identity {
    pub name: String,
    pub display_name: Option<String>,
    pub user_id: String,
    pub color: Option<String>,
    pub emote_sets: Vec<String>,
    pub badge_map: Vec<(String, Vec<(String, String)>)>,
}

impl Identity {
    pub open spec fn wf(&self) -> bool {
        &&& keys_unique(self.badge_map@)
        &&& forall|i: int| 0 <= i < self.badge_map@.len() ==> keys_unique(#[trigger] self.badge_map@[i].1@)
    }

    /// The badge versions we hold in `channel`, by badge set.
    pub open spec fn badges_for(&self, channel: Seq<char>) -> Map<Seq<char>, String> {
        if as_map(self.badge_map@).contains_key(channel) {
            as_map(as_map(self.badge_map@)[channel]@)
        } else {
            Map::empty()
        }
    }

    /// An identity whose badge record holds `badges` under our own name.
    pub fn assemble(
        name: String,
        display_name: Option<String>,
        user_id: String,
        color: Option<String>,
        emote_sets: Vec<String>,
        badges: &Vec<(String, String)>,
    ) -> (r: Identity)
        ensures
            r.wf(),
            r.name == name,
            r.display_name == display_name,
            r.user_id == user_id,
            r.color == color,
            r.emote_sets == emote_sets,
            r.badges_for(name@) == upsert_all(Map::empty(), badges@),
            forall|c: Seq<char>| c != name@ ==> r.badges_for(c) == Map::<Seq<char>, String>::empty(),
    {
        let mut own: Vec<(String, String)> = Vec::new();
        assert(as_map(own@) =~= Map::<Seq<char>, String>::empty());
        upsert_pairs(&mut own, badges);
        let mut badge_map: Vec<(String, Vec<(String, String)>)> = Vec::new();
        let entry = (name.clone(), own);
        proof {
            lemma_push(badge_map@, entry);
            assert(as_map(badge_map@) =~= Map::empty());
        }
        badge_map.push(entry);
        let r = Identity { name, display_name, user_id, color, emote_sets, badge_map };
        proof {
            lemma_pos_unique(r.badge_map@, 0);
        }
        r
    }

    /// Merges the badges of a per-channel state update into the record of
    /// `channel` (a leading `#` is ignored); other channels keep theirs.
    pub fn append_badges(&mut self, channel: &str, badges: &Vec<(String, String)>)
        requires
            old(self).wf(),
        ensures
            final(self).wf(),
            final(self).badges_for(strip_octo(channel@)) == upsert_all(
                old(self).badges_for(strip_octo(channel@)),
                badges@,
            ),
            forall|c: Seq<char>| c != strip_octo(channel@) ==> final(self).badges_for(c) == old(self).badges_for(c),
            final(self).name == old(self).name,
            final(self).display_name == old(self).display_name,
            final(self).user_id == old(self).user_id,
            final(self).color == old(self).color,
            final(self).emote_sets == old(self).emote_sets,
    {
        let channel = strip_channel(channel);
        let ghost before = self.badge_map@;
        let i = match find_key(&self.badge_map, channel) {
            Some(i) => i,
            None => {
                let fresh: Vec<(String, String)> = Vec::new();
                let entry = (channel.to_owned(), fresh);
                proof {
                    lemma_push(self.badge_map@, entry);
                }
                self.badge_map.push(entry);
                proof {
                    assert(as_map(fresh@) =~= Map::<Seq<char>, String>::empty());
                }
                self.badge_map.len() - 1
            },
        };
        let ghost mid = self.badge_map@;
        proof {
            lemma_pos_unique(mid, i as int);
            assert(mid[i as int].0@ == channel@);
            assert forall|c: Seq<char>| c != channel@ implies #[trigger] as_map(mid).contains_key(c)
                == as_map(before).contains_key(c) && (as_map(mid).contains_key(c) ==> as_map(mid)[c]
                == as_map(before)[c]) by {
                if mid.len() != before.len() {
                    assert(as_map(mid) == as_map(before).insert(channel@, mid[i as int].1));
                } else {
                    assert(mid == before);
                }
            }
        }
        let (key, mut inner) = self.badge_map.remove(i);
        upsert_pairs(&mut inner, badges);
        self.badge_map.insert(i, (key, inner));
        proof {
            let after = self.badge_map@;
            assert(after =~= mid.update(i as int, (key, inner)));
            crate::keyed::lemma_set_value(mid, i as int, inner);
            assert(as_map(after) == as_map(mid).insert(channel@, inner));
            assert forall|j: int| 0 <= j < after.len() implies keys_unique(#[trigger] after[j].1@) by {
                if j != i {
                    assert(after[j] == mid[j]);
                    if j < before.len() {
                        assert(mid[j] == before[j]);
                    }
                }
            }
            assert forall|c: Seq<char>| c != channel@ implies
                #[trigger] as_map(after).contains_key(c) == as_map(before).contains_key(c)
                && (as_map(after).contains_key(c) ==> as_map(after)[c] == as_map(before)[c]) by {
                assert(as_map(mid).contains_key(c) == as_map(before).contains_key(c));
            }
        }
    }

    /// The same identity, with its badge record rebuilt so that each channel
    /// and each badge set occurs once (a later entry wins).
    pub fn normalized(self) -> (r: Identity)
        ensures
            r.wf(),
            r.name == self.name,
            r.display_name == self.display_name,
            r.user_id == self.user_id,
            r.color == self.color,
            r.emote_sets == self.emote_sets,
    {
        let Identity { name, display_name, user_id, color, emote_sets, badge_map } = self;
        let mut rest = badge_map;
        let mut out: Vec<(String, Vec<(String, String)>)> = Vec::new();
        while rest.len() > 0
            invariant
                keys_unique(out@),
                forall|i: int| 0 <= i < out@.len() ==> keys_unique(#[trigger] out@[i].1@),
            decreases rest@.len(),
        {
            let (channel, list) = rest.remove(0);
            let mut inner: Vec<(String, String)> = Vec::new();
            upsert_pairs(&mut inner, &list);
            let ghost before = out@;
            let ghost key = channel@;
            upsert(&mut out, channel, inner);
            proof {
                if crate::keyed::has_key(before, key) {
                    let j = choose|j: int|
                        0 <= j < before.len() && (#[trigger] before[j]).0@ == key && out@ == before.update(
                            j,
                            (before[j].0, inner),
                        );
                    assert forall|i: int| 0 <= i < out@.len() implies keys_unique(#[trigger] out@[i].1@) by {
                        if i != j {
                            assert(out@[i] == before[i]);
                        }
                    }
                } else {
                    assert forall|i: int| 0 <= i < out@.len() implies keys_unique(#[trigger] out@[i].1@) by {
                        if i < before.len() {
                            assert(out@[i] == before[i]);
                        }
                    }
                }
            }
        }
        Identity { name, display_name, user_id, color, emote_sets, badge_map: out }
    }

    /// The badges we hold in `channel` (a leading `#` is ignored), as
    /// `(set, version)` pairs.
    pub fn get_badges_for(&self, channel: &str) -> (r: Vec<(String, String)>)
        requires
            self.wf(),
        ensures
            keys_unique(r@),
            as_map(r@) == self.badges_for(strip_octo(channel@)),
    {
        let channel = strip_channel(channel);
        let mut out: Vec<(String, String)> = Vec::new();
        match find_key(&self.badge_map, channel) {
            Some(i) => {
                proof {
                    lemma_pos_unique(self.badge_map@, i as int);
                }
                let inner = &self.badge_map[i].1;
                let mut j: usize = 0;
                while j < inner.len()
                    invariant
                        j <= inner@.len(),
                        keys_unique(inner@),
                        out@.len() == j,
                        forall|k: int| 0 <= k < j ==> (#[trigger] out@[k]) == inner@[k],
                    decreases inner@.len() - j,
                {
                    out.push((inner[j].0.clone(), inner[j].1.clone()));
                    j = j + 1;
                }
                assert(out@ =~= inner@);
                out
            },
            None => {
                assert(as_map(out@) =~= Map::<Seq<char>, String>::empty());
                out
            },
        }
    }
}

} // verus!
