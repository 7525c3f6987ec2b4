//! Where each title was left off, newest first, kept per account on this
//! device.
//!
//! Playback positions are `f64` seconds; they are kept here as the bits of
//! the number, untouched, and read as numbers by the front end.

use vstd::prelude::*;
use crate::client::models::MediaType;

verus! {

/// How many entries the history keeps.
pub const MAX_ENTRIES: usize = 100;

/// One title, or one episode of it, as it was last played.
pub struct WatchHistoryEntry {
    pub media_id: i64,
    pub title: String,
    pub orig_title: Option<String>,
    pub url: String,
    pub poster_url: Option<String>,
    pub media_type: MediaType,
    pub season: Option<i64>,
    pub episode: Option<i64>,
    pub episode_title: Option<String>,
    pub translator_id: Option<i64>,
    pub translator_name: Option<String>,
    /// Where playback stopped, in seconds: the bits of an `f64`.
    pub position_bits: u64,
    /// How long the title runs, in seconds: the bits of an `f64`.
    pub duration_bits: u64,
    /// When the entry was written, in milliseconds since the Unix epoch.
    pub updated_at_ms: i64,
}

/// The watch history of an account, newest first.
pub struct WatchHistory {
    pub entries: Vec<WatchHistoryEntry>,
}

/// What tells entries apart: the title, the season and the episode.
pub open spec fn entry_key(e: WatchHistoryEntry) -> (i64, Option<i64>, Option<i64>) {
    (e.media_id, e.season, e.episode)
}

/// The entries that are not for `key`, in order.
pub open spec fn other_keys(entries: Seq<WatchHistoryEntry>, key: (i64, Option<i64>, Option<i64>)) -> Seq<WatchHistoryEntry>
    decreases entries.len(),
{
    if entries.len() == 0 {
        seq![]
    } else {
        let init = other_keys(entries.drop_last(), key);
        if entry_key(entries.last()) == key {
            init
        } else {
            init.push(entries.last())
        }
    }
}

/// The history once `entry` was played: it goes first, replacing any entry
/// for the same title and episode, and only the newest [`MAX_ENTRIES`] stay.
pub open spec fn with_entry(entries: Seq<WatchHistoryEntry>, entry: WatchHistoryEntry) -> Seq<WatchHistoryEntry> {
    let all = seq![entry] + other_keys(entries, entry_key(entry));
    if all.len() > MAX_ENTRIES {
        all.subrange(0, MAX_ENTRIES as int)
    } else {
        all
    }
}

/// The entries for a title other than `media_id`, in order.
pub open spec fn without_media(entries: Seq<WatchHistoryEntry>, media_id: i64) -> Seq<WatchHistoryEntry>
    decreases entries.len(),
{
    if entries.len() == 0 {
        seq![]
    } else {
        let init = without_media(entries.drop_last(), media_id);
        if entries.last().media_id == media_id {
            init
        } else {
            init.push(entries.last())
        }
    }
}

/// The entries a reconciliation keeps, in order: those for a title the
/// account still lists, and those written since `since_ms`, which the
/// provider may not show yet.
pub open spec fn reconciled(entries: Seq<WatchHistoryEntry>, media_ids: Seq<i64>, since_ms: i64) -> Seq<WatchHistoryEntry>
    decreases entries.len(),
{
    if entries.len() == 0 {
        seq![]
    } else {
        let init = reconciled(entries.drop_last(), media_ids, since_ms);
        let e = entries.last();
        if media_ids.contains(e.media_id) || e.updated_at_ms >= since_ms {
            init.push(e)
        } else {
            init
        }
    }
}

/// The first entry for `key`.
pub open spec fn first_for_key(entries: Seq<WatchHistoryEntry>, key: (i64, Option<i64>, Option<i64>), i: int) -> bool {
    &&& 0 <= i < entries.len()
    &&& entry_key(entries[i]) == key
    &&& forall|j: int| 0 <= j < i ==> entry_key(#[trigger] entries[j]) != key
}

/// The entry of `media_id` written last; among entries written at the same
/// moment, the one furthest down the list.
pub open spec fn latest_at(entries: Seq<WatchHistoryEntry>, media_id: i64, i: int) -> bool {
    &&& 0 <= i < entries.len()
    &&& entries[i].media_id == media_id
    &&& forall|j: int| 0 <= j < entries.len() && #[trigger] entries[j].media_id == media_id
        ==> entries[j].updated_at_ms <= entries[i].updated_at_ms
    &&& forall|j: int| i < j < entries.len() && #[trigger] entries[j].media_id == media_id
        ==> entries[j].updated_at_ms < entries[i].updated_at_ms
}

impl WatchHistory {
    /// An empty history.
    pub fn new() -> (r: WatchHistory)
        ensures
            r.entries@.len() == 0,
    {
        WatchHistory { entries: Vec::new() }
    }

    /// Records `entry` as the latest played; see [`with_entry`].
    pub fn update_entry(&mut self, entry: WatchHistoryEntry)
        ensures
            final(self).entries@ == with_entry(old(self).entries@, entry),
    {
        let ghost key = entry_key(entry);
        let ghost all = self.entries@;
        let mut rest: Vec<WatchHistoryEntry> = Vec::new();
        std::mem::swap(&mut rest, &mut self.entries);
        let mut out: Vec<WatchHistoryEntry> = Vec::new();
        let k = (entry.media_id, entry.season, entry.episode);
        out.push(entry);
        let ghost first = out@;
        let n = rest.len();
        let mut i: usize = 0;
        while rest.len() > 0
            invariant
                n == all.len(),
                i + rest@.len() == n,
                rest@ == all.subrange(i as int, n as int),
                out@ == first + other_keys(all.subrange(0, i as int), key),
                first == seq![entry],
                key == entry_key(entry),
                k == key,
            decreases rest@.len(),
        {
            assert(all.subrange(0, i + 1).drop_last() =~= all.subrange(0, i as int));
            let e = rest.remove(0);
            assert(e == all[i as int]);
            if !(e.media_id == k.0 && e.season == k.1 && e.episode == k.2) {
                out.push(e);
                assert(out@ =~= first + other_keys(all.subrange(0, i + 1), key));
            } else {
                assert(out@ =~= first + other_keys(all.subrange(0, i + 1), key));
            }
            i += 1;
            assert(rest@ =~= all.subrange(i as int, n as int));
        }
        assert(all.subrange(0, n as int) =~= all);
        if out.len() > MAX_ENTRIES {
            out.truncate(MAX_ENTRIES);
        }
        assert(out@ =~= with_entry(all, entry));
        self.entries = out;
    }

    /// The entry for a title at a season and episode, if there is one.
    pub fn get_entry(&self, media_id: i64, season: Option<i64>, episode: Option<i64>) -> (r: Option<&WatchHistoryEntry>)
        ensures
            match r {
                Some(e) => exists|i: int| first_for_key(self.entries@, (media_id, season, episode), i) && *e == self.entries@[i],
                None => forall|j: int| 0 <= j < self.entries@.len() ==> entry_key(#[trigger] self.entries@[j]) != (media_id, season, episode),
            },
    {
        let mut i: usize = 0;
        while i < self.entries.len()
            invariant
                i <= self.entries.len(),
                forall|j: int| 0 <= j < i ==> entry_key(#[trigger] self.entries@[j]) != (media_id, season, episode),
            decreases self.entries.len() - i,
        {
            let e = &self.entries[i];
            if e.media_id == media_id && e.season == season && e.episode == episode {
                assert(first_for_key(self.entries@, (media_id, season, episode), i as int));
                return Some(e);
            }
            i += 1;
        }
        None
    }

    /// The most recently played entry of a title, whichever episode it was.
    pub fn latest_for(&self, media_id: i64) -> (r: Option<&WatchHistoryEntry>)
        ensures
            match r {
                Some(e) => exists|i: int| latest_at(self.entries@, media_id, i) && *e == self.entries@[i],
                None => forall|j: int| 0 <= j < self.entries@.len() ==> (#[trigger] self.entries@[j]).media_id != media_id,
            },
    {
        let mut best: Option<usize> = None;
        let mut i: usize = 0;
        while i < self.entries.len()
            invariant
                i <= self.entries.len(),
                match best {
                    Some(b) => b < i && latest_at(self.entries@.subrange(0, i as int), media_id, b as int),
                    None => forall|j: int| 0 <= j < i ==> (#[trigger] self.entries@[j]).media_id != media_id,
                },
            decreases self.entries.len() - i,
        {
            let ghost prefix = self.entries@.subrange(0, i + 1);
            if self.entries[i].media_id == media_id {
                match best {
                    Some(b) => {
                        if self.entries[i].updated_at_ms >= self.entries[b].updated_at_ms {
                            best = Some(i);
                            assert(latest_at(prefix, media_id, i as int)) by {
                                assert forall|j: int| 0 <= j < prefix.len() && #[trigger] prefix[j].media_id == media_id
                                    implies prefix[j].updated_at_ms <= prefix[i as int].updated_at_ms by {
                                    if j < i {
                                        assert(self.entries@.subrange(0, i as int)[j] == prefix[j]);
                                    }
                                }
                            }
                        } else {
                            assert(latest_at(prefix, media_id, b as int)) by {
                                assert forall|j: int| 0 <= j < prefix.len() && #[trigger] prefix[j].media_id == media_id
                                    implies prefix[j].updated_at_ms <= prefix[b as int].updated_at_ms by {
                                    if j < i {
                                        assert(self.entries@.subrange(0, i as int)[j] == prefix[j]);
                                    }
                                }
                                assert forall|j: int| b < j < prefix.len() && #[trigger] prefix[j].media_id == media_id
                                    implies prefix[j].updated_at_ms < prefix[b as int].updated_at_ms by {
                                    if j < i {
                                        assert(self.entries@.subrange(0, i as int)[j] == prefix[j]);
                                    }
                                }
                            }
                        }
                    },
                    None => {
                        best = Some(i);
                        assert(latest_at(prefix, media_id, i as int));
                    },
                }
            } else {
                match best {
                    Some(b) => {
                        assert(latest_at(prefix, media_id, b as int)) by {
                            assert forall|j: int| 0 <= j < prefix.len() && #[trigger] prefix[j].media_id == media_id
                                implies prefix[j].updated_at_ms <= prefix[b as int].updated_at_ms by {
                                if j < i {
                                    assert(self.entries@.subrange(0, i as int)[j] == prefix[j]);
                                }
                            }
                            assert forall|j: int| b < j < prefix.len() && #[trigger] prefix[j].media_id == media_id
                                implies prefix[j].updated_at_ms < prefix[b as int].updated_at_ms by {
                                if j < i {
                                    assert(self.entries@.subrange(0, i as int)[j] == prefix[j]);
                                }
                            }
                        }
                    },
                    None => {},
                }
            }
            i += 1;
        }
        assert(self.entries@.subrange(0, self.entries.len() as int) =~= self.entries@);
        match best {
            Some(b) => Some(&self.entries[b]),
            None => None,
        }
    }

    /// Drops every entry of a title; says whether any was there.
    pub fn remove_media(&mut self, media_id: i64) -> (changed: bool)
        ensures
            final(self).entries@ == without_media(old(self).entries@, media_id),
            changed == (final(self).entries@.len() != old(self).entries@.len()),
    {
        let ghost all = self.entries@;
        let mut rest: Vec<WatchHistoryEntry> = Vec::new();
        std::mem::swap(&mut rest, &mut self.entries);
        let mut out: Vec<WatchHistoryEntry> = Vec::new();
        let n = rest.len();
        let mut i: usize = 0;
        while rest.len() > 0
            invariant
                n == all.len(),
                i + rest@.len() == n,
                rest@ == all.subrange(i as int, n as int),
                out@ == without_media(all.subrange(0, i as int), media_id),
            decreases rest@.len(),
        {
            assert(all.subrange(0, i + 1).drop_last() =~= all.subrange(0, i as int));
            let e = rest.remove(0);
            assert(e == all[i as int]);
            if e.media_id != media_id {
                out.push(e);
            }
            i += 1;
            assert(rest@ =~= all.subrange(i as int, n as int));
        }
        assert(all.subrange(0, n as int) =~= all);
        let changed = out.len() != n;
        self.entries = out;
        changed
    }

    /// Keeps the entries of the titles the account lists, and those written
    /// since `since_ms`; see [`reconciled`]. Says whether any was dropped.
    pub fn retain_media_since(&mut self, media_ids: &Vec<i64>, since_ms: i64) -> (changed: bool)
        ensures
            final(self).entries@ == reconciled(old(self).entries@, media_ids@, since_ms),
            changed == (final(self).entries@.len() != old(self).entries@.len()),
    {
        let ghost all = self.entries@;
        let mut rest: Vec<WatchHistoryEntry> = Vec::new();
        std::mem::swap(&mut rest, &mut self.entries);
        let mut out: Vec<WatchHistoryEntry> = Vec::new();
        let n = rest.len();
        let mut i: usize = 0;
        while rest.len() > 0
            invariant
                n == all.len(),
                i + rest@.len() == n,
                rest@ == all.subrange(i as int, n as int),
                out@ == reconciled(all.subrange(0, i as int), media_ids@, since_ms),
            decreases rest@.len(),
        {
            assert(all.subrange(0, i + 1).drop_last() =~= all.subrange(0, i as int));
            let e = rest.remove(0);
            assert(e == all[i as int]);
            if listed(media_ids, e.media_id) || e.updated_at_ms >= since_ms {
                out.push(e);
            }
            i += 1;
            assert(rest@ =~= all.subrange(i as int, n as int));
        }
        assert(all.subrange(0, n as int) =~= all);
        let changed = out.len() != n;
        self.entries = out;
        changed
    }
}

fn listed(ids: &Vec<i64>, id: i64) -> (r: bool)
    ensures
        r == ids@.contains(id),
{
    let mut i: usize = 0;
    while i < ids.len()
        invariant
            i <= ids.len(),
            forall|j: int| 0 <= j < i ==> ids@[j] != id,
        decreases ids.len() - i,
    {
        if ids[i] == id {
            return true;
        }
        i += 1;
    }
    false
}


/// No two entries are for the same title and episode.
pub open spec fn keys_unique(entries: Seq<WatchHistoryEntry>) -> bool {
    forall|i: int, j: int| 0 <= i < j < entries.len() ==> entry_key(#[trigger] entries[i]) != entry_key(#[trigger] entries[j])
}

proof fn lemma_other_keys_members(entries: Seq<WatchHistoryEntry>, key: (i64, Option<i64>, Option<i64>))
    ensures
        other_keys(entries, key).len() <= entries.len(),
        forall|k: int| 0 <= k < other_keys(entries, key).len() ==> entry_key(#[trigger] other_keys(entries, key)[k]) != key
            && exists|m: int| 0 <= m < entries.len() && entries[m] == other_keys(entries, key)[k],
    decreases entries.len(),
{
    if entries.len() > 0 {
        let init = entries.drop_last();
        lemma_other_keys_members(init, key);
        let o = other_keys(entries, key);
        assert forall|k: int| 0 <= k < o.len() implies entry_key(#[trigger] o[k]) != key
            && exists|m: int| 0 <= m < entries.len() && entries[m] == o[k] by {
            if k < other_keys(init, key).len() {
                assert(o[k] == other_keys(init, key)[k]);
                let m = choose|m: int| 0 <= m < init.len() && init[m] == other_keys(init, key)[k];
                assert(entries[m] == o[k]);
            } else {
                assert(entries[entries.len() - 1] == o[k]);
            }
        }
    }
}

proof fn lemma_other_keys_unique(entries: Seq<WatchHistoryEntry>, key: (i64, Option<i64>, Option<i64>))
    requires
        keys_unique(entries),
    ensures
        keys_unique(other_keys(entries, key)),
    decreases entries.len(),
{
    if entries.len() > 0 {
        let init = entries.drop_last();
        assert(keys_unique(init)) by {
            assert forall|i: int, j: int| 0 <= i < j < init.len() implies entry_key(#[trigger] init[i]) != entry_key(#[trigger] init[j]) by {
                assert(init[i] == entries[i] && init[j] == entries[j]);
            }
        }
        lemma_other_keys_unique(init, key);
        lemma_other_keys_members(init, key);
        let oi = other_keys(init, key);
        let o = other_keys(entries, key);
        assert forall|i: int, j: int| 0 <= i < j < o.len() implies entry_key(#[trigger] o[i]) != entry_key(#[trigger] o[j]) by {
            if j < oi.len() {
                assert(o[i] == oi[i] && o[j] == oi[j]);
            } else {
                assert(o[i] == oi[i]);
                let m = choose|m: int| 0 <= m < init.len() && init[m] == oi[i];
                assert(entries[m] == o[i]);
                assert(entries[entries.len() - 1] == o[j]);
            }
        }
    }
}

/// Playing a title puts its entry first, so that looking the title and
/// episode up finds the entry just written; the history keeps at most
/// [`MAX_ENTRIES`] entries and never two for the same title and episode.
pub proof fn law_played_entry_comes_first(entries: Seq<WatchHistoryEntry>, entry: WatchHistoryEntry)
    requires
        keys_unique(entries),
    ensures
        first_for_key(with_entry(entries, entry), entry_key(entry), 0),
        with_entry(entries, entry)[0] == entry,
        with_entry(entries, entry).len() <= MAX_ENTRIES,
        keys_unique(with_entry(entries, entry)),
{
    let key = entry_key(entry);
    lemma_other_keys_unique(entries, key);
    lemma_other_keys_members(entries, key);
    let o = other_keys(entries, key);
    let all = seq![entry] + o;
    assert forall|i: int, j: int| 0 <= i < j < all.len() implies entry_key(#[trigger] all[i]) != entry_key(#[trigger] all[j]) by {
        assert(all[j] == o[j - 1]);
        if i > 0 {
            assert(all[i] == o[i - 1]);
        }
    }
    let w = with_entry(entries, entry);
    assert forall|i: int, j: int| 0 <= i < j < w.len() implies entry_key(#[trigger] w[i]) != entry_key(#[trigger] w[j]) by {
        assert(w[i] == all[i] && w[j] == all[j]);
    }
}

/// Once a title is removed, none of its entries are left, and every other
/// entry stays in its order.
pub proof fn law_removed_title_is_gone(entries: Seq<WatchHistoryEntry>, media_id: i64)
    ensures
        forall|k: int| 0 <= k < without_media(entries, media_id).len() ==> (#[trigger] without_media(entries, media_id)[k]).media_id != media_id,
        forall|i: int| 0 <= i < entries.len() && (#[trigger] entries[i]).media_id != media_id
            ==> without_media(entries, media_id).contains(entries[i]),
    decreases entries.len(),
{
    if entries.len() > 0 {
        let init = entries.drop_last();
        law_removed_title_is_gone(init, media_id);
        let w = without_media(entries, media_id);
        let wi = without_media(init, media_id);
        assert forall|k: int| 0 <= k < w.len() implies (#[trigger] w[k]).media_id != media_id by {
            if k < wi.len() {
                assert(w[k] == wi[k]);
            }
        }
        assert forall|i: int| 0 <= i < entries.len() && (#[trigger] entries[i]).media_id != media_id implies w.contains(entries[i]) by {
            if i < init.len() {
                assert(init[i] == entries[i]);
                let k = choose|k: int| 0 <= k < wi.len() && wi[k] == init[i];
                assert(w[k] == wi[k]);
            } else {
                assert(w[w.len() - 1] == entries[i]);
            }
        }
    }
}

/// Reconciling with the account keeps exactly the entries of titles the
/// account lists and those written since the cutoff.
pub proof fn law_reconcile_keeps_listed_and_recent(entries: Seq<WatchHistoryEntry>, media_ids: Seq<i64>, since_ms: i64)
    ensures
        forall|k: int| 0 <= k < reconciled(entries, media_ids, since_ms).len() ==> {
            let e = #[trigger] reconciled(entries, media_ids, since_ms)[k];
            media_ids.contains(e.media_id) || e.updated_at_ms >= since_ms
        },
        forall|i: int| 0 <= i < entries.len() && (media_ids.contains((#[trigger] entries[i]).media_id) || entries[i].updated_at_ms >= since_ms)
            ==> reconciled(entries, media_ids, since_ms).contains(entries[i]),
    decreases entries.len(),
{
    if entries.len() > 0 {
        let init = entries.drop_last();
        law_reconcile_keeps_listed_and_recent(init, media_ids, since_ms);
        let w = reconciled(entries, media_ids, since_ms);
        let wi = reconciled(init, media_ids, since_ms);
        assert forall|k: int| 0 <= k < w.len() implies {
            let e = #[trigger] w[k];
            media_ids.contains(e.media_id) || e.updated_at_ms >= since_ms
        } by {
            if k < wi.len() {
                assert(w[k] == wi[k]);
            }
        }
        assert forall|i: int| 0 <= i < entries.len() && (media_ids.contains((#[trigger] entries[i]).media_id) || entries[i].updated_at_ms >= since_ms)
            implies w.contains(entries[i]) by {
            if i < init.len() {
                assert(init[i] == entries[i]);
                let k = choose|k: int| 0 <= k < wi.len() && wi[k] == init[i];
                assert(w[k] == wi[k]);
            } else {
                assert(w[w.len() - 1] == entries[i]);
            }
        }
    }
}

} // verus!
