//! What a front end on another runtime asks the client for, one command at a
//! time, and which of those it may abandon.

use vstd::prelude::*;
use crate::client::models::{CatalogCategory, ScheduleGroup, Translator};

verus! {

/// One request of the front end.
pub enum Command {
    Login { login: String, password: String },
    Restore { secret: String },
    Logout,
    Catalog { category: CatalogCategory, filter: Option<String>, page: usize },
    Search { query: String, page: usize },
    SearchSuggestions { query: String },
    Home,
    SearchFilters,
    Collections { page: usize },
    Path { path: String, page: usize },
    Details { url: String },
    Actor { url: String },
    Comments { post_id: i64, page: usize },
    Trailer { post_id: i64 },
    Rate { post_id: i64, rating: u8 },
    LikeComment { id: String },
    AccountData,
    ToggleScheduleWatched { id: String },
    Episodes { post_id: i64, translator_id: i64, schedules: Vec<ScheduleGroup> },
    MovieStream { post_id: i64, translator: Translator },
    EpisodeStream { post_id: i64, translator_id: i64, season: i64, episode: i64 },
    FavoriteCategories,
    Favorites { category_id: Option<i64>, page: usize },
    SetFavorite { url: String, post_id: i64, category_id: i64, favorite: bool },
    History,
    RemoveHistory { id: String },
    SetHistoryWatched { id: String, watched: bool },
    SaveWatch { post_id: i64, translator_id: i64, season: Option<i64>, episode: Option<i64> },
    SetHiddenCountries { countries: String },
    Countries,
    MarkWatched { url: String, post_id: i64, season: Option<i64>, episode: Option<i64> },
}

/// The commands that only read. A change runs to its end once sent, even
/// when the front end stops waiting: one cut off half way leaves nobody
/// knowing whether it happened.
pub open spec fn reads_only(c: Command) -> bool {
    ||| c is Catalog
    ||| c is Search
    ||| c is SearchSuggestions
    ||| c is Home
    ||| c is SearchFilters
    ||| c is Collections
    ||| c is Path
    ||| c is Details
    ||| c is Actor
    ||| c is Comments
    ||| c is Trailer
    ||| c is AccountData
    ||| c is Episodes
    ||| c is MovieStream
    ||| c is EpisodeStream
    ||| c is FavoriteCategories
    ||| c is Favorites
    ||| c is History
    ||| c is Countries
}

/// The account commands, which are handled before any other is dispatched.
pub open spec fn account_command(c: Command) -> bool {
    c is Login || c is Restore || c is Logout
}

impl Command {
    /// Whether the command only reads, which is all the front end may drop.
    pub fn is_read(&self) -> (r: bool)
        ensures
            r == reads_only(*self),
    {
        match self {
            Command::Catalog { .. } | Command::Search { .. } | Command::SearchSuggestions { .. }
            | Command::Home | Command::SearchFilters | Command::Collections { .. }
            | Command::Path { .. } | Command::Details { .. } | Command::Actor { .. }
            | Command::Comments { .. } | Command::Trailer { .. } | Command::AccountData
            | Command::Episodes { .. } | Command::MovieStream { .. }
            | Command::EpisodeStream { .. } | Command::FavoriteCategories
            | Command::Favorites { .. } | Command::History | Command::Countries => true,
            _ => false,
        }
    }

    /// Whether the command signs in or out.
    pub fn is_account(&self) -> (r: bool)
        ensures
            r == account_command(*self),
    {
        match self {
            Command::Login { .. } | Command::Restore { .. } | Command::Logout => true,
            _ => false,
        }
    }
}


/// How long a drop is kept for a read that has not started yet, in
/// milliseconds. The front end only drops a read once it is on its way, so
/// the read turns up within moments; a drop still waiting after this was
/// for a read that had already answered.
pub const EARLY_DROP_KEPT_MS: u64 = 60000;

/// A read the front end waits on, under the id it sent it with: what tells
/// the read it was dropped, and, for a drop that came before the read
/// started, when it came.
pub struct TrackedRead<T> {
    pub id: u64,
    pub signal: T,
    pub early_since: Option<u64>,
}

/// The reads in flight, each id once.
pub struct ReadRegistry<T> {
    pub reads: Vec<TrackedRead<T>>,
}

/// An entry that stays at `now_ms`: a running read, or a drop younger than
/// [`EARLY_DROP_KEPT_MS`].
pub open spec fn still_kept(early_since: Option<u64>, now_ms: u64) -> bool {
    match early_since {
        Some(since) => now_ms < since || now_ms - since < EARLY_DROP_KEPT_MS,
        None => true,
    }
}

pub open spec fn read_ids<T>(reads: Seq<TrackedRead<T>>) -> Seq<u64> {
    reads.map_values(|r: TrackedRead<T>| r.id)
}

/// No id is tracked twice.
pub open spec fn ids_distinct<T>(reads: Seq<TrackedRead<T>>) -> bool {
    forall|i: int, j: int| 0 <= i < j < reads.len() ==> reads[i].id != reads[j].id
}

/// The entries kept at `now_ms`, in order.
pub open spec fn kept_reads<T>(reads: Seq<TrackedRead<T>>, now_ms: u64) -> Seq<TrackedRead<T>>
    decreases reads.len(),
{
    if reads.len() == 0 {
        seq![]
    } else {
        let init = kept_reads(reads.drop_last(), now_ms);
        if still_kept(reads.last().early_since, now_ms) {
            init.push(reads.last())
        } else {
            init
        }
    }
}

proof fn lemma_kept_reads_members<T>(reads: Seq<TrackedRead<T>>, now_ms: u64)
    ensures
        kept_reads(reads, now_ms).len() <= reads.len(),
        forall|k: int| 0 <= k < kept_reads(reads, now_ms).len() ==> exists|m: int|
            0 <= m < reads.len() && reads[m] == #[trigger] kept_reads(reads, now_ms)[k],
        ids_distinct(reads) ==> ids_distinct(kept_reads(reads, now_ms)),
    decreases reads.len(),
{
    if reads.len() > 0 {
        let init = reads.drop_last();
        lemma_kept_reads_members(init, now_ms);
        let ki = kept_reads(init, now_ms);
        let k = kept_reads(reads, now_ms);
        assert forall|x: int| 0 <= x < k.len() implies exists|m: int| 0 <= m < reads.len() && reads[m] == #[trigger] k[x] by {
            if x < ki.len() {
                let m = choose|m: int| 0 <= m < init.len() && init[m] == ki[x];
                assert(reads[m] == k[x]);
            } else {
                assert(reads[reads.len() - 1] == k[x]);
            }
        }
        if ids_distinct(reads) {
            assert(ids_distinct(init)) by {
                assert forall|i: int, j: int| 0 <= i < j < init.len() implies init[i].id != init[j].id by {
                    assert(init[i] == reads[i] && init[j] == reads[j]);
                }
            }
            assert forall|i: int, j: int| 0 <= i < j < k.len() implies k[i].id != k[j].id by {
                if j >= ki.len() {
                    assert(k[i] == ki[i]);
                    let m = choose|m: int| 0 <= m < init.len() && init[m] == ki[i];
                    assert(reads[m] == k[i]);
                    assert(reads[reads.len() - 1] == k[j]);
                } else {
                    assert(k[i] == ki[i] && k[j] == ki[j]);
                }
            }
        }
    }
}

proof fn lemma_push_to_set(s: Seq<u64>, x: u64)
    ensures
        s.push(x).to_set() == s.to_set().insert(x),
{
    assert forall|a: u64| s.push(x).to_set().contains(a) <==> s.to_set().insert(x).contains(a) by {
        if s.contains(a) {
            let k = choose|k: int| 0 <= k < s.len() && s[k] == a;
            assert(s.push(x)[k] == a);
        }
        if a == x {
            assert(s.push(x)[s.len() as int] == x);
        }
        if s.push(x).contains(a) {
            let k = choose|k: int| 0 <= k < s.push(x).len() && s.push(x)[k] == a;
            if k < s.len() {
                assert(s[k] == a);
            }
        }
    }
    assert(s.push(x).to_set() =~= s.to_set().insert(x));
}

impl<T> ReadRegistry<T> {
    /// No read in flight.
    pub fn new() -> (r: ReadRegistry<T>)
        ensures
            r.reads@.len() == 0,
    {
        ReadRegistry { reads: Vec::new() }
    }

    /// Forgets the drops that waited longer than [`EARLY_DROP_KEPT_MS`] for
    /// their read.
    pub fn expire(&mut self, now_ms: u64)
        requires
            ids_distinct(old(self).reads@),
        ensures
            final(self).reads@ == kept_reads(old(self).reads@, now_ms),
            ids_distinct(final(self).reads@),
    {
        let ghost all = self.reads@;
        let mut rest: Vec<TrackedRead<T>> = Vec::new();
        std::mem::swap(&mut rest, &mut self.reads);
        let mut out: Vec<TrackedRead<T>> = Vec::new();
        let n = rest.len();
        let mut i: usize = 0;
        while rest.len() > 0
            invariant
                n == all.len(),
                i + rest@.len() == n,
                rest@ == all.subrange(i as int, n as int),
                out@ == kept_reads(all.subrange(0, i as int), now_ms),
            decreases rest@.len(),
        {
            assert(all.subrange(0, i + 1).drop_last() =~= all.subrange(0, i as int));
            let r = rest.remove(0);
            assert(r == all[i as int]);
            let keep = match r.early_since {
                Some(since) => now_ms < since || now_ms - since < EARLY_DROP_KEPT_MS,
                None => true,
            };
            if keep {
                out.push(r);
            }
            i += 1;
            assert(rest@ =~= all.subrange(i as int, n as int));
        }
        assert(all.subrange(0, n as int) =~= all);
        proof {
            lemma_kept_reads_members(all, now_ms);
        }
        self.reads = out;
    }

    fn position(&self, id: u64) -> (r: Option<usize>)
        ensures
            match r {
                Some(i) => i < self.reads@.len() && self.reads@[i as int].id == id,
                None => forall|j: int| 0 <= j < self.reads@.len() ==> self.reads@[j].id != id,
            },
    {
        let mut i: usize = 0;
        while i < self.reads.len()
            invariant
                i <= self.reads@.len(),
                forall|j: int| 0 <= j < i ==> self.reads@[j].id != id,
            decreases self.reads.len() - i,
        {
            if self.reads[i].id == id {
                return Some(i);
            }
            i += 1;
        }
        None
    }

    /// Starts waiting on the read `id`, after forgetting stale drops: its
    /// entry is created with `fresh` as its signal unless a drop already
    /// made one, and it is marked as running. The index of the entry is
    /// returned; a drop that came first left its signal set.
    pub fn track(&mut self, id: u64, now_ms: u64, fresh: T) -> (r: usize)
        requires
            ids_distinct(old(self).reads@),
        ensures
            ids_distinct(final(self).reads@),
            r < final(self).reads@.len(),
            final(self).reads@[r as int].id == id,
            final(self).reads@[r as int].early_since is None,
            forall|j: int| 0 <= j < final(self).reads@.len() && j != r ==> #[trigger] final(self).reads@[j]
                .id != id,
            read_ids(final(self).reads@).to_set() == read_ids(kept_reads(old(self).reads@, now_ms)).to_set().insert(id),
    {
        self.expire(now_ms);
        let ghost kept = self.reads@;
        match self.position(id) {
            Some(i) => {
                let mut entry = self.reads.remove(i);
                entry.early_since = None;
                self.reads.insert(i, entry);
                assert(read_ids(self.reads@) =~= read_ids(kept));
                assert(read_ids(kept).to_set().insert(id) =~= read_ids(kept).to_set()) by {
                    assert(read_ids(kept)[i as int] == id);
                }
                assert(ids_distinct(self.reads@)) by {
                    assert forall|a: int, b: int| 0 <= a < b < self.reads@.len() implies self.reads@[a].id != self.reads@[b].id by {
                        assert(read_ids(self.reads@)[a] == read_ids(kept)[a]);
                        assert(read_ids(self.reads@)[b] == read_ids(kept)[b]);
                    }
                }
                assert forall|j: int| 0 <= j < self.reads@.len() && j != i implies #[trigger] self.reads@[j].id != id by {
                    assert(read_ids(self.reads@)[j] == read_ids(kept)[j]);
                }
                i
            },
            None => {
                self.reads.push(TrackedRead { id, signal: fresh, early_since: None });
                assert(read_ids(self.reads@) =~= read_ids(kept).push(id));
                proof {
                    lemma_push_to_set(read_ids(kept), id);
                }
                self.reads.len() - 1
            },
        }
    }

    /// Records a drop of the read `id`, after forgetting stale drops: its
    /// entry is created with `fresh` as its signal, and the time of the
    /// drop, when the read has not started yet. The index of the entry,
    /// whose signal the front end then sets, is returned.
    pub fn drop_read(&mut self, id: u64, now_ms: u64, fresh: T) -> (r: usize)
        requires
            ids_distinct(old(self).reads@),
        ensures
            ids_distinct(final(self).reads@),
            r < final(self).reads@.len(),
            final(self).reads@[r as int].id == id,
            read_ids(final(self).reads@).to_set() == read_ids(kept_reads(old(self).reads@, now_ms)).to_set().insert(id),
    {
        self.expire(now_ms);
        let ghost kept = self.reads@;
        match self.position(id) {
            Some(i) => {
                assert(read_ids(kept).to_set().insert(id) =~= read_ids(kept).to_set()) by {
                    assert(read_ids(kept)[i as int] == id);
                }
                i
            },
            None => {
                self.reads.push(TrackedRead { id, signal: fresh, early_since: Some(now_ms) });
                assert(read_ids(self.reads@) =~= read_ids(kept).push(id));
                proof {
                    lemma_push_to_set(read_ids(kept), id);
                }
                self.reads.len() - 1
            },
        }
    }

    /// Forgets the read `id` once it answered or was dropped.
    pub fn finish(&mut self, id: u64)
        requires
            ids_distinct(old(self).reads@),
        ensures
            ids_distinct(final(self).reads@),
            forall|j: int| 0 <= j < final(self).reads@.len() ==> #[trigger] final(self).reads@[j].id != id,
            read_ids(final(self).reads@).to_set() == read_ids(old(self).reads@).to_set().remove(id),
    {
        let ghost before = self.reads@;
        match self.position(id) {
            Some(i) => {
                let _gone = self.reads.remove(i);
                assert(read_ids(self.reads@) =~= read_ids(before).remove(i as int));
                assert forall|j: int| 0 <= j < self.reads@.len() implies #[trigger] self.reads@[j].id != id by {
                    if j < i {
                        assert(self.reads@[j] == before[j]);
                    } else {
                        assert(self.reads@[j] == before[j + 1]);
                    }
                }
                assert(ids_distinct(self.reads@)) by {
                    assert forall|a: int, b: int| 0 <= a < b < self.reads@.len() implies self.reads@[a].id != self.reads@[b].id by {
                        let a0 = if a < i { a } else { a + 1 };
                        let b0 = if b < i { b } else { b + 1 };
                        assert(self.reads@[a] == before[a0]);
                        assert(self.reads@[b] == before[b0]);
                    }
                }
                assert(read_ids(self.reads@).to_set() =~= read_ids(before).to_set().remove(id)) by {
                    assert forall|x: u64| read_ids(self.reads@).to_set().contains(x) <==> read_ids(before).to_set().remove(id).contains(x) by {
                        if read_ids(before).to_set().remove(id).contains(x) {
                            let k = choose|k: int| 0 <= k < read_ids(before).len() && read_ids(before)[k] == x;
                            assert(k != i);
                            if k < i {
                                assert(read_ids(self.reads@)[k] == x);
                            } else {
                                assert(read_ids(self.reads@)[k - 1] == x);
                            }
                        }
                        if read_ids(self.reads@).to_set().contains(x) {
                            let k = choose|k: int| 0 <= k < read_ids(self.reads@).len() && read_ids(self.reads@)[k] == x;
                            assert(self.reads@[k].id != id);
                            if k < i {
                                assert(read_ids(before)[k] == x);
                            } else {
                                assert(read_ids(before)[k + 1] == x);
                            }
                        }
                    }
                }
            },
            None => {
                assert(read_ids(before).to_set().remove(id) =~= read_ids(before).to_set()) by {
                    assert forall|x: u64| read_ids(before).to_set().contains(x) implies x != id by {
                        let k = choose|k: int| 0 <= k < read_ids(before).len() && read_ids(before)[k] == x;
                        assert(before[k].id == x);
                    }
                }
            },
        }
    }
}

} // verus!
