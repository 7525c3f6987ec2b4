//! Notification targets the account holder has already opened.
//!
//! The provider has no read state of its own, so unread counts are kept
//! per account on this device.

use vstd::prelude::*;
use crate::text::{chars_of, is_str, owned};

verus! {

/// The set of targets a list of them holds.
pub open spec fn url_set(urls: Seq<String>) -> Set<Seq<char>> {
    Set::new(|u: Seq<char>| exists|i: int| 0 <= i < urls.len() && urls[i]@ == u)
}

/// No target is listed twice.
pub open spec fn distinct(urls: Seq<String>) -> bool {
    forall|i: int, j: int| 0 <= i < j < urls.len() ==> urls[i]@ != urls[j]@
}

#[derive(Debug, Clone)]
pub struct SeenNotifications {
    /// Every target once.
    pub urls: Vec<String>,
}

impl Default for SeenNotifications {
    fn default() -> (r: Self)
        ensures
            r.urls@.len() == 0,
    {
        SeenNotifications { urls: Vec::new() }
    }
}

fn index_of(urls: &Vec<String>, url: &str) -> (r: Option<usize>)
    ensures
        match r {
            Some(i) => i < urls@.len() && urls@[i as int]@ == url@,
            None => forall|i: int| 0 <= i < urls@.len() ==> urls@[i]@ != url@,
        },
{
    let mut i: usize = 0;
    while i < urls.len()
        invariant
            i <= urls.len(),
            forall|j: int| 0 <= j < i ==> urls@[j]@ != url@,
        decreases urls.len() - i,
    {
        if is_str(&chars_of(urls[i].as_str()), url) {
            return Some(i);
        }
        i += 1;
    }
    None
}

impl SeenNotifications {
    /// The state held in a stored file, or an empty one when there is none.
    pub fn load(stored: Option<SeenNotifications>) -> (r: SeenNotifications)
        ensures
            stored matches Some(s) ==> r == s,
            stored is None ==> r.urls@.len() == 0,
    {
        match stored {
            Some(s) => s,
            None => SeenNotifications::default(),
        }
    }

    pub fn contains(&self, url: &str) -> (r: bool)
        ensures
            r == url_set(self.urls@).contains(url@),
    {
        index_of(&self.urls, url).is_some()
    }

    /// The state after one notification target was opened, to be stored:
    /// the target is marked seen, and only targets that are still listed
    /// are kept, so the file cannot grow without bound.
    pub fn mark_seen_for(&self, url: &str, listed: &Vec<String>) -> (r: SeenNotifications)
        requires
            distinct(self.urls@),
        ensures
            distinct(r.urls@),
            url_set(r.urls@) == url_set(self.urls@).insert(url@).intersect(url_set(listed@)),
            r.urls@.len() <= listed@.len(),
    {
        let mut all: Vec<String> = self.urls.clone();
        let found = index_of(&all, url);
        let ghost mut pos: int = 0;
        if found.is_some() {
            let k = found.unwrap();
            proof {
                pos = k as int;
            }
        }
        if found.is_none() {
            proof {
                pos = all@.len() as int;
            }
            let ghost before_push = all@;
            all.push(owned(url));
            assert forall|i: int, j: int| 0 <= i < j < all@.len() implies all@[i]@ != all@[j]@ by {
                if j == all@.len() - 1 {
                    assert(all@[i] == before_push[i]);
                }
            }
        }
        let ghost with_url = all@;
        assert(url_set(with_url) =~= url_set(self.urls@).insert(url@)) by {
            assert forall|u: Seq<char>| url_set(self.urls@).insert(url@).contains(u) implies url_set(
                with_url,
            ).contains(u) by {
                if u == url@ {
                    assert(0 <= pos < with_url.len() && with_url[pos]@ == url@);
                } else {
                    let k = choose|k: int| 0 <= k < self.urls@.len() && self.urls@[k]@ == u;
                    assert(with_url[k] == self.urls@[k]);
                }
            }
            assert forall|u: Seq<char>| url_set(with_url).contains(u) implies url_set(
                self.urls@,
            ).insert(url@).contains(u) by {
                let k = choose|k: int| 0 <= k < with_url.len() && with_url[k]@ == u;
                if k < self.urls@.len() {
                    assert(with_url[k] == self.urls@[k]);
                }
            }
        }
        let mut kept: Vec<String> = Vec::new();
        let mut i: usize = 0;
        while i < all.len()
            invariant
                i <= all.len(),
                all@ == with_url,
                distinct(with_url),
                distinct(kept@),
                forall|u: Seq<char>|
                    url_set(kept@).contains(u) <==> (exists|j: int|
                        0 <= j < i && with_url[j]@ == u) && url_set(listed@).contains(u),
            decreases all.len() - i,
        {
            let ghost before = kept@;
            if index_of(listed, all[i].as_str()).is_some() {
                kept.push(all[i].clone());
                assert forall|a: int, b: int| 0 <= a < b < kept@.len() implies kept@[a]@ != kept@[b]@ by {
                    if b == kept@.len() - 1 {
                        assert(url_set(before).contains(kept@[a]@));
                    }
                }
            }
            assert forall|u: Seq<char>|
                url_set(kept@).contains(u) <==> (exists|j: int|
                    0 <= j < i + 1 && with_url[j]@ == u) && url_set(listed@).contains(u) by {
                if url_set(kept@).contains(u) {
                    let k = choose|k: int| 0 <= k < kept@.len() && kept@[k]@ == u;
                    if k < before.len() {
                        assert(url_set(before).contains(u));
                    }
                }
                if (exists|j: int| 0 <= j < i + 1 && with_url[j]@ == u) && url_set(listed@).contains(u) {
                    let j = choose|j: int| 0 <= j < i + 1 && with_url[j]@ == u;
                    if j < i {
                        assert(url_set(before).contains(u));
                        let k = choose|k: int| 0 <= k < before.len() && before[k]@ == u;
                        assert(kept@[k] == before[k]);
                    } else {
                        assert(kept@[kept@.len() - 1]@ == u);
                    }
                }
            }
            i += 1;
        }
        assert(url_set(kept@) =~= url_set(self.urls@).insert(url@).intersect(url_set(listed@))) by {
            assert forall|u: Seq<char>| url_set(with_url).contains(u) implies (exists|j: int|
                0 <= j < all@.len() && with_url[j]@ == u) by {
            }
        }
        proof {
            assert forall|k: int| 0 <= k < kept@.len() implies url_set(listed@).contains(#[trigger] kept@[k]@) by {
                assert(url_set(kept@).contains(kept@[k]@));
            }
            lemma_distinct_within(kept@, listed@);
        }
        SeenNotifications { urls: kept }
    }
}

/// Targets listed once each, all among `listed`, are no more than `listed`.
proof fn lemma_distinct_within(kept: Seq<String>, listed: Seq<String>)
    requires
        distinct(kept),
        forall|k: int| 0 <= k < kept.len() ==> url_set(listed).contains(#[trigger] kept[k]@),
    ensures
        kept.len() <= listed.len(),
{
    let kv = kept.map_values(|u: String| u@);
    let lv = listed.map_values(|u: String| u@);
    assert(kv.no_duplicates()) by {
        assert forall|i: int, j: int| 0 <= i < kv.len() && 0 <= j < kv.len() && i != j implies kv[i] != kv[j] by {
            if i < j {
                assert(kept[i]@ != kept[j]@);
            } else {
                assert(kept[j]@ != kept[i]@);
            }
        }
    }
    kv.unique_seq_to_set();
    lv.lemma_cardinality_of_set();
    vstd::seq_lib::seq_to_set_is_finite(lv);
    assert(kv.to_set().subset_of(lv.to_set())) by {
        assert forall|x: Seq<char>| kv.to_set().contains(x) implies lv.to_set().contains(x) by {
            assert(kv.contains(x));
            let i = choose|i: int| 0 <= i < kv.len() && kv[i] == x;
            assert(url_set(listed).contains(kept[i]@));
            let j = choose|j: int| 0 <= j < listed.len() && listed[j]@ == kept[i]@;
            assert(lv[j] == x);
            assert(lv.contains(x));
        }
    }
    vstd::set_lib::lemma_len_subset(kv.to_set(), lv.to_set());
}

} // verus!
