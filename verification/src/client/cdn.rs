//! The CDN hosts streams are served from, and which of them can be reached.
//!
//! What is known about the hosts is kept in one shared record: which did
//! not answer when last asked, how fast the others answered the last check
//! of every host, and when that check ran. Times are milliseconds on the
//! caller's monotonic clock; latencies are nanoseconds.

use vstd::prelude::*;
use crate::client::models::StreamEntry;
use crate::client::stream::{cdn_mirrored, with_cdn_mirrors};
use crate::text::{chars_of, same_chars, string_views};

verus! {

/// How long a check of every host is trusted before the next one is due,
/// in milliseconds.
pub const CHECK_INTERVAL_MS: u64 = 600000;

/// The latency a host without one sorts by: the longest a `Duration` can
/// be, in nanoseconds.
pub const UNKNOWN_LATENCY: u128 = 18446744073709551615999999999;

/// What is known about the hosts, shared by every stream fetched.
pub struct Health {
    /// Hosts that did not answer when last asked, each once. They are still
    /// tried, but playback no longer waits for them to time out.
    pub down: Vec<String>,
    /// How long each host took to answer the last check of every host, one
    /// entry per host.
    pub latency: Vec<(String, u128)>,
    /// When the last check of every host finished.
    pub checked: Option<u64>,
    pub checking: bool,
}

/// No host is listed twice.
pub open spec fn well_formed(h: Health) -> bool {
    &&& forall|i: int, j: int| 0 <= i < j < h.down@.len() ==> h.down@[i]@ != h.down@[j]@
    &&& forall|i: int, j: int| 0 <= i < j < h.latency@.len() ==> h.latency@[i].0@ != h.latency@[j].0@
}

/// `origin` is known to be down.
pub open spec fn is_down(h: Health, origin: Seq<char>) -> bool {
    string_views(h.down@).contains(origin)
}

/// The latency listed for `origin`, the first one where a list has several.
pub open spec fn listed_latency(list: Seq<(String, u128)>, origin: Seq<char>) -> Option<u128>
    decreases list.len(),
{
    if list.len() == 0 {
        None
    } else if list[0].0@ == origin {
        Some(list[0].1)
    } else {
        listed_latency(list.drop_first(), origin)
    }
}

/// The latency known for `origin`.
pub open spec fn latency_of(h: Health, origin: Seq<char>) -> Option<u128> {
    listed_latency(h.latency@, origin)
}

impl Default for Health {
    fn default() -> (r: Self)
        ensures
            well_formed(r),
            forall|o: Seq<char>| !is_down(r, o) && latency_of(r, o) is None,
            r.checked is None,
            !r.checking,
    {
        let r = Health { down: Vec::new(), latency: Vec::new(), checked: None, checking: false };
        assert(string_views(r.down@) =~= Seq::<Seq<char>>::empty());
        r
    }
}

/// A check of every host is due: none is running, and the last one, if
/// any, finished at least an interval ago.
pub open spec fn check_due(h: Health, now: u64) -> bool {
    !h.checking && match h.checked {
        Some(c) => (if now >= c {
            now - c
        } else {
            0
        }) >= CHECK_INTERVAL_MS,
        None => true,
    }
}

/// Marks a check as running if one is due, and says whether it was.
pub fn claim_check(health: &mut Health, now: u64) -> (r: bool)
    ensures
        r == check_due(*old(health), now),
        final(health).checking == (old(health).checking || r),
        final(health).down == old(health).down,
        final(health).latency == old(health).latency,
        final(health).checked == old(health).checked,
{
    let recent = match health.checked {
        Some(c) => now.saturating_sub(c) < CHECK_INTERVAL_MS,
        None => false,
    };
    if health.checking || recent {
        return false;
    }
    health.checking = true;
    true
}

fn holds_origin(items: &Vec<String>, s: &str) -> (r: bool)
    ensures
        r == string_views(items@).contains(s@),
{
    let mut i: usize = 0;
    while i < items.len()
        invariant
            i <= items@.len(),
            forall|j: int| 0 <= j < i ==> items@[j]@ != s@,
        decreases items.len() - i,
    {
        if same_chars(&chars_of(items[i].as_str()), &chars_of(s)) {
            assert(string_views(items@)[i as int] == s@);
            return true;
        }
        i += 1;
    }
    proof {
        if string_views(items@).contains(s@) {
            let j = choose|j: int| 0 <= j < string_views(items@).len() && string_views(items@)[j] == s@;
            assert(items@[j]@ == s@);
        }
    }
    false
}

/// Marks `origin` down.
pub fn mark_down(health: &mut Health, origin: &str)
    requires
        well_formed(*old(health)),
    ensures
        well_formed(*final(health)),
        forall|o: Seq<char>| is_down(*final(health), o) == (is_down(*old(health), o) || o == origin@),
        final(health).latency == old(health).latency,
        final(health).checked == old(health).checked,
        final(health).checking == old(health).checking,
{
    if !holds_origin(&health.down, origin) {
        let ghost before = health.down@;
        let s = origin.to_string();
        assert forall|a: int| 0 <= a < before.len() implies before[a]@ != origin@ by {
            assert(string_views(before)[a] == before[a]@);
        }
        health.down.push(s);
        assert(health.down@ =~= before.push(s));
        assert(string_views(health.down@) =~= string_views(before).push(origin@));
        assert forall|o: Seq<char>| is_down(*health, o) == (string_views(before).contains(o) || o == origin@) by {
            if string_views(before).contains(o) {
                let j = choose|j: int| 0 <= j < string_views(before).len() && string_views(before)[j] == o;
                assert(string_views(health.down@)[j] == o);
            }
            if is_down(*health, o) && o != origin@ {
                let j = choose|j: int| 0 <= j < string_views(health.down@).len() && string_views(health.down@)[j] == o;
                assert(j < before.len());
                assert(string_views(before)[j] == o);
            }
            if o == origin@ {
                assert(string_views(health.down@)[before.len() as int] == o);
            }
        }
    }
}

/// No longer counts `origin` as down.
pub fn mark_up(health: &mut Health, origin: &str)
    requires
        well_formed(*old(health)),
    ensures
        well_formed(*final(health)),
        forall|o: Seq<char>| is_down(*final(health), o) == (is_down(*old(health), o) && o != origin@),
        final(health).latency == old(health).latency,
        final(health).checked == old(health).checked,
        final(health).checking == old(health).checking,
{
    let ghost before = health.down@;
    let mut kept: Vec<String> = Vec::new();
    let mut i: usize = 0;
    while i < health.down.len()
        invariant
            i <= before.len(),
            health.down@ == before,
            forall|a: int, b: int| 0 <= a < b < before.len() ==> before[a]@ != before[b]@,
            forall|o: Seq<char>|
                string_views(kept@).contains(o) == (string_views(before.subrange(0, i as int)).contains(o) && o != origin@),
            forall|a: int, b: int| 0 <= a < b < kept@.len() ==> kept@[a]@ != kept@[b]@,
            forall|a: int| 0 <= a < kept@.len() ==> string_views(before.subrange(0, i as int)).contains(#[trigger] kept@[a]@),
        decreases before.len() - i,
    {
        let ghost prev = kept@;
        let ghost upto = before.subrange(0, i as int);
        let ghost next = string_views(before.subrange(0, i + 1));
        assert(next =~= string_views(upto).push(before[i as int]@));
        let keep = !same_chars(&chars_of(health.down[i].as_str()), &chars_of(origin));
        if keep {
            let s = health.down[i].clone();
            kept.push(s);
            assert(kept@ =~= prev.push(s));
            assert(string_views(kept@) =~= string_views(prev).push(s@));
            assert forall|a: int| 0 <= a < prev.len() implies kept@[a]@ != s@ by {
                let j = choose|j: int| 0 <= j < string_views(upto).len() && string_views(upto)[j] == kept@[a]@;
                assert(before[j]@ == kept@[a]@);
            }
        }
        assert forall|o: Seq<char>| string_views(kept@).contains(o) == (next.contains(o) && o != origin@) by {
            if string_views(kept@).contains(o) {
                let j = choose|j: int| 0 <= j < string_views(kept@).len() && string_views(kept@)[j] == o;
                if j < prev.len() {
                    assert(string_views(prev)[j] == o);
                    assert(string_views(prev).contains(o));
                    let j2 = choose|j2: int| 0 <= j2 < string_views(upto).len() && #[trigger] string_views(upto)[j2] == o;
                    assert(next[j2] == o);
                } else {
                    assert(kept@[j]@ == before[i as int]@);
                    assert(next[i as int] == o);
                }
            }
            if next.contains(o) && o != origin@ {
                let j = choose|j: int| 0 <= j < next.len() && #[trigger] next[j] == o;
                if j < i {
                    assert(string_views(upto)[j] == o);
                    assert(string_views(upto).contains(o));
                    assert(string_views(prev).contains(o));
                    let j3 = choose|j3: int| 0 <= j3 < string_views(prev).len() && #[trigger] string_views(prev)[j3] == o;
                    assert(string_views(kept@)[j3] == o);
                } else {
                    assert(o == before[i as int]@);
                    assert(keep);
                    assert(string_views(kept@)[prev.len() as int] == o);
                }
            }
        }
        assert forall|a: int| 0 <= a < kept@.len() implies next.contains(#[trigger] kept@[a]@) by {
            if a < prev.len() {
                let j = choose|j: int| 0 <= j < string_views(upto).len() && string_views(upto)[j] == prev[a]@;
                assert(next[j] == prev[a]@);
            } else {
                assert(next[i as int] == kept@[a]@);
            }
        }
        i += 1;
    }
    assert(before.subrange(0, before.len() as int) =~= before);
    health.down = kept;
}

/// What the last result for `origin` among `results` says: how fast it
/// answered, or that it did not.
pub open spec fn last_result(results: Seq<(Seq<char>, Option<u128>)>, origin: Seq<char>) -> Option<Option<u128>>
    decreases results.len(),
{
    if results.len() == 0 {
        None
    } else if results.last().0 == origin {
        Some(results.last().1)
    } else {
        last_result(results.drop_last(), origin)
    }
}


pub proof fn lemma_listed_push(list: Seq<(String, u128)>, e: (String, u128), x: Seq<char>)
    ensures
        listed_latency(list.push(e), x) == match listed_latency(list, x) {
            Some(v) => Some(v),
            None => if e.0@ == x {
                Some(e.1)
            } else {
                None
            },
        },
    decreases list.len(),
{
    if list.len() > 0 {
        assert(list.push(e)[0] == list[0]);
        assert(list.push(e).drop_first() =~= list.drop_first().push(e));
        lemma_listed_push(list.drop_first(), e, x);
    } else {
        assert(list.push(e)[0] == e);
        assert(list.push(e).drop_first() =~= Seq::<(String, u128)>::empty());
        assert(listed_latency(Seq::<(String, u128)>::empty(), x) is None);
    }
}

fn without_latency(list: &Vec<(String, u128)>, origin: &str) -> (r: Vec<(String, u128)>)
    requires
        forall|i: int, j: int| 0 <= i < j < list@.len() ==> list@[i].0@ != list@[j].0@,
    ensures
        forall|i: int, j: int| 0 <= i < j < r@.len() ==> r@[i].0@ != r@[j].0@,
        forall|x: Seq<char>| listed_latency(r@, x) == if x == origin@ {
            None
        } else {
            listed_latency(list@, x)
        },
        forall|i: int| 0 <= i < r@.len() ==> (#[trigger] r@[i]).0@ != origin@,
{
    let mut out: Vec<(String, u128)> = Vec::new();
    let mut i: usize = 0;
    while i < list.len()
        invariant
            i <= list@.len(),
            forall|a: int, b: int| 0 <= a < b < list@.len() ==> list@[a].0@ != list@[b].0@,
            forall|a: int, b: int| 0 <= a < b < out@.len() ==> out@[a].0@ != out@[b].0@,
            forall|a: int| 0 <= a < out@.len() ==> (#[trigger] out@[a]).0@ != origin@,
            forall|a: int| 0 <= a < out@.len() ==> exists|b: int| 0 <= b < i && #[trigger] list@[b].0@ == (#[trigger] out@[a]).0@,
            forall|x: Seq<char>| listed_latency(out@, x) == if x == origin@ {
                None
            } else {
                listed_latency(list@.subrange(0, i as int), x)
            },
        decreases list.len() - i,
    {
        let ghost prev = out@;
        let ghost upto = list@.subrange(0, i as int);
        assert(list@.subrange(0, i + 1) =~= upto.push(list@[i as int]));
        if !same_chars(&chars_of(list[i].0.as_str()), &chars_of(origin)) {
            let e = (list[i].0.clone(), list[i].1);
            out.push(e);
            assert(out@ =~= prev.push(e));
            assert forall|a: int| 0 <= a < prev.len() implies prev[a].0@ != e.0@ by {
                let b = choose|b: int| 0 <= b < i && #[trigger] list@[b].0@ == prev[a].0@;
                assert(list@[b].0@ != list@[i as int].0@);
            }
            assert forall|x: Seq<char>| listed_latency(out@, x) == if x == origin@ {
                None
            } else {
                listed_latency(list@.subrange(0, i + 1), x)
            } by {
                lemma_listed_push(prev, e, x);
                lemma_listed_push(upto, list@[i as int], x);
            }
            assert forall|a: int| 0 <= a < out@.len() implies exists|b: int| 0 <= b < i + 1 && #[trigger] list@[b].0@ == (#[trigger] out@[a]).0@ by {
                if a == prev.len() {
                    assert(list@[i as int].0@ == out@[a].0@);
                } else {
                    let b = choose|b: int| 0 <= b < i && #[trigger] list@[b].0@ == prev[a].0@;
                    assert(list@[b].0@ == out@[a].0@);
                }
            }
        } else {
            assert forall|x: Seq<char>| listed_latency(out@, x) == if x == origin@ {
                None
            } else {
                listed_latency(list@.subrange(0, i + 1), x)
            } by {
                lemma_listed_push(upto, list@[i as int], x);
            }
        }
        i += 1;
    }
    assert(list@.subrange(0, list@.len() as int) =~= list@);
    out
}

/// Records how fast `origin` answered.
pub fn set_latency(health: &mut Health, origin: &str, latency: u128)
    requires
        well_formed(*old(health)),
    ensures
        well_formed(*final(health)),
        forall|x: Seq<char>| latency_of(*final(health), x) == if x == origin@ {
            Some(latency)
        } else {
            latency_of(*old(health), x)
        },
        final(health).down == old(health).down,
        final(health).checked == old(health).checked,
        final(health).checking == old(health).checking,
{
    let mut list = without_latency(&health.latency, origin);
    let ghost prev = list@;
    let e = (origin.to_string(), latency);
    list.push(e);
    assert(list@ =~= prev.push(e));
    assert forall|x: Seq<char>| listed_latency(list@, x) == if x == origin@ {
        Some(latency)
    } else {
        listed_latency(old(health).latency@, x)
    } by {
        lemma_listed_push(prev, e, x);
    }
    health.latency = list;
}

/// Forgets how fast `origin` answered.
pub fn clear_latency(health: &mut Health, origin: &str)
    requires
        well_formed(*old(health)),
    ensures
        well_formed(*final(health)),
        forall|x: Seq<char>| latency_of(*final(health), x) == if x == origin@ {
            None
        } else {
            latency_of(*old(health), x)
        },
        final(health).down == old(health).down,
        final(health).checked == old(health).checked,
        final(health).checking == old(health).checking,
{
    health.latency = without_latency(&health.latency, origin);
}

pub open spec fn result_views(results: Seq<(String, Option<u128>)>) -> Seq<(Seq<char>, Option<u128>)> {
    results.map_values(|r: (String, Option<u128>)| (r.0@, r.1))
}

/// Takes in the results of a check of every host: a host that answered is
/// up and keeps its latency, one that did not is down and has none; the
/// last result for a host counts. The check is then finished at `now`.
pub fn record_check(health: &mut Health, results: &Vec<(String, Option<u128>)>, now: u64)
    requires
        well_formed(*old(health)),
    ensures
        well_formed(*final(health)),
        forall|o: Seq<char>| is_down(*final(health), o) == match last_result(result_views(results@), o) {
            Some(Some(_)) => false,
            Some(None) => true,
            None => is_down(*old(health), o),
        },
        forall|o: Seq<char>| latency_of(*final(health), o) == match last_result(result_views(results@), o) {
            Some(l) => l,
            None => latency_of(*old(health), o),
        },
        final(health).checked == Some(now),
        !final(health).checking,
{
    let ghost start = *health;
    let ghost rv = result_views(results@);
    let mut i: usize = 0;
    while i < results.len()
        invariant
            i <= results@.len(),
            rv == result_views(results@),
            well_formed(*health),
            forall|o: Seq<char>| is_down(*health, o) == match last_result(rv.subrange(0, i as int), o) {
                Some(Some(_)) => false,
                Some(None) => true,
                None => is_down(start, o),
            },
            forall|o: Seq<char>| latency_of(*health, o) == match last_result(rv.subrange(0, i as int), o) {
                Some(l) => l,
                None => latency_of(start, o),
            },
        decreases results.len() - i,
    {
        assert(rv.subrange(0, i + 1).drop_last() =~= rv.subrange(0, i as int));
        assert(rv.subrange(0, i + 1).last() == (results@[i as int].0@, results@[i as int].1));
        let origin = results[i].0.as_str();
        let ghost before = *health;
        let ghost prefix = rv.subrange(0, i as int);
        let ghost next = rv.subrange(0, i + 1);
        assert(forall|o: Seq<char>| o != origin@ ==> last_result(next, o) == last_result(prefix, o));
        assert(last_result(next, origin@) == Some(results@[i as int].1));
        match results[i].1 {
            Some(l) => {
                mark_up(health, origin);
                let ghost mid = *health;
                set_latency(health, origin, l);
                assert forall|o: Seq<char>| is_down(*health, o) == match last_result(next, o) {
                    Some(Some(_)) => false,
                    Some(None) => true,
                    None => is_down(start, o),
                } by {
                    assert(is_down(*health, o) == is_down(mid, o));
                }
                assert forall|o: Seq<char>| latency_of(*health, o) == match last_result(next, o) {
                    Some(l) => l,
                    None => latency_of(start, o),
                } by {
                    assert(latency_of(mid, o) == latency_of(before, o));
                }
            },
            None => {
                clear_latency(health, origin);
                let ghost mid = *health;
                mark_down(health, origin);
                assert forall|o: Seq<char>| is_down(*health, o) == match last_result(next, o) {
                    Some(Some(_)) => false,
                    Some(None) => true,
                    None => is_down(start, o),
                } by {
                    assert(is_down(mid, o) == is_down(before, o));
                }
                assert forall|o: Seq<char>| latency_of(*health, o) == match last_result(next, o) {
                    Some(l) => l,
                    None => latency_of(start, o),
                } by {
                    assert(latency_of(*health, o) == latency_of(mid, o));
                }
            },
        }
        i += 1;
    }
    assert(rv.subrange(0, results@.len() as int) =~= rv);
    let ghost looped = *health;
    health.checked = Some(now);
    health.checking = false;
    assert(health.down == looped.down && health.latency == looped.latency);
    assert forall|o: Seq<char>| is_down(*health, o) == match last_result(rv, o) {
        Some(Some(_)) => false,
        Some(None) => true,
        None => is_down(start, o),
    } by {
        assert(is_down(*health, o) == is_down(looped, o));
    }
    assert forall|o: Seq<char>| latency_of(*health, o) == match last_result(rv, o) {
        Some(l) => l,
        None => latency_of(start, o),
    } by {
        assert(latency_of(*health, o) == latency_of(looped, o));
    }
}


/// The origin (`scheme://host[:port]`) the `url` crate gives an address,
/// or the empty text when it does not parse.
pub uninterp spec fn url_origin_text(url: Seq<char>) -> Seq<char>;

/// `url::Url::parse`, then `Url::origin` and `Origin::ascii_serialization`;
/// the empty string when the address does not parse.
#[verifier::external_body]
pub(crate) fn url_origin(url: &str) -> (r: String)
    ensures
        r@ == url_origin_text(url@),
{
    match url::Url::parse(url) {
        Ok(parsed) => parsed.origin().ascii_serialization(),
        Err(_) => String::new(),
    }
}

/// The first stream at or after `k` with more than one address, premium
/// ones only when `premium` allows.
pub open spec fn first_probe_from(streams: Seq<StreamEntry>, k: int, premium: bool) -> Option<int>
    decreases streams.len() - k,
{
    if k < 0 || k >= streams.len() {
        None
    } else if streams[k].urls@.len() > 1 && (premium || !streams[k].is_premium) {
        Some(k)
    } else {
        first_probe_from(streams, k + 1, premium)
    }
}

/// The stream whose hosts are probed: every quality lives on the same
/// hosts, so one speaks for all; the first one with alternatives that is
/// not premium, since premium ones may refuse an account without a
/// subscription, or else the first premium one.
pub open spec fn probe_entry(streams: Seq<StreamEntry>) -> Option<int> {
    match first_probe_from(streams, 0, false) {
        Some(i) => Some(i),
        None => first_probe_from(streams, 0, true),
    }
}

/// The first address on each origin among the first `n`.
pub open spec fn one_per_origin(urls: Seq<Seq<char>>, n: int) -> Seq<Seq<char>>
    decreases n,
{
    if n <= 0 {
        seq![]
    } else {
        let init = one_per_origin(urls, n - 1);
        if exists|j: int| 0 <= j < init.len() && url_origin_text(init[j]) == url_origin_text(urls[n - 1]) {
            init
        } else {
            init.push(urls[n - 1])
        }
    }
}

/// The addresses to probe: one request per host is enough.
pub open spec fn probe_candidates_of(streams: Seq<StreamEntry>) -> Seq<Seq<char>> {
    match probe_entry(streams) {
        Some(i) => one_per_origin(string_views(streams[i].urls@), streams[i].urls@.len() as int),
        None => seq![],
    }
}

fn first_probe(streams: &Vec<StreamEntry>, premium: bool) -> (r: Option<usize>)
    ensures
        match r {
            Some(i) => first_probe_from(streams@, 0, premium) == Some(i as int) && i < streams@.len(),
            None => first_probe_from(streams@, 0, premium) is None,
        },
{
    let mut k: usize = 0;
    while k < streams.len()
        invariant
            k <= streams@.len(),
            first_probe_from(streams@, 0, premium) == first_probe_from(streams@, k as int, premium),
        decreases streams.len() - k,
    {
        if streams[k].urls.len() > 1 && (premium || !streams[k].is_premium) {
            return Some(k);
        }
        k += 1;
    }
    None
}

/// The addresses to probe for a set of streams.
pub fn probe_candidates(streams: &Vec<StreamEntry>) -> (r: Vec<String>)
    ensures
        string_views(r@) == probe_candidates_of(streams@),
{
    let entry = match first_probe(streams, false) {
        Some(i) => i,
        None => match first_probe(streams, true) {
            Some(i) => i,
            None => {
                let none: Vec<String> = Vec::new();
                assert(string_views(none@) =~= seq![]);
                return none;
            },
        },
    };
    let urls = &streams[entry].urls;
    let ghost uv = string_views(urls@);
    let mut out: Vec<String> = Vec::new();
    let mut origins: Vec<String> = Vec::new();
    let mut i: usize = 0;
    while i < urls.len()
        invariant
            i <= urls@.len(),
            uv == string_views(urls@),
            string_views(out@) == one_per_origin(uv, i as int),
            origins@.len() == out@.len(),
            forall|j: int| 0 <= j < out@.len() ==> (#[trigger] origins@[j])@ == url_origin_text(out@[j]@),
        decreases urls.len() - i,
    {
        let origin = url_origin(urls[i].as_str());
        let seen = holds_origin(&origins, origin.as_str());
        let ghost init = string_views(out@);
        proof {
            if seen {
                let j = choose|j: int| 0 <= j < string_views(origins@).len() && string_views(origins@)[j] == origin@;
                assert(url_origin_text(init[j]) == url_origin_text(uv[i as int]));
            } else {
                assert forall|j: int| 0 <= j < init.len() implies url_origin_text(init[j]) != url_origin_text(uv[i as int]) by {
                    assert(string_views(origins@)[j] == origins@[j]@);
                }
            }
        }
        if !seen {
            let u = urls[i].clone();
            let ghost prev = out@;
            let ghost prev_origins = origins@;
            out.push(u);
            origins.push(origin);
            assert(out@ =~= prev.push(u));
            assert(origins@ =~= prev_origins.push(origin));
            assert(string_views(out@) =~= init.push(uv[i as int]));
        }
        i += 1;
    }
    out
}

/// Where a probe stands: whether the provider's own choice failed, and the
/// first of the others that answered.
pub struct ProbeState {
    pub first_failed: bool,
    pub first_answer: Option<usize>,
}

/// What to do after an answer: wait for more, or play from a candidate (or
/// from none, keeping the provider's order).
#[derive(Debug, Clone, Copy, PartialEq, Eq, Structural)]
pub enum ProbeVerdict {
    Waiting,
    Chosen(Option<usize>),
}

/// A probe before any answer: a first candidate on a host known to be down
/// counts as failed until it answers.
pub fn probe_start(health: &Health, first_origin: &str) -> (r: ProbeState)
    ensures
        r.first_failed == is_down(*health, first_origin@),
        r.first_answer is None,
{
    ProbeState { first_failed: holds_origin(&health.down, first_origin), first_answer: None }
}

/// Takes in whether candidate `index` answered. The first candidate wins
/// whenever it answers, since it is the provider's choice, and its host is
/// then up again; when it does not, its host is down. Otherwise the first
/// of the others to answer wins, once the first has failed.
pub fn probe_answered(
    state: &mut ProbeState,
    health: &mut Health,
    first_origin: &str,
    index: usize,
    answered: bool,
) -> (r: ProbeVerdict)
    requires
        well_formed(*old(health)),
    ensures
        well_formed(*final(health)),
        index == 0 && answered ==> r == ProbeVerdict::Chosen(Some(0)) && forall|o: Seq<char>|
            is_down(*final(health), o) == (is_down(*old(health), o) && o != first_origin@),
        index == 0 && !answered ==> final(state).first_failed && final(state).first_answer
            == old(state).first_answer && forall|o: Seq<char>|
            is_down(*final(health), o) == (is_down(*old(health), o) || o == first_origin@),
        index != 0 ==> final(state).first_failed == old(state).first_failed && final(state).first_answer
            == if answered && old(state).first_answer is None {
            Some(index)
        } else {
            old(state).first_answer
        } && *final(health) == *old(health),
        !(index == 0 && answered) ==> r == if final(state).first_failed && final(state).first_answer is Some {
            ProbeVerdict::Chosen(final(state).first_answer)
        } else {
            ProbeVerdict::Waiting
        },
        final(health).latency == old(health).latency,
        final(health).checked == old(health).checked,
        final(health).checking == old(health).checking,
{
    if index == 0 {
        if answered {
            mark_up(health, first_origin);
            return ProbeVerdict::Chosen(Some(0));
        }
        mark_down(health, first_origin);
        state.first_failed = true;
    } else if answered && state.first_answer.is_none() {
        state.first_answer = Some(index);
    }
    if state.first_failed && state.first_answer.is_some() {
        ProbeVerdict::Chosen(state.first_answer)
    } else {
        ProbeVerdict::Waiting
    }
}

/// How an address sorts once a host was chosen: the chosen host first, the
/// hosts known to be down last, the rest between; then by latency, unknown
/// latencies last.
pub open spec fn url_key(url: Seq<char>, origin: Seq<char>, h: Health) -> (u8, u128) {
    let o = url_origin_text(url);
    (
        if o == origin {
            0u8
        } else if is_down(h, o) {
            2u8
        } else {
            1u8
        },
        match latency_of(h, o) {
            Some(l) => l,
            None => UNKNOWN_LATENCY,
        },
    )
}

pub open spec fn key_before(a: (u8, u128), b: (u8, u128)) -> bool {
    a.0 < b.0 || (a.0 == b.0 && a.1 < b.1)
}

/// The first index of a least key among the first `n`.
pub open spec fn first_least(keys: Seq<(u8, u128)>, n: int) -> int
    decreases n,
{
    if n <= 1 {
        0
    } else {
        let m = first_least(keys, n - 1);
        if key_before(keys[n - 1], keys[m]) {
            n - 1
        } else {
            m
        }
    }
}

/// `items` sorted stably by `keys`: the first least one, then the rest
/// sorted the same way.
pub open spec fn stable_by_key(items: Seq<Seq<char>>, keys: Seq<(u8, u128)>) -> Seq<Seq<char>>
    decreases items.len(),
{
    if items.len() == 0 || keys.len() != items.len() {
        items
    } else {
        let m = first_least(keys, keys.len() as int);
        if 0 <= m < items.len() {
            seq![items[m]] + stable_by_key(items.remove(m), keys.remove(m))
        } else {
            items
        }
    }
}

pub proof fn lemma_first_least_in_range(keys: Seq<(u8, u128)>, n: int)
    requires
        1 <= n,
    ensures
        0 <= first_least(keys, n) < n,
    decreases n,
{
    if n > 1 {
        lemma_first_least_in_range(keys, n - 1);
    }
}

/// The keys of addresses, in order.
pub open spec fn url_keys(urls: Seq<Seq<char>>, origin: Seq<char>, h: Health) -> Seq<(u8, u128)> {
    urls.map_values(|u: Seq<char>| url_key(u, origin, h))
}

fn key_of(url: &str, origin: &str, health: &Health) -> (r: (u8, u128))
    ensures
        r == url_key(url@, origin@, *health),
{
    let o = url_origin(url);
    let group: u8 = if same_chars(&chars_of(o.as_str()), &chars_of(origin)) {
        0
    } else if holds_origin(&health.down, o.as_str()) {
        2
    } else {
        1
    };
    let ghost list = health.latency@;
    let mut latency: u128 = UNKNOWN_LATENCY;
    let mut i: usize = 0;
    assert(list.subrange(0, list.len() as int) =~= list);
    let mut found = false;
    while i < health.latency.len()
        invariant
            i <= list.len(),
            list == health.latency@,
            !found ==> listed_latency(list, o@) == listed_latency(list.subrange(i as int, list.len() as int), o@),
            !found ==> latency == UNKNOWN_LATENCY,
            found ==> listed_latency(list, o@) == Some(latency),
        decreases list.len() - i,
    {
        if !found {
            assert(list.subrange(i as int, list.len() as int).drop_first() =~= list.subrange(i + 1, list.len() as int));
            assert(list.subrange(i as int, list.len() as int)[0] == list[i as int]);
            if same_chars(&chars_of(health.latency[i].0.as_str()), &chars_of(o.as_str())) {
                latency = health.latency[i].1;
                found = true;
            }
        }
        i += 1;
    }
    assert(list.subrange(list.len() as int, list.len() as int) =~= Seq::<(String, u128)>::empty());
    (group, latency)
}

/// `urls` sorted stably by their keys once `origin` was chosen.
pub fn reorder_urls(urls: &Vec<String>, origin: &str, health: &Health) -> (r: Vec<String>)
    ensures
        string_views(r@) == stable_by_key(string_views(urls@), url_keys(string_views(urls@), origin@, *health)),
{
    let mut items: Vec<String> = Vec::new();
    let mut keys: Vec<(u8, u128)> = Vec::new();
    let ghost uv = string_views(urls@);
    let mut i: usize = 0;
    while i < urls.len()
        invariant
            i <= urls@.len(),
            uv == string_views(urls@),
            string_views(items@) == uv.subrange(0, i as int),
            keys@ == url_keys(uv, origin@, *health).subrange(0, i as int),
        decreases urls.len() - i,
    {
        let u = urls[i].clone();
        let k = key_of(u.as_str(), origin, health);
        let ghost prev = items@;
        let ghost prev_keys = keys@;
        items.push(u);
        keys.push(k);
        assert(items@ =~= prev.push(u));
        assert(u@ == uv[i as int]);
        assert(string_views(items@) =~= string_views(prev).push(u@));
        assert(string_views(items@) =~= uv.subrange(0, i + 1));
        assert(keys@ =~= url_keys(uv, origin@, *health).subrange(0, i + 1));
        i += 1;
    }
    assert(uv.subrange(0, urls@.len() as int) =~= uv);
    assert(url_keys(uv, origin@, *health).subrange(0, urls@.len() as int) =~= url_keys(uv, origin@, *health));
    let ghost all = stable_by_key(uv, url_keys(uv, origin@, *health));
    let mut out: Vec<String> = Vec::new();
    while items.len() > 0
        invariant
            keys@.len() == items@.len(),
            string_views(out@) + stable_by_key(string_views(items@), keys@) == all,
        decreases items.len(),
    {
        let mut m: usize = 0;
        let mut j: usize = 1;
        while j < keys.len()
            invariant
                1 <= j <= keys@.len(),
                m as int == first_least(keys@, j as int),
                m < j,
            decreases keys.len() - j,
        {
            let a = keys[j];
            let b = keys[m];
            if a.0 < b.0 || (a.0 == b.0 && a.1 < b.1) {
                m = j;
            }
            j += 1;
        }
        let ghost iv = string_views(items@);
        let ghost kv = keys@;
        proof {
            lemma_first_least_in_range(kv, kv.len() as int);
        }
        let picked = items.remove(m);
        keys.remove(m);
        let ghost prev = out@;
        out.push(picked);
        assert(out@ =~= prev.push(picked));
        assert(string_views(items@) =~= iv.remove(m as int));
        assert(string_views(out@) + stable_by_key(string_views(items@), keys@) =~= string_views(prev)
            + stable_by_key(iv, kv));
    }
    assert(string_views(items@) =~= Seq::<Seq<char>>::empty());
    assert(string_views(out@) =~= all);
    out
}

/// Puts the chosen host first in every stream's addresses, the others
/// after it from the fastest, and the ones known to be down last; the
/// provider's order holds among equals.
pub fn reorder_streams(streams: &mut Vec<StreamEntry>, origin: &str, health: &Health)
    ensures
        final(streams)@.len() == old(streams)@.len(),
        forall|i: int|
            0 <= i < final(streams)@.len() ==> string_views((#[trigger] final(streams)@[i]).urls@) == stable_by_key(
                string_views(old(streams)@[i].urls@),
                url_keys(string_views(old(streams)@[i].urls@), origin@, *health),
            ) && final(streams)@[i].quality == old(streams)@[i].quality && final(streams)@[i].is_premium
                == old(streams)@[i].is_premium,
{
    let ghost before = streams@;
    let mut out: Vec<StreamEntry> = Vec::new();
    let mut i: usize = 0;
    while i < streams.len()
        invariant
            i <= before.len(),
            streams@ == before,
            out@.len() == i,
            forall|j: int|
                0 <= j < i ==> string_views((#[trigger] out@[j]).urls@) == stable_by_key(
                    string_views(before[j].urls@),
                    url_keys(string_views(before[j].urls@), origin@, *health),
                ) && out@[j].quality == before[j].quality && out@[j].is_premium == before[j].is_premium,
        decreases before.len() - i,
    {
        let urls = reorder_urls(&streams[i].urls, origin, health);
        out.push(StreamEntry { quality: streams[i].quality.clone(), is_premium: streams[i].is_premium, urls });
        i += 1;
    }
    *streams = out;
}


/// Follows `urls` with the same files on every other known host.
pub fn with_mirrors(urls: Vec<String>) -> (r: Vec<String>)
    ensures
        string_views(r@) == cdn_mirrored(string_views(urls@)),
{
    with_cdn_mirrors(urls)
}

/// The first address whose origin is `origin`.
pub open spec fn first_on_origin(urls: Seq<Seq<char>>, origin: Seq<char>) -> Option<int> {
    if exists|i: int| 0 <= i < urls.len() && url_origin_text(urls[i]) == origin {
        Some(
            choose|i: int|
                0 <= i < urls.len() && url_origin_text(urls[i]) == origin && forall|j: int|
                    0 <= j < i ==> url_origin_text(urls[j]) != origin,
        )
    } else {
        None
    }
}

/// `urls` with the first address on `origin` moved to the front.
pub open spec fn moved_first(urls: Seq<Seq<char>>, origin: Seq<char>) -> Seq<Seq<char>> {
    match first_on_origin(urls, origin) {
        Some(p) => seq![urls[p]] + urls.remove(p),
        None => urls,
    }
}

fn moved_urls(urls: &Vec<String>, origin: &str) -> (r: Vec<String>)
    ensures
        string_views(r@) == moved_first(string_views(urls@), origin@),
{
    let ghost uv = string_views(urls@);
    let mut p: usize = 0;
    let mut found = false;
    while p < urls.len() && !found
        invariant
            p <= urls@.len(),
            uv == string_views(urls@),
            forall|j: int| 0 <= j < p ==> url_origin_text(uv[j]) != origin@,
            found ==> p < urls@.len() && url_origin_text(uv[p as int]) == origin@,
        decreases urls.len() - p + (if found {
            0int
        } else {
            1int
        }),
    {
        let o = url_origin(urls[p].as_str());
        if same_chars(&chars_of(o.as_str()), &chars_of(origin)) {
            found = true;
        } else {
            p += 1;
        }
    }
    let mut out: Vec<String> = Vec::new();
    if p < urls.len() {
        proof {
            assert(url_origin_text(uv[p as int]) == origin@);
            let q = choose|q: int|
                0 <= q < uv.len() && url_origin_text(uv[q]) == origin@ && forall|j: int|
                    0 <= j < q ==> url_origin_text(uv[j]) != origin@;
            if q < p {
                assert(url_origin_text(uv[q]) != origin@);
            } else if q > p {
                assert(url_origin_text(uv[p as int]) != origin@);
            }
            assert(first_on_origin(uv, origin@) == Some(p as int));
        }
        let first = urls[p].clone();
        out.push(first);
    } else {
        assert(first_on_origin(uv, origin@) is None);
    }
    let ghost head = string_views(out@);
    let mut i: usize = 0;
    while i < urls.len()
        invariant
            i <= urls@.len(),
            uv == string_views(urls@),
            string_views(out@) == head + (if p < urls@.len() {
                uv.remove(p as int)
            } else {
                uv
            }).subrange(0, if p < urls@.len() && i > p {
                i - 1
            } else {
                i as int
            }),
        decreases urls.len() - i,
    {
        if i != p {
            let ghost prev = out@;
            let u = urls[i].clone();
            out.push(u);
            assert(out@ =~= prev.push(u));
            assert(u@ == uv[i as int]);
            assert(string_views(out@) =~= string_views(prev).push(uv[i as int]));
        }
        let ghost rest = if p < urls@.len() {
            uv.remove(p as int)
        } else {
            uv
        };
        assert(string_views(out@) =~= head + rest.subrange(0, if p < urls@.len() && i + 1 > p {
            i as int
        } else {
            i + 1
        }));
        i += 1;
    }
    proof {
        if p < urls@.len() {
            assert(uv.remove(p as int).subrange(0, urls@.len() - 1) =~= uv.remove(p as int));
            assert(head =~= seq![uv[p as int]]);
        } else {
            assert(uv.subrange(0, urls@.len() as int) =~= uv);
            assert(head =~= Seq::<Seq<char>>::empty());
        }
    }
    out
}

/// Moves the first address on `origin` to the front of every stream's
/// addresses, keeping the others in order.
pub fn move_origin_first(streams: &mut Vec<StreamEntry>, origin: &str)
    ensures
        final(streams)@.len() == old(streams)@.len(),
        forall|i: int|
            0 <= i < final(streams)@.len() ==> string_views((#[trigger] final(streams)@[i]).urls@) == moved_first(
                string_views(old(streams)@[i].urls@),
                origin@,
            ) && final(streams)@[i].quality == old(streams)@[i].quality && final(streams)@[i].is_premium
                == old(streams)@[i].is_premium,
{
    let ghost before = streams@;
    let mut out: Vec<StreamEntry> = Vec::new();
    let mut i: usize = 0;
    while i < streams.len()
        invariant
            i <= before.len(),
            streams@ == before,
            out@.len() == i,
            forall|j: int|
                0 <= j < i ==> string_views((#[trigger] out@[j]).urls@) == moved_first(
                    string_views(before[j].urls@),
                    origin@,
                ) && out@[j].quality == before[j].quality && out@[j].is_premium == before[j].is_premium,
        decreases before.len() - i,
    {
        let urls = moved_urls(&streams[i].urls, origin);
        out.push(StreamEntry { quality: streams[i].quality.clone(), is_premium: streams[i].is_premium, urls });
        i += 1;
    }
    *streams = out;
}


/// A check of the hosts runs at most once at a time and at most once per
/// interval: while one runs none is due, and once one was recorded at `t`
/// the next is due exactly when the interval since `t` has passed.
pub proof fn law_checks_run_once_per_interval(h: Health, t: u64, now: u64)
    ensures
        h.checking ==> !check_due(h, now),
        (!h.checking && h.checked == Some(t) && t <= now) ==> (check_due(h, now) <==> now - t >= CHECK_INTERVAL_MS),
        (!h.checking && h.checked is None) ==> check_due(h, now),
{
}


proof fn lemma_first_least_is_least(keys: Seq<(u8, u128)>, n: int)
    requires
        1 <= n <= keys.len(),
    ensures
        forall|j: int| 0 <= j < n ==> !key_before(#[trigger] keys[j], keys[first_least(keys, n)]),
    decreases n,
{
    lemma_first_least_in_range(keys, n);
    if n > 1 {
        lemma_first_least_is_least(keys, n - 1);
        lemma_first_least_in_range(keys, n - 1);
    }
}

/// Once a host was chosen, an address on it leads the reordered list
/// whenever the list holds one.
pub proof fn law_chosen_host_leads(urls: Seq<Seq<char>>, origin: Seq<char>, h: Health, i: int)
    requires
        0 <= i < urls.len(),
        url_origin_text(urls[i]) == origin,
    ensures
        url_origin_text(stable_by_key(urls, url_keys(urls, origin, h))[0]) == origin,
{
    let keys = url_keys(urls, origin, h);
    let n = keys.len() as int;
    lemma_first_least_in_range(keys, n);
    lemma_first_least_is_least(keys, n);
    let m = first_least(keys, n);
    assert(keys[i] == url_key(urls[i], origin, h));
    assert(keys[m] == url_key(urls[m], origin, h));
    assert(!key_before(keys[i], keys[m]));
    assert(stable_by_key(urls, keys)[0] == urls[m]);
}

} // verus!
