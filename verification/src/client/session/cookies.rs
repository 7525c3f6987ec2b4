//! What the session reads out of cookies: who is signed in, whether the
//! provider's challenge was cleared, and which stored cookie a new one
//! replaces.

use vstd::prelude::*;
use crate::client::stream::{host_of, url_host};
use crate::text::{
    ascii_lower_seq, char_pred, chars_of, contains_seq, contains_str, is_str, same_chars,
    split_char, split_on, split_once, split_once_char, string_of, to_ascii_lowercase, trim,
    trim_start_by, trim_start_char, trimmed, views,
};

verus! {

/// The `name` and `value` of one piece of a cookie header: the piece without
/// surrounding white space, split at its first `=`, the name trimmed too.
pub open spec fn cookie_pair(piece: Seq<char>) -> Option<(Seq<char>, Seq<char>)> {
    match split_once(trimmed(piece), '=') {
        Some((n, v)) => Some((trimmed(n), v)),
        None => None,
    }
}

fn pair_of(piece: &Vec<char>) -> (r: Option<(Vec<char>, Vec<char>)>)
    ensures
        match r {
            Some((n, v)) => cookie_pair(piece@) == Some((n@, v@)),
            None => cookie_pair(piece@) is None,
        },
{
    match split_once_char(&trim(piece), '=') {
        Some((n, v)) => Some((trim(&n), v)),
        None => None,
    }
}

/// The user a run of cookie pieces names, and whether a password cookie is
/// among them: the last non-empty `dle_user_id` wins.
pub open spec fn account_cookies(pieces: Seq<Seq<char>>) -> (Option<Seq<char>>, bool)
    decreases pieces.len(),
{
    if pieces.len() == 0 {
        (None, false)
    } else {
        let (user, password) = account_cookies(pieces.drop_last());
        match cookie_pair(pieces.last()) {
            Some((n, v)) => if n == "dle_user_id"@ && trimmed(v).len() > 0 {
                (Some(trimmed(v)), password)
            } else if n == "dle_password"@ && trimmed(v).len() > 0 {
                (user, true)
            } else {
                (user, password)
            },
            None => (user, password),
        }
    }
}

/// The user a cookie header signs in: named by `dle_user_id`, and only when
/// a `dle_password` is set beside it.
pub open spec fn signed_in_user(header: Seq<char>) -> Option<Seq<char>> {
    let (user, password) = account_cookies(split_on(header, ';'));
    if password {
        user
    } else {
        None
    }
}

/// The user the cookies a jar sends to the provider sign in, if any.
pub fn authenticated_user(header: Option<&str>) -> (r: Option<String>)
    ensures
        match header {
            Some(h) => match r {
                Some(u) => signed_in_user(h@) == Some(u@),
                None => signed_in_user(h@) is None,
            },
            None => r is None,
        },
{
    let h = match header {
        Some(h) => h,
        None => return None,
    };
    let pieces = split_char(&chars_of(h), ';');
    let mut user: Option<Vec<char>> = None;
    let mut password = false;
    let mut i: usize = 0;
    proof {
        reveal_strlit("dle_user_id");
        reveal_strlit("dle_password");
    }
    while i < pieces.len()
        invariant
            i <= pieces.len(),
            views(pieces@) == split_on(h@, ';'),
            account_cookies(views(pieces@).subrange(0, i as int)) == (match user {
                Some(u) => Some(u@),
                None => None::<Seq<char>>,
            }, password),
        decreases pieces.len() - i,
    {
        assert(views(pieces@).subrange(0, i + 1).drop_last() =~= views(pieces@).subrange(0, i as int));
        match pair_of(&pieces[i]) {
            Some((n, v)) => {
                let value = trim(&v);
                if is_str(&n, "dle_user_id") && value.len() > 0 {
                    user = Some(value);
                } else if is_str(&n, "dle_password") && value.len() > 0 {
                    password = true;
                }
            },
            None => {},
        }
        i += 1;
    }
    assert(views(pieces@).subrange(0, pieces.len() as int) =~= views(pieces@));
    if password {
        match user {
            Some(u) => Some(string_of(u.as_slice())),
            None => None,
        }
    } else {
        None
    }
}


/// A piece of a cookie header that shows the provider's challenge was
/// cleared: a cookie whose name holds `anubis` but not `verification`, with
/// a value.
pub open spec fn clears_challenge(piece: Seq<char>) -> bool {
    match cookie_pair(piece) {
        Some((n, v)) => contains_seq(n, "anubis"@) && !contains_seq(n, "verification"@)
            && trimmed(v).len() > 0,
        None => false,
    }
}

/// Whether the cookies a jar sends to a host include a challenge clearance.
pub open spec fn cleared(header: Seq<char>) -> bool {
    exists|i: int| 0 <= i < split_on(header, ';').len() && #[trigger] clears_challenge(split_on(header, ';')[i])
}

/// Whether the cookie header a jar sends to a host includes a challenge
/// clearance.
pub fn has_clearance(h: &str) -> (r: bool)
    ensures
        r == cleared(h@),
{
    let pieces = split_char(&chars_of(h), ';');
    let mut i: usize = 0;
    proof {
        reveal_strlit("anubis");
        reveal_strlit("verification");
    }
    while i < pieces.len()
        invariant
            i <= pieces.len(),
            views(pieces@) == split_on(h@, ';'),
            forall|j: int| 0 <= j < i ==> !#[trigger] clears_challenge(split_on(h@, ';')[j]),
        decreases pieces.len() - i,
    {
        assert(views(pieces@)[i as int] == pieces@[i as int]@);
        match pair_of(&pieces[i]) {
            Some((n, v)) => {
                if contains_str(&n, "anubis") && !contains_str(&n, "verification") && trim(&v).len() > 0 {
                    assert(clears_challenge(split_on(h@, ';')[i as int]));
                    assert(exists|j: int|
                        0 <= j < split_on(h@, ';').len() && #[trigger] clears_challenge(split_on(h@, ';')[j]));
                    return true;
                }
            },
            None => {},
        }
        i += 1;
    }
    false
}

/// A cookie as the session keeps it for later: the address it was set for
/// and the `Set-Cookie` text it was set with, attributes included.
#[derive(Clone, Debug, PartialEq, Eq)]
pub struct StoredCookie {
    pub url: String,
    pub header: String,
}

pub open spec fn stored_view(c: StoredCookie) -> (Seq<char>, Seq<char>) {
    (c.url@, c.header@)
}

pub open spec fn stored_views(v: Seq<StoredCookie>) -> Seq<(Seq<char>, Seq<char>)> {
    v.map_values(|c: StoredCookie| stored_view(c))
}

/// The domain and path a cookie attribute sets, applied to the ones so far:
/// `Domain` lower-cased without leading dots, `Path` as written; the
/// attribute name is read without regard to ASCII case.
pub open spec fn with_attribute(at: (Seq<char>, Seq<char>), attribute: Seq<char>) -> (Seq<char>, Seq<char>) {
    match split_once(trimmed(attribute), '=') {
        Some((k, v)) => {
            let key = ascii_lower_seq(trimmed(k));
            if key == "domain"@ {
                (ascii_lower_seq(trim_start_by(trimmed(v), char_pred('.'))), at.1)
            } else if key == "path"@ {
                (at.0, trimmed(v))
            } else {
                at
            }
        },
        None => at,
    }
}

pub open spec fn with_attributes(at: (Seq<char>, Seq<char>), attributes: Seq<Seq<char>>) -> (Seq<char>, Seq<char>)
    decreases attributes.len(),
{
    if attributes.len() == 0 {
        at
    } else {
        with_attribute(with_attributes(at, attributes.drop_last()), attributes.last())
    }
}

/// What makes two cookies the same cookie: the name, lower-cased, and the
/// domain and path it is set for, the host of `url` and `/` unless the
/// attributes say otherwise. A cookie without a name, or set for an address
/// with no host, has none.
pub open spec fn identity_of(header: Seq<char>, url: Seq<char>) -> Option<(Seq<char>, Seq<char>, Seq<char>)> {
    let parts = split_on(header, ';');
    match split_once(parts[0], '=') {
        Some((n, _)) => {
            let name = ascii_lower_seq(trimmed(n));
            if name.len() == 0 {
                None
            } else {
                match url_host(url) {
                    Some(host) => {
                        let at = with_attributes((ascii_lower_seq(host), "/"@), parts.drop_first());
                        Some((name, at.0, at.1))
                    },
                    None => None,
                }
            }
        },
        None => None,
    }
}

pub open spec fn identity_view(i: Option<(Vec<char>, Vec<char>, Vec<char>)>) -> Option<(Seq<char>, Seq<char>, Seq<char>)> {
    match i {
        Some((a, b, c)) => Some((a@, b@, c@)),
        None => None,
    }
}

/// The identity of a cookie set by `header` for `url`.
pub fn cookie_identity(header: &str, url: &str) -> (r: Option<(Vec<char>, Vec<char>, Vec<char>)>)
    ensures
        identity_view(r) == identity_of(header@, url@),
{
    let parts = split_char(&chars_of(header), ';');
    proof {
        reveal_strlit("domain");
        reveal_strlit("path");
        reveal_strlit("/");
    }
    assert(views(parts@)[0] == parts@[0]@);
    let name = match split_once_char(&parts[0], '=') {
        Some((n, _)) => to_ascii_lowercase(&trim(&n)),
        None => return None,
    };
    if name.len() == 0 {
        return None;
    }
    let host = match host_of(url) {
        Some(h) => h,
        None => return None,
    };
    let mut domain = to_ascii_lowercase(&chars_of(host.as_str()));
    let mut path = chars_of("/");
    let ghost rest = split_on(header@, ';').drop_first();
    let mut i: usize = 1;
    while i < parts.len()
        invariant
            1 <= i <= parts.len(),
            views(parts@) == split_on(header@, ';'),
            rest == split_on(header@, ';').drop_first(),
            (domain@, path@) == with_attributes((ascii_lower_seq(host@), "/"@), rest.subrange(0, i - 1)),
        decreases parts.len() - i,
    {
        assert(rest.subrange(0, i as int).drop_last() =~= rest.subrange(0, i - 1));
        assert(rest[i - 1] == parts@[i as int]@);
        match split_once_char(&trim(&parts[i]), '=') {
            Some((k, v)) => {
                let key = to_ascii_lowercase(&trim(&k));
                if is_str(&key, "domain") {
                    domain = to_ascii_lowercase(&trim_start_char(&trim(&v), '.'));
                } else if is_str(&key, "path") {
                    path = trim(&v);
                }
            },
            None => {},
        }
        i += 1;
    }
    assert(rest.subrange(0, parts.len() - 1) =~= rest);
    Some((name, domain, path))
}

fn same_identity(a: &(Vec<char>, Vec<char>, Vec<char>), b: &(Vec<char>, Vec<char>, Vec<char>)) -> (r: bool)
    ensures
        r == ((a.0@, a.1@, a.2@) == (b.0@, b.1@, b.2@)),
{
    same_chars(&a.0, &b.0) && same_chars(&a.1, &b.1) && same_chars(&a.2, &b.2)
}

/// The stored cookies that are not the cookie `id`.
pub open spec fn others(stored: Seq<(Seq<char>, Seq<char>)>, id: (Seq<char>, Seq<char>, Seq<char>)) -> Seq<(Seq<char>, Seq<char>)>
    decreases stored.len(),
{
    if stored.len() == 0 {
        seq![]
    } else {
        let init = others(stored.drop_last(), id);
        if identity_of(stored.last().1, stored.last().0) == Some(id) {
            init
        } else {
            init.push(stored.last())
        }
    }
}

/// The stored cookies once `header` was set for `url`: it replaces every
/// stored cookie with its identity and goes last; one without an identity
/// changes nothing.
pub open spec fn remembered(stored: Seq<(Seq<char>, Seq<char>)>, header: Seq<char>, url: Seq<char>) -> Seq<(Seq<char>, Seq<char>)> {
    match identity_of(header, url) {
        Some(id) => others(stored, id).push((url, header)),
        None => stored,
    }
}

/// Keeps a cookie the jar was just given, for when the session is saved.
pub fn remember(stored: &mut Vec<StoredCookie>, header: &str, url: &str)
    ensures
        stored_views(final(stored)@) == remembered(stored_views(old(stored)@), header@, url@),
{
    let id = match cookie_identity(header, url) {
        Some(id) => id,
        None => return,
    };
    let ghost old_views = stored_views(stored@);
    let mut kept: Vec<StoredCookie> = Vec::new();
    let mut i: usize = 0;
    while i < stored.len()
        invariant
            i <= stored.len(),
            old_views == stored_views(stored@),
            stored_views(kept@) == others(old_views.subrange(0, i as int), (id.0@, id.1@, id.2@)),
        decreases stored.len() - i,
    {
        assert(old_views.subrange(0, i + 1).drop_last() =~= old_views.subrange(0, i as int));
        let c = StoredCookie { url: stored[i].url.clone(), header: stored[i].header.clone() };
        assert(c.url@ == stored@[i as int].url@ && c.header@ == stored@[i as int].header@);
        let same = match cookie_identity(c.header.as_str(), c.url.as_str()) {
            Some(other) => same_identity(&other, &id),
            None => false,
        };
        if !same {
            kept.push(c);
            assert(stored_views(kept@) =~= others(old_views.subrange(0, i as int), (id.0@, id.1@, id.2@)).push(old_views[i as int]));
        }
        i += 1;
    }
    assert(old_views.subrange(0, stored.len() as int) =~= old_views);
    kept.push(StoredCookie { url: string_of(chars_of(url).as_slice()), header: string_of(chars_of(header).as_slice()) });
    assert(stored_views(kept@) =~= remembered(old_views, header@, url@));
    *stored = kept;
}


/// Whether `url::Url::parse` reads an address.
pub uninterp spec fn url_parses(url: Seq<char>) -> bool;

/// `url::Url::parse(url).is_ok()`.
#[verifier::external_body]
pub(crate) fn parses_as_url(url: &str) -> (r: bool)
    ensures
        r == url_parses(url@),
{
    url::Url::parse(url).is_ok()
}

/// The stored cookies whose address reads as one.
pub open spec fn restorable_views(stored: Seq<(Seq<char>, Seq<char>)>) -> Seq<(Seq<char>, Seq<char>)>
    decreases stored.len(),
{
    if stored.len() == 0 {
        seq![]
    } else {
        let init = restorable_views(stored.drop_last());
        if url_parses(stored.last().0) {
            init.push(stored.last())
        } else {
            init
        }
    }
}

/// The cookies a session takes back from a stored list, in order: those set
/// for an address that still reads as one.
pub fn restorable(cookies: &Vec<StoredCookie>) -> (r: Vec<StoredCookie>)
    ensures
        stored_views(r@) == restorable_views(stored_views(cookies@)),
{
    let ghost all = stored_views(cookies@);
    let mut kept: Vec<StoredCookie> = Vec::new();
    let mut i: usize = 0;
    while i < cookies.len()
        invariant
            i <= cookies.len(),
            all == stored_views(cookies@),
            stored_views(kept@) == restorable_views(all.subrange(0, i as int)),
        decreases cookies.len() - i,
    {
        assert(all.subrange(0, i + 1).drop_last() =~= all.subrange(0, i as int));
        if parses_as_url(cookies[i].url.as_str()) {
            kept.push(StoredCookie { url: cookies[i].url.clone(), header: cookies[i].header.clone() });
            assert(stored_views(kept@) =~= restorable_views(all.subrange(0, i as int)).push(all[i as int]));
        }
        i += 1;
    }
    assert(all.subrange(0, cookies.len() as int) =~= all);
    kept
}


/// No two stored cookies are the same cookie.
pub open spec fn identities_unique(stored: Seq<(Seq<char>, Seq<char>)>) -> bool {
    forall|i: int, j: int|
        0 <= i < j < stored.len() && (#[trigger] identity_of(stored[i].1, stored[i].0)) is Some
            ==> identity_of(stored[i].1, stored[i].0) != #[trigger] identity_of(stored[j].1, stored[j].0)
}

proof fn lemma_others_members(stored: Seq<(Seq<char>, Seq<char>)>, id: (Seq<char>, Seq<char>, Seq<char>))
    ensures
        others(stored, id).len() <= stored.len(),
        forall|k: int| 0 <= k < others(stored, id).len() ==> identity_of(
            (#[trigger] others(stored, id)[k]).1,
            others(stored, id)[k].0,
        ) != Some(id) && exists|m: int| 0 <= m < stored.len() && stored[m] == others(stored, id)[k],
    decreases stored.len(),
{
    if stored.len() > 0 {
        let init = stored.drop_last();
        lemma_others_members(init, id);
        let o = others(stored, id);
        assert forall|k: int| 0 <= k < o.len() implies identity_of((#[trigger] o[k]).1, o[k].0) != Some(id)
            && exists|m: int| 0 <= m < stored.len() && stored[m] == o[k] by {
            if k < others(init, id).len() {
                assert(o[k] == others(init, id)[k]);
                let m = choose|m: int| 0 <= m < init.len() && init[m] == others(init, id)[k];
                assert(stored[m] == o[k]);
            } else {
                assert(o[k] == stored.last());
                assert(stored[stored.len() - 1] == o[k]);
            }
        }
    }
}

proof fn lemma_others_unique(stored: Seq<(Seq<char>, Seq<char>)>, id: (Seq<char>, Seq<char>, Seq<char>))
    requires
        identities_unique(stored),
    ensures
        identities_unique(others(stored, id)),
    decreases stored.len(),
{
    if stored.len() > 0 {
        let init = stored.drop_last();
        assert(identities_unique(init)) by {
            assert forall|i: int, j: int|
                0 <= i < j < init.len() && (#[trigger] identity_of(init[i].1, init[i].0)) is Some
                    implies identity_of(init[i].1, init[i].0) != #[trigger] identity_of(init[j].1, init[j].0) by {
                assert(init[i] == stored[i] && init[j] == stored[j]);
            }
        }
        lemma_others_unique(init, id);
        lemma_others_members(init, id);
        let oi = others(init, id);
        let o = others(stored, id);
        if identity_of(stored.last().1, stored.last().0) != Some(id) {
            assert forall|i: int, j: int|
                0 <= i < j < o.len() && (#[trigger] identity_of(o[i].1, o[i].0)) is Some
                    implies identity_of(o[i].1, o[i].0) != #[trigger] identity_of(o[j].1, o[j].0) by {
                if j < oi.len() {
                    assert(o[i] == oi[i] && o[j] == oi[j]);
                } else {
                    assert(o[i] == oi[i]);
                    assert(o[j] == stored.last());
                    let m = choose|m: int| 0 <= m < init.len() && init[m] == oi[i];
                    assert(stored[m] == o[i]);
                    assert(stored[stored.len() - 1] == o[j]);
                }
            }
        }
    }
}

/// Whatever cookies arrive, the stored list never holds the same cookie
/// twice, and a cookie with an identity is stored once, as it was last set.
pub proof fn law_one_stored_cookie_per_identity(stored: Seq<(Seq<char>, Seq<char>)>, header: Seq<char>, url: Seq<char>)
    requires
        identities_unique(stored),
    ensures
        identities_unique(remembered(stored, header, url)),
        identity_of(header, url) is Some ==> {
            let r = remembered(stored, header, url);
            &&& r.last() == (url, header)
            &&& forall|k: int| 0 <= k < r.len() - 1 ==> identity_of((#[trigger] r[k]).1, r[k].0) != identity_of(header, url)
        },
{
    match identity_of(header, url) {
        Some(id) => {
            lemma_others_unique(stored, id);
            lemma_others_members(stored, id);
            let o = others(stored, id);
            let r = o.push((url, header));
            assert forall|i: int, j: int|
                0 <= i < j < r.len() && (#[trigger] identity_of(r[i].1, r[i].0)) is Some
                    implies identity_of(r[i].1, r[i].0) != #[trigger] identity_of(r[j].1, r[j].0) by {
                assert(r[i] == o[i]);
                if j < o.len() {
                    assert(r[j] == o[j]);
                }
            }
            assert forall|k: int| 0 <= k < r.len() - 1 implies identity_of((#[trigger] r[k]).1, r[k].0) != identity_of(header, url) by {
                assert(r[k] == o[k]);
            }
        },
        None => {},
    }
}

} // verus!
