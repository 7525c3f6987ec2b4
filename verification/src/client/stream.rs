//! The stream list and subtitles the player endpoint returns.

use vstd::prelude::*;
use base64::Engine;
use crate::client::models::{StreamBundle, StreamEntry, SubtitleTrack};
use crate::json::{
    json_bool, json_bool_at, json_error, json_members, json_members_at, json_parse_error, json_text,
    json_text_at, pair_views, text_members, text_pairs,
};
use crate::text::{
    opt_view,
    char_pred, chars_of, contains_seq, split_at_str, split_str, contains_str, find_char, first_index, is_str,
    lemma_first_index, lowercased, owned, same_chars, slice_vec, split_char, split_on, string_of,
    has_prefix, matches_at, occurs_at, push_all, starts_with, trim_end_by, trim_end_char,
    trim_start_by, trim_start_char, string_views, to_lowercase, to_uppercase, trim, trimmed, uppercased, views,
};

verus! {

/// The code and URL a subtitle chunk such as `[eng]https://…/en.vtt` names,
/// when it names both.
pub open spec fn subtitle_pair(chunk: Seq<char>) -> Option<(Seq<char>, Seq<char>)> {
    let c = trimmed(chunk);
    if c.len() == 0 {
        None
    } else {
        match (first_index(c, '['), first_index(c, ']')) {
            (Some(a), Some(b)) => {
                let code = trimmed(c.subrange(a + 1, b));
                let url = trimmed(c.subrange(b + 1, c.len() as int));
                if code.len() > 0 && url.len() > 0 {
                    Some((code, url))
                } else {
                    None
                }
            },
            _ => None,
        }
    }
}

/// A chunk the subtitle list can be cut from: where it names a code, the
/// opening bracket comes before the closing one.
pub open spec fn brackets_in_order(chunk: Seq<char>) -> bool {
    let c = trimmed(chunk);
    match (first_index(c, '['), first_index(c, ']')) {
        (Some(a), Some(b)) => a < b,
        _ => true,
    }
}

/// Every chunk of a subtitle list can be cut; the provider's lists are.
pub open spec fn subtitle_list_well_formed(raw: Seq<char>) -> bool {
    forall|k: int| 0 <= k < split_on(raw, ',').len() ==> brackets_in_order(#[trigger] split_on(raw, ',')[k])
}

/// The (code, URL) pairs of a subtitle list, in order.
pub open spec fn subtitle_pairs_of(chunks: Seq<Seq<char>>) -> Seq<(Seq<char>, Seq<char>)>
    decreases chunks.len(),
{
    if chunks.len() == 0 {
        seq![]
    } else {
        let init = subtitle_pairs_of(chunks.drop_last());
        match subtitle_pair(chunks.last()) {
            Some(p) => init.push(p),
            None => init,
        }
    }
}

pub open spec fn subtitle_pairs(raw: Seq<char>) -> Seq<(Seq<char>, Seq<char>)> {
    subtitle_pairs_of(split_on(raw, ','))
}

/// The language a name maps to in `subtitle_lns`.
pub open spec fn lookup(lns: Seq<(Seq<char>, Seq<char>)>, key: Seq<char>) -> Option<Seq<char>>
    decreases lns.len(),
{
    if lns.len() == 0 {
        None
    } else if lns[0].0 == key {
        Some(lns[0].1)
    } else {
        lookup(lns.drop_first(), key)
    }
}

/// The title a subtitle code is shown under.
pub open spec fn subtitle_label(code: Seq<char>) -> Seq<char> {
    let l = lowercased(code);
    if l == "rus"@ || l == "ru"@ {
        "Русские"@
    } else if l == "eng"@ || l == "en"@ {
        "English"@
    } else if l == "ukr"@ || l == "ua"@ {
        "Українські"@
    } else if l == "ger"@ || l == "de"@ {
        "Deutsch"@
    } else if l == "fre"@ || l == "fr"@ {
        "Français"@
    } else if l == "spa"@ || l == "es"@ {
        "Español"@
    } else {
        uppercased(code)
    }
}

/// The track a (code, URL) pair becomes: `subtitle_lns` gives its language
/// code, and the `subtitle_def` code marks the default track.
pub open spec fn is_track(t: SubtitleTrack, pair: (Seq<char>, Seq<char>), default_code: Seq<char>, lns: Seq<(Seq<char>, Seq<char>)>) -> bool {
    &&& t.code@ == pair.0
    &&& t.title@ == subtitle_label(pair.0)
    &&& t.url@ == pair.1
    &&& opt_view(t.language_code) == lookup(lns, pair.0)
    &&& t.is_default == (default_code.len() > 0 && lookup(lns, pair.0) == Some(default_code))
}

fn map_subtitle_code_to_label(code: &str) -> (r: String)
    ensures
        r@ == subtitle_label(code@),
{
    let l = chars_of(to_lowercase(code).as_str());
    if is_str(&l, "rus") || is_str(&l, "ru") {
        owned("Русские")
    } else if is_str(&l, "eng") || is_str(&l, "en") {
        owned("English")
    } else if is_str(&l, "ukr") || is_str(&l, "ua") {
        owned("Українські")
    } else if is_str(&l, "ger") || is_str(&l, "de") {
        owned("Deutsch")
    } else if is_str(&l, "fre") || is_str(&l, "fr") {
        owned("Français")
    } else if is_str(&l, "spa") || is_str(&l, "es") {
        owned("Español")
    } else {
        to_uppercase(code)
    }
}

fn lookup_lns(lns: &Vec<(String, String)>, key: &Vec<char>) -> (r: Option<String>)
    ensures
        opt_view(r) == lookup(pair_views(lns@), key@),
{
    let ghost pv = pair_views(lns@);
    let mut i: usize = 0;
    assert(pv.subrange(0, pv.len() as int) =~= pv);
    while i < lns.len()
        invariant
            i <= lns.len(),
            pv == pair_views(lns@),
            lookup(pv, key@) == lookup(pv.subrange(i as int, pv.len() as int), key@),
        decreases lns.len() - i,
    {
        assert(pv.subrange(i as int, pv.len() as int).drop_first() =~= pv.subrange(
            i + 1,
            pv.len() as int,
        ));
        assert(pv.subrange(i as int, pv.len() as int)[0] == pv[i as int]);
        if same_chars(&chars_of(lns[i].0.as_str()), key) {
            return Some(lns[i].1.clone());
        }
        i += 1;
    }
    None
}

fn subtitle_chunk(chunk: &Vec<char>) -> (r: Option<(Vec<char>, Vec<char>)>)
    requires
        brackets_in_order(chunk@),
    ensures
        match r {
            Some((a, b)) => subtitle_pair(chunk@) == Some((a@, b@)),
            None => subtitle_pair(chunk@) is None,
        },
{
    let c = trim(chunk);
    if c.len() == 0 {
        return None;
    }
    match (find_char(&c, '['), find_char(&c, ']')) {
        (Some(a), Some(b)) => {
            proof {
                lemma_first_index(c@, '[', a as int);
                lemma_first_index(c@, ']', b as int);
            }
            let code = trim(&slice_vec(&c, a + 1, b));
            let url = trim(&slice_vec(&c, b + 1, c.len()));
            if code.len() > 0 && url.len() > 0 {
                Some((code, url))
            } else {
                None
            }
        },
        (a, b) => {
            proof {
                if let Some(x) = a {
                    lemma_first_index(c@, '[', x as int);
                }
                if let Some(y) = b {
                    lemma_first_index(c@, ']', y as int);
                }
            }
            None
        },
    }
}

/// Parses the `subtitle` string together with the `subtitle_def` default
/// language code and the `subtitle_lns` name-to-language-code pairs.
pub fn parse_subtitles_with_meta(raw_sub: &str, default_code: &str, lns: &Vec<(String, String)>) -> (r: Vec<SubtitleTrack>)
    requires
        subtitle_list_well_formed(raw_sub@),
    ensures
        r@.len() == subtitle_pairs(raw_sub@).len(),
        forall|i: int|
            0 <= i < r@.len() ==> is_track(
                #[trigger] r@[i],
                subtitle_pairs(raw_sub@)[i],
                default_code@,
                pair_views(lns@),
            ),
{
    let chunks = split_char(&chars_of(raw_sub), ',');
    let ghost cv = views(chunks@);
    let dc = chars_of(default_code);
    let mut tracks: Vec<SubtitleTrack> = Vec::new();
    let mut k: usize = 0;
    while k < chunks.len()
        invariant
            k <= chunks@.len(),
            cv == views(chunks@),
            cv == split_on(raw_sub@, ','),
            subtitle_list_well_formed(raw_sub@),
            dc@ == default_code@,
            tracks@.len() == subtitle_pairs_of(cv.subrange(0, k as int)).len(),
            forall|i: int|
                0 <= i < tracks@.len() ==> is_track(
                    #[trigger] tracks@[i],
                    subtitle_pairs_of(cv.subrange(0, k as int))[i],
                    default_code@,
                    pair_views(lns@),
                ),
        decreases chunks.len() - k,
    {
        assert(cv.subrange(0, k + 1).drop_last() =~= cv.subrange(0, k as int));
        assert(cv.subrange(0, k + 1).last() == chunks@[k as int]@);
        assert(brackets_in_order(cv[k as int]));
        match subtitle_chunk(&chunks[k]) {
            Some((code, url)) => {
                let name = string_of(code.as_slice());
                let language_code = lookup_lns(lns, &code);
                let is_default = dc.len() > 0 && match &language_code {
                    Some(l) => same_chars(&chars_of(l.as_str()), &dc),
                    None => false,
                };
                let track = SubtitleTrack {
                    title: map_subtitle_code_to_label(name.as_str()),
                    code: name,
                    url: string_of(url.as_slice()),
                    language_code,
                    is_default,
                };
                tracks.push(track);
            },
            None => {},
        }
        k += 1;
    }
    assert(cv.subrange(0, chunks@.len() as int) =~= cv);
    tracks
}

/// Parses a `subtitle` string with no default code and no language codes.
pub fn parse_subtitles(raw_sub: &str) -> (r: Vec<SubtitleTrack>)
    requires
        subtitle_list_well_formed(raw_sub@),
    ensures
        r@.len() == subtitle_pairs(raw_sub@).len(),
        forall|i: int|
            0 <= i < r@.len() ==> is_track(#[trigger] r@[i], subtitle_pairs(raw_sub@)[i], ""@, seq![]),
{
    let lns: Vec<(String, String)> = Vec::new();
    let r = parse_subtitles_with_meta(raw_sub, "", &lns);
    assert(pair_views(lns@) =~= seq![]);
    r
}


/// The text kept of the pieces between `>`s: a piece that a `>` closes
/// keeps what comes before its first `<` (the rest is a tag), or all of it
/// and the `>` when it holds no `<`; the last piece, which no `>` closes,
/// is kept whole.
pub open spec fn untagged_pieces(pieces: Seq<Seq<char>>) -> Seq<char>
    decreases pieces.len(),
{
    if pieces.len() == 0 {
        seq![]
    } else if pieces.len() == 1 {
        pieces[0]
    } else {
        let p = pieces[0];
        (if p.contains('<') {
            crate::text::before_first(p, '<')
        } else {
            p.push('>')
        }) + untagged_pieces(pieces.drop_first())
    }
}

/// What removing every `<…>` tag from a quality label leaves: each
/// leftmost match of the regex `<[^>]*>` replaced by nothing. A match runs
/// from the first `<` after a `>` (or the start) to the next `>`.
#[verifier::opaque]
pub open spec fn tags_removed(s: Seq<char>) -> Seq<char> {
    untagged_pieces(split_on(s, '>'))
}

/// Every `<…>` tag removed from `s`: the pieces between `>`s, each cut
/// at its first `<` when a `>` closes it.
fn strip_tags(s: &str) -> (r: String)
    ensures
        r@ == tags_removed(s@),
{
    proof {
        reveal(tags_removed);
    }
    let pieces = split_char(&chars_of(s), '>');
    let ghost pv = views(pieces@);
    let n = pieces.len();
    let mut out: Vec<char> = Vec::new();
    let mut i: usize = 0;
    assert(pv.subrange(0, n as int) =~= pv);
    while i + 1 < n
        invariant
            i < n,
            n == pieces@.len(),
            pv == views(pieces@),
            pv == split_on(s@, '>'),
            out@ + untagged_pieces(pv.subrange(i as int, n as int)) == untagged_pieces(pv),
        decreases n - i,
    {
        let ghost rest = pv.subrange(i as int, n as int);
        assert(rest.drop_first() =~= pv.subrange(i + 1, n as int));
        assert(rest[0] == pieces@[i as int]@);
        let ghost before = out@;
        let p = &pieces[i];
        match find_char(p, '<') {
            Some(k) => {
                proof {
                    lemma_first_index(p@, '<', k as int);
                    assert(p@.contains('<')) by {
                        assert(p@[k as int] == '<');
                    }
                }
                push_all(&mut out, &slice_vec(p, 0, k));
                assert(out@ + untagged_pieces(pv.subrange(i + 1, n as int)) =~= before + untagged_pieces(rest));
            },
            None => {
                assert(!p@.contains('<'));
                push_all(&mut out, p);
                out.push('>');
                assert(out@ + untagged_pieces(pv.subrange(i + 1, n as int)) =~= before + untagged_pieces(rest));
            },
        }
        i += 1;
    }
    let ghost before = out@;
    push_all(&mut out, &pieces[i]);
    assert(pv.subrange(i as int, n as int) =~= seq![pieces@[i as int]@]);
    assert(out@ =~= untagged_pieces(pv));
    string_of(out.as_slice())
}

/// The label a quality is shown under: the provider's markup stripped, and
/// the common resolutions spelled one way.
pub open spec fn quality_label(raw: Seq<char>) -> Seq<char> {
    let c = trimmed(tags_removed(raw));
    if c.len() == 0 {
        raw
    } else if contains_seq(c, "2160"@) || contains_seq(c, "4K"@) {
        "4K (2160p)"@
    } else if contains_seq(c, "1440"@) || contains_seq(c, "2K"@) {
        "2K (1440p)"@
    } else if contains_seq(c, "1080p Ultra"@) || (contains_seq(c, "1080"@) && contains_seq(
        c,
        "Ultra"@,
    )) {
        "1080p Ultra"@
    } else if contains_seq(c, "1080"@) {
        "1080p"@
    } else if contains_seq(c, "720"@) {
        "720p"@
    } else if contains_seq(c, "480"@) {
        "480p"@
    } else if contains_seq(c, "360"@) {
        "360p"@
    } else {
        c
    }
}

pub fn clean_quality_label(raw: &str) -> (r: String)
    ensures
        r@ == quality_label(raw@),
{
    let stripped = strip_tags(raw);
    let c = trim(&chars_of(stripped.as_str()));
    if c.len() == 0 {
        owned(raw)
    } else if contains_str(&c, "2160") || contains_str(&c, "4K") {
        owned("4K (2160p)")
    } else if contains_str(&c, "1440") || contains_str(&c, "2K") {
        owned("2K (1440p)")
    } else if contains_str(&c, "1080p Ultra") || (contains_str(&c, "1080") && contains_str(
        &c,
        "Ultra",
    )) {
        owned("1080p Ultra")
    } else if contains_str(&c, "1080") {
        owned("1080p")
    } else if contains_str(&c, "720") {
        owned("720p")
    } else if contains_str(&c, "480") {
        owned("480p")
    } else if contains_str(&c, "360") {
        owned("360p")
    } else {
        string_of(c.as_slice())
    }
}

/// Where a quality label sorts: higher resolutions first.
pub open spec fn quality_rank_of(q: Seq<char>) -> u32 {
    if contains_seq(q, "2160"@) || contains_seq(q, "4K"@) {
        60
    } else if contains_seq(q, "1440"@) || contains_seq(q, "2K"@) {
        50
    } else if contains_seq(q, "1080p Ultra"@) || contains_seq(q, "Ultra"@) {
        45
    } else if contains_seq(q, "1080"@) {
        40
    } else if contains_seq(q, "720"@) {
        30
    } else if contains_seq(q, "480"@) {
        20
    } else if contains_seq(q, "360"@) {
        10
    } else {
        0
    }
}

pub fn quality_rank(quality: &str) -> (r: u32)
    ensures
        r == quality_rank_of(quality@),
{
    let q = chars_of(quality);
    if contains_str(&q, "2160") || contains_str(&q, "4K") {
        60
    } else if contains_str(&q, "1440") || contains_str(&q, "2K") {
        50
    } else if contains_str(&q, "1080p Ultra") || contains_str(&q, "Ultra") {
        45
    } else if contains_str(&q, "1080") {
        40
    } else if contains_str(&q, "720") {
        30
    } else if contains_str(&q, "480") {
        20
    } else if contains_str(&q, "360") {
        10
    } else {
        0
    }
}


/// The hosts that serve the same files under the same paths. The provider
/// names one of them for every stream and offers no alternative; when that
/// one stops answering, the files are still there on the others.
pub open spec fn cdn_host_names() -> Seq<Seq<char>> {
    seq![
        "prx-cogent.ukrtelcdn.net"@,
        "prx2-cogent.ukrtelcdn.net"@,
        "prx3-cogent.ukrtelcdn.net"@,
        "prx4-cogent.ukrtelcdn.net"@,
        "prx5-cogent.ukrtelcdn.net"@,
        "prx6-cogent.ukrtelcdn.net"@,
        "prx-ams.ukrtelcdn.net"@,
        "stream.voidboost.cc"@,
        "stream.voidboost.top"@,
        "stream.voidboost.link"@,
        "stream.voidboost.club"@,
    ]
}

/// The CDN hosts that serve the same files under the same paths.
pub fn cdn_hosts() -> (r: Vec<&'static str>)
    ensures
        r@.len() == cdn_host_names().len(),
        forall|i: int| 0 <= i < r@.len() ==> #[trigger] r@[i]@ == cdn_host_names()[i],
{
    let r = vec![
        "prx-cogent.ukrtelcdn.net",
        "prx2-cogent.ukrtelcdn.net",
        "prx3-cogent.ukrtelcdn.net",
        "prx4-cogent.ukrtelcdn.net",
        "prx5-cogent.ukrtelcdn.net",
        "prx6-cogent.ukrtelcdn.net",
        "prx-ams.ukrtelcdn.net",
        "stream.voidboost.cc",
        "stream.voidboost.top",
        "stream.voidboost.link",
        "stream.voidboost.club",
    ];
    assert(r@.len() == 11);
    r
}

/// The host a URL names, as the `url` crate parses it.
pub uninterp spec fn url_host(url: Seq<char>) -> Option<Seq<char>>;

/// `url::Url::parse` followed by `Url::host_str`: the host of `url`, or
/// nothing when it does not parse or names no host.
#[verifier::external_body]
pub(crate) fn host_of(url: &str) -> (r: Option<String>)
    ensures
        opt_view(r) == url_host(url@),
{
    match url::Url::parse(url) {
        Ok(parsed) => match parsed.host_str() {
            Some(host) => Some(host.to_string()),
            None => None,
        },
        Err(_) => None,
    }
}

/// The URL the `url` crate writes out after moving `url` to `host`.
pub uninterp spec fn url_on_host(url: Seq<char>, host: Seq<char>) -> Option<Seq<char>>;

/// `url::Url::parse`, then `Url::set_host(Some(host))`, then the URL written
/// out as a string: nothing when the URL does not parse or the host is
/// refused.
#[verifier::external_body]
fn moved_to_host(url: &str, host: &str) -> (r: Option<String>)
    ensures
        opt_view(r) == url_on_host(url@, host@),
{
    let mut parsed = match url::Url::parse(url) {
        Ok(parsed) => parsed,
        Err(_) => return None,
    };
    match parsed.set_host(Some(host)) {
        Ok(()) => Some(String::from(parsed)),
        Err(_) => None,
    }
}

/// `url` on `host` joins the list, unless `host` is its own or the list
/// already holds that URL.
pub open spec fn mirror_step(all: Seq<Seq<char>>, url: Seq<char>, own: Seq<char>, host: Seq<char>) -> Seq<Seq<char>> {
    if host == own {
        all
    } else {
        match url_on_host(url, host) {
            Some(m) => if all.contains(m) {
                all
            } else {
                all.push(m)
            },
            None => all,
        }
    }
}

/// The mirror steps of `url` over `hosts`, in order.
pub open spec fn mirrors_over(all: Seq<Seq<char>>, url: Seq<char>, own: Seq<char>, hosts: Seq<Seq<char>>) -> Seq<Seq<char>>
    decreases hosts.len(),
{
    if hosts.len() == 0 {
        all
    } else {
        mirror_step(mirrors_over(all, url, own, hosts.drop_last()), url, own, hosts.last())
    }
}

/// The list after offering `url` on every other CDN host, when its own host
/// is one of them.
pub open spec fn url_mirrors(all: Seq<Seq<char>>, url: Seq<char>) -> Seq<Seq<char>> {
    match url_host(url) {
        Some(own) => if cdn_host_names().contains(own) {
            mirrors_over(all, url, own, cdn_host_names())
        } else {
            all
        },
        None => all,
    }
}

pub open spec fn mirrored_upto(all: Seq<Seq<char>>, urls: Seq<Seq<char>>) -> Seq<Seq<char>>
    decreases urls.len(),
{
    if urls.len() == 0 {
        all
    } else {
        url_mirrors(mirrored_upto(all, urls.drop_last()), urls.last())
    }
}

/// `urls`, followed by the same files on every other known CDN host, each
/// new URL once, so a player that cannot reach the provider's choice has
/// somewhere to go next.
pub open spec fn cdn_mirrored(urls: Seq<Seq<char>>) -> Seq<Seq<char>> {
    mirrored_upto(urls, urls)
}

fn holds(all: &Vec<String>, s: &Vec<char>) -> (r: bool)
    ensures
        r == string_views(all@).contains(s@),
{
    let mut i: usize = 0;
    while i < all.len()
        invariant
            i <= all.len(),
            forall|j: int| 0 <= j < i ==> all@[j]@ != s@,
        decreases all.len() - i,
    {
        if same_chars(&chars_of(all[i].as_str()), s) {
            assert(string_views(all@)[i as int] == s@);
            return true;
        }
        i += 1;
    }
    proof {
        if string_views(all@).contains(s@) {
            let j = choose|j: int| 0 <= j < string_views(all@).len() && string_views(all@)[j] == s@;
            assert(all@[j]@ == s@);
        }
    }
    false
}

fn host_listed(hosts: &Vec<&'static str>, h: &Vec<char>) -> (r: bool)
    requires
        hosts@.len() == cdn_host_names().len(),
        forall|i: int| 0 <= i < hosts@.len() ==> #[trigger] hosts@[i]@ == cdn_host_names()[i],
    ensures
        r == cdn_host_names().contains(h@),
{
    let mut i: usize = 0;
    while i < hosts.len()
        invariant
            i <= hosts.len(),
            hosts@.len() == cdn_host_names().len(),
            forall|i: int| 0 <= i < hosts@.len() ==> #[trigger] hosts@[i]@ == cdn_host_names()[i],
            forall|j: int| 0 <= j < i ==> cdn_host_names()[j] != h@,
        decreases hosts.len() - i,
    {
        if is_str(h, hosts[i]) {
            assert(cdn_host_names()[i as int] == h@);
            return true;
        }
        i += 1;
    }
    false
}

pub(crate) fn with_cdn_mirrors(urls: Vec<String>) -> (r: Vec<String>)
    ensures
        string_views(r@) == cdn_mirrored(string_views(urls@)),
{
    let hosts = cdn_hosts();
    let ghost names = cdn_host_names();
    let ghost u = string_views(urls@);
    let mut all: Vec<String> = Vec::new();
    let mut i: usize = 0;
    while i < urls.len()
        invariant
            i <= urls.len(),
            u == string_views(urls@),
            string_views(all@) == u.subrange(0, i as int),
        decreases urls.len() - i,
    {
        let ghost prev = all@;
        let copy = urls[i].clone();
        assert(copy@ == u[i as int]);
        all.push(copy);
        assert(all@ =~= prev.push(copy));
        assert(string_views(all@) =~= string_views(prev).push(copy@));
        i += 1;
        assert(string_views(all@) =~= u.subrange(0, i as int));
    }
    assert(u.subrange(0, urls@.len() as int) =~= u);
    let mut i: usize = 0;
    while i < urls.len()
        invariant
            i <= urls.len(),
            u == string_views(urls@),
            names == cdn_host_names(),
            hosts@.len() == names.len(),
            forall|k: int| 0 <= k < hosts@.len() ==> #[trigger] hosts@[k]@ == names[k],
            string_views(all@) == mirrored_upto(u, u.subrange(0, i as int)),
        decreases urls.len() - i,
    {
        assert(u.subrange(0, i + 1).drop_last() =~= u.subrange(0, i as int));
        let ghost before = string_views(all@);
        let url = urls[i].as_str();
        match host_of(url) {
            Some(own) => {
                let own_chars = chars_of(own.as_str());
                if host_listed(&hosts, &own_chars) {
                    let mut k: usize = 0;
                    while k < hosts.len()
                        invariant
                            k <= hosts.len(),
                            u == string_views(urls@),
                            i < urls@.len(),
                            url@ == u[i as int],
                            own_chars@ == own@,
                            names == cdn_host_names(),
                            hosts@.len() == names.len(),
                            forall|k: int| 0 <= k < hosts@.len() ==> #[trigger] hosts@[k]@ == names[k],
                            string_views(all@) == mirrors_over(before, url@, own@, names.subrange(0, k as int)),
                        decreases hosts.len() - k,
                    {
                        assert(names.subrange(0, k + 1).drop_last() =~= names.subrange(0, k as int));
                        assert(names.subrange(0, k + 1).last() == hosts@[k as int]@);
                        if !is_str(&own_chars, hosts[k]) {
                            match moved_to_host(url, hosts[k]) {
                                Some(m) => {
                                    let m_chars = chars_of(m.as_str());
                                    if !holds(&all, &m_chars) {
                                        let ghost prev = string_views(all@);
                                        all.push(m);
                                        assert(string_views(all@) =~= prev.push(m_chars@));
                                    }
                                },
                                None => {},
                            }
                        }
                        k += 1;
                    }
                    assert(names.subrange(0, hosts@.len() as int) =~= names);
                }
            },
            None => {},
        }
        i += 1;
    }
    assert(u.subrange(0, urls@.len() as int) =~= u);
    all
}


/// What a stream entry says: its quality label, whether it is premium, and
/// its URLs in the order playback tries them.
pub open spec fn entry_view(e: StreamEntry) -> (Seq<char>, bool, Seq<Seq<char>>) {
    (e.quality@, e.is_premium, string_views(e.urls@))
}

pub open spec fn entry_views(es: Seq<StreamEntry>) -> Seq<(Seq<char>, bool, Seq<Seq<char>>)> {
    es.map_values(|e: StreamEntry| entry_view(e))
}

/// The quality a stream chunk names between its brackets, or `Unknown`
/// when it names none.
pub open spec fn raw_quality(c: Seq<char>) -> Seq<char> {
    match (first_index(c, '['), first_index(c, ']')) {
        (Some(a), Some(b)) => if a < b {
            c.subrange(a + 1, b)
        } else {
            "Unknown"@
        },
        _ => "Unknown"@,
    }
}

/// What follows the closing bracket of a chunk, or the whole chunk.
pub open spec fn url_text(c: Seq<char>) -> Seq<char> {
    match first_index(c, ']') {
        Some(b) => c.subrange(b + 1, c.len() as int),
        None => c,
    }
}

/// The trimmed pieces that are not empty, in order.
pub open spec fn nonempty_trimmed(parts: Seq<Seq<char>>) -> Seq<Seq<char>>
    decreases parts.len(),
{
    if parts.len() == 0 {
        seq![]
    } else {
        let init = nonempty_trimmed(parts.drop_last());
        let t = trimmed(parts.last());
        if t.len() > 0 {
            init.push(t)
        } else {
            init
        }
    }
}

/// A premium quality: the provider marks it, or its label names a
/// resolution above 1080p or an `Ultra` bitrate.
pub open spec fn premium_stream(c: Seq<char>, raw: Seq<char>, quality: Seq<char>) -> bool {
    contains_seq(c, "pjs-prem-quality"@) || contains_seq(raw, "Ultra"@) || contains_seq(raw, "4K"@)
        || contains_seq(raw, "2160"@) || contains_seq(raw, "1440"@) || contains_seq(raw, "2K"@)
        || contains_seq(quality, "Ultra"@) || contains_seq(quality, "4K"@)
}

/// The stream a chunk such as `[720p]https://a/720.mp4 or https://b/720.mp4`
/// describes, when it lists at least one URL.
pub open spec fn stream_of_chunk(chunk: Seq<char>) -> Option<(Seq<char>, bool, Seq<Seq<char>>)> {
    let c = trimmed(chunk);
    if c.len() == 0 {
        None
    } else {
        let raw = raw_quality(c);
        let quality = quality_label(raw);
        let urls = cdn_mirrored(nonempty_trimmed(split_at_str(url_text(c), " or "@)));
        if urls.len() == 0 {
            None
        } else {
            Some((quality, premium_stream(c, raw, quality), urls))
        }
    }
}

/// Some stream in `es` starts from `url`.
pub open spec fn has_primary(es: Seq<(Seq<char>, bool, Seq<Seq<char>>)>, url: Seq<char>) -> bool {
    exists|i: int| 0 <= i < es.len() && es[i].2.len() > 0 && es[i].2[0] == url
}

/// The streams of the chunks in server order; a stream whose first URL an
/// earlier one already starts from is left out.
pub open spec fn streams_in_order(chunks: Seq<Seq<char>>) -> Seq<(Seq<char>, bool, Seq<Seq<char>>)>
    decreases chunks.len(),
{
    if chunks.len() == 0 {
        seq![]
    } else {
        let init = streams_in_order(chunks.drop_last());
        match stream_of_chunk(chunks.last()) {
            Some(e) => if has_primary(init, e.2[0]) {
                init
            } else {
                init.push(e)
            },
            None => init,
        }
    }
}

/// The ranks a quality can have, highest first.
pub open spec fn rank_order() -> Seq<u32> {
    seq![60u32, 50u32, 45u32, 40u32, 30u32, 20u32, 10u32, 0u32]
}

/// The streams of `es` whose quality has rank `rank`, in their order.
pub open spec fn with_rank(es: Seq<(Seq<char>, bool, Seq<Seq<char>>)>, rank: u32) -> Seq<(Seq<char>, bool, Seq<Seq<char>>)> {
    es.filter(rank_is(rank))
}

pub open spec fn rank_is(rank: u32) -> spec_fn((Seq<char>, bool, Seq<Seq<char>>)) -> bool {
    |e: (Seq<char>, bool, Seq<Seq<char>>)| quality_rank_of(e.0) == rank
}

/// The streams of `es` grouped by the ranks in `ranks`, group after group;
/// within a group they keep their order.
pub open spec fn by_rank(es: Seq<(Seq<char>, bool, Seq<Seq<char>>)>, ranks: Seq<u32>) -> Seq<(Seq<char>, bool, Seq<Seq<char>>)>
    decreases ranks.len(),
{
    if ranks.len() == 0 {
        seq![]
    } else {
        by_rank(es, ranks.drop_last()) + with_rank(es, ranks.last())
    }
}

/// The stream list a decoded `url` field describes: the streams in server
/// order, then sorted stably from the highest quality down.
pub open spec fn stream_list(decoded: Seq<char>) -> Seq<(Seq<char>, bool, Seq<Seq<char>>)> {
    by_rank(streams_in_order(split_on(decoded, ',')), rank_order())
}

fn copy_strings(v: &Vec<String>) -> (r: Vec<String>)
    ensures
        string_views(r@) == string_views(v@),
{
    let mut r: Vec<String> = Vec::new();
    let mut i: usize = 0;
    while i < v.len()
        invariant
            i <= v.len(),
            string_views(r@) == string_views(v@).subrange(0, i as int),
        decreases v.len() - i,
    {
        let ghost prev = r@;
        let copy = v[i].clone();
        assert(copy@ == string_views(v@)[i as int]);
        r.push(copy);
        assert(r@ =~= prev.push(copy));
        assert(string_views(r@) =~= string_views(prev).push(copy@));
        assert(string_views(r@) =~= string_views(v@).subrange(0, i + 1));
        i += 1;
    }
    assert(string_views(v@).subrange(0, v@.len() as int) =~= string_views(v@));
    r
}

fn copy_entry(e: &StreamEntry) -> (r: StreamEntry)
    ensures
        entry_view(r) == entry_view(*e),
{
    StreamEntry { quality: e.quality.clone(), is_premium: e.is_premium, urls: copy_strings(&e.urls) }
}

fn trimmed_pieces(parts: &Vec<Vec<char>>) -> (r: Vec<String>)
    ensures
        string_views(r@) == nonempty_trimmed(views(parts@)),
{
    let mut r: Vec<String> = Vec::new();
    let mut i: usize = 0;
    while i < parts.len()
        invariant
            i <= parts.len(),
            string_views(r@) == nonempty_trimmed(views(parts@).subrange(0, i as int)),
        decreases parts.len() - i,
    {
        assert(views(parts@).subrange(0, i + 1).drop_last() =~= views(parts@).subrange(0, i as int));
        let t = trim(&parts[i]);
        if t.len() > 0 {
            let ghost prev = r@;
            let piece = string_of(t.as_slice());
            r.push(piece);
            assert(r@ =~= prev.push(piece));
            assert(string_views(r@) =~= string_views(prev).push(t@));
        }
        i += 1;
    }
    assert(views(parts@).subrange(0, parts@.len() as int) =~= views(parts@));
    r
}

fn stream_from_chunk(chunk: &Vec<char>) -> (r: Option<StreamEntry>)
    ensures
        match r {
            Some(e) => stream_of_chunk(chunk@) == Some(entry_view(e)),
            None => stream_of_chunk(chunk@) is None,
        },
{
    let c = trim(chunk);
    if c.len() == 0 {
        return None;
    }
    let open_at = find_char(&c, '[');
    let close_at = find_char(&c, ']');
    proof {
        if let Some(a) = open_at {
            lemma_first_index(c@, '[', a as int);
        } else {
            assert(first_index(c@, '[') is None);
        }
        if let Some(b) = close_at {
            lemma_first_index(c@, ']', b as int);
        }
    }
    let raw: Vec<char> = match (open_at, close_at) {
        (Some(a), Some(b)) => if a < b {
            slice_vec(&c, a + 1, b)
        } else {
            chars_of("Unknown")
        },
        _ => chars_of("Unknown"),
    };
    assert(raw@ == raw_quality(c@));
    let raw_text = string_of(raw.as_slice());
    let quality = clean_quality_label(raw_text.as_str());
    let qc = chars_of(quality.as_str());
    let rest: Vec<char> = match close_at {
        Some(b) => slice_vec(&c, b + 1, c.len()),
        None => c.clone(),
    };
    assert(rest@ == url_text(c@));
    let is_premium = contains_str(&c, "pjs-prem-quality") || contains_str(&raw, "Ultra")
        || contains_str(&raw, "4K") || contains_str(&raw, "2160") || contains_str(&raw, "1440")
        || contains_str(&raw, "2K") || contains_str(&qc, "Ultra") || contains_str(&qc, "4K");
    proof {
        reveal_strlit(" or ");
    }
    let pieces = split_str(&rest, " or ");
    let urls = with_cdn_mirrors(trimmed_pieces(&pieces));
    if urls.len() == 0 {
        return None;
    }
    Some(StreamEntry { quality, is_premium, urls })
}


fn order_by_rank(entries: &Vec<StreamEntry>) -> (r: Vec<StreamEntry>)
    ensures
        entry_views(r@) == by_rank(entry_views(entries@), rank_order()),
{
    let ranks: Vec<u32> = vec![60, 50, 45, 40, 30, 20, 10, 0];
    assert(ranks@ =~= rank_order());
    let ghost es = entry_views(entries@);
    let mut out: Vec<StreamEntry> = Vec::new();
    let mut j: usize = 0;
    assert(by_rank(es, rank_order().subrange(0, 0)) =~= seq![]);
    while j < ranks.len()
        invariant
            j <= ranks@.len(),
            ranks@ == rank_order(),
            es == entry_views(entries@),
            entry_views(out@) == by_rank(es, rank_order().subrange(0, j as int)),
        decreases ranks.len() - j,
    {
        let rank = ranks[j];
        let ghost base = entry_views(out@);
        let mut i: usize = 0;
        assert(es.subrange(0, 0).filter(rank_is(rank)) =~= seq![]) by {
            reveal(Seq::filter);
        }
        assert(base + with_rank(es.subrange(0, 0), rank) =~= base);
        while i < entries.len()
            invariant
                i <= entries@.len(),
                es == entry_views(entries@),
                entry_views(out@) == base + with_rank(es.subrange(0, i as int), rank),
            decreases entries.len() - i,
        {
            proof {
                assert(es.subrange(0, i + 1) =~= es.subrange(0, i as int).push(es[i as int]));
                es.subrange(0, i as int).lemma_filter_push(es[i as int], rank_is(rank));
            }
            if quality_rank(entries[i].quality.as_str()) == rank {
                let ghost prev = out@;
                let e = copy_entry(&entries[i]);
                out.push(e);
                assert(out@ =~= prev.push(e));
                assert(entry_views(out@) =~= entry_views(prev).push(es[i as int]));
            }
            i += 1;
        }
        assert(es.subrange(0, entries@.len() as int) =~= es);
        assert(rank_order().subrange(0, j + 1).drop_last() =~= rank_order().subrange(0, j as int));
        j += 1;
    }
    assert(rank_order().subrange(0, 8) =~= rank_order());
    out
}

proof fn lemma_primaries(kept: Seq<StreamEntry>, primaries: Seq<String>, url: Seq<char>)
    requires
        primaries.len() == kept.len(),
        forall|i: int|
            0 <= i < kept.len() ==> (#[trigger] kept[i]).urls@.len() > 0 && primaries[i]@
                == kept[i].urls@[0]@,
    ensures
        has_primary(entry_views(kept), url) == string_views(primaries).contains(url),
{
    let es = entry_views(kept);
    if string_views(primaries).contains(url) {
        let j = choose|j: int|
            0 <= j < string_views(primaries).len() && string_views(primaries)[j] == url;
        assert(kept[j].urls@.len() > 0);
        assert(es[j].2[0] == url);
    }
    if has_primary(es, url) {
        let j = choose|j: int| 0 <= j < es.len() && es[j].2.len() > 0 && es[j].2[0] == url;
        assert(kept[j].urls@.len() > 0);
        assert(string_views(primaries)[j] == url);
    }
}

/// Parses the decoded stream list, `[quality]url or url,[quality]url…`:
/// one stream per chunk that lists a URL, each followed by its CDN mirrors;
/// a stream whose first URL an earlier one already starts from is left out;
/// and the list sorted stably from the highest quality down.
#[verifier::rlimit(100)]
#[verifier::spinoff_prover]
pub fn parse_stream_entries(decoded: &str) -> (r: Vec<StreamEntry>)
    ensures
        entry_views(r@) == stream_list(decoded@),
{
    let chunks = split_char(&chars_of(decoded), ',');
    let ghost cv = views(chunks@);
    let mut kept: Vec<StreamEntry> = Vec::new();
    let mut primaries: Vec<String> = Vec::new();
    let mut k: usize = 0;
    while k < chunks.len()
        invariant
            k <= chunks@.len(),
            cv == views(chunks@),
            cv == split_on(decoded@, ','),
            entry_views(kept@) == streams_in_order(cv.subrange(0, k as int)),
            primaries@.len() == kept@.len(),
            forall|i: int|
                0 <= i < kept@.len() ==> (#[trigger] kept@[i]).urls@.len() > 0 && primaries@[i]@
                    == kept@[i].urls@[0]@,
        decreases chunks.len() - k,
    {
        assert(cv.subrange(0, k + 1).drop_last() =~= cv.subrange(0, k as int));
        assert(cv.subrange(0, k + 1).last() == chunks@[k as int]@);
        let ghost es = entry_views(kept@);
        match stream_from_chunk(&chunks[k]) {
            Some(e) => {
                assert(string_views(e.urls@).len() > 0);
                let first = e.urls[0].clone();
                let first_chars = chars_of(first.as_str());
                assert(first_chars@ == entry_view(e).2[0]);
                let seen = holds(&primaries, &first_chars);
                proof {
                    lemma_primaries(kept@, primaries@, first_chars@);
                }
                if !seen {
                    let ghost prev_kept = kept@;
                    let ghost prev_primaries = primaries@;
                    kept.push(e);
                    primaries.push(first);
                    assert(kept@ =~= prev_kept.push(e));
                    assert(primaries@ =~= prev_primaries.push(first));
                    assert(entry_views(kept@) =~= es.push(entry_view(e)));
                }
            },
            None => {},
        }
        k += 1;
    }
    assert(cv.subrange(0, chunks@.len() as int) =~= cv);
    order_by_rank(&kept)
}


/// The characters noise runs are made of, `@#!^$`, as bytes.
pub open spec fn run_char(i: int) -> u8 {
    if i == 0 {
        64u8
    } else if i == 1 {
        35u8
    } else if i == 2 {
        33u8
    } else if i == 3 {
        94u8
    } else {
        36u8
    }
}

/// The runs of two or three of `@#!^$` the provider stitches into a stream
/// payload, numbered: every pair first, then every triple.
pub open spec fn noise_run(k: int) -> Seq<u8> {
    if k < 25 {
        seq![run_char(k / 5), run_char(k % 5)]
    } else {
        let j = k - 25;
        seq![run_char(j / 25), run_char((j / 5) % 5), run_char(j % 5)]
    }
}

/// How many noise runs there are.
pub open spec fn noise_run_count() -> int {
    150
}

/// What standard base64 (with padding) spells `bytes` as.
pub uninterp spec fn base64_text(bytes: Seq<u8>) -> Seq<char>;

/// `base64::engine::general_purpose::STANDARD.encode`: the standard base64
/// spelling of `bytes`, padded.
#[verifier::external_body]
fn base64_encode(bytes: &[u8]) -> (r: String)
    ensures
        r@ == base64_text(bytes@),
{
    base64::engine::general_purpose::STANDARD.encode(bytes)
}

/// The bytes standard base64 decodes `text` to, when it is valid base64.
pub uninterp spec fn base64_bytes(text: Seq<char>) -> Option<Seq<u8>>;

pub open spec fn opt_bytes(o: Option<Vec<u8>>) -> Option<Seq<u8>> {
    match o {
        Some(b) => Some(b@),
        None => None,
    }
}

/// `base64::engine::general_purpose::STANDARD.decode` on the bytes of
/// `text`: the decoded bytes, or nothing when the engine refuses the input.
#[verifier::external_body]
fn base64_decode(text: &str) -> (r: Option<Vec<u8>>)
    ensures
        opt_bytes(r) == base64_bytes(text@),
{
    match base64::engine::general_purpose::STANDARD.decode(text.as_bytes()) {
        Ok(bytes) => Some(bytes),
        Err(_) => None,
    }
}

/// The text `String::from_utf8_lossy` makes of `bytes`.
pub uninterp spec fn utf8_lossy(bytes: Seq<u8>) -> Seq<char>;

/// `String::from_utf8_lossy`, owned: `bytes` as UTF-8, with every invalid
/// sequence replaced by U+FFFD.
#[verifier::external_body]
fn lossy_text(bytes: &[u8]) -> (r: String)
    ensures
        r@ == utf8_lossy(bytes@),
{
    String::from_utf8_lossy(bytes).into_owned()
}

/// Four characters that spell a noise run in base64.
pub open spec fn is_noise(w: Seq<char>) -> bool {
    w.len() == 4 && exists|k: int| 0 <= k < noise_run_count() && #[trigger] base64_text(noise_run(k)) == w
}

/// `u8::is_ascii_whitespace`, on characters.
pub open spec fn is_ascii_ws(c: char) -> bool {
    c == ' ' || c == '\t' || c == '\n' || c == '\x0C' || c == '\r'
}

/// A segment with its noise runs and whitespace dropped, read from the
/// left: where four characters spell a noise run they go together.
pub open spec fn noise_free(s: Seq<char>) -> Seq<char>
    decreases s.len(),
{
    if s.len() == 0 {
        seq![]
    } else if s.len() >= 4 && is_noise(s.subrange(0, 4)) {
        noise_free(s.subrange(4, s.len() as int))
    } else if is_ascii_ws(s[0]) {
        noise_free(s.subrange(1, s.len() as int))
    } else {
        seq![s[0]] + noise_free(s.subrange(1, s.len() as int))
    }
}

pub open spec fn noise_free_all(segments: Seq<Seq<char>>) -> Seq<char>
    decreases segments.len(),
{
    if segments.len() == 0 {
        seq![]
    } else {
        noise_free_all(segments.drop_last()) + noise_free(segments.last())
    }
}

/// `s` padded with `=` to a multiple of four characters.
pub open spec fn base64_padded(s: Seq<char>) -> Seq<char> {
    s + Seq::new(((4 - s.len() % 4) % 4) as nat, |i: int| '=')
}

/// What an encoded stream list decodes to. A list that does not start with
/// `#` is plain and stays as it is; otherwise the `#` and the marker after
/// it are dropped, every `//_//` marker and every noise run after one is
/// removed, and the base64 left, padded again, is decoded. Where it is not
/// valid base64 the cleaned text is kept.
pub open spec fn decrypted(encrypted: Seq<char>) -> Seq<char> {
    if encrypted.len() == 0 || encrypted[0] != '#' {
        encrypted
    } else {
        let payload = if encrypted.len() >= 2 {
            encrypted.subrange(2, encrypted.len() as int)
        } else {
            seq![]
        };
        let cleaned = base64_padded(noise_free_all(split_at_str(payload, "//_//"@)));
        match base64_bytes(cleaned) {
            Some(bytes) => utf8_lossy(bytes),
            None => cleaned,
        }
    }
}

fn run_char_at(i: usize) -> (r: u8)
    requires
        i < 5,
    ensures
        r == run_char(i as int),
{
    if i == 0 {
        64
    } else if i == 1 {
        35
    } else if i == 2 {
        33
    } else if i == 3 {
        94
    } else {
        36
    }
}

fn noise_run_at(k: usize) -> (r: Vec<u8>)
    requires
        k < 150,
    ensures
        r@ == noise_run(k as int),
{
    if k < 25 {
        vec![run_char_at(k / 5), run_char_at(k % 5)]
    } else {
        let j = k - 25;
        assert(j / 25 < 5) by (nonlinear_arith)
            requires
                j < 125,
        ;
        vec![run_char_at(j / 25), run_char_at((j / 5) % 5), run_char_at(j % 5)]
    }
}

/// The base64 spelling of every noise run, by number.
fn noise_table() -> (r: Vec<Vec<char>>)
    ensures
        r@.len() == noise_run_count(),
        forall|k: int| 0 <= k < r@.len() ==> #[trigger] r@[k]@ == base64_text(noise_run(k)),
{
    let mut table: Vec<Vec<char>> = Vec::new();
    let mut k: usize = 0;
    while k < 150
        invariant
            k <= 150,
            table@.len() == k,
            forall|j: int| 0 <= j < k ==> #[trigger] table@[j]@ == base64_text(noise_run(j)),
        decreases 150 - k,
    {
        let run = noise_run_at(k);
        let spelled = base64_encode(run.as_slice());
        table.push(chars_of(spelled.as_str()));
        k += 1;
    }
    table
}

fn noise_at(table: &Vec<Vec<char>>, s: &Vec<char>, at: usize) -> (r: bool)
    requires
        table@.len() == noise_run_count(),
        forall|k: int| 0 <= k < table@.len() ==> #[trigger] table@[k]@ == base64_text(noise_run(k)),
        at + 4 <= s@.len(),
    ensures
        r == is_noise(s@.subrange(at as int, at + 4)),
{
    let ghost w = s@.subrange(at as int, at + 4);
    let mut k: usize = 0;
    while k < table.len()
        invariant
            k <= table@.len(),
            table@.len() == noise_run_count(),
            forall|k: int| 0 <= k < table@.len() ==> #[trigger] table@[k]@ == base64_text(noise_run(k)),
            at + 4 <= s@.len(),
            w == s@.subrange(at as int, at + 4),
            forall|j: int| 0 <= j < k ==> base64_text(noise_run(j)) != w,
        decreases table.len() - k,
    {
        if table[k].len() == 4 && matches_at(s, &table[k], at) {
            assert(table@[k as int]@ =~= w);
            return true;
        }
        proof {
            if table@[k as int]@ == w {
                assert(occurs_at(s@, table@[k as int]@, at as int));
            }
        }
        k += 1;
    }
    false
}

fn is_ascii_whitespace(c: char) -> (r: bool)
    ensures
        r == is_ascii_ws(c),
{
    c == ' ' || c == '\t' || c == '\n' || c == '\x0C' || c == '\r'
}

fn strip_noise(table: &Vec<Vec<char>>, s: &Vec<char>) -> (r: Vec<char>)
    requires
        table@.len() == noise_run_count(),
        forall|k: int| 0 <= k < table@.len() ==> #[trigger] table@[k]@ == base64_text(noise_run(k)),
    ensures
        r@ == noise_free(s@),
{
    let mut out: Vec<char> = Vec::new();
    let mut at: usize = 0;
    assert(s@.subrange(0, s@.len() as int) =~= s@);
    while at < s.len()
        invariant
            at <= s@.len(),
            table@.len() == noise_run_count(),
            forall|k: int| 0 <= k < table@.len() ==> #[trigger] table@[k]@ == base64_text(noise_run(k)),
            out@ + noise_free(s@.subrange(at as int, s@.len() as int)) == noise_free(s@),
        decreases s.len() - at,
    {
        let ghost rest = s@.subrange(at as int, s@.len() as int);
        if s.len() - at >= 4 && noise_at(table, s, at) {
            assert(rest.subrange(0, 4) =~= s@.subrange(at as int, at + 4));
            assert(rest.subrange(4, rest.len() as int) =~= s@.subrange(at + 4, s@.len() as int));
            at += 4;
        } else {
            proof {
                if rest.len() >= 4 {
                    assert(rest.subrange(0, 4) =~= s@.subrange(at as int, at + 4));
                }
                assert(rest.subrange(1, rest.len() as int) =~= s@.subrange(at + 1, s@.len() as int));
                assert(rest[0] == s@[at as int]);
            }
            if !is_ascii_whitespace(s[at]) {
                let ghost prev = out@;
                out.push(s[at]);
                assert(out@ + noise_free(s@.subrange(at + 1, s@.len() as int)) =~= prev + noise_free(
                    rest,
                ));
            }
            at += 1;
        }
    }
    assert(out@ + noise_free(s@.subrange(at as int, s@.len() as int)) =~= out@);
    out
}

/// Decodes the obfuscated stream list the player endpoint returns.
pub fn decrypt_streams(encrypted: &str) -> (r: String)
    ensures
        r@ == decrypted(encrypted@),
{
    let text = chars_of(encrypted);
    if text.len() == 0 || text[0] != '#' {
        return owned(encrypted);
    }
    let payload = if text.len() >= 2 {
        slice_vec(&text, 2, text.len())
    } else {
        Vec::new()
    };
    proof {
        reveal_strlit("//_//");
    }
    let segments = split_str(&payload, "//_//");
    let table = noise_table();
    let mut cleaned: Vec<char> = Vec::new();
    let ghost sv = views(segments@);
    let mut i: usize = 0;
    while i < segments.len()
        invariant
            i <= segments@.len(),
            sv == views(segments@),
            table@.len() == noise_run_count(),
            forall|k: int| 0 <= k < table@.len() ==> #[trigger] table@[k]@ == base64_text(noise_run(k)),
            cleaned@ == noise_free_all(sv.subrange(0, i as int)),
        decreases segments.len() - i,
    {
        assert(sv.subrange(0, i + 1).drop_last() =~= sv.subrange(0, i as int));
        let part = strip_noise(&table, &segments[i]);
        push_all(&mut cleaned, &part);
        i += 1;
    }
    assert(sv.subrange(0, segments@.len() as int) =~= sv);
    let ghost unpadded = cleaned@;
    let pad: usize = (4 - cleaned.len() % 4) % 4;
    let mut n: usize = 0;
    while n < pad
        invariant
            n <= pad,
            pad == (4 - unpadded.len() % 4) % 4,
            cleaned@ =~= unpadded + Seq::new(n as nat, |i: int| '='),
        decreases pad - n,
    {
        cleaned.push('=');
        n += 1;
    }
    assert(cleaned@ =~= base64_padded(unpadded));
    let cleaned_text = string_of(cleaned.as_slice());
    match base64_decode(cleaned_text.as_str()) {
        Some(bytes) => lossy_text(bytes.as_slice()),
        None => cleaned_text,
    }
}


/// `[quality]url`, one stream of a `streams` object written out.
pub open spec fn stream_part(p: (Seq<char>, Seq<char>)) -> Seq<char> {
    seq!['['] + p.0 + seq![']'] + p.1
}

/// The streams written out one after the other, `,` between them.
pub open spec fn joined_parts(ps: Seq<(Seq<char>, Seq<char>)>) -> Seq<char>
    decreases ps.len(),
{
    if ps.len() == 0 {
        seq![]
    } else if ps.len() == 1 {
        stream_part(ps[0])
    } else {
        joined_parts(ps.drop_last()) + seq![','] + stream_part(ps.last())
    }
}

/// The string members of the object under `key`, none when there is no such object.
pub open spec fn text_members_at(text: Seq<char>, key: Seq<char>) -> Seq<(Seq<char>, Seq<char>)> {
    match json_members_at(text, key) {
        Some(members) => text_members(members),
        None => seq![],
    }
}

/// The stream list a reply carries: its `streams` object, which some
/// mirrors send already split, written out; otherwise its encoded `url`,
/// decoded.
pub open spec fn stream_source(text: Seq<char>) -> Option<Seq<char>> {
    let listed = text_members_at(text, "streams"@);
    if listed.len() > 0 {
        Some(joined_parts(listed))
    } else {
        match json_text_at(text, "url"@) {
            Some(url) => Some(decrypted(url)),
            None => None,
        }
    }
}

/// What a player reply comes to: the stream list it carries, or the error
/// the client reports.
pub open spec fn stream_reply(text: Seq<char>) -> Result<Seq<char>, Seq<char>> {
    match json_parse_error(text) {
        Some(e) => Err("Failed to parse stream JSON: "@ + e),
        None => if json_bool_at(text, "success"@) != Some(true) {
            Err(
                "Stream request failed: "@ + match json_text_at(text, "message"@) {
                    Some(m) => m,
                    None => "Unknown error"@,
                },
            )
        } else {
            match stream_source(text) {
                Some(source) => Ok(source),
                None => Err("No stream URL found (may be restricted or require login)"@),
            }
        },
    }
}

/// The reply's subtitle list, if it has one, can be cut into tracks.
pub open spec fn subtitles_cut(text: Seq<char>) -> bool {
    match json_text_at(text, "subtitle"@) {
        Some(sub) => subtitle_list_well_formed(sub),
        None => true,
    }
}

/// The bundle a successful reply describes.
pub open spec fn is_stream_bundle(
    b: StreamBundle,
    text: Seq<char>,
    source: Seq<char>,
    post_id: i64,
    translator_id: i64,
    season: Option<i64>,
    episode: Option<i64>,
) -> bool {
    &&& b.id == post_id
    &&& b.translator_id == translator_id
    &&& b.season == season
    &&& b.episode == episode
    &&& entry_views(b.streams@) == stream_list(source)
    &&& match json_text_at(text, "subtitle"@) {
        Some(sub) => {
            let default_code = match json_text_at(text, "subtitle_def"@) {
                Some(d) => d,
                None => seq![],
            };
            &&& b.subtitles@.len() == subtitle_pairs(sub).len()
            &&& forall|i: int|
                0 <= i < b.subtitles@.len() ==> is_track(
                    #[trigger] b.subtitles@[i],
                    subtitle_pairs(sub)[i],
                    default_code,
                    text_members_at(text, "subtitle_lns"@),
                )
        },
        None => b.subtitles@.len() == 0,
    }
    &&& opt_view(b.storyboard_url) == match json_text_at(text, "thumbnails"@) {
        Some(t) => if t.len() > 0 {
            Some(t)
        } else {
            None
        },
        None => None,
    }
    &&& b.storyboard@.len() == 0
    &&& b.user_agent@.len() == 0
    &&& b.referer@.len() == 0
}

fn join_parts(parts: &Vec<(String, String)>) -> (r: String)
    ensures
        r@ == joined_parts(pair_views(parts@)),
{
    let ghost pv = pair_views(parts@);
    let mut out: Vec<char> = Vec::new();
    let mut i: usize = 0;
    while i < parts.len()
        invariant
            i <= parts@.len(),
            pv == pair_views(parts@),
            out@ == joined_parts(pv.subrange(0, i as int)),
        decreases parts.len() - i,
    {
        assert(pv.subrange(0, i + 1).drop_last() =~= pv.subrange(0, i as int));
        assert(pv.subrange(0, i + 1).last() == pv[i as int]);
        let ghost before = out@;
        if i > 0 {
            out.push(',');
        }
        out.push('[');
        push_all(&mut out, &chars_of(parts[i].0.as_str()));
        out.push(']');
        push_all(&mut out, &chars_of(parts[i].1.as_str()));
        proof {
            if i == 0 {
                assert(pv.subrange(0, 1) =~= seq![pv[0]]);
                assert(out@ =~= stream_part(pv[0]));
            } else {
                assert(out@ =~= before + seq![','] + stream_part(pv[i as int]));
            }
        }
        i += 1;
    }
    assert(pv.subrange(0, parts@.len() as int) =~= pv);
    string_of(out.as_slice())
}

fn text_of_members(text: &str, key: &str) -> (r: Vec<(String, String)>)
    ensures
        pair_views(r@) == text_members_at(text@, key@),
{
    match json_members(text, key) {
        Some(members) => text_pairs(&members),
        None => {
            let none: Vec<(String, String)> = Vec::new();
            assert(pair_views(none@) =~= seq![]);
            none
        },
    }
}

fn concat(a: &str, b: &str) -> (r: String)
    ensures
        r@ == a@ + b@,
{
    let mut out = chars_of(a);
    push_all(&mut out, &chars_of(b));
    string_of(out.as_slice())
}

/// Reads the player endpoint's reply for one title, or one episode.
pub fn parse_stream_json(
    json_str: &str,
    post_id: i64,
    translator_id: i64,
    season: Option<i64>,
    episode: Option<i64>,
) -> (r: Result<StreamBundle, String>)
    requires
        stream_reply(json_str@) is Ok ==> subtitles_cut(json_str@),
    ensures
        match stream_reply(json_str@) {
            Ok(source) => r matches Ok(b) && is_stream_bundle(
                b,
                json_str@,
                source,
                post_id,
                translator_id,
                season,
                episode,
            ),
            Err(message) => r matches Err(m) && m@ == message,
        },
{
    if let Some(e) = json_error(json_str) {
        return Err(concat("Failed to parse stream JSON: ", e.as_str()));
    }
    if json_bool(json_str, "success") != Some(true) {
        let message = match json_text(json_str, "message") {
            Some(m) => m,
            None => owned("Unknown error"),
        };
        return Err(concat("Stream request failed: ", message.as_str()));
    }
    let listed = text_of_members(json_str, "streams");
    let source = if listed.len() > 0 {
        join_parts(&listed)
    } else {
        match json_text(json_str, "url") {
            Some(url) => decrypt_streams(url.as_str()),
            None => {
                return Err(owned("No stream URL found (may be restricted or require login)"));
            },
        }
    };
    let streams = parse_stream_entries(source.as_str());
    let subtitles = match json_text(json_str, "subtitle") {
        Some(sub) => {
            let default_code = match json_text(json_str, "subtitle_def") {
                Some(d) => d,
                None => String::new(),
            };
            let lns = text_of_members(json_str, "subtitle_lns");
            parse_subtitles_with_meta(sub.as_str(), default_code.as_str(), &lns)
        },
        None => Vec::new(),
    };
    let storyboard_url = match json_text(json_str, "thumbnails") {
        Some(t) => if t.as_str().is_empty() {
            None
        } else {
            Some(t)
        },
        None => None,
    };
    Ok(StreamBundle {
        id: post_id,
        translator_id,
        season,
        episode,
        streams,
        subtitles,
        storyboard_url,
        storyboard: Vec::new(),
        user_agent: String::new(),
        referer: String::new(),
    })
}


/// Whether every chunk of a subtitle list can be cut into a code and a URL.
pub fn subtitle_list_cuts(raw_sub: &str) -> (r: bool)
    ensures
        r == subtitle_list_well_formed(raw_sub@),
{
    let chunks = split_char(&chars_of(raw_sub), ',');
    let ghost cv = views(chunks@);
    let mut k: usize = 0;
    while k < chunks.len()
        invariant
            k <= chunks@.len(),
            cv == views(chunks@),
            cv == split_on(raw_sub@, ','),
            forall|j: int| 0 <= j < k ==> brackets_in_order(#[trigger] cv[j]),
        decreases chunks.len() - k,
    {
        let c = trim(&chunks[k]);
        assert(c@ == trimmed(cv[k as int]));
        match (find_char(&c, '['), find_char(&c, ']')) {
            (Some(a), Some(b)) => {
                proof {
                    lemma_first_index(c@, '[', a as int);
                    lemma_first_index(c@, ']', b as int);
                }
                if a >= b {
                    assert(!brackets_in_order(cv[k as int]));
                    return false;
                }
            },
            (a, b) => {
                proof {
                    if let Some(x) = a {
                        lemma_first_index(c@, '[', x as int);
                    }
                    if let Some(y) = b {
                        lemma_first_index(c@, ']', y as int);
                    }
                }
            },
        }
        k += 1;
    }
    true
}

/// Reads the player endpoint's reply as `parse_stream_json` does, when the
/// subtitle list it carries can be cut; nothing when it cannot.
pub fn parse_stream_json_checked(
    json_str: &str,
    post_id: i64,
    translator_id: i64,
    season: Option<i64>,
    episode: Option<i64>,
) -> (r: Option<Result<StreamBundle, String>>)
    ensures
        r is None <==> (stream_reply(json_str@) is Ok && !subtitles_cut(json_str@)),
        r matches Some(reply) ==> match stream_reply(json_str@) {
            Ok(source) => reply matches Ok(b) && is_stream_bundle(
                b,
                json_str@,
                source,
                post_id,
                translator_id,
                season,
                episode,
            ),
            Err(message) => reply matches Err(m) && m@ == message,
        },
{
    let cut = match json_text(json_str, "subtitle") {
        Some(sub) => subtitle_list_cuts(sub.as_str()),
        None => true,
    };
    if cut {
        Some(parse_stream_json(json_str, post_id, translator_id, season, episode))
    } else {
        match parse_stream_json_unless_ok(json_str) {
            Some(message) => Some(Err(message)),
            None => None,
        }
    }
}

/// The error a reply comes to, or nothing when it carries a stream list.
fn parse_stream_json_unless_ok(json_str: &str) -> (r: Option<String>)
    ensures
        match stream_reply(json_str@) {
            Ok(_) => r is None,
            Err(message) => r matches Some(m) && m@ == message,
        },
{
    if let Some(e) = json_error(json_str) {
        return Some(concat("Failed to parse stream JSON: ", e.as_str()));
    }
    if json_bool(json_str, "success") != Some(true) {
        let message = match json_text(json_str, "message") {
            Some(m) => m,
            None => owned("Unknown error"),
        };
        return Some(concat("Stream request failed: ", message.as_str()));
    }
    let listed = text_of_members(json_str, "streams");
    if listed.len() > 0 {
        return None;
    }
    match json_text(json_str, "url") {
        Some(_) => None,
        None => Some(owned("No stream URL found (may be restricted or require login)")),
    }
}

/// The voice-over a stream request names: the provider's default one when
/// none is chosen.
pub fn effective_translator_id(translator_id: i64) -> (r: i64)
    ensures
        r == if translator_id <= 0 {
            238
        } else {
            translator_id
        },
{
    if translator_id <= 0 {
        238
    } else {
        translator_id
    }
}

/// A storyboard path the reply gives relative to the site, made absolute
/// against `base_url`.
pub open spec fn absolute_storyboard(base_url: Seq<char>, path: Seq<char>) -> Seq<char> {
    if starts_with(path, "http://"@) || starts_with(path, "https://"@) {
        path
    } else {
        trim_end_by(base_url, char_pred('/')) + seq!['/'] + trim_start_by(path, char_pred('/'))
    }
}

/// Makes the bundle's storyboard address absolute.
pub fn absolutize_storyboard(base_url: &str, bundle: &mut StreamBundle)
    ensures
        opt_view(final(bundle).storyboard_url) == match opt_view(old(bundle).storyboard_url) {
            Some(path) => Some(absolute_storyboard(base_url@, path)),
            None => None,
        },
        final(bundle).id == old(bundle).id,
        final(bundle).translator_id == old(bundle).translator_id,
        final(bundle).season == old(bundle).season,
        final(bundle).episode == old(bundle).episode,
        final(bundle).streams == old(bundle).streams,
        final(bundle).subtitles == old(bundle).subtitles,
        final(bundle).storyboard == old(bundle).storyboard,
        final(bundle).user_agent == old(bundle).user_agent,
        final(bundle).referer == old(bundle).referer,
{
    let path = match &bundle.storyboard_url {
        Some(p) => chars_of(p.as_str()),
        None => {
            return;
        },
    };
    if has_prefix(&path, "http://") || has_prefix(&path, "https://") {
        return;
    }
    let mut out = trim_end_char(&chars_of(base_url), '/');
    out.push('/');
    push_all(&mut out, &trim_start_char(&path, '/'));
    bundle.storyboard_url = Some(string_of(out.as_slice()));
}


/// The rank of a stream's quality.
pub open spec fn stream_rank(e: (Seq<char>, bool, Seq<Seq<char>>)) -> u32 {
    quality_rank_of(e.0)
}

proof fn lemma_by_rank_sorted(es: Seq<(Seq<char>, bool, Seq<Seq<char>>)>, ranks: Seq<u32>)
    requires
        forall|i: int, j: int| 0 <= i < j < ranks.len() ==> ranks[i] > ranks[j],
    ensures
        forall|k: int| 0 <= k < by_rank(es, ranks).len() ==> exists|m: int|
            0 <= m < ranks.len() && ranks[m] == stream_rank(#[trigger] by_rank(es, ranks)[k]),
        forall|i: int, j: int| 0 <= i < j < by_rank(es, ranks).len() ==> stream_rank(#[trigger] by_rank(es, ranks)[i])
            >= stream_rank(#[trigger] by_rank(es, ranks)[j]),
    decreases ranks.len(),
{
    if ranks.len() > 0 {
        let init = ranks.drop_last();
        let r = ranks.last();
        lemma_by_rank_sorted(es, init);
        let a = by_rank(es, init);
        let b = with_rank(es, r);
        let all = by_rank(es, ranks);
        assert(all == a + b);
        assert forall|k: int| 0 <= k < b.len() implies stream_rank(#[trigger] b[k]) == r by {
            es.lemma_filter_pred(rank_is(r), k);
        }
        assert forall|k: int| 0 <= k < all.len() implies exists|m: int|
            0 <= m < ranks.len() && ranks[m] == stream_rank(#[trigger] all[k]) by {
            if k < a.len() {
                assert(all[k] == a[k]);
                let m = choose|m: int| 0 <= m < init.len() && init[m] == stream_rank(a[k]);
                assert(ranks[m] == init[m]);
            } else {
                assert(all[k] == b[k - a.len()]);
                assert(ranks[ranks.len() - 1] == r);
            }
        }
        assert forall|i: int, j: int| 0 <= i < j < all.len() implies stream_rank(#[trigger] all[i])
            >= stream_rank(#[trigger] all[j]) by {
            if j < a.len() {
                assert(all[i] == a[i] && all[j] == a[j]);
            } else if i >= a.len() {
                assert(all[i] == b[i - a.len()] && all[j] == b[j - a.len()]);
            } else {
                assert(all[i] == a[i] && all[j] == b[j - a.len()]);
                let m = choose|m: int| 0 <= m < init.len() && init[m] == stream_rank(a[i]);
                assert(ranks[m] == init[m] && ranks[ranks.len() - 1] == r);
            }
        }
    }
}

/// The streams a reply lists come out best quality first: no stream is
/// listed after one of a lower quality rank.
pub proof fn law_streams_best_first(decoded: Seq<char>)
    ensures
        forall|i: int, j: int| 0 <= i < j < stream_list(decoded).len() ==> stream_rank(#[trigger] stream_list(decoded)[i])
            >= stream_rank(#[trigger] stream_list(decoded)[j]),
{
    lemma_by_rank_sorted(streams_in_order(split_on(decoded, ',')), rank_order());
}


proof fn lemma_mirrors_over_extends(all: Seq<Seq<char>>, url: Seq<char>, own: Seq<char>, hosts: Seq<Seq<char>>)
    ensures
        mirrors_over(all, url, own, hosts).len() >= all.len(),
        mirrors_over(all, url, own, hosts).subrange(0, all.len() as int) == all,
    decreases hosts.len(),
{
    if hosts.len() > 0 {
        lemma_mirrors_over_extends(all, url, own, hosts.drop_last());
        let before = mirrors_over(all, url, own, hosts.drop_last());
        let after = mirrors_over(all, url, own, hosts);
        assert(after.subrange(0, before.len() as int) =~= before);
        assert(after.subrange(0, all.len() as int) =~= before.subrange(0, all.len() as int));
    }
}

proof fn lemma_mirrored_upto_extends(all: Seq<Seq<char>>, urls: Seq<Seq<char>>)
    ensures
        mirrored_upto(all, urls).len() >= all.len(),
        mirrored_upto(all, urls).subrange(0, all.len() as int) == all,
    decreases urls.len(),
{
    if urls.len() > 0 {
        lemma_mirrored_upto_extends(all, urls.drop_last());
        let before = mirrored_upto(all, urls.drop_last());
        let after = mirrored_upto(all, urls);
        match url_host(urls.last()) {
            Some(own) => if cdn_host_names().contains(own) {
                lemma_mirrors_over_extends(before, urls.last(), own, cdn_host_names());
            },
            None => {},
        }
        assert(after.subrange(0, before.len() as int) =~= before);
        assert(after.subrange(0, all.len() as int) =~= before.subrange(0, all.len() as int));
    }
}

/// Offering mirrors only adds addresses: the provider's own addresses come
/// first, unchanged and in their order.
pub proof fn law_mirrors_come_after_the_originals(urls: Seq<Seq<char>>)
    ensures
        cdn_mirrored(urls).len() >= urls.len(),
        cdn_mirrored(urls).subrange(0, urls.len() as int) == urls,
{
    lemma_mirrored_upto_extends(urls, urls);
}


/// Every stream has an address, and no two start from the same one.
pub open spec fn primaries_distinct(es: Seq<(Seq<char>, bool, Seq<Seq<char>>)>) -> bool {
    &&& forall|k: int| 0 <= k < es.len() ==> (#[trigger] es[k]).2.len() > 0
    &&& forall|i: int, j: int| 0 <= i < j < es.len() ==> (#[trigger] es[i]).2[0] != (#[trigger] es[j]).2[0]
}

proof fn lemma_in_order_distinct(chunks: Seq<Seq<char>>)
    ensures
        primaries_distinct(streams_in_order(chunks)),
    decreases chunks.len(),
{
    if chunks.len() > 0 {
        lemma_in_order_distinct(chunks.drop_last());
        let init = streams_in_order(chunks.drop_last());
        match stream_of_chunk(chunks.last()) {
            Some(e) => if !has_primary(init, e.2[0]) {
                let out = init.push(e);
                assert forall|i: int, j: int| 0 <= i < j < out.len() implies (#[trigger] out[i]).2[0] != (#[trigger] out[j]).2[0] by {
                    if j < init.len() {
                        assert(out[i] == init[i] && out[j] == init[j]);
                    } else {
                        assert(out[i] == init[i] && out[j] == e);
                        assert(init[i].2.len() > 0);
                    }
                }
                assert forall|k: int| 0 <= k < out.len() implies (#[trigger] out[k]).2.len() > 0 by {
                    if k < init.len() {
                        assert(out[k] == init[k]);
                    }
                }
            },
            None => {},
        }
    }
}

proof fn lemma_filter_distinct(es: Seq<(Seq<char>, bool, Seq<Seq<char>>)>, pred: spec_fn((Seq<char>, bool, Seq<Seq<char>>)) -> bool)
    requires
        primaries_distinct(es),
    ensures
        primaries_distinct(es.filter(pred)),
    decreases es.len(),
{
    reveal(Seq::filter);
    if es.len() > 0 {
        let init = es.drop_last();
        assert(primaries_distinct(init)) by {
            assert forall|i: int, j: int| 0 <= i < j < init.len() implies (#[trigger] init[i]).2[0] != (#[trigger] init[j]).2[0] by {
                assert(init[i] == es[i] && init[j] == es[j]);
            }
            assert forall|k: int| 0 <= k < init.len() implies (#[trigger] init[k]).2.len() > 0 by {
                assert(init[k] == es[k]);
            }
        }
        lemma_filter_distinct(init, pred);
        let sub = init.filter(pred);
        if pred(es.last()) {
            let out = sub.push(es.last());
            assert(es.filter(pred) == out);
            assert forall|i: int, j: int| 0 <= i < j < out.len() implies (#[trigger] out[i]).2[0] != (#[trigger] out[j]).2[0] by {
                if j < sub.len() {
                    assert(out[i] == sub[i] && out[j] == sub[j]);
                } else {
                    assert(out[i] == sub[i] && out[j] == es.last());
                    assert(sub.contains(sub[i]));
                    init.lemma_filter_contains_rev(pred, sub[i]);
                    let m = choose|m: int| 0 <= m < init.len() && init[m] == sub[i];
                    assert(es[m] == sub[i]);
                    assert(es[es.len() - 1] == es.last());
                }
            }
            assert forall|k: int| 0 <= k < out.len() implies (#[trigger] out[k]).2.len() > 0 by {
                if k < sub.len() {
                    assert(out[k] == sub[k]);
                } else {
                    assert(es[es.len() - 1] == es.last());
                }
            }
        } else {
            assert(es.filter(pred) == sub);
        }
    }
}

proof fn lemma_by_rank_from(es: Seq<(Seq<char>, bool, Seq<Seq<char>>)>, ranks: Seq<u32>)
    ensures
        forall|k: int| 0 <= k < by_rank(es, ranks).len() ==> es.contains(#[trigger] by_rank(es, ranks)[k]),
    decreases ranks.len(),
{
    if ranks.len() > 0 {
        lemma_by_rank_from(es, ranks.drop_last());
        let a = by_rank(es, ranks.drop_last());
        let b = with_rank(es, ranks.last());
        let all = by_rank(es, ranks);
        assert forall|k: int| 0 <= k < all.len() implies es.contains(#[trigger] all[k]) by {
            if k < a.len() {
                assert(all[k] == a[k]);
            } else {
                assert(all[k] == b[k - a.len()]);
                assert(b.contains(b[k - a.len()]));
                es.lemma_filter_contains_rev(rank_is(ranks.last()), b[k - a.len()]);
            }
        }
    }
}

proof fn lemma_by_rank_distinct(es: Seq<(Seq<char>, bool, Seq<Seq<char>>)>, ranks: Seq<u32>)
    requires
        primaries_distinct(es),
        forall|i: int, j: int| 0 <= i < j < ranks.len() ==> ranks[i] > ranks[j],
    ensures
        primaries_distinct(by_rank(es, ranks)),
    decreases ranks.len(),
{
    if ranks.len() > 0 {
        let init = ranks.drop_last();
        let r = ranks.last();
        lemma_by_rank_distinct(es, init);
        lemma_by_rank_sorted(es, init);
        lemma_by_rank_from(es, init);
        lemma_filter_distinct(es, rank_is(r));
        let a = by_rank(es, init);
        let b = with_rank(es, r);
        let all = by_rank(es, ranks);
        assert(all == a + b);
        assert forall|k: int| 0 <= k < b.len() implies stream_rank(#[trigger] b[k]) == r by {
            es.lemma_filter_pred(rank_is(r), k);
        }
        assert forall|i: int, j: int| 0 <= i < j < all.len() implies (#[trigger] all[i]).2[0] != (#[trigger] all[j]).2[0] by {
            if j < a.len() {
                assert(all[i] == a[i] && all[j] == a[j]);
            } else if i >= a.len() {
                assert(all[i] == b[i - a.len()] && all[j] == b[j - a.len()]);
            } else {
                let x = a[i];
                let y = b[j - a.len()];
                assert(all[i] == x && all[j] == y);
                let m = choose|m: int| 0 <= m < init.len() && init[m] == stream_rank(a[i]);
                assert(ranks[m] == init[m] && ranks[ranks.len() - 1] == r);
                assert(x != y);
                assert(b.contains(y));
                es.lemma_filter_contains_rev(rank_is(r), y);
                let m1 = choose|m1: int| 0 <= m1 < es.len() && es[m1] == x;
                let m2 = choose|m2: int| 0 <= m2 < es.len() && es[m2] == y;
                assert(m1 != m2);
                if m1 < m2 {
                    assert(es[m1].2[0] != es[m2].2[0]);
                } else {
                    assert(es[m2].2[0] != es[m1].2[0]);
                }
            }
        }
        assert forall|k: int| 0 <= k < all.len() implies (#[trigger] all[k]).2.len() > 0 by {
            if k < a.len() {
                assert(all[k] == a[k]);
            } else {
                assert(all[k] == b[k - a.len()]);
            }
        }
    }
}

/// Every stream a reply lists has an address to play, and no two streams
/// start from the same one: a stream repeating an earlier one's address is
/// dropped, the first one kept.
pub proof fn law_each_stream_listed_once(decoded: Seq<char>)
    ensures
        primaries_distinct(stream_list(decoded)),
{
    lemma_in_order_distinct(split_on(decoded, ','));
    lemma_by_rank_distinct(streams_in_order(split_on(decoded, ',')), rank_order());
}

} // verus!

verus! {

/// How high a resolution a quality label names, counted up from 0 (none
/// named) through 360p, 480p, 720p, 1080p, 1080p Ultra and 1440p to 4K.
pub open spec fn resolution_level(q: Seq<char>) -> int {
    if contains_seq(q, "2160"@) || contains_seq(q, "4K"@) {
        7
    } else if contains_seq(q, "1440"@) || contains_seq(q, "2K"@) {
        6
    } else if contains_seq(q, "1080p Ultra"@) || contains_seq(q, "Ultra"@) {
        5
    } else if contains_seq(q, "1080"@) {
        4
    } else if contains_seq(q, "720"@) {
        3
    } else if contains_seq(q, "480"@) {
        2
    } else if contains_seq(q, "360"@) {
        1
    } else {
        0
    }
}

/// A quality's rank grows with the resolution its label names: a label
/// naming a higher resolution ranks strictly higher, and two labels naming
/// the same one rank the same.
pub proof fn law_higher_resolutions_rank_higher(a: Seq<char>, b: Seq<char>)
    ensures
        resolution_level(a) > resolution_level(b) ==> quality_rank_of(a) > quality_rank_of(b),
        resolution_level(a) == resolution_level(b) ==> quality_rank_of(a) == quality_rank_of(b),
{
}

/// The streams a reply lists come out from the highest resolution down: no
/// stream is listed after one whose label names a lower resolution, so a
/// 480p stream comes before a 360p one.
pub proof fn law_streams_by_resolution(decoded: Seq<char>)
    ensures
        forall|i: int, j: int|
            0 <= i < j < stream_list(decoded).len() ==> resolution_level(#[trigger] stream_list(decoded)[i].0)
                >= resolution_level(#[trigger] stream_list(decoded)[j].0),
{
    law_streams_best_first(decoded);
    assert forall|i: int, j: int|
        0 <= i < j < stream_list(decoded).len() implies resolution_level(#[trigger] stream_list(decoded)[i].0)
            >= resolution_level(#[trigger] stream_list(decoded)[j].0) by {
        law_higher_resolutions_rank_higher(stream_list(decoded)[j].0, stream_list(decoded)[i].0);
        assert(stream_rank(stream_list(decoded)[i]) >= stream_rank(stream_list(decoded)[j]));
    }
}

/// The fixed titles of the subtitle languages the app knows, by code in any
/// case `str::to_lowercase` folds: Russian, English, Ukrainian, German,
/// French and Spanish; any other code is shown upper-cased.
pub proof fn law_subtitle_titles(code: Seq<char>)
    ensures
        (lowercased(code) == "rus"@ || lowercased(code) == "ru"@) ==> subtitle_label(code) == "Русские"@,
        (lowercased(code) == "eng"@ || lowercased(code) == "en"@) ==> subtitle_label(code) == "English"@,
        (lowercased(code) == "ukr"@ || lowercased(code) == "ua"@) ==> subtitle_label(code) == "Українські"@,
        (lowercased(code) == "ger"@ || lowercased(code) == "de"@) ==> subtitle_label(code) == "Deutsch"@,
        (lowercased(code) == "fre"@ || lowercased(code) == "fr"@) ==> subtitle_label(code) == "Français"@,
        (lowercased(code) == "spa"@ || lowercased(code) == "es"@) ==> subtitle_label(code) == "Español"@,
{
    reveal_strlit("rus");
    reveal_strlit("ru");
    reveal_strlit("eng");
    reveal_strlit("en");
    reveal_strlit("ukr");
    reveal_strlit("ua");
    reveal_strlit("ger");
    reveal_strlit("de");
    reveal_strlit("fre");
    reveal_strlit("fr");
    reveal_strlit("spa");
    reveal_strlit("es");
    assert("ru"@ != "rus"@) by { assert("ru"@.len() != "rus"@.len()); }
    assert("eng"@ != "rus"@) by { assert("eng"@[0] != "rus"@[0]); }
    assert("eng"@ != "ru"@) by { assert("eng"@.len() != "ru"@.len()); }
    assert("en"@ != "rus"@) by { assert("en"@.len() != "rus"@.len()); }
    assert("en"@ != "ru"@) by { assert("en"@[0] != "ru"@[0]); }
    assert("en"@ != "eng"@) by { assert("en"@.len() != "eng"@.len()); }
    assert("ukr"@ != "rus"@) by { assert("ukr"@[0] != "rus"@[0]); }
    assert("ukr"@ != "ru"@) by { assert("ukr"@.len() != "ru"@.len()); }
    assert("ukr"@ != "eng"@) by { assert("ukr"@[0] != "eng"@[0]); }
    assert("ukr"@ != "en"@) by { assert("ukr"@.len() != "en"@.len()); }
    assert("ua"@ != "rus"@) by { assert("ua"@.len() != "rus"@.len()); }
    assert("ua"@ != "ru"@) by { assert("ua"@[0] != "ru"@[0]); }
    assert("ua"@ != "eng"@) by { assert("ua"@.len() != "eng"@.len()); }
    assert("ua"@ != "en"@) by { assert("ua"@[0] != "en"@[0]); }
    assert("ua"@ != "ukr"@) by { assert("ua"@.len() != "ukr"@.len()); }
    assert("ger"@ != "rus"@) by { assert("ger"@[0] != "rus"@[0]); }
    assert("ger"@ != "ru"@) by { assert("ger"@.len() != "ru"@.len()); }
    assert("ger"@ != "eng"@) by { assert("ger"@[0] != "eng"@[0]); }
    assert("ger"@ != "en"@) by { assert("ger"@.len() != "en"@.len()); }
    assert("ger"@ != "ukr"@) by { assert("ger"@[0] != "ukr"@[0]); }
    assert("ger"@ != "ua"@) by { assert("ger"@.len() != "ua"@.len()); }
    assert("de"@ != "rus"@) by { assert("de"@.len() != "rus"@.len()); }
    assert("de"@ != "ru"@) by { assert("de"@[0] != "ru"@[0]); }
    assert("de"@ != "eng"@) by { assert("de"@.len() != "eng"@.len()); }
    assert("de"@ != "en"@) by { assert("de"@[0] != "en"@[0]); }
    assert("de"@ != "ukr"@) by { assert("de"@.len() != "ukr"@.len()); }
    assert("de"@ != "ua"@) by { assert("de"@[0] != "ua"@[0]); }
    assert("de"@ != "ger"@) by { assert("de"@.len() != "ger"@.len()); }
    assert("fre"@ != "rus"@) by { assert("fre"@[0] != "rus"@[0]); }
    assert("fre"@ != "ru"@) by { assert("fre"@.len() != "ru"@.len()); }
    assert("fre"@ != "eng"@) by { assert("fre"@[0] != "eng"@[0]); }
    assert("fre"@ != "en"@) by { assert("fre"@.len() != "en"@.len()); }
    assert("fre"@ != "ukr"@) by { assert("fre"@[0] != "ukr"@[0]); }
    assert("fre"@ != "ua"@) by { assert("fre"@.len() != "ua"@.len()); }
    assert("fre"@ != "ger"@) by { assert("fre"@[0] != "ger"@[0]); }
    assert("fre"@ != "de"@) by { assert("fre"@.len() != "de"@.len()); }
    assert("fr"@ != "rus"@) by { assert("fr"@.len() != "rus"@.len()); }
    assert("fr"@ != "ru"@) by { assert("fr"@[0] != "ru"@[0]); }
    assert("fr"@ != "eng"@) by { assert("fr"@.len() != "eng"@.len()); }
    assert("fr"@ != "en"@) by { assert("fr"@[0] != "en"@[0]); }
    assert("fr"@ != "ukr"@) by { assert("fr"@.len() != "ukr"@.len()); }
    assert("fr"@ != "ua"@) by { assert("fr"@[0] != "ua"@[0]); }
    assert("fr"@ != "ger"@) by { assert("fr"@.len() != "ger"@.len()); }
    assert("fr"@ != "de"@) by { assert("fr"@[0] != "de"@[0]); }
    assert("fr"@ != "fre"@) by { assert("fr"@.len() != "fre"@.len()); }
    assert("spa"@ != "rus"@) by { assert("spa"@[0] != "rus"@[0]); }
    assert("spa"@ != "ru"@) by { assert("spa"@.len() != "ru"@.len()); }
    assert("spa"@ != "eng"@) by { assert("spa"@[0] != "eng"@[0]); }
    assert("spa"@ != "en"@) by { assert("spa"@.len() != "en"@.len()); }
    assert("spa"@ != "ukr"@) by { assert("spa"@[0] != "ukr"@[0]); }
    assert("spa"@ != "ua"@) by { assert("spa"@.len() != "ua"@.len()); }
    assert("spa"@ != "ger"@) by { assert("spa"@[0] != "ger"@[0]); }
    assert("spa"@ != "de"@) by { assert("spa"@.len() != "de"@.len()); }
    assert("spa"@ != "fre"@) by { assert("spa"@[0] != "fre"@[0]); }
    assert("spa"@ != "fr"@) by { assert("spa"@.len() != "fr"@.len()); }
    assert("es"@ != "rus"@) by { assert("es"@.len() != "rus"@.len()); }
    assert("es"@ != "ru"@) by { assert("es"@[0] != "ru"@[0]); }
    assert("es"@ != "eng"@) by { assert("es"@.len() != "eng"@.len()); }
    assert("es"@ != "en"@) by { assert("es"@[1] != "en"@[1]); }
    assert("es"@ != "ukr"@) by { assert("es"@.len() != "ukr"@.len()); }
    assert("es"@ != "ua"@) by { assert("es"@[0] != "ua"@[0]); }
    assert("es"@ != "ger"@) by { assert("es"@.len() != "ger"@.len()); }
    assert("es"@ != "de"@) by { assert("es"@[0] != "de"@[0]); }
    assert("es"@ != "fre"@) by { assert("es"@.len() != "fre"@.len()); }
    assert("es"@ != "fr"@) by { assert("es"@[0] != "fr"@[0]); }
    assert("es"@ != "spa"@) by { assert("es"@.len() != "spa"@.len()); }
}

/// Every parsed subtitle track is titled by its code: a `rus`/`ru` track
/// is "Русские" and a `ukr`/`ua` track "Українські", whatever else the list
/// holds.
pub proof fn law_parsed_subtitle_titles(raw_sub: Seq<char>, i: int)
    requires
        0 <= i < subtitle_pairs(raw_sub).len(),
    ensures
        ({
            let code = subtitle_pairs(raw_sub)[i].0;
            &&& (lowercased(code) == "rus"@ || lowercased(code) == "ru"@) ==> subtitle_label(code) == "Русские"@
            &&& (lowercased(code) == "ukr"@ || lowercased(code) == "ua"@) ==> subtitle_label(code) == "Українські"@
        }),
{
    law_subtitle_titles(subtitle_pairs(raw_sub)[i].0);
}

} // verus!
