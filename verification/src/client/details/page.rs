//! A title's page: its id, head, voice-overs, franchise parts, account
//! state and ratings, together with the info table and the schedule.

use vstd::prelude::*;
use crate::client::catalog::{catalog_items, item_views, CatalogScraper};
use crate::client::details::info::{
    info_rows, info_score, info_year, last_row_of, link_texts, link_views, linked_items, people,
    person_views, rating_views, ratings_in, row_kinds, row_links, row_people, row_ratings,
    row_value, score_upto, value_path, year_upto, InfoRow,
};
use crate::client::details::schedule::{parse_schedules, schedule_blocks, schedule_group_view};
use crate::client::models::{
    FranchisePart, LinkedItem, MediaDetails, MediaType, Person, ScheduleGroup, Translator,
    VoiceRating,
};
use crate::json::{json_bool, json_bool_at, json_error, json_parse_error, json_text, json_text_at};
use crate::html::{
    at, at_page, doc_found, element_view, element_views, first_attr_of, first_trimmed, name,
    names2, no_names, path_view, then, HtmlPage,
};
use crate::text::{
    after_last, before_first, char_pred, regex_find, regex_first_group, regex_first_match, regex_group, chars_of, contains_seq, contains_str, find_char,
    is_str, lemma_first_index, opt_view, parse_i64, parsed_i64, replace_lit, replaced,
    rfind_char, slice_vec, string_of, string_views, trim, trim_end_by, trim_end_char,
    trim_end_lit, trim_end_seq, trimmed,
};

verus! {

/// A positive id written in `s`.
pub open spec fn positive_id(s: Option<Seq<char>>) -> Option<i64> {
    match s {
        Some(t) => match parsed_i64(t) {
            Some(n) => if n > 0 {
                Some(n)
            } else {
                None
            },
            None => None,
        },
        None => None,
    }
}

/// The id at the start of a title address's last segment,
/// `…/films/42-title.html`.
pub open spec fn url_slug_id(url: Seq<char>) -> Option<i64> {
    let last = after_last(trim_end_by(url, char_pred('/')), '/');
    positive_id(Some(before_first(trim_end_seq(last, ".html"@), '-')))
}

/// A title's id: the one its favourites holder carries, or else the one its
/// address starts its last segment with.
pub open spec fn page_post_id(html: Seq<char>, url: Seq<char>) -> Option<i64> {
    let holder = doc_found(html, false, seq![], "#user-favorites-holder[data-post_id]"@, seq!["data-post_id"@]);
    match positive_id(first_attr_of(holder)) {
        Some(id) => Some(id),
        None => url_slug_id(url),
    }
}

/// The kind of a title, by its `og:type` and else by its address.
pub open spec fn page_media_type(html: Seq<char>, url: Seq<char>) -> MediaType {
    let meta = doc_found(html, false, seq![], "meta[property=\"og:type\"]"@, seq!["content"@]);
    if meta.len() > 0 {
        let content = first_attr_of(meta);
        if content == Some("video.tv_series"@) {
            MediaType::TVSeries
        } else if content == Some("video.movie"@) {
            MediaType::Movie
        } else if contains_seq(url, "/series/"@) {
            MediaType::TVSeries
        } else if contains_seq(url, "/cartoons/"@) {
            MediaType::Cartoon
        } else if contains_seq(url, "/animation/"@) {
            MediaType::Anime
        } else {
            MediaType::Movie
        }
    } else if contains_seq(url, "/series/"@) {
        MediaType::TVSeries
    } else {
        MediaType::Movie
    }
}

/// A voice-over as plain values.
pub struct TranslatorView {
    pub id: i64,
    pub name: Seq<char>,
    pub is_premium: bool,
    pub is_camrip: bool,
    pub has_ads: bool,
    pub is_director_cut: bool,
}

pub open spec fn translator_view(t: Translator) -> TranslatorView {
    TranslatorView {
        id: t.id,
        name: t.name@,
        is_premium: t.is_premium,
        is_camrip: t.is_camrip,
        has_ads: t.has_ads,
        is_director_cut: t.is_director_cut,
    }
}

pub open spec fn translator_views(v: Seq<Translator>) -> Seq<TranslatorView> {
    v.map_values(|t: Translator| translator_view(t))
}

/// A flag attribute is set when it is there, not empty and not `0`.
pub open spec fn flag_set(v: Option<Seq<char>>) -> bool {
    match v {
        Some(t) => t != "0"@ && t.len() > 0,
        None => false,
    }
}

pub open spec fn translator_names() -> Seq<Seq<char>> {
    seq!["data-translator_id"@, "class"@, "data-camrip"@, "data-ad"@, "data-director"@]
}

/// The voice-over a list entry describes, when its id reads as a number.
pub open spec fn translator_of(e: (Seq<char>, Seq<Option<Seq<char>>>)) -> Option<TranslatorView> {
    match e.1[0] {
        Some(t) => match parsed_i64(t) {
            Some(id) => Some(
                TranslatorView {
                    id,
                    name: trimmed(e.0),
                    is_premium: match e.1[1] {
                        Some(c) => contains_seq(c, "b-prem_translator"@),
                        None => false,
                    },
                    is_camrip: flag_set(e.1[2]),
                    has_ads: flag_set(e.1[3]),
                    is_director_cut: flag_set(e.1[4]),
                },
            ),
            None => None,
        },
        None => None,
    }
}

pub open spec fn translators_upto(m: Seq<(Seq<char>, Seq<Option<Seq<char>>>)>, n: int) -> Seq<TranslatorView>
    decreases n,
{
    if n <= 0 {
        seq![]
    } else {
        match translator_of(m[n - 1]) {
            Some(t) => translators_upto(m, n - 1).push(t),
            None => translators_upto(m, n - 1),
        }
    }
}

pub open spec fn listed_translators(html: Seq<char>) -> Seq<TranslatorView> {
    let m = doc_found(html, false, seq![], ".b-translator__item, #translators-list li"@, translator_names());
    translators_upto(m, m.len() as int)
}

/// The player's start call, whose second argument is the voice-over it
/// starts with.
pub const PLAYER_CALL: &'static str = r"initCDN(?:Movies|Series)Events\s*\(\s*\d+\s*,\s*(\d+)";

/// The voice-over id the page's player is started with, as written.
pub open spec fn player_translator(html: Seq<char>) -> Option<Seq<char>> {
    regex_first_group(PLAYER_CALL@, html, 1)
}

fn find_player_translator(html: &str) -> (r: Option<String>)
    ensures
        opt_view(r) == player_translator(html@),
{
    regex_group(PLAYER_CALL, html, 1)
}

/// The voice-overs a title offers: those its list names, or else the one its
/// player starts with; none while the title is not released.
pub open spec fn page_translators(html: Seq<char>) -> Seq<TranslatorView> {
    if doc_found(html, false, seq![], ".b-post__go_status"@, seq![]).len() > 0 {
        seq![]
    } else if listed_translators(html).len() > 0 {
        listed_translators(html)
    } else {
        match player_translator(html) {
            Some(t) => match parsed_i64(t) {
                Some(id) => seq![
                    TranslatorView {
                        id,
                        name: "По умолчанию"@,
                        is_premium: false,
                        is_camrip: false,
                        has_ads: false,
                        is_director_cut: false,
                    },
                ],
                None => seq![],
            },
            None => seq![],
        }
    }
}

/// A franchise part as plain values.
pub struct PartView {
    pub title: Seq<char>,
    pub url: Seq<char>,
    pub is_current: bool,
}

pub open spec fn part_view(p: FranchisePart) -> PartView {
    PartView { title: p.title@, url: p.url@, is_current: p.is_current }
}

pub open spec fn part_views(v: Seq<FranchisePart>) -> Seq<PartView> {
    v.map_values(|p: FranchisePart| part_view(p))
}

/// Franchise part `k`, when it has a title; the current one is this page.
pub open spec fn part_at(html: Seq<char>, url: Seq<char>, k: int) -> Option<PartView> {
    let e = doc_found(html, false, seq![], ".b-post__partcontent_item"@, seq!["class"@, "data-url"@])[k];
    let is_current = match e.1[0] {
        Some(c) => contains_seq(c, "current"@),
        None => false,
    };
    let title = match first_trimmed(doc_found(html, false, seq![(".b-post__partcontent_item"@, k)], ".title"@, seq![])) {
        Some(t) => t,
        None => seq![],
    };
    if title.len() > 0 {
        Some(
            PartView {
                title,
                url: if is_current {
                    url
                } else {
                    match e.1[1] {
                        Some(u) => u,
                        None => seq![],
                    }
                },
                is_current,
            },
        )
    } else {
        None
    }
}

pub open spec fn parts_upto(html: Seq<char>, url: Seq<char>, n: int) -> Seq<PartView>
    decreases n,
{
    if n <= 0 {
        seq![]
    } else {
        match part_at(html, url, n - 1) {
            Some(p) => parts_upto(html, url, n - 1).push(p),
            None => parts_upto(html, url, n - 1),
        }
    }
}

pub open spec fn page_parts(html: Seq<char>, url: Seq<char>) -> Seq<PartView> {
    parts_upto(html, url, doc_found(html, false, seq![], ".b-post__partcontent_item"@, seq!["class"@, "data-url"@]).len() as int)
}

/// The ids among the first `n` found that read as numbers.
pub open spec fn ids_upto(m: Seq<(Seq<char>, Seq<Option<Seq<char>>>)>, n: int) -> Seq<i64>
    decreases n,
{
    if n <= 0 {
        seq![]
    } else {
        match m[n - 1].1[0] {
            Some(v) => match parsed_i64(v) {
                Some(id) => ids_upto(m, n - 1).push(id),
                None => ids_upto(m, n - 1),
            },
            None => ids_upto(m, n - 1),
        }
    }
}

/// The favourites lists the title is checked in.
pub open spec fn page_favorite_ids(html: Seq<char>) -> Seq<i64> {
    let m = doc_found(html, false, seq![], ".hd-label-row input[checked]"@, seq!["value"@]);
    ids_upto(m, m.len() as int)
}

/// A voice-over's share of votes as plain values, kept as the text shown
/// with `%` dropped and a decimal point.
pub struct VoiceRatingView {
    pub title: Seq<char>,
    pub rating: Seq<char>,
}

pub open spec fn voice_rating_view(v: VoiceRating) -> VoiceRatingView {
    VoiceRatingView { title: v.title@, rating: v.rating@ }
}

pub open spec fn voice_rating_views(v: Seq<VoiceRating>) -> Seq<VoiceRatingView> {
    v.map_values(|x: VoiceRating| voice_rating_view(x))
}

/// Entry `k` of the voice-over statistics, when it has a title and a count.
pub open spec fn voice_entry(raw: Seq<char>, k: int) -> Option<VoiceRatingView> {
    let path = seq![(".b-rgstats__list_item"@, k)];
    let titles = doc_found(raw, true, path, ".title"@, seq![]);
    let counts = doc_found(raw, true, path, ".count"@, seq![]);
    if titles.len() > 0 && counts.len() > 0 {
        Some(
            VoiceRatingView {
                title: trimmed(titles[0].0),
                rating: trimmed(replaced(replaced(counts[0].0, "%"@, ""@), ","@, "."@)),
            },
        )
    } else {
        None
    }
}

pub open spec fn voice_entries_upto(raw: Seq<char>, n: int) -> Seq<VoiceRatingView>
    decreases n,
{
    if n <= 0 {
        seq![]
    } else {
        match voice_entry(raw, n - 1) {
            Some(v) => voice_entries_upto(raw, n - 1).push(v),
            None => voice_entries_upto(raw, n - 1),
        }
    }
}

/// The voice-over statistics the page keeps, as markup, in the title of
/// its help badge.
pub open spec fn page_voice_ratings(html: Seq<char>) -> Seq<VoiceRatingView> {
    match first_attr_of(doc_found(html, false, seq![], ".b-rgstats__help[title]"@, seq!["title"@])) {
        Some(raw) => voice_entries_upto(raw, doc_found(raw, true, seq![], ".b-rgstats__list_item"@, seq![]).len() as int),
        None => seq![],
    }
}

fn positive_id_of(s: Option<Vec<char>>) -> (r: Option<i64>)
    ensures
        r == positive_id(match s {
            Some(v) => Some(v@),
            None => None,
        }),
{
    match s {
        Some(v) => match parse_i64(&v) {
            Some(n) => if n > 0 {
                Some(n)
            } else {
                None
            },
            None => None,
        },
        None => None,
    }
}

/// The title's id, from the page or else from its address.
pub fn extract_post_id(page: &HtmlPage, url: &str) -> (r: Option<i64>)
    requires
        !page.is_fragment(),
    ensures
        r == page_post_id(page.source(), url@),
{
    let held = page.first_attr(&at_page(), "#user-favorites-holder[data-post_id]", "data-post_id");
    let from_page = positive_id_of(match held {
        Some(h) => Some(chars_of(h.as_str())),
        None => None,
    });
    if from_page.is_some() {
        return from_page;
    }
    let trimmed_url = trim_end_char(&chars_of(url), '/');
    let last = match rfind_char(&trimmed_url, '/') {
        Some(i) => slice_vec(&trimmed_url, i + 1, trimmed_url.len()),
        None => trimmed_url.clone(),
    };
    assert(last@ == after_last(trim_end_by(url@, char_pred('/')), '/'));
    let stem = trim_end_lit(&last, ".html");
    let head = match find_char(&stem, '-') {
        Some(i) => {
            proof {
                lemma_first_index(stem@, '-', i as int);
            }
            slice_vec(&stem, 0, i)
        },
        None => stem.clone(),
    };
    assert(head@ == before_first(stem@, '-'));
    positive_id_of(Some(head))
}

fn media_type_of(page: &HtmlPage, url: &str) -> (r: MediaType)
    requires
        !page.is_fragment(),
    ensures
        r == page_media_type(page.source(), url@),
{
    let u = chars_of(url);
    let metas = page.find(&at_page(), "meta[property=\"og:type\"]", &name("content"));
    if metas.len() > 0 {
        let content = page.first_attr(&at_page(), "meta[property=\"og:type\"]", "content");
        let is_series = match &content {
            Some(c) => is_str(&chars_of(c.as_str()), "video.tv_series"),
            None => false,
        };
        let is_movie = match &content {
            Some(c) => is_str(&chars_of(c.as_str()), "video.movie"),
            None => false,
        };
        if is_series {
            MediaType::TVSeries
        } else if is_movie {
            MediaType::Movie
        } else if contains_str(&u, "/series/") {
            MediaType::TVSeries
        } else if contains_str(&u, "/cartoons/") {
            MediaType::Cartoon
        } else if contains_str(&u, "/animation/") {
            MediaType::Anime
        } else {
            MediaType::Movie
        }
    } else if contains_str(&u, "/series/") {
        MediaType::TVSeries
    } else {
        MediaType::Movie
    }
}

fn flag(v: &Option<String>) -> (r: bool)
    ensures
        r == flag_set(opt_view(*v)),
{
    match v {
        Some(t) => {
            let c = chars_of(t.as_str());
            !is_str(&c, "0") && c.len() > 0
        },
        None => false,
    }
}

fn translator_from(e: &crate::html::HtmlElement) -> (r: Option<Translator>)
    requires
        e.attrs@.len() == 5,
    ensures
        match r {
            Some(t) => translator_of(element_view(*e)) == Some(translator_view(t)),
            None => translator_of(element_view(*e)) is None,
        },
{
    assert(element_view(*e).1[0] == opt_view(e.attrs@[0]));
    assert(element_view(*e).1[1] == opt_view(e.attrs@[1]));
    assert(element_view(*e).1[2] == opt_view(e.attrs@[2]));
    assert(element_view(*e).1[3] == opt_view(e.attrs@[3]));
    assert(element_view(*e).1[4] == opt_view(e.attrs@[4]));
    let id = match &e.attrs[0] {
        Some(t) => match parse_i64(&chars_of(t.as_str())) {
            Some(id) => id,
            None => {
                return None;
            },
        },
        None => {
            return None;
        },
    };
    let is_premium = match &e.attrs[1] {
        Some(c) => contains_str(&chars_of(c.as_str()), "b-prem_translator"),
        None => false,
    };
    Some(
        Translator {
            id,
            name: string_of(trim(&chars_of(e.text.as_str())).as_slice()),
            is_premium,
            is_camrip: flag(&e.attrs[2]),
            has_ads: flag(&e.attrs[3]),
            is_director_cut: flag(&e.attrs[4]),
        },
    )
}

/// The voice-overs the title offers.
pub fn translators_of(page: &HtmlPage, html: &str) -> (r: Vec<Translator>)
    requires
        page.source() == html@,
        !page.is_fragment(),
    ensures
        translator_views(r@) == page_translators(html@),
{
    let mut names = name("data-translator_id");
    names = crate::html::and_name(names, "class");
    names = crate::html::and_name(names, "data-camrip");
    names = crate::html::and_name(names, "data-ad");
    names = crate::html::and_name(names, "data-director");
    assert(crate::html::names_view(names@) =~= translator_names());
    let m = page.find(&at_page(), ".b-translator__item, #translators-list li", &names);
    let ghost mv = element_views(m@);
    let mut listed: Vec<Translator> = Vec::new();
    let mut i: usize = 0;
    while i < m.len()
        invariant
            i <= m@.len(),
            mv == element_views(m@),
            forall|j: int| 0 <= j < m@.len() ==> (#[trigger] m@[j]).attrs@.len() == 5,
            translator_views(listed@) == translators_upto(mv, i as int),
        decreases m.len() - i,
    {
        match translator_from(&m[i]) {
            Some(t) => {
                let ghost prev = listed@;
                listed.push(t);
                assert(listed@ =~= prev.push(t));
                assert(translator_views(listed@) =~= translator_views(prev).push(translator_view(t)));
            },
            None => {},
        }
        i += 1;
    }
    if page.has(&at_page(), ".b-post__go_status") {
        let none: Vec<Translator> = Vec::new();
        assert(translator_views(none@) =~= seq![]);
        return none;
    }
    if listed.len() > 0 {
        return listed;
    }
    let mut out: Vec<Translator> = Vec::new();
    match find_player_translator(html) {
        Some(t) => match parse_i64(&chars_of(t.as_str())) {
            Some(id) => {
                out.push(
                    Translator {
                        id,
                        name: crate::text::owned("По умолчанию"),
                        is_premium: false,
                        is_camrip: false,
                        has_ads: false,
                        is_director_cut: false,
                    },
                );
            },
            None => {},
        },
        None => {},
    }
    assert(translator_views(out@) =~= page_translators(html@));
    out
}

/// The franchise parts the page lists.
pub fn franchises_of(page: &HtmlPage, url: &str) -> (r: Vec<FranchisePart>)
    requires
        !page.is_fragment(),
    ensures
        part_views(r@) == page_parts(page.source(), url@),
{
    let ghost html = page.source();
    let m = page.find(&at_page(), ".b-post__partcontent_item", &names2("class", "data-url"));
    let ghost mv = element_views(m@);
    let mut out: Vec<FranchisePart> = Vec::new();
    let mut k: usize = 0;
    while k < m.len()
        invariant
            k <= m@.len(),
            !page.is_fragment(),
            html == page.source(),
            mv == element_views(m@),
            mv == doc_found(html, false, seq![], ".b-post__partcontent_item"@, seq!["class"@, "data-url"@]),
            forall|j: int| 0 <= j < m@.len() ==> (#[trigger] m@[j]).attrs@.len() == 2,
            part_views(out@) == parts_upto(html, url@, k as int),
        decreases m.len() - k,
    {
        let e = &m[k];
        assert(mv[k as int] == element_view(m@[k as int]));
        assert(element_view(*e).1[0] == opt_view(e.attrs@[0]));
        assert(element_view(*e).1[1] == opt_view(e.attrs@[1]));
        let is_current = match &e.attrs[0] {
            Some(c) => contains_str(&chars_of(c.as_str()), "current"),
            None => false,
        };
        let title = match page.first_text(&at(".b-post__partcontent_item", k), ".title") {
            Some(t) => t,
            None => String::new(),
        };
        if !title.as_str().is_empty() {
            let part_url = if is_current {
                crate::text::owned(url)
            } else {
                match &e.attrs[1] {
                    Some(u) => u.clone(),
                    None => String::new(),
                }
            };
            let part = FranchisePart { title, url: part_url, is_current };
            let ghost prev = out@;
            out.push(part);
            assert(out@ =~= prev.push(part));
            assert(part_views(out@) =~= part_views(prev).push(part_view(part)));
        }
        k += 1;
    }
    out
}

/// The favourites lists the title is checked in.
pub fn favorite_ids_of(page: &HtmlPage) -> (r: Vec<i64>)
    requires
        !page.is_fragment(),
    ensures
        r@ == page_favorite_ids(page.source()),
{
    let m = page.find(&at_page(), ".hd-label-row input[checked]", &name("value"));
    let ghost mv = element_views(m@);
    let mut out: Vec<i64> = Vec::new();
    let mut k: usize = 0;
    while k < m.len()
        invariant
            k <= m@.len(),
            mv == element_views(m@),
            forall|j: int| 0 <= j < m@.len() ==> (#[trigger] m@[j]).attrs@.len() == 1,
            out@ == ids_upto(mv, k as int),
        decreases m.len() - k,
    {
        assert(mv[k as int].1[0] == opt_view(m@[k as int].attrs@[0]));
        match &m[k].attrs[0] {
            Some(v) => match parse_i64(&chars_of(v.as_str())) {
                Some(id) => {
                    out.push(id);
                },
                None => {},
            },
            None => {},
        }
        k += 1;
    }
    out
}

/// The voice-over statistics of the page.
pub fn parse_voice_ratings(page: &HtmlPage) -> (r: Vec<VoiceRating>)
    requires
        !page.is_fragment(),
    ensures
        voice_rating_views(r@) == page_voice_ratings(page.source()),
{
    let raw = match page.first_attr(&at_page(), ".b-rgstats__help[title]", "title") {
        Some(raw) => raw,
        None => {
            let none: Vec<VoiceRating> = Vec::new();
            assert(voice_rating_views(none@) =~= seq![]);
            return none;
        },
    };
    let fragment = HtmlPage::parse_fragment(raw.as_str());
    let count = fragment.find(&at_page(), ".b-rgstats__list_item", &no_names()).len();
    let mut out: Vec<VoiceRating> = Vec::new();
    let mut k: usize = 0;
    while k < count
        invariant
            k <= count,
            fragment.source() == raw@,
            fragment.is_fragment(),
            count == doc_found(raw@, true, seq![], ".b-rgstats__list_item"@, seq![]).len(),
            voice_rating_views(out@) == voice_entries_upto(raw@, k as int),
        decreases count - k,
    {
        let item = at(".b-rgstats__list_item", k);
        let titles = fragment.find(&item, ".title", &no_names());
        let counts = fragment.find(&item, ".count", &no_names());
        if titles.len() > 0 && counts.len() > 0 {
            assert(element_view(titles@[0]).0 == titles@[0].text@);
            assert(element_view(counts@[0]).0 == counts@[0].text@);
            let cleaned = replace_lit(&replace_lit(&chars_of(counts[0].text.as_str()), "%", ""), ",", ".");
            let v = VoiceRating {
                title: string_of(trim(&chars_of(titles[0].text.as_str())).as_slice()),
                rating: string_of(trim(&cleaned).as_slice()),
            };
            let ghost prev = out@;
            out.push(v);
            assert(out@ =~= prev.push(v));
            assert(voice_rating_views(out@) =~= voice_rating_views(prev).push(voice_rating_view(v)));
        }
        k += 1;
    }
    out
}


fn value_cell(r: usize) -> (p: Vec<(&'static str, usize)>)
    ensures
        path_view(p@) == value_path(r as int),
{
    let p = then(&at(".b-post__info tr", r), "td", 1);
    assert(path_view(p@) =~= value_path(r as int));
    p
}

fn row_link_texts(page: &HtmlPage, html: &str, kinds: &Vec<InfoRow>, kind: InfoRow) -> (r: Vec<String>)
    requires
        page.source() == html@,
        !page.is_fragment(),
        kinds@.len() == info_rows(html@),
        forall|i: int| 0 <= i < kinds@.len() ==> #[trigger] kinds@[i] == crate::client::details::info::row_kind(html@, i),
    ensures
        string_views(r@) == link_texts(html@, kind),
{
    match last_row_of(kinds, kind, html) {
        Some(row) => page.texts(&value_cell(row), "a"),
        None => {
            let none: Vec<String> = Vec::new();
            assert(string_views(none@) =~= seq![]);
            none
        },
    }
}

fn row_link_items(page: &HtmlPage, html: &str, kinds: &Vec<InfoRow>, kind: InfoRow) -> (r: Vec<LinkedItem>)
    requires
        page.source() == html@,
        !page.is_fragment(),
        kinds@.len() == info_rows(html@),
        forall|i: int| 0 <= i < kinds@.len() ==> #[trigger] kinds@[i] == crate::client::details::info::row_kind(html@, i),
    ensures
        link_views(r@) == row_links(html@, kind),
{
    match last_row_of(kinds, kind, html) {
        Some(row) => linked_items(page, &value_cell(row)),
        None => {
            let none: Vec<LinkedItem> = Vec::new();
            assert(link_views(none@) =~= seq![]);
            none
        },
    }
}

fn row_people_of(page: &HtmlPage, html: &str, kinds: &Vec<InfoRow>, kind: InfoRow) -> (r: Vec<Person>)
    requires
        page.source() == html@,
        !page.is_fragment(),
        kinds@.len() == info_rows(html@),
        forall|i: int| 0 <= i < kinds@.len() ==> #[trigger] kinds@[i] == crate::client::details::info::row_kind(html@, i),
    ensures
        person_views(r@) == row_people(html@, kind),
{
    match last_row_of(kinds, kind, html) {
        Some(row) => people(page, &value_cell(row)),
        None => {
            let none: Vec<Person> = Vec::new();
            assert(person_views(none@) =~= seq![]);
            none
        },
    }
}

fn row_ratings_of(page: &HtmlPage, html: &str, kinds: &Vec<InfoRow>) -> (r: Vec<crate::client::models::Rating>)
    requires
        page.source() == html@,
        !page.is_fragment(),
        kinds@.len() == info_rows(html@),
        forall|i: int| 0 <= i < kinds@.len() ==> #[trigger] kinds@[i] == crate::client::details::info::row_kind(html@, i),
    ensures
        rating_views(r@) == row_ratings(html@),
{
    match last_row_of(kinds, InfoRow::Ratings, html) {
        Some(row) => ratings_in(page, &value_cell(row)),
        None => {
            let none: Vec<crate::client::models::Rating> = Vec::new();
            assert(rating_views(none@) =~= seq![]);
            none
        },
    }
}

fn row_value_of(html: &str, kinds: &Vec<InfoRow>, values: &Vec<String>, kind: InfoRow) -> (r: Option<String>)
    requires
        kind != InfoRow::Other,
        kinds@.len() == info_rows(html@),
        values@.len() == info_rows(html@),
        forall|i: int| 0 <= i < kinds@.len() ==> #[trigger] kinds@[i] == crate::client::details::info::row_kind(html@, i),
        forall|i: int|
            0 <= i < values@.len() && crate::client::details::info::row_kind(html@, i) != InfoRow::Other
                ==> (#[trigger] values@[i])@ == crate::client::details::info::value_text(html@, i),
    ensures
        opt_view(r) == row_value(html@, kind),
{
    match last_row_of(kinds, kind, html) {
        Some(row) => {
            assert(values@[row as int]@ == crate::client::details::info::value_text(html@, row as int));
            Some(string_of(trim(&chars_of(values[row].as_str())).as_slice()))
        },
        None => None,
    }
}

pub open spec fn or_empty(o: Option<Seq<char>>) -> Seq<char> {
    match o {
        Some(s) => s,
        None => seq![],
    }
}

/// The head of the page: what its title block, cover and score show.
pub open spec fn head_matches(d: MediaDetails, html: Seq<char>, url: Seq<char>) -> bool {
    &&& d.title@ == match first_trimmed(doc_found(html, false, seq![], ".b-post__title h1, .b-post__title"@, seq![])) {
        Some(t) => t,
        None => "Без названия"@,
    }
    &&& opt_view(d.orig_title) == first_trimmed(doc_found(html, false, seq![], ".b-post__origtitle"@, seq![]))
    &&& d.url@ == url
    &&& opt_view(d.poster_url) == first_attr_of(doc_found(html, false, seq![], ".b-sidecover img"@, seq!["src"@]))
    &&& opt_view(d.poster_hq_url) == first_attr_of(doc_found(html, false, seq![], ".b-sidecover a"@, seq!["href"@]))
    &&& d.description@ == or_empty(first_trimmed(doc_found(html, false, seq![], ".b-post__description_text"@, seq![])))
    &&& d.media_type == page_media_type(html, url)
    &&& opt_view(d.rating_rezka) == first_trimmed(doc_found(html, false, seq![], ".b-post__rating .num"@, seq![]))
    &&& d.has_trailer == (doc_found(html, false, seq![], ".b-post__trailer_button, .b-post__trailer"@, seq![]).len() > 0)
    &&& d.has_posted_rating == (doc_found(html, false, seq![], ".b-rating .current"@, seq![]).len() > 0)
}

/// What the info table says, row by row.
pub open spec fn info_matches(d: MediaDetails, html: Seq<char>) -> bool {
    &&& d.year == year_upto(html, info_rows(html))
    &&& opt_view(d.rating_imdb) == score_upto(html, "IMDb:"@, info_rows(html))
    &&& opt_view(d.rating_kp) == score_upto(html, "Кинопоиск:"@, info_rows(html))
    &&& string_views(d.countries@) == link_texts(html, InfoRow::Country)
    &&& string_views(d.genres@) == link_texts(html, InfoRow::Genre)
    &&& string_views(d.directors@) == link_texts(html, InfoRow::Director)
    &&& string_views(d.actors@) == link_texts(html, InfoRow::Cast)
    &&& opt_view(d.duration) == row_value(html, InfoRow::Duration)
    &&& link_views(d.country_links@) == row_links(html, InfoRow::Country)
    &&& link_views(d.genre_links@) == row_links(html, InfoRow::Genre)
    &&& link_views(d.included_in@) == row_links(html, InfoRow::Lists)
    &&& link_views(d.from_collections@) == row_links(html, InfoRow::Series)
    &&& person_views(d.directors_details@) == row_people(html, InfoRow::Director)
    &&& person_views(d.actors_details@) == row_people(html, InfoRow::Cast)
    &&& rating_views(d.ratings@) == row_ratings(html)
}

/// The rest of the page: voice-overs, parts, statistics, schedule, related
/// titles and the account's favourites lists.
pub open spec fn lists_match(d: MediaDetails, html: Seq<char>, url: Seq<char>) -> bool {
    &&& translator_views(d.translators@) == page_translators(html)
    &&& d.seasons@.len() == 0
    &&& part_views(d.franchises@) == page_parts(html, url)
    &&& voice_rating_views(d.voice_ratings@) == page_voice_ratings(html)
    &&& d.schedules@.map_values(|g: ScheduleGroup| schedule_group_view(g)) == schedule_blocks(html)
    &&& item_views(d.related@) == catalog_items(html)
    &&& forall|i: int| 0 <= i < d.related@.len() ==> (#[trigger] d.related@[i]).orig_title is None
    &&& d.favorite_category_ids@ == page_favorite_ids(html)
}

/// Reads a title's page, found at `url`. A page whose id can be read
/// neither from it nor from its address is refused.
pub fn parse_details_html(html: &str, url: &str) -> (r: Result<MediaDetails, String>)
    ensures
        match page_post_id(html@, url@) {
            Some(id) => r matches Ok(d) && d.id == id && head_matches(d, html@, url@) && info_matches(d, html@)
                && lists_match(d, html@, url@),
            None => r matches Err(e) && e@ == "The provider page has no valid media ID"@,
        },
{
    let page = HtmlPage::parse_document(html);
    let id = match extract_post_id(&page, url) {
        Some(id) => id,
        None => {
            return Err(crate::text::owned("The provider page has no valid media ID"));
        },
    };
    let title = match page.first_text(&at_page(), ".b-post__title h1, .b-post__title") {
        Some(t) => t,
        None => crate::text::owned("Без названия"),
    };
    let description = match page.first_text(&at_page(), ".b-post__description_text") {
        Some(t) => t,
        None => String::new(),
    };
    let (kinds, values) = row_kinds(&page, html);
    Ok(
        MediaDetails {
            id,
            title,
            orig_title: page.first_text(&at_page(), ".b-post__origtitle"),
            url: crate::text::owned(url),
            poster_url: page.first_attr(&at_page(), ".b-sidecover img", "src"),
            poster_hq_url: page.first_attr(&at_page(), ".b-sidecover a", "href"),
            description,
            year: info_year(&page, html, &kinds),
            media_type: media_type_of(&page, url),
            rating_rezka: page.first_text(&at_page(), ".b-post__rating .num"),
            rating_imdb: info_score(html, &kinds, &values, "IMDb:"),
            rating_kp: info_score(html, &kinds, &values, "Кинопоиск:"),
            genres: row_link_texts(&page, html, &kinds, InfoRow::Genre),
            countries: row_link_texts(&page, html, &kinds, InfoRow::Country),
            directors: row_link_texts(&page, html, &kinds, InfoRow::Director),
            actors: row_link_texts(&page, html, &kinds, InfoRow::Cast),
            duration: row_value_of(html, &kinds, &values, InfoRow::Duration),
            translators: translators_of(&page, html),
            seasons: Vec::new(),
            franchises: franchises_of(&page, url),
            genre_links: row_link_items(&page, html, &kinds, InfoRow::Genre),
            country_links: row_link_items(&page, html, &kinds, InfoRow::Country),
            directors_details: row_people_of(&page, html, &kinds, InfoRow::Director),
            actors_details: row_people_of(&page, html, &kinds, InfoRow::Cast),
            ratings: row_ratings_of(&page, html, &kinds),
            voice_ratings: parse_voice_ratings(&page),
            schedules: parse_schedules(&page),
            related: CatalogScraper::parse_catalog_html(html),
            included_in: row_link_items(&page, html, &kinds, InfoRow::Lists),
            from_collections: row_link_items(&page, html, &kinds, InfoRow::Series),
            has_trailer: page.has(&at_page(), ".b-post__trailer_button, .b-post__trailer"),
            has_posted_rating: page.has(&at_page(), ".b-rating .current"),
            favorite_category_ids: favorite_ids_of(&page),
        },
    )
}


/// What a reply to a page operation comes to: `Ok` when it reports
/// success, and otherwise `fallback`.
pub open spec fn provider_success(response: Seq<char>, fallback: Seq<char>) -> Result<(), Seq<char>> {
    if json_parse_error(response) is Some {
        Err("Provider response was malformed"@)
    } else if json_bool_at(response, "success"@) == Some(true) {
        Ok(())
    } else {
        Err(fallback)
    }
}

/// Reads the reply to a rating or a comment like.
pub fn require_success(response: &str, fallback: &str) -> (r: Result<(), String>)
    ensures
        match provider_success(response@, fallback@) {
            Ok(()) => r is Ok,
            Err(e) => r matches Err(m) && m@ == e,
        },
{
    if json_error(response).is_some() {
        return Err(crate::text::owned("Provider response was malformed"));
    }
    if json_bool(response, "success") == Some(true) {
        Ok(())
    } else {
        Err(crate::text::owned(fallback))
    }
}

/// An `https://` address, up to a quote, white space or `<`.
pub const HTTPS_ADDRESS: &'static str = r#"https://[^\"'\s<]+"#;

/// The first `https://` address in a text.
pub open spec fn first_https_address(text: Seq<char>) -> Option<Seq<char>> {
    regex_first_match(HTTPS_ADDRESS@, text)
}

fn find_https_address(text: &str) -> (r: Option<String>)
    ensures
        opt_view(r) == first_https_address(text@),
{
    regex_find(HTTPS_ADDRESS, text)
}

/// What a trailer reply comes to: the address its embed code plays, if it
/// reports one.
pub open spec fn trailer_reply(response: Seq<char>) -> Result<Option<Seq<char>>, Seq<char>> {
    if json_parse_error(response) is Some {
        Err("Trailer response was malformed"@)
    } else if json_bool_at(response, "success"@) != Some(true) {
        Ok(None)
    } else {
        Ok(
            first_https_address(
                match json_text_at(response, "code"@) {
                    Some(c) => c,
                    None => seq![],
                },
            ),
        )
    }
}

/// Reads the reply to a trailer request.
pub fn read_trailer(response: &str) -> (r: Result<Option<String>, String>)
    ensures
        match trailer_reply(response@) {
            Ok(address) => r matches Ok(got) && opt_view(got) == address,
            Err(e) => r matches Err(m) && m@ == e,
        },
{
    if json_error(response).is_some() {
        return Err(crate::text::owned("Trailer response was malformed"));
    }
    if json_bool(response, "success") != Some(true) {
        return Ok(None);
    }
    let code = match json_text(response, "code") {
        Some(c) => c,
        None => String::new(),
    };
    Ok(find_https_address(code.as_str()))
}

/// A rating the site takes: one to ten.
pub fn check_rating(rating: u8) -> (r: Result<(), String>)
    ensures
        1 <= rating <= 10 ==> r is Ok,
        !(1 <= rating <= 10) ==> (r matches Err(m) && m@ == "Rating must be between 1 and 10"@),
{
    if 1 <= rating && rating <= 10 {
        Ok(())
    } else {
        Err(crate::text::owned("Rating must be between 1 and 10"))
    }
}

} // verus!
