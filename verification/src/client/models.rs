//! The values the client hands to front ends.
//!
//! A score the provider prints (a rating, a share of votes) is kept as the
//! text it printed, which reads as a number; front ends turn it into one.

use vstd::prelude::*;
use crate::client::countries::{canonical, canonical_name, contains_name};
use crate::text::{
    char_pred, chars_of, parse_i64, parsed_i64, split_char, split_on, string_of, string_views, trim,
    trim_end_by, trim_end_char, trimmed, views,
};

verus! {

#[derive(Debug, Clone, Copy, PartialEq, Eq, Structural)]
pub enum MediaType {
    Movie,
    TVSeries,
    Cartoon,
    Anime,
    Other,
}

impl Default for MediaType {
    fn default() -> (r: Self)
        ensures
            r == MediaType::Movie,
    {
        MediaType::Movie
    }
}

pub open spec fn media_type_label(t: MediaType) -> Seq<char> {
    match t {
        MediaType::Movie => "Фильм"@,
        MediaType::TVSeries => "Сериал"@,
        MediaType::Cartoon => "Мультфильм"@,
        MediaType::Anime => "Аниме"@,
        MediaType::Other => "Видео"@,
    }
}

impl MediaType {
    pub fn label(&self) -> (r: &'static str)
        ensures
            r@ == media_type_label(*self),
    {
        match self {
            MediaType::Movie => "Фильм",
            MediaType::TVSeries => "Сериал",
            MediaType::Cartoon => "Мультфильм",
            MediaType::Anime => "Аниме",
            MediaType::Other => "Видео",
        }
    }
}

#[derive(Debug, Clone, Copy, PartialEq, Eq, Structural)]
pub enum CatalogCategory {
    All,
    Films,
    Series,
    Cartoons,
    Animation,
}

pub open spec fn category_path(c: CatalogCategory) -> Seq<char> {
    match c {
        CatalogCategory::All => ""@,
        CatalogCategory::Films => "films/"@,
        CatalogCategory::Series => "series/"@,
        CatalogCategory::Cartoons => "cartoons/"@,
        CatalogCategory::Animation => "animation/"@,
    }
}

pub open spec fn category_label(c: CatalogCategory) -> Seq<char> {
    match c {
        CatalogCategory::All => "Все"@,
        CatalogCategory::Films => "Фильмы"@,
        CatalogCategory::Series => "Сериалы"@,
        CatalogCategory::Cartoons => "Мультфильмы"@,
        CatalogCategory::Animation => "Аниме"@,
    }
}

impl CatalogCategory {
    pub fn path(&self) -> (r: &'static str)
        ensures
            r@ == category_path(*self),
    {
        match self {
            CatalogCategory::All => "",
            CatalogCategory::Films => "films/",
            CatalogCategory::Series => "series/",
            CatalogCategory::Cartoons => "cartoons/",
            CatalogCategory::Animation => "animation/",
        }
    }

    pub fn label(&self) -> (r: &'static str)
        ensures
            r@ == category_label(*self),
    {
        match self {
            CatalogCategory::All => "Все",
            CatalogCategory::Films => "Фильмы",
            CatalogCategory::Series => "Сериалы",
            CatalogCategory::Cartoons => "Мультфильмы",
            CatalogCategory::Animation => "Аниме",
        }
    }
}

#[derive(Debug, Clone)]
pub struct MediaItem {
    pub id: i64,
    pub title: String,
    pub orig_title: Option<String>,
    pub url: String,
    pub poster_url: Option<String>,
    pub year: Option<i32>,
    pub category: Option<String>,
    /// The rating as printed; it reads as a number.
    pub rating: Option<String>,
    pub info: Option<String>,
}

#[derive(Debug, Clone)]
pub struct Translator {
    pub id: i64,
    pub name: String,
    pub is_premium: bool,
    pub is_camrip: bool,
    pub has_ads: bool,
    pub is_director_cut: bool,
}

#[derive(Debug, Clone)]
pub struct Episode {
    pub id: i64,
    pub season_id: i64,
    pub title: String,
    pub watch_id: Option<String>,
    pub is_watched: bool,
}

#[derive(Debug, Clone)]
pub struct Season {
    pub id: i64,
    pub title: String,
    pub episodes: Vec<Episode>,
}

#[derive(Debug, Clone)]
pub struct FranchisePart {
    pub title: String,
    pub url: String,
    pub is_current: bool,
}

#[derive(Debug, Clone)]
pub struct LinkedItem {
    pub name: String,
    pub url: String,
}

#[derive(Debug, Clone)]
pub struct Person {
    pub name: String,
    pub url: String,
    pub photo_url: Option<String>,
    pub role: Option<String>,
}

#[derive(Debug, Clone)]
pub struct Rating {
    pub name: String,
    /// The score as printed, with a decimal point; it reads as a number.
    pub value: String,
    pub votes: Option<u64>,
    pub url: Option<String>,
}

#[derive(Debug, Clone)]
pub struct VoiceRating {
    pub title: String,
    /// The share as printed, without its percent sign; it reads as a number.
    pub rating: String,
}

#[derive(Debug, Clone)]
pub struct ScheduleItem {
    pub id: String,
    pub episode: String,
    pub title: String,
    pub original_title: Option<String>,
    pub date: Option<String>,
    pub release_status: Option<String>,
    pub is_released: bool,
    pub is_watched: bool,
}

#[derive(Debug, Clone)]
pub struct ScheduleGroup {
    pub name: String,
    pub items: Vec<ScheduleItem>,
}

#[derive(Debug, Clone)]
pub struct Collection {
    pub title: String,
    pub url: String,
    pub image_url: Option<String>,
    pub count: usize,
}

#[derive(Debug, Clone)]
pub struct HomeSection {
    pub id: String,
    pub items: Vec<MediaItem>,
}

#[derive(Debug, Clone)]
pub struct Comment {
    pub id: String,
    pub username: String,
    pub avatar_url: Option<String>,
    pub date: String,
    pub text: String,
    pub has_spoiler: bool,
    pub indent: usize,
    pub likes: i64,
    pub is_liked: bool,
}

#[derive(Debug, Clone)]
pub struct CommentsPage {
    pub items: Vec<Comment>,
    pub page: usize,
    pub total_pages: usize,
}

#[derive(Debug, Clone)]
pub struct ActorDetails {
    pub name: String,
    pub original_name: Option<String>,
    pub photo_url: Option<String>,
    pub careers: Vec<String>,
    pub birth_date: Option<String>,
    pub birth_place: Option<String>,
    pub height: Option<String>,
    pub films: Vec<MediaItem>,
    pub roles: Vec<ActorRole>,
}

#[derive(Debug, Clone)]
pub struct ActorRole {
    pub name: String,
    pub info: String,
    pub films: Vec<MediaItem>,
}

#[derive(Debug, Clone)]
pub struct SearchFilter {
    pub name: String,
    pub path: String,
    pub genres: Vec<LinkedItem>,
    pub years: Vec<LinkedItem>,
}

#[derive(Debug, Clone)]
pub struct NotificationGroup {
    pub date: String,
    pub items: Vec<NotificationItem>,
}

#[derive(Debug, Clone)]
pub struct NotificationItem {
    pub title: String,
    pub url: String,
    pub info: String,
}

#[derive(Debug, Clone)]
pub struct AccountData {
    pub notifications: Vec<NotificationGroup>,
    pub premium_days: Option<u32>,
}

#[derive(Debug, Clone)]
pub struct MediaDetails {
    pub id: i64,
    pub title: String,
    pub orig_title: Option<String>,
    pub url: String,
    pub poster_url: Option<String>,
    pub poster_hq_url: Option<String>,
    pub description: String,
    pub year: Option<i32>,
    pub media_type: MediaType,
    /// The provider's own score as printed; it reads as a number.
    pub rating_rezka: Option<String>,
    /// The IMDb score as printed; it reads as a number.
    pub rating_imdb: Option<String>,
    /// The Kinopoisk score as printed; it reads as a number.
    pub rating_kp: Option<String>,
    pub genres: Vec<String>,
    pub countries: Vec<String>,
    pub directors: Vec<String>,
    pub actors: Vec<String>,
    pub duration: Option<String>,
    pub translators: Vec<Translator>,
    pub seasons: Vec<Season>,
    pub franchises: Vec<FranchisePart>,
    pub genre_links: Vec<LinkedItem>,
    pub country_links: Vec<LinkedItem>,
    pub directors_details: Vec<Person>,
    pub actors_details: Vec<Person>,
    pub ratings: Vec<Rating>,
    pub voice_ratings: Vec<VoiceRating>,
    pub schedules: Vec<ScheduleGroup>,
    pub related: Vec<MediaItem>,
    pub included_in: Vec<LinkedItem>,
    pub from_collections: Vec<LinkedItem>,
    pub has_trailer: bool,
    pub has_posted_rating: bool,
    pub favorite_category_ids: Vec<i64>,
}

#[derive(Debug, Clone)]
pub struct StreamEntry {
    pub quality: String,
    pub is_premium: bool,
    pub urls: Vec<String>,
}

impl StreamEntry {
    /// The URL playback starts from: the first one, which the provider
    /// lists before its fallbacks.
    pub fn best_url(&self) -> (r: Option<&str>)
        ensures
            r.is_some() == (self.urls@.len() > 0),
            r matches Some(u) ==> u@ == self.urls@[0]@,
    {
        if self.urls.len() > 0 {
            Some(self.urls[0].as_str())
        } else {
            None
        }
    }
}

#[derive(Debug, Clone)]
pub struct SubtitleTrack {
    pub code: String,
    pub title: String,
    pub url: String,
    pub language_code: Option<String>,
    pub is_default: bool,
}

#[derive(Debug, Clone)]
pub struct StreamBundle {
    pub id: i64,
    pub translator_id: i64,
    pub season: Option<i64>,
    pub episode: Option<i64>,
    pub streams: Vec<StreamEntry>,
    pub subtitles: Vec<SubtitleTrack>,
    pub storyboard_url: Option<String>,
    pub storyboard: Vec<StoryboardCue>,
    pub user_agent: String,
    pub referer: String,
}

#[derive(Debug, Clone)]
pub struct StoryboardCue {
    pub start_ms: u64,
    pub end_ms: u64,
    pub image_url: String,
    pub x: u32,
    pub y: u32,
    pub width: u32,
    pub height: u32,
}

#[derive(Debug, Clone)]
pub struct FavoritesCollection {
    pub id: Option<i64>,
    pub name: String,
    pub url: String,
    pub count: usize,
}

#[derive(Debug, Clone)]
pub struct ServerHistoryEntry {
    pub id: String,
    pub title: String,
    pub url: String,
    pub poster_url: Option<String>,
    pub info: Option<String>,
    pub additional_info: Option<String>,
    pub date: Option<String>,
    pub is_watched: bool,
}

/// The media id a title URL carries: the number before the first `-` of its
/// last path segment, as in `/films/fiction/981-matrica-1999.html`.
pub open spec fn url_media_id(url: Seq<char>) -> Option<i64> {
    let trimmed = trim_end_by(url, char_pred('/'));
    let segment = split_on(trimmed, '/').last();
    parsed_i64(split_on(segment, '-')[0])
}

/// Reads the id of a title out of its URL; see [`url_media_id`].
pub fn media_id_of_url(url: &str) -> (r: Option<i64>)
    ensures
        r == url_media_id(url@),
{
    let chars = chars_of(url);
    let trimmed = trim_end_char(&chars, '/');
    let segments = split_char(&trimmed, '/');
    let last = &segments[segments.len() - 1];
    let pieces = split_char(last, '-');
    parse_i64(&pieces[0])
}

impl ServerHistoryEntry {
    pub fn media_id(&self) -> (r: Option<i64>)
        ensures
            r == url_media_id(self.url@),
    {
        media_id_of_url(self.url.as_str())
    }
}

#[derive(Debug, Clone)]
pub struct UserProfile {
    pub user_id: String,
    pub username: String,
    pub is_logged_in: bool,
    pub is_vip: bool,
    pub email: Option<String>,
    pub avatar_url: Option<String>,
    pub premium_days: Option<u32>,
    pub is_session_persistent: bool,
}

/// The countries a list of names comes to: each name trimmed, the empty
/// ones dropped, the rest reduced to a code by [`canonical`].
pub open spec fn listed_countries(pieces: Seq<Seq<char>>) -> Seq<Seq<char>>
    decreases pieces.len(),
{
    if pieces.len() == 0 {
        seq![]
    } else {
        let init = listed_countries(pieces.drop_last());
        if trimmed(pieces.last()).len() == 0 {
            init
        } else {
            init.push(canonical_name(trimmed(pieces.last())))
        }
    }
}

/// The countries a comma-separated list names, in order.
pub open spec fn country_list(countries: Seq<char>) -> Seq<Seq<char>> {
    listed_countries(split_on(countries, ','))
}

/// The countries a comma-separated list names, each as [`canonical`]
/// gives it, in the order listed; blank names are skipped.
pub fn parse_country_list(countries: &str) -> (r: Vec<String>)
    ensures
        string_views(r@) == country_list(countries@),
{
    let pieces = split_char(&chars_of(countries), ',');
    let ghost pv = views(pieces@);
    let mut r: Vec<String> = Vec::new();
    let mut i: usize = 0;
    while i < pieces.len()
        invariant
            i <= pieces@.len(),
            pv == views(pieces@),
            pv == split_on(countries@, ','),
            string_views(r@) == listed_countries(pv.subrange(0, i as int)),
        decreases pieces.len() - i,
    {
        let ghost before = r@;
        assert(pv.subrange(0, i + 1).drop_last() =~= pv.subrange(0, i as int));
        assert(pv.subrange(0, i + 1).last() == pieces@[i as int]@);
        let t = trim(&pieces[i]);
        if t.len() > 0 {
            let ts = string_of(t.as_slice());
            let c = canonical(ts.as_str());
            r.push(c);
            assert(string_views(r@) =~= string_views(before).push(c@));
        }
        i += 1;
    }
    assert(pv.subrange(0, pv.len() as int) =~= pv);
    r
}

/// Whether an info line such as `2019, США, Драма` names one of `hidden`:
/// one of its comma-separated pieces, reduced as [`canonical`] reduces a
/// country's name, is listed there.
pub open spec fn names_hidden(info: Seq<char>, hidden: Seq<Seq<char>>) -> bool {
    exists|k: int|
        0 <= k < split_on(info, ',').len() && hidden.contains(canonical_name(#[trigger] split_on(info, ',')[k]))
}

/// Whether the item is from one of the countries `hidden`, by its info line.
pub open spec fn item_from(item: MediaItem, hidden: Seq<Seq<char>>) -> bool {
    match item.info {
        Some(i) => names_hidden(i@, hidden),
        None => false,
    }
}

impl MediaItem {
    /// Whether the info line names one of the countries `hidden`, which are
    /// codes as [`parse_country_list`] gives them; the line names a country
    /// in any of the languages [`canonical`] knows.
    pub fn is_from(&self, hidden: &Vec<String>) -> (r: bool)
        ensures
            r == item_from(*self, string_views(hidden@)),
    {
        if self.info.is_none() {
            return false;
        }
        let info = self.info.as_ref().unwrap();
        let pieces = split_char(&chars_of(info.as_str()), ',');
        let ghost pv = views(pieces@);
        let ghost hv = string_views(hidden@);
        let mut i: usize = 0;
        while i < pieces.len()
            invariant
                i <= pieces@.len(),
                pv == views(pieces@),
                pv == split_on(info@, ','),
                hv == string_views(hidden@),
                self.info == Some(*info),
                forall|k: int| 0 <= k < i ==> !hv.contains(canonical_name(#[trigger] pv[k])),
            decreases pieces.len() - i,
        {
            let ps = string_of(pieces[i].as_slice());
            let c = canonical(ps.as_str());
            assert(pv[i as int] == ps@);
            if contains_name(hidden, &chars_of(c.as_str())) {
                assert(hv.contains(canonical_name(split_on(info@, ',')[i as int])));
                assert(0 <= i < split_on(info@, ',').len());
                assert(names_hidden(info@, hv));
                return true;
            }
            i += 1;
        }
        false
    }
}

} // verus!
