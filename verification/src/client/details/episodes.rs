//! The seasons and episodes a voice-over of a series has.

use vstd::prelude::*;
use crate::client::models::{Episode, MediaDetails, Season};
use crate::html::{at_page, doc_found, element_view, element_views, name, names3, HtmlPage};
use crate::json::{json_bool, json_bool_at, json_error, json_parse_error, json_text, json_text_at};
use crate::text::{
    chars_of, is_str, nonempty_runs, opt_view, owned, parse_i64, parsed_i64, push_all, split_by,
    split_whitespace, string_of, trim, trimmed, views, ws_pred,
};

verus! {

/// What the provider answered for one voice-over's episodes.
pub enum Episodes {
    Listed(Vec<Season>),
    /// It has none under this voice-over, for the reason it gives: one the
    /// title does not have, or a title not released yet.
    Refused(String),
}

/// An episode as plain values.
pub struct EpisodeView {
    pub id: i64,
    pub season_id: i64,
    pub title: Seq<char>,
    pub watch_id: Option<Seq<char>>,
    pub is_watched: bool,
}

pub open spec fn episode_view(e: Episode) -> EpisodeView {
    EpisodeView {
        id: e.id,
        season_id: e.season_id,
        title: e.title@,
        watch_id: opt_view(e.watch_id),
        is_watched: e.is_watched,
    }
}

pub open spec fn season_view(s: Season) -> (i64, Seq<char>, Seq<EpisodeView>) {
    (s.id, s.title@, s.episodes@.map_values(|e: Episode| episode_view(e)))
}

pub open spec fn season_views(v: Seq<Season>) -> Seq<(i64, Seq<char>, Seq<EpisodeView>)> {
    v.map_values(|s: Season| season_view(s))
}

/// A number an attribute holds, or one.
pub open spec fn number_or_one(v: Option<Seq<char>>) -> i64 {
    match v {
        Some(t) => match parsed_i64(t) {
            Some(n) => n,
            None => 1,
        },
        None => 1,
    }
}

pub open spec fn episode_names() -> Seq<Seq<char>> {
    seq!["data-season_id"@, "data-episode_id"@, "data-id"@, "class"@]
}

/// The episode an entry describes, in season `season_id`: it is watched
/// when `watched` is among the words of its class.
pub open spec fn episode_of(e: (Seq<char>, Seq<Option<Seq<char>>>), season_id: i64) -> EpisodeView {
    EpisodeView {
        id: number_or_one(e.1[1]),
        season_id,
        title: trimmed(e.0),
        watch_id: e.1[2],
        is_watched: match e.1[3] {
            Some(class) => nonempty_runs(split_by(class, ws_pred())).contains("watched"@),
            None => false,
        },
    }
}

/// The episodes among the first `n` entries that belong to `season_id`.
pub open spec fn season_episodes(eps: Seq<(Seq<char>, Seq<Option<Seq<char>>>)>, season_id: i64, n: int) -> Seq<EpisodeView>
    decreases n,
{
    if n <= 0 {
        seq![]
    } else if number_or_one(eps[n - 1].1[0]) == season_id {
        season_episodes(eps, season_id, n - 1).push(episode_of(eps[n - 1], season_id))
    } else {
        season_episodes(eps, season_id, n - 1)
    }
}

/// The seasons the two listings describe: one per season tab with the
/// episodes that name it; without tabs, one first season holding every
/// episode, when there are any.
pub open spec fn listed_seasons(seasons_html: Seq<char>, episodes_html: Seq<char>) -> Seq<(i64, Seq<char>, Seq<EpisodeView>)> {
    let tabs = doc_found(seasons_html, true, seq![], ".b-simple_season__item"@, seq!["data-tab_id"@]);
    let eps = doc_found(episodes_html, true, seq![], ".b-simple_episode__item"@, episode_names());
    if tabs.len() > 0 {
        Seq::new(
            tabs.len(),
            |k: int|
                {
                    let id = number_or_one(tabs[k].1[0]);
                    (id, trimmed(tabs[k].0), season_episodes(eps, id, eps.len() as int))
                },
        )
    } else if eps.len() > 0 {
        seq![(1i64, "Сезон 1"@, Seq::new(eps.len(), |k: int| episode_of(eps[k], 1)))]
    } else {
        seq![]
    }
}

fn number_or_one_of(v: &Option<String>) -> (r: i64)
    ensures
        r == number_or_one(opt_view(*v)),
{
    match v {
        Some(t) => match parse_i64(&chars_of(t.as_str())) {
            Some(n) => n,
            None => 1,
        },
        None => 1,
    }
}

fn has_word(class: &String, word: &str) -> (r: bool)
    ensures
        r == nonempty_runs(split_by(class@, ws_pred())).contains(word@),
{
    let parts = split_whitespace(&chars_of(class.as_str()));
    let ghost pv = views(parts@);
    let mut i: usize = 0;
    while i < parts.len()
        invariant
            i <= parts@.len(),
            pv == views(parts@),
            pv == nonempty_runs(split_by(class@, ws_pred())),
            forall|j: int| 0 <= j < i ==> pv[j] != word@,
        decreases parts.len() - i,
    {
        if is_str(&parts[i], word) {
            assert(pv[i as int] == word@);
            return true;
        }
        i += 1;
    }
    false
}

fn episode_from(e: &crate::html::HtmlElement, season_id: i64) -> (r: Episode)
    requires
        e.attrs@.len() == 4,
    ensures
        episode_view(r) == episode_of(element_view(*e), season_id),
{
    assert(element_view(*e).1[1] == opt_view(e.attrs@[1]));
    assert(element_view(*e).1[2] == opt_view(e.attrs@[2]));
    assert(element_view(*e).1[3] == opt_view(e.attrs@[3]));
    Episode {
        id: number_or_one_of(&e.attrs[1]),
        season_id,
        title: string_of(trim(&chars_of(e.text.as_str())).as_slice()),
        watch_id: match &e.attrs[2] {
            Some(v) => Some(v.clone()),
            None => None,
        },
        is_watched: match &e.attrs[3] {
            Some(c) => has_word(c, "watched"),
            None => false,
        },
    }
}

fn episode_names_list() -> (r: Vec<&'static str>)
    ensures
        crate::html::names_view(r@) == episode_names(),
        r@.len() == 4,
{
    let r = crate::html::and_name(names3("data-season_id", "data-episode_id", "data-id"), "class");
    assert(crate::html::names_view(r@) =~= episode_names());
    r
}

/// Reads the season tabs and the episode list of a series.
pub fn parse_episodes_html(seasons_html: &str, episodes_html: &str) -> (r: Vec<Season>)
    ensures
        season_views(r@) == listed_seasons(seasons_html@, episodes_html@),
{
    let seasons_doc = HtmlPage::parse_fragment(seasons_html);
    let episodes_doc = HtmlPage::parse_fragment(episodes_html);
    let tabs = seasons_doc.find(&at_page(), ".b-simple_season__item", &name("data-tab_id"));
    let eps = episodes_doc.find(&at_page(), ".b-simple_episode__item", &episode_names_list());
    let ghost tv = element_views(tabs@);
    let ghost ev = element_views(eps@);
    let mut seasons: Vec<Season> = Vec::new();
    let mut k: usize = 0;
    while k < tabs.len()
        invariant
            k <= tabs@.len(),
            tv == element_views(tabs@),
            ev == element_views(eps@),
            forall|j: int| 0 <= j < tabs@.len() ==> (#[trigger] tabs@[j]).attrs@.len() == 1,
            forall|j: int| 0 <= j < eps@.len() ==> (#[trigger] eps@[j]).attrs@.len() == 4,
            seasons@.len() == k,
            forall|j: int|
                0 <= j < k ==> season_view(#[trigger] seasons@[j]) == ({
                    let id = number_or_one(tv[j].1[0]);
                    (id, trimmed(tv[j].0), season_episodes(ev, id, ev.len() as int))
                }),
        decreases tabs.len() - k,
    {
        assert(tv[k as int] == element_view(tabs@[k as int]));
        assert(tv[k as int].1[0] == opt_view(tabs@[k as int].attrs@[0]));
        let season_id = number_or_one_of(&tabs[k].attrs[0]);
        let mut episodes: Vec<Episode> = Vec::new();
        let mut i: usize = 0;
        while i < eps.len()
            invariant
                i <= eps@.len(),
                ev == element_views(eps@),
                forall|j: int| 0 <= j < eps@.len() ==> (#[trigger] eps@[j]).attrs@.len() == 4,
                episodes@.map_values(|e: Episode| episode_view(e)) == season_episodes(ev, season_id, i as int),
            decreases eps.len() - i,
        {
            assert(ev[i as int] == element_view(eps@[i as int]));
            assert(ev[i as int].1[0] == opt_view(eps@[i as int].attrs@[0]));
            if number_or_one_of(&eps[i].attrs[0]) == season_id {
                let ep = episode_from(&eps[i], season_id);
                let ghost prev = episodes@;
                episodes.push(ep);
                assert(episodes@ =~= prev.push(ep));
                assert(episodes@.map_values(|e: Episode| episode_view(e)) =~= prev.map_values(
                    |e: Episode| episode_view(e),
                ).push(episode_view(ep)));
            }
            i += 1;
        }
        let title = string_of(trim(&chars_of(tabs[k].text.as_str())).as_slice());
        seasons.push(Season { id: season_id, title, episodes });
        k += 1;
    }
    if seasons.len() == 0 {
        let mut episodes: Vec<Episode> = Vec::new();
        let mut i: usize = 0;
        while i < eps.len()
            invariant
                i <= eps@.len(),
                ev == element_views(eps@),
                forall|j: int| 0 <= j < eps@.len() ==> (#[trigger] eps@[j]).attrs@.len() == 4,
                episodes@.len() == i,
                forall|j: int| 0 <= j < i ==> episode_view(#[trigger] episodes@[j]) == episode_of(ev[j], 1),
            decreases eps.len() - i,
        {
            assert(ev[i as int] == element_view(eps@[i as int]));
            episodes.push(episode_from(&eps[i], 1));
            i += 1;
        }
        if episodes.len() > 0 {
            let s = Season { id: 1, title: owned("Сезон 1"), episodes };
            assert(s.episodes@.map_values(|e: Episode| episode_view(e)) =~= Seq::new(
                ev.len(),
                |k: int| episode_of(ev[k], 1),
            ));
            seasons.push(s);
        }
    }
    assert(season_views(seasons@) =~= listed_seasons(seasons_html@, episodes_html@));
    seasons
}

/// What an episodes reply comes to: the seasons it lists, the refusal it
/// carries, or the error the client reports when it is not JSON.
pub open spec fn episodes_reply(text: Seq<char>) -> Result<Option<Seq<char>>, Seq<char>> {
    match json_parse_error(text) {
        Some(e) => Err("Failed to parse get_episodes JSON: "@ + e),
        None => if json_bool_at(text, "success"@) != Some(true) {
            Ok(
                Some(
                    match json_text_at(text, "message"@) {
                        Some(m) => if m.len() > 0 {
                            m
                        } else {
                            "the provider gave no reason"@
                        },
                        None => "the provider gave no reason"@,
                    },
                ),
            )
        } else {
            Ok(None)
        },
    }
}

pub open spec fn text_or_empty(o: Option<Seq<char>>) -> Seq<char> {
    match o {
        Some(t) => t,
        None => seq![],
    }
}

/// Reads the provider's reply to an episodes request.
pub fn read_episodes(json_resp: &str) -> (r: Result<Episodes, String>)
    ensures
        match episodes_reply(json_resp@) {
            Err(message) => r matches Err(m) && m@ == message,
            Ok(Some(reason)) => r matches Ok(Episodes::Refused(got)) && got@ == reason,
            Ok(None) => r matches Ok(Episodes::Listed(seasons)) && season_views(seasons@) == listed_seasons(
                text_or_empty(json_text_at(json_resp@, "seasons"@)),
                text_or_empty(json_text_at(json_resp@, "episodes"@)),
            ),
        },
{
    if let Some(e) = json_error(json_resp) {
        let mut m = chars_of("Failed to parse get_episodes JSON: ");
        push_all(&mut m, &chars_of(e.as_str()));
        return Err(string_of(m.as_slice()));
    }
    if json_bool(json_resp, "success") != Some(true) {
        let reason = match json_text(json_resp, "message") {
            Some(m) => if m.as_str().is_empty() {
                owned("the provider gave no reason")
            } else {
                m
            },
            None => owned("the provider gave no reason"),
        };
        return Ok(Episodes::Refused(reason));
    }
    let seasons_html = match json_text(json_resp, "seasons") {
        Some(t) => t,
        None => String::new(),
    };
    let episodes_html = match json_text(json_resp, "episodes") {
        Some(t) => t,
        None => String::new(),
    };
    Ok(Episodes::Listed(parse_episodes_html(seasons_html.as_str(), episodes_html.as_str())))
}

/// The seasons of a reply, or the error a refusal comes to.
pub fn episodes_or_error(reply: Episodes) -> (r: Result<Vec<Season>, String>)
    ensures
        match reply {
            Episodes::Listed(seasons) => r matches Ok(s) && s == seasons,
            Episodes::Refused(reason) => r matches Err(m) && m@ == "No episodes for this voice-over: "@ + reason@,
        },
{
    match reply {
        Episodes::Listed(seasons) => Ok(seasons),
        Episodes::Refused(reason) => {
            let mut m = chars_of("No episodes for this voice-over: ");
            push_all(&mut m, &chars_of(reason.as_str()));
            Err(string_of(m.as_slice()))
        },
    }
}

/// Takes the provider's answer for a series' first voice-over. When that is
/// the only voice-over and the provider has no episodes under it, the
/// series has nothing to play, so none is offered.
pub fn take_first_episodes(details: &mut MediaDetails, reply: Episodes)
    ensures
        match reply {
            Episodes::Listed(seasons) => final(details).seasons == seasons && final(details).translators
                == old(details).translators,
            Episodes::Refused(_) => final(details).seasons == old(details).seasons && if old(
                details,
            ).translators@.len() == 1 {
                final(details).translators@.len() == 0
            } else {
                final(details).translators == old(details).translators
            },
        },
        final(details).id == old(details).id,
        final(details).title == old(details).title,
        final(details).url == old(details).url,
        final(details).schedules == old(details).schedules,
        final(details).media_type == old(details).media_type,
{
    match reply {
        Episodes::Listed(seasons) => {
            details.seasons = seasons;
        },
        Episodes::Refused(_) => {
            if details.translators.len() == 1 {
                details.translators = Vec::new();
            }
        },
    }
}

} // verus!
