//! Season and episode numbers as the provider writes them, and the schedule
//! rows that carry an episode's watched flag.

use vstd::prelude::*;
use crate::client::models::{Episode, ScheduleGroup, ScheduleItem, Season};
use crate::html::{
    at, doc_found, element_view, first_trimmed, html_markup_has, html_text_nodes, markup_word, names2, no_names, path_view, then,
    HtmlPage,
};
use crate::text::{
    chars_of, contains_seq, contains_str, is_str, opt_view, string_of, trim, trimmed, lowercased, parse_i64, parsed_i64, split_words, to_lowercase, views, words,
};

verus! {

/// Words the provider puts next to a season number, in the languages it serves.
pub open spec fn is_season_label(t: Seq<char>) -> bool {
    t == "season"@ || t == "сезон"@
}

/// Words the provider puts next to an episode number.
pub open spec fn is_episode_label(t: Seq<char>) -> bool {
    t == "episode"@ || t == "серия"@ || t == "серія"@ || t == "эпизод"@ || t == "епізод"@
}

/// The number at `at` among the words, if it is one.
pub open spec fn number_at(toks: Seq<Seq<char>>, at: int) -> Option<(int, i64)> {
    if 0 <= at < toks.len() {
        match parsed_i64(toks[at]) {
            Some(n) => Some((at, n)),
            None => None,
        }
    } else {
        None
    }
}

/// Reading state: the season and episode found so far, and which words
/// have already been taken as one of them.
pub type LabelState = (Option<i64>, Option<i64>, Seq<bool>);

/// One step of the reading: the word at `index`, if it is a label whose slot
/// is still empty, takes the number just before it (unless that was taken)
/// or else the one just after it.
pub open spec fn label_step(toks: Seq<Seq<char>>, st: LabelState, index: int) -> LabelState {
    let t = toks[index];
    let is_season = is_season_label(t);
    if !is_season && !is_episode_label(t) {
        st
    } else if (is_season && st.0 is Some) || (!is_season && st.1 is Some) {
        st
    } else {
        let before = if index >= 1 && !st.2[index - 1] {
            number_at(toks, index - 1)
        } else {
            None
        };
        let pick = if before is Some {
            before
        } else {
            number_at(toks, index + 1)
        };
        match pick {
            Some((at, n)) => {
                let taken = st.2.update(at, true);
                if is_season {
                    (Some(n), st.1, taken)
                } else {
                    (st.0, Some(n), taken)
                }
            },
            None => st,
        }
    }
}

/// The state after reading the first `k` words.
pub open spec fn label_run(toks: Seq<Seq<char>>, k: int) -> LabelState
    decreases k,
{
    if k <= 0 {
        (None, None, Seq::new(toks.len(), |i: int| false))
    } else {
        label_step(toks, label_run(toks, k - 1), k - 1)
    }
}

/// The season and episode numbers a label names, read from its lower-cased
/// words; each is absent when the label does not state it.
pub open spec fn label_position(text: Seq<char>) -> (Option<i64>, Option<i64>) {
    let toks = words(lowercased(text));
    let st = label_run(toks, toks.len() as int);
    (st.0, st.1)
}

proof fn lemma_label_run_len(toks: Seq<Seq<char>>, k: int)
    requires
        0 <= k <= toks.len(),
    ensures
        label_run(toks, k).2.len() == toks.len(),
    decreases k,
{
    if k > 0 {
        lemma_label_run_len(toks, k - 1);
    }
}

fn number_in(toks: &Vec<Vec<char>>, at: usize) -> (r: Option<i64>)
    requires
        at < toks.len(),
    ensures
        r == parsed_i64(toks@[at as int]@),
{
    parse_i64(&toks[at])
}

/// The season and episode numbers a provider label names, as in
/// "1 сезон 3 серия" or "Season 1 Episode 3"; each is absent when the label
/// does not state it.
pub fn labelled_position(text: &str) -> (r: (Option<i64>, Option<i64>))
    ensures
        r == label_position(text@),
{
    let lower = to_lowercase(text);
    let chars = chars_of(lower.as_str());
    let toks = split_words(&chars);
    let ghost tv = views(toks@);
    assert(tv == words(lowercased(text@)));
    let n = toks.len();
    let mut season: Option<i64> = None;
    let mut episode: Option<i64> = None;
    let mut taken: Vec<bool> = Vec::new();
    let mut k: usize = 0;
    while k < n
        invariant
            k <= n,
            n == toks.len(),
            taken@.len() == k,
            forall|j: int| 0 <= j < k ==> !taken@[j],
        decreases n - k,
    {
        taken.push(false);
        k += 1;
    }
    assert(taken@ =~= label_run(tv, 0).2);
    let mut index: usize = 0;
    while index < n
        invariant
            index <= n,
            n == toks.len(),
            tv == views(toks@),
            tv.len() == n,
            (season, episode, taken@) == label_run(tv, index as int),
            taken@.len() == n,
        decreases n - index,
    {
        proof {
            lemma_label_run_len(tv, index + 1);
        }
        let t = &toks[index];
        assert(t@ == tv[index as int]);
        let is_season = is_str(t, "season") || is_str(t, "сезон");
        let is_episode = is_str(t, "episode") || is_str(t, "серия") || is_str(t, "серія")
            || is_str(t, "эпизод") || is_str(t, "епізод");
        if (is_season || is_episode) && !((is_season && season.is_some()) || (!is_season
            && episode.is_some())) {
            let mut pick: Option<(usize, i64)> = None;
            if index >= 1 && !taken[index - 1] {
                match number_in(&toks, index - 1) {
                    Some(v) => {
                        pick = Some((index - 1, v));
                    },
                    None => {},
                }
            }
            if pick.is_none() && index + 1 < n {
                match number_in(&toks, index + 1) {
                    Some(v) => {
                        pick = Some((index + 1, v));
                    },
                    None => {},
                }
            }
            match pick {
                Some((at, v)) => {
                    taken.set(at, true);
                    if is_season {
                        season = Some(v);
                    } else {
                        episode = Some(v);
                    }
                },
                None => {},
            }
        }
        index += 1;
    }
    (season, episode)
}

/// Where a schedule row sits: the row names both numbers, or only the
/// episode under a block titled with the season.
pub open spec fn row_position(group: Seq<char>, label: Seq<char>) -> Option<(i64, i64)> {
    let (s, e) = label_position(label);
    let season = if s is Some {
        s
    } else {
        label_position(group).0
    };
    match (season, e) {
        (Some(a), Some(b)) => Some((a, b)),
        _ => None,
    }
}

fn schedule_position(group: &str, label: &str) -> (r: Option<(i64, i64)>)
    ensures
        r == row_position(group@, label@),
{
    let (s, e) = labelled_position(label);
    let season = if s.is_some() {
        s
    } else {
        labelled_position(group).0
    };
    match (season, e) {
        (Some(a), Some(b)) => Some((a, b)),
        _ => None,
    }
}

/// The row at `(g, i)` of the schedule sits at `(season, episode)`.
pub open spec fn row_at(schedules: Seq<ScheduleGroup>, g: int, i: int, season: i64, episode: i64) -> bool {
    0 <= g < schedules.len() && 0 <= i < schedules[g].items@.len() && row_position(
        schedules[g].name@,
        schedules[g].items@[i].episode@,
    ) == Some((season, episode))
}

/// `(g1, i1)` comes before `(g2, i2)` in reading order.
pub open spec fn before(g1: int, i1: int, g2: int, i2: int) -> bool {
    g1 < g2 || (g1 == g2 && i1 < i2)
}

/// Where the first row of an episode is, in reading order.
fn first_row_of(schedules: &Vec<ScheduleGroup>, season: i64, episode: i64) -> (r: Option<(usize, usize)>)
    ensures
        match r {
            Some((g, i)) => row_at(schedules@, g as int, i as int, season, episode) && forall|
                h: int,
                j: int,
            | #![auto] before(h, j, g as int, i as int) ==> !row_at(schedules@, h, j, season, episode),
            None => forall|h: int, j: int| !row_at(schedules@, h, j, season, episode),
        },
{
    let mut g: usize = 0;
    while g < schedules.len()
        invariant
            g <= schedules.len(),
            forall|h: int, j: int| #![auto] 0 <= h < g ==> !row_at(schedules@, h, j, season, episode),
        decreases schedules.len() - g,
    {
        let group = &schedules[g];
        let mut i: usize = 0;
        while i < group.items.len()
            invariant
                g < schedules.len(),
                *group == schedules@[g as int],
                i <= group.items@.len(),
                forall|h: int, j: int| #![auto] 0 <= h < g ==> !row_at(schedules@, h, j, season, episode),
                forall|j: int| #![auto] 0 <= j < i ==> !row_at(schedules@, g as int, j, season, episode),
            decreases group.items.len() - i,
        {
            if schedule_position(group.name.as_str(), group.items[i].episode.as_str()) == Some(
                (season, episode),
            ) {
                return Some((g, i));
            }
            i += 1;
        }
        g += 1;
    }
    None
}

/// The schedule row of an episode, if the provider lists it: the first row,
/// in reading order, that sits at `(season, episode)`.
pub fn schedule_item_for(schedules: &Vec<ScheduleGroup>, season: i64, episode: i64) -> (r: Option<&ScheduleItem>)
    ensures
        match r {
            Some(item) => exists|g: int, i: int|
                row_at(schedules@, g, i, season, episode) && *item == schedules@[g].items@[i]
                    && forall|h: int, j: int| #![auto] before(h, j, g, i) ==> !row_at(
                    schedules@,
                    h,
                    j,
                    season,
                    episode,
                ),
            None => forall|g: int, i: int| !row_at(schedules@, g, i, season, episode),
        },
{
    match first_row_of(schedules, season, episode) {
        Some((g, i)) => {
            let item = &schedules[g].items[i];
            assert(row_at(schedules@, g as int, i as int, season, episode));
            Some(item)
        },
        None => None,
    }
}


/// `(g, i)` is the last row, in reading order, that sits at `(season, episode)`.
pub open spec fn last_row_at(schedules: Seq<ScheduleGroup>, g: int, i: int, season: i64, episode: i64) -> bool {
    row_at(schedules, g, i, season, episode) && forall|h: int, j: int|
        #![auto]
        before(g, i, h, j) ==> !row_at(schedules, h, j, season, episode)
}

/// An episode after the schedule's watched state is carried onto it: the
/// last row naming it gives its watch id (when the row has one) and its
/// watched flag; an episode no row names is left as it was.
pub open spec fn marked_episode(ep: Episode, season_id: i64, schedules: Seq<ScheduleGroup>) -> Episode {
    if exists|g: int, i: int| last_row_at(schedules, g, i, season_id, ep.id) {
        let (g, i) = choose|g: int, i: int| last_row_at(schedules, g, i, season_id, ep.id);
        let item = schedules[g].items@[i];
        Episode {
            watch_id: if item.id@.len() > 0 {
                Some(item.id)
            } else {
                ep.watch_id
            },
            is_watched: item.is_watched,
            ..ep
        }
    } else {
        ep
    }
}

proof fn lemma_last_row_unique(schedules: Seq<ScheduleGroup>, g: int, i: int, h: int, j: int, s: i64, e: i64)
    requires
        last_row_at(schedules, g, i, s, e),
        last_row_at(schedules, h, j, s, e),
    ensures
        g == h && i == j,
{
    if before(g, i, h, j) {
        assert(!row_at(schedules, h, j, s, e));
    } else if before(h, j, g, i) {
        assert(!row_at(schedules, g, i, s, e));
    }
}

/// The positions of every row, computed once.
fn row_positions(schedules: &Vec<ScheduleGroup>) -> (r: Vec<Vec<Option<(i64, i64)>>>)
    ensures
        r@.len() == schedules@.len(),
        forall|g: int|
            0 <= g < r@.len() ==> #[trigger] r@[g]@.len() == schedules@[g].items@.len(),
        forall|g: int, i: int|
            #![auto]
            0 <= g < r@.len() && 0 <= i < r@[g]@.len() ==> r@[g]@[i] == row_position(
                schedules@[g].name@,
                schedules@[g].items@[i].episode@,
            ),
{
    let mut r: Vec<Vec<Option<(i64, i64)>>> = Vec::new();
    let mut g: usize = 0;
    while g < schedules.len()
        invariant
            g <= schedules.len(),
            r@.len() == g,
            forall|h: int| 0 <= h < g ==> #[trigger] r@[h]@.len() == schedules@[h].items@.len(),
            forall|h: int, i: int|
                #![auto]
                0 <= h < g && 0 <= i < r@[h]@.len() ==> r@[h]@[i] == row_position(
                    schedules@[h].name@,
                    schedules@[h].items@[i].episode@,
                ),
        decreases schedules.len() - g,
    {
        let group = &schedules[g];
        let mut row: Vec<Option<(i64, i64)>> = Vec::new();
        let mut i: usize = 0;
        while i < group.items.len()
            invariant
                *group == schedules@[g as int],
                i <= group.items@.len(),
                row@.len() == i,
                forall|j: int|
                    #![auto]
                    0 <= j < i ==> row@[j] == row_position(group.name@, group.items@[j].episode@),
            decreases group.items.len() - i,
        {
            row.push(schedule_position(group.name.as_str(), group.items[i].episode.as_str()));
            i += 1;
        }
        r.push(row);
        g += 1;
    }
    r
}

/// Where the last row at `(season, episode)` is, given every row's position.
fn last_row_of(
    schedules: &Vec<ScheduleGroup>,
    positions: &Vec<Vec<Option<(i64, i64)>>>,
    season: i64,
    episode: i64,
) -> (r: Option<(usize, usize)>)
    requires
        positions@.len() == schedules@.len(),
        forall|g: int|
            0 <= g < positions@.len() ==> #[trigger] positions@[g]@.len()
                == schedules@[g].items@.len(),
        forall|g: int, i: int|
            #![auto]
            0 <= g < positions@.len() && 0 <= i < positions@[g]@.len() ==> positions@[g]@[i]
                == row_position(schedules@[g].name@, schedules@[g].items@[i].episode@),
    ensures
        match r {
            Some((g, i)) => last_row_at(schedules@, g as int, i as int, season, episode),
            None => forall|g: int, i: int| !row_at(schedules@, g, i, season, episode),
        },
{
    let mut found: Option<(usize, usize)> = None;
    let mut g: usize = 0;
    while g < positions.len()
        invariant
            g <= positions@.len(),
            positions@.len() == schedules@.len(),
            forall|h: int|
                0 <= h < positions@.len() ==> #[trigger] positions@[h]@.len()
                    == schedules@[h].items@.len(),
            forall|h: int, i: int|
                #![auto]
                0 <= h < positions@.len() && 0 <= i < positions@[h]@.len() ==> positions@[h]@[i]
                    == row_position(schedules@[h].name@, schedules@[h].items@[i].episode@),
            match found {
                Some((fg, fi)) => fg < g && row_at(schedules@, fg as int, fi as int, season, episode)
                    && forall|h: int, j: int|
                    #![auto]
                    before(fg as int, fi as int, h, j) && h < g ==> !row_at(schedules@, h, j, season, episode),
                None => forall|h: int, j: int| #![auto] h < g ==> !row_at(schedules@, h, j, season, episode),
            },
        decreases positions.len() - g,
    {
        let row = &positions[g];
        let mut i: usize = 0;
        while i < row.len()
            invariant
                g < positions@.len(),
                positions@.len() == schedules@.len(),
                *row == positions@[g as int],
                row@.len() == schedules@[g as int].items@.len(),
                i <= row@.len(),
                forall|j: int|
                    #![auto]
                    0 <= j < row@.len() ==> row@[j] == row_position(
                        schedules@[g as int].name@,
                        schedules@[g as int].items@[j].episode@,
                    ),
                match found {
                    Some((fg, fi)) => (fg < g || (fg == g && fi < i)) && row_at(
                        schedules@,
                        fg as int,
                        fi as int,
                        season,
                        episode,
                    ) && forall|h: int, j: int|
                        #![auto]
                        before(fg as int, fi as int, h, j) && (h < g || (h == g && j < i)) ==> !row_at(
                            schedules@,
                            h,
                            j,
                            season,
                            episode,
                        ),
                    None => forall|h: int, j: int|
                        #![auto]
                        (h < g || (h == g && j < i)) ==> !row_at(schedules@, h, j, season, episode),
                },
            decreases row.len() - i,
        {
            assert(row@[i as int] == row_position(
                schedules@[g as int].name@,
                schedules@[g as int].items@[i as int].episode@,
            ));
            if row[i] == Some((season, episode)) {
                found = Some((g, i));
                assert(row_at(schedules@, g as int, i as int, season, episode));
            } else {
                assert(!row_at(schedules@, g as int, i as int, season, episode));
            }
            i += 1;
        }
        g += 1;
    }
    found
}

/// Carries the schedule's watched state onto the episodes it lists. The
/// episode list itself never says which episodes were watched; the provider
/// keeps that on the schedule rows of the title's page.
pub fn mark_scheduled(seasons: &mut Vec<Season>, schedules: &Vec<ScheduleGroup>)
    ensures
        final(seasons)@.len() == old(seasons)@.len(),
        forall|k: int|
            #![auto]
            0 <= k < final(seasons)@.len() ==> final(seasons)@[k].id == old(seasons)@[k].id
                && final(seasons)@[k].title == old(seasons)@[k].title
                && final(seasons)@[k].episodes@.len() == old(seasons)@[k].episodes@.len(),
        forall|k: int, m: int|
            #![auto]
            0 <= k < final(seasons)@.len() && 0 <= m < final(seasons)@[k].episodes@.len()
                ==> final(seasons)@[k].episodes@[m] == marked_episode(
                old(seasons)@[k].episodes@[m],
                old(seasons)@[k].id,
                schedules@,
            ),
{
    let positions = row_positions(schedules);
    let ghost before_all = seasons@;
    let mut k: usize = 0;
    while k < seasons.len()
        invariant
            k <= seasons@.len(),
            seasons@.len() == before_all.len(),
            positions@.len() == schedules@.len(),
            forall|g: int|
                0 <= g < positions@.len() ==> #[trigger] positions@[g]@.len()
                    == schedules@[g].items@.len(),
            forall|g: int, i: int|
                #![auto]
                0 <= g < positions@.len() && 0 <= i < positions@[g]@.len() ==> positions@[g]@[i]
                    == row_position(schedules@[g].name@, schedules@[g].items@[i].episode@),
            forall|j: int|
                #![auto]
                0 <= j < seasons@.len() ==> seasons@[j].id == before_all[j].id && seasons@[j].title
                    == before_all[j].title && seasons@[j].episodes@.len()
                    == before_all[j].episodes@.len(),
            forall|j: int, m: int|
                #![auto]
                0 <= j < k && 0 <= m < seasons@[j].episodes@.len() ==> seasons@[j].episodes@[m]
                    == marked_episode(before_all[j].episodes@[m], before_all[j].id, schedules@),
            forall|j: int| #![auto] k <= j < seasons@.len() ==> seasons@[j] == before_all[j],
        decreases seasons.len() - k,
    {
        let season_id = seasons[k].id;
        let count = seasons[k].episodes.len();
        let mut m: usize = 0;
        while m < count
            invariant
                k < seasons@.len(),
                seasons@.len() == before_all.len(),
                m <= count,
                count == before_all[k as int].episodes@.len(),
                season_id == before_all[k as int].id,
                positions@.len() == schedules@.len(),
                forall|g: int|
                    0 <= g < positions@.len() ==> #[trigger] positions@[g]@.len()
                        == schedules@[g].items@.len(),
                forall|g: int, i: int|
                    #![auto]
                    0 <= g < positions@.len() && 0 <= i < positions@[g]@.len() ==> positions@[g]@[i]
                        == row_position(schedules@[g].name@, schedules@[g].items@[i].episode@),
                forall|j: int|
                    #![auto]
                    0 <= j < seasons@.len() ==> seasons@[j].id == before_all[j].id
                        && seasons@[j].title == before_all[j].title
                        && seasons@[j].episodes@.len() == before_all[j].episodes@.len(),
                forall|j: int, q: int|
                    #![auto]
                    0 <= j < k && 0 <= q < seasons@[j].episodes@.len() ==> seasons@[j].episodes@[q]
                        == marked_episode(before_all[j].episodes@[q], before_all[j].id, schedules@),
                forall|j: int| #![auto] k < j < seasons@.len() ==> seasons@[j] == before_all[j],
                forall|q: int|
                    #![auto]
                    0 <= q < m ==> seasons@[k as int].episodes@[q] == marked_episode(
                        before_all[k as int].episodes@[q],
                        season_id,
                        schedules@,
                    ),
                forall|q: int|
                    #![auto]
                    m <= q < count ==> seasons@[k as int].episodes@[q] == before_all[k as int].episodes@[q],
            decreases count - m,
        {
            let episode_id = seasons[k].episodes[m].id;
            let ghost old_ep = seasons@[k as int].episodes@[m as int];
            match last_row_of(schedules, &positions, season_id, episode_id) {
                Some((g, i)) => {
                    let item = &schedules[g].items[i];
                    let watched = item.is_watched;
                    let new_id = if !item.id.as_str().is_empty() {
                        Some(item.id.clone())
                    } else {
                        None
                    };
                    let season = &mut seasons[k];
                    let ep = &mut season.episodes[m];
                    if new_id.is_some() {
                        ep.watch_id = new_id;
                    }
                    ep.is_watched = watched;
                    proof {
                        assert(last_row_at(schedules@, g as int, i as int, season_id, episode_id));
                        let (cg, ci) = choose|cg: int, ci: int|
                            last_row_at(schedules@, cg, ci, season_id, old_ep.id);
                        lemma_last_row_unique(schedules@, g as int, i as int, cg, ci, season_id, episode_id);
                    }
                },
                None => {
                    proof {
                        assert(!exists|g: int, i: int| last_row_at(schedules@, g, i, season_id, old_ep.id));
                    }
                },
            }
            m += 1;
        }
        k += 1;
    }
}


/// A schedule row as plain values.
pub struct ScheduleItemView {
    pub id: Seq<char>,
    pub episode: Seq<char>,
    pub title: Seq<char>,
    pub original_title: Option<Seq<char>>,
    pub date: Option<Seq<char>>,
    pub release_status: Option<Seq<char>>,
    pub is_released: bool,
    pub is_watched: bool,
}

pub open spec fn schedule_item_view(i: ScheduleItem) -> ScheduleItemView {
    ScheduleItemView {
        id: i.id@,
        episode: i.episode@,
        title: i.title@,
        original_title: opt_view(i.original_title),
        date: opt_view(i.date),
        release_status: opt_view(i.release_status),
        is_released: i.is_released,
        is_watched: i.is_watched,
    }
}

pub open spec fn schedule_item_views(v: Seq<ScheduleItem>) -> Seq<ScheduleItemView> {
    v.map_values(|i: ScheduleItem| schedule_item_view(i))
}

pub open spec fn block_path(b: int) -> Seq<(Seq<char>, int)> {
    seq![(".b-post__schedule_block"@, b)]
}

pub open spec fn schedule_row_path(b: int, t: int) -> Seq<(Seq<char>, int)> {
    seq![(".b-post__schedule_block"@, b), ("tr"@, t)]
}

pub open spec fn schedule_cell_path(b: int, t: int, c: int) -> Seq<(Seq<char>, int)> {
    seq![(".b-post__schedule_block"@, b), ("tr"@, t), ("td"@, c)]
}

/// The row `t` of schedule block `b`, when it has more than two cells. The
/// episode's watched flag and watch id sit on a marker in the third cell;
/// the fifth says whether the episode is out, with a check mark.
pub open spec fn schedule_row(html: Seq<char>, b: int, t: int) -> Option<ScheduleItemView> {
    let cells = doc_found(html, false, schedule_row_path(b, t), "td"@, seq![]);
    if cells.len() > 2 {
        let markers = doc_found(html, false, schedule_cell_path(b, t, 2), "i[data-id]"@, seq!["data-id"@, "class"@]);
        let status = if cells.len() > 4 && trimmed(cells[4].0).len() > 0 {
            Some(trimmed(cells[4].0))
        } else {
            None
        };
        let status_cell = schedule_cell_path(b, t, 4);
        let released = cells.len() > 4 && html_text_nodes(html, false, status_cell) is Some && (html_markup_has(
            html,
            false,
            status_cell,
            true,
            "check"@,
        ) || html_markup_has(html, false, status_cell, true, "exists-episode"@));
        Some(
            ScheduleItemView {
                id: if markers.len() > 0 {
                    match markers[0].1[0] {
                        Some(id) => id,
                        None => seq![],
                    }
                } else {
                    seq![]
                },
                episode: trimmed(cells[0].0),
                title: match first_trimmed(doc_found(html, false, schedule_cell_path(b, t, 1), "b"@, seq![])) {
                    Some(title) => title,
                    None => trimmed(cells[1].0),
                },
                original_title: first_trimmed(doc_found(html, false, schedule_cell_path(b, t, 1), "span"@, seq![])),
                date: if cells.len() > 3 {
                    Some(trimmed(cells[3].0))
                } else {
                    None
                },
                release_status: status,
                is_released: released,
                is_watched: markers.len() > 0 && match markers[0].1[1] {
                    Some(class) => contains_seq(class, "watched"@),
                    None => false,
                },
            },
        )
    } else {
        None
    }
}

pub open spec fn schedule_rows_upto(html: Seq<char>, b: int, n: int) -> Seq<ScheduleItemView>
    decreases n,
{
    if n <= 0 {
        seq![]
    } else {
        match schedule_row(html, b, n - 1) {
            Some(item) => schedule_rows_upto(html, b, n - 1).push(item),
            None => schedule_rows_upto(html, b, n - 1),
        }
    }
}

/// The name of schedule block `b` and its rows.
pub open spec fn schedule_block(html: Seq<char>, b: int) -> (Seq<char>, Seq<ScheduleItemView>) {
    (
        match first_trimmed(doc_found(html, false, block_path(b), ".b-post__schedule_block_title .title"@, seq![])) {
            Some(name) => name,
            None => seq![],
        },
        schedule_rows_upto(html, b, doc_found(html, false, block_path(b), "tr"@, seq![]).len() as int),
    )
}

/// The schedule blocks of a title's page, in order.
pub open spec fn schedule_blocks(html: Seq<char>) -> Seq<(Seq<char>, Seq<ScheduleItemView>)> {
    let n = doc_found(html, false, seq![], ".b-post__schedule_block"@, seq![]).len();
    Seq::new(n, |b: int| schedule_block(html, b))
}

pub open spec fn schedule_group_view(g: ScheduleGroup) -> (Seq<char>, Seq<ScheduleItemView>) {
    (g.name@, schedule_item_views(g.items@))
}

fn trimmed_of(s: &String) -> (r: String)
    ensures
        r@ == trimmed(s@),
{
    string_of(trim(&chars_of(s.as_str())).as_slice())
}

fn schedule_row_at(page: &HtmlPage, b: usize, t: usize) -> (r: Option<ScheduleItem>)
    requires
        !page.is_fragment(),
    ensures
        match r {
            Some(i) => schedule_row(page.source(), b as int, t as int) == Some(schedule_item_view(i)),
            None => schedule_row(page.source(), b as int, t as int) is None,
        },
{
    let ghost html = page.source();
    let row = then(&at(".b-post__schedule_block", b), "tr", t);
    assert(path_view(row@) =~= schedule_row_path(b as int, t as int));
    let cells = page.find(&row, "td", &no_names());
    if cells.len() <= 2 {
        return None;
    }
    let marker_cell = then(&row, "td", 2);
    assert(path_view(marker_cell@) =~= schedule_cell_path(b as int, t as int, 2));
    let markers = page.find(&marker_cell, "i[data-id]", &names2("data-id", "class"));
    let title_cell = then(&row, "td", 1);
    assert(path_view(title_cell@) =~= schedule_cell_path(b as int, t as int, 1));
    let status = if cells.len() > 4 {
        let t4 = trimmed_of(&cells[4].text);
        if t4.as_str().is_empty() {
            None
        } else {
            Some(t4)
        }
    } else {
        None
    };
    let is_released = if cells.len() > 4 {
        let status_cell = then(&row, "td", 4);
        assert(path_view(status_cell@) =~= schedule_cell_path(b as int, t as int, 4));
        proof {
            reveal_strlit("check");
            reveal_strlit("exists-episode");
            assert(markup_word("check"@));
            assert(markup_word("exists-episode"@));
        }
        match page.markup(status_cell.as_slice(), true) {
            Some(m) => {
                let mc = chars_of(m.as_str());
                contains_str(&mc, "check") || contains_str(&mc, "exists-episode")
            },
            None => false,
        }
    } else {
        false
    };
    proof {
        if markers@.len() > 0 {
            assert(element_view(markers@[0]).1[0] == opt_view(markers@[0].attrs@[0]));
            assert(element_view(markers@[0]).1[1] == opt_view(markers@[0].attrs@[1]));
        }
    }
    let id = if markers.len() > 0 {
        match &markers[0].attrs[0] {
            Some(id) => id.clone(),
            None => String::new(),
        }
    } else {
        String::new()
    };
    let is_watched = markers.len() > 0 && match &markers[0].attrs[1] {
        Some(class) => contains_str(&chars_of(class.as_str()), "watched"),
        None => false,
    };
    let title = match page.first_text(&title_cell, "b") {
        Some(t) => t,
        None => trimmed_of(&cells[1].text),
    };
    let date = if cells.len() > 3 {
        Some(trimmed_of(&cells[3].text))
    } else {
        None
    };
    Some(
        ScheduleItem {
            id,
            episode: trimmed_of(&cells[0].text),
            title,
            original_title: page.first_text(&title_cell, "span"),
            date,
            release_status: status,
            is_released,
            is_watched,
        },
    )
}

/// The schedule table of a title's page: one group per block, with the
/// rows that have more than two cells.
pub fn parse_schedules(page: &HtmlPage) -> (r: Vec<ScheduleGroup>)
    requires
        !page.is_fragment(),
    ensures
        r@.map_values(|g: ScheduleGroup| schedule_group_view(g)) == schedule_blocks(page.source()),
{
    let ghost html = page.source();
    let blocks = page.find(&crate::html::at_page(), ".b-post__schedule_block", &no_names()).len();
    let mut groups: Vec<ScheduleGroup> = Vec::new();
    let mut b: usize = 0;
    while b < blocks
        invariant
            b <= blocks,
            !page.is_fragment(),
            html == page.source(),
            blocks == doc_found(html, false, seq![], ".b-post__schedule_block"@, seq![]).len(),
            groups@.len() == b,
            forall|i: int| 0 <= i < b ==> schedule_group_view(#[trigger] groups@[i]) == schedule_block(html, i),
        decreases blocks - b,
    {
        let block = at(".b-post__schedule_block", b);
        let name = match page.first_text(&block, ".b-post__schedule_block_title .title") {
            Some(n) => n,
            None => String::new(),
        };
        let rows = page.find(&block, "tr", &no_names()).len();
        let mut items: Vec<ScheduleItem> = Vec::new();
        let mut t: usize = 0;
        while t < rows
            invariant
                t <= rows,
                !page.is_fragment(),
                html == page.source(),
                rows == doc_found(html, false, block_path(b as int), "tr"@, seq![]).len(),
                schedule_item_views(items@) == schedule_rows_upto(html, b as int, t as int),
            decreases rows - t,
        {
            match schedule_row_at(page, b, t) {
                Some(item) => {
                    let ghost prev = items@;
                    items.push(item);
                    assert(items@ =~= prev.push(item));
                    assert(schedule_item_views(items@) =~= schedule_item_views(prev).push(schedule_item_view(item)));
                },
                None => {},
            }
            t += 1;
        }
        let g = ScheduleGroup { name, items };
        assert(schedule_group_view(g) == schedule_block(html, b as int));
        groups.push(g);
        b += 1;
    }
    assert(groups@.map_values(|g: ScheduleGroup| schedule_group_view(g)) =~= schedule_blocks(html));
    groups
}

} // verus!
