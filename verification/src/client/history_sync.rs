//! The decisions behind keeping the account's history in step with what was
//! watched: which row is the one just saved, and what a read-back says.

use vstd::prelude::*;
use crate::client::details::schedule::{before, label_position, labelled_position, row_at, schedule_item_for};
use crate::client::models::{url_media_id, ScheduleGroup, ScheduleItem, ServerHistoryEntry};
use crate::error::{classified, ClientError};
use crate::text::{chars_of, is_str, owned};

verus! {

/// The season and episode a history row states in its info line.
pub open spec fn row_position(info: Option<Seq<char>>) -> (Option<i64>, Option<i64>) {
    match info {
        Some(t) => label_position(t),
        None => (None, None),
    }
}

impl ServerHistoryEntry {
    /// The season and episode this row's info line names.
    pub fn labelled_position(&self) -> (r: (Option<i64>, Option<i64>))
        ensures
            r == row_position(match &self.info {
                Some(t) => Some(t@),
                None => None,
            }),
    {
        match &self.info {
            Some(t) => labelled_position(t.as_str()),
            None => (None, None),
        }
    }
}

/// A history row is the one for `post_id`, and, when an episode is asked
/// for, agrees with it wherever the row states a season or an episode.
pub open spec fn entry_matches(url: Seq<char>, info: Option<Seq<char>>, post_id: i64, season: Option<i64>, episode: Option<i64>) -> bool {
    &&& url_media_id(url) == Some(post_id)
    &&& match (season, episode) {
        (Some(s), Some(e)) => {
            let (rs, re) = row_position(info);
            (rs is None || rs == Some(s)) && (re is None || re == Some(e))
        },
        _ => true,
    }
}

pub open spec fn info_view(e: ServerHistoryEntry) -> Option<Seq<char>> {
    match e.info {
        Some(t) => Some(t@),
        None => None,
    }
}

/// Whether `entry` is the history row of the title `post_id`, at the episode
/// asked for.
pub fn history_entry_matches(entry: &ServerHistoryEntry, post_id: i64, season: Option<i64>, episode: Option<i64>) -> (r: bool)
    ensures
        r == entry_matches(entry.url@, info_view(*entry), post_id, season, episode),
{
    if entry.media_id() != Some(post_id) {
        return false;
    }
    let (s, e) = match (season, episode) {
        (Some(s), Some(e)) => (s, e),
        _ => return true,
    };
    let (rs, re) = entry.labelled_position();
    let season_agrees = match rs {
        Some(at) => at == s,
        None => true,
    };
    let episode_agrees = match re {
        Some(at) => at == e,
        None => true,
    };
    season_agrees && episode_agrees
}

/// The first row of a history read-back that is the title and episode just
/// saved.
pub fn find_history_entry(entries: &Vec<ServerHistoryEntry>, post_id: i64, season: Option<i64>, episode: Option<i64>) -> (r: Option<usize>)
    ensures
        match r {
            Some(i) => i < entries@.len() && entry_matches(entries@[i as int].url@, info_view(entries@[i as int]), post_id, season, episode)
                && forall|j: int| 0 <= j < i ==> !entry_matches(#[trigger] entries@[j].url@, info_view(entries@[j]), post_id, season, episode),
            None => forall|j: int| 0 <= j < entries@.len() ==> !entry_matches(#[trigger] entries@[j].url@, info_view(entries@[j]), post_id, season, episode),
        },
{
    let mut i: usize = 0;
    while i < entries.len()
        invariant
            i <= entries.len(),
            forall|j: int| 0 <= j < i ==> !entry_matches(#[trigger] entries@[j].url@, info_view(entries@[j]), post_id, season, episode),
        decreases entries.len() - i,
    {
        if history_entry_matches(&entries[i], post_id, season, episode) {
            return Some(i);
        }
        i += 1;
    }
    None
}

/// The first history row with the id `id`.
pub fn find_history_id(entries: &Vec<ServerHistoryEntry>, id: &str) -> (r: Option<usize>)
    ensures
        match r {
            Some(i) => i < entries@.len() && entries@[i as int].id@ == id@
                && forall|j: int| 0 <= j < i ==> #[trigger] entries@[j].id@ != id@,
            None => forall|j: int| 0 <= j < entries@.len() ==> #[trigger] entries@[j].id@ != id@,
        },
{
    let mut i: usize = 0;
    while i < entries.len()
        invariant
            i <= entries.len(),
            forall|j: int| 0 <= j < i ==> #[trigger] entries@[j].id@ != id@,
        decreases entries.len() - i,
    {
        if is_str(&chars_of(entries[i].id.as_str()), id) {
            return Some(i);
        }
        i += 1;
    }
    None
}

/// The title a history row that is about to be removed belongs to: the first
/// row with the id, when its URL names a title.
pub fn history_media_id(entries: &Vec<ServerHistoryEntry>, id: &str) -> (r: Result<i64, String>)
    ensures
        match r {
            Ok(m) => exists|i: int| 0 <= i < entries@.len() && entries@[i].id@ == id@
                && (forall|j: int| 0 <= j < i ==> #[trigger] entries@[j].id@ != id@)
                && url_media_id(entries@[i].url@) == Some(m),
            Err(e) => e@ == "History item was not found"@ && forall|i: int| 0 <= i < entries@.len() && #[trigger] entries@[i].id@ == id@
                ==> (exists|j: int| 0 <= j < i && #[trigger] entries@[j].id@ == id@) || url_media_id(entries@[i].url@) is None,
        },
{
    match find_history_id(entries, id) {
        Some(i) => match entries[i].media_id() {
            Some(m) => Ok(m),
            None => Err(owned("History item was not found")),
        },
        None => Err(owned("History item was not found")),
    }
}

/// Ids a watch can be saved under: a title and a voice-over, both positive.
pub fn check_watch_ids(post_id: i64, translator_id: i64) -> (r: Result<(), String>)
    ensures
        r is Ok <==> (post_id > 0 && translator_id > 0),
        r matches Err(e) ==> e@ == "Cannot sync history without valid media and voice-over IDs"@,
{
    if post_id <= 0 || translator_id <= 0 {
        Err(owned("Cannot sync history without valid media and voice-over IDs"))
    } else {
        Ok(())
    }
}

/// What a change of a row's watched state comes to, once the account was
/// read back: done when the row shows it, else the failure of the toggle
/// request, else that the account did not take it.
pub fn watched_readback(confirmed: bool, watched: bool, toggle_error: Option<ClientError>) -> (r: Result<(), ClientError>)
    ensures
        confirmed == watched ==> r is Ok,
        confirmed != watched ==> match toggle_error {
            Some(e) => r == Err::<(), ClientError>(e),
            None => r matches Err(e) && e.message@ == "The account did not confirm the watched state"@
                && e.kind == classified(e.message@),
        },
{
    if confirmed == watched {
        Ok(())
    } else {
        match toggle_error {
            Some(e) => Err(e),
            None => Err(ClientError::from_message(owned("The account did not confirm the watched state"))),
        }
    }
}

/// What marking a history row watched comes to once the account was read
/// back: done when the row is there and shows it watched; otherwise the
/// row vanished, or the account did not take the change.
pub fn history_readback(row: Option<&ServerHistoryEntry>) -> (r: Result<(), ClientError>)
    ensures
        match row {
            Some(e) => if e.is_watched {
                r is Ok
            } else {
                r matches Err(x) && x.message@ == "The account did not confirm the watched state"@
                    && x.kind == classified(x.message@)
            },
            None => r matches Err(x) && x.message@ == "History item disappeared while marking watched"@
                && x.kind == classified(x.message@),
        },
{
    match row {
        Some(e) => if e.is_watched {
            Ok(())
        } else {
            Err(ClientError::from_message(owned("The account did not confirm the watched state")))
        },
        None => Err(ClientError::from_message(owned("History item disappeared while marking watched"))),
    }
}

/// `(g, i)` is the first row, in reading order, at `(season, episode)`.
pub open spec fn first_row_at(schedules: Seq<ScheduleGroup>, g: int, i: int, season: i64, episode: i64) -> bool {
    row_at(schedules, g, i, season, episode) && forall|h: int, j: int|
        #![auto]
        before(h, j, g, i) ==> !row_at(schedules, h, j, season, episode)
}

/// The schedule row whose watched flag is set for a finished episode: the
/// episode's first row, when it has an id; none when the schedule does not
/// list the episode or its row has no id to send.
pub fn schedule_row_to_mark(schedules: &Vec<ScheduleGroup>, season: i64, episode: i64) -> (r: Option<&ScheduleItem>)
    ensures
        match r {
            Some(item) => item.id@.len() > 0 && exists|g: int, i: int|
                first_row_at(schedules@, g, i, season, episode) && *item == schedules@[g].items@[i],
            None => forall|g: int, i: int|
                first_row_at(schedules@, g, i, season, episode) ==> schedules@[g].items@[i].id@.len() == 0,
        },
{
    match schedule_item_for(schedules, season, episode) {
        Some(item) => {
            if chars_of(item.id.as_str()).len() == 0 {
                proof {
                    let (g0, i0) = choose|g: int, i: int|
                        row_at(schedules@, g, i, season, episode) && *item == schedules@[g].items@[i]
                            && forall|h: int, j: int| #![auto] before(h, j, g, i) ==> !row_at(schedules@, h, j, season, episode);
                    assert forall|g: int, i: int|
                        first_row_at(schedules@, g, i, season, episode) implies schedules@[g].items@[i].id@.len() == 0 by {
                        if before(g, i, g0, i0) {
                        } else if before(g0, i0, g, i) {
                        } else {
                            assert(g == g0 && i == i0);
                        }
                    }
                }
                None
            } else {
                proof {
                    let (g0, i0) = choose|g: int, i: int|
                        row_at(schedules@, g, i, season, episode) && *item == schedules@[g].items@[i]
                            && forall|h: int, j: int| #![auto] before(h, j, g, i) ==> !row_at(schedules@, h, j, season, episode);
                    assert(first_row_at(schedules@, g0, i0, season, episode));
                }
                Some(item)
            }
        },
        None => None,
    }
}

/// What marking an episode's schedule row watched comes to once the
/// schedule was read back: done when the row is there and shows it
/// watched; otherwise the row is gone, or the account did not take it.
pub fn schedule_readback(item: Option<&ScheduleItem>) -> (r: Result<(), ClientError>)
    ensures
        match item {
            Some(i) => if i.is_watched {
                r is Ok
            } else {
                r matches Err(x) && x.message@ == "The account did not confirm the episode watched state"@
                    && x.kind == classified(x.message@)
            },
            None => r matches Err(x) && x.message@ == "Finished episode was not found"@
                && x.kind == classified(x.message@),
        },
{
    match item {
        Some(i) => if i.is_watched {
            Ok(())
        } else {
            Err(ClientError::from_message(owned("The account did not confirm the episode watched state")))
        },
        None => Err(ClientError::from_message(owned("Finished episode was not found"))),
    }
}

} // verus!
