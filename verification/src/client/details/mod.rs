//! Reading a title's page: its details, voice-overs, seasons and schedule.

pub mod actor;
pub mod comments;
pub mod episodes;
pub mod info;
pub mod page;
pub mod schedule;

pub use schedule::{labelled_position, mark_scheduled, schedule_item_for};

use vstd::prelude::*;

verus! {

/// The scrapers of a title's page and the pages around it.
pub struct DetailsScraper;

} // verus!
