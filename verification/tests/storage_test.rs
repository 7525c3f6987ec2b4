use movo_core::client::models::MediaType;
use movo_core::storage::cache::ImageCache;
use movo_core::storage::history::{WatchHistory, WatchHistoryEntry};
use movo_core::storage::search_history::{with_query, SearchHistory};
use movo_core::storage::seen_notifications::SeenNotifications;
use movo_core::storage::settings::AppSettings;

#[test]
fn recent_queries_deduplicate_and_cap() {
    let values = with_query((0..20).map(|value| format!("Query {value}")).collect(), "query 4");

    assert_eq!(values.first().unwrap(), "query 4");
    assert_eq!(values.len(), 20);
    assert_eq!(values.iter().filter(|value| value.eq_ignore_ascii_case("query 4")).count(), 1);
}

#[test]
fn a_blank_query_is_not_recorded() {
    let history = SearchHistory { values: vec!["one".to_string()] };
    assert!(history.add_for("   ").is_none());
    let added = history.add_for("  two ").unwrap();
    assert_eq!(added.values, vec!["two".to_string(), "one".to_string()]);
    let again = added.add_for("TWO").unwrap();
    assert_eq!(again.values, vec!["TWO".to_string(), "one".to_string()]);
}

#[test]
fn seen_state_only_keeps_listed_targets() {
    let seen = SeenNotifications { urls: vec!["a".to_string(), "gone".to_string()] };
    let seen = seen.mark_seen_for("b", &vec!["a".to_string(), "b".to_string()]);

    assert!(seen.contains("a"));
    assert!(seen.contains("b"));
    assert!(!seen.contains("gone"));
}

#[test]
fn test_settings_defaults() {
    let settings = AppSettings::default();
    assert_eq!(settings.default_quality, "1080p");
    assert_eq!(settings.external_player, "mpv");
}

#[test]
fn a_pre_version_launcher_command_is_replaced() {
    let mut settings = AppSettings {
        version: 0,
        external_player: "xdg-open".to_string(),
        ..AppSettings::default()
    };

    assert!(settings.migrate());
    assert_eq!(settings.external_player, "mpv");
    assert!(!settings.migrate());
}

#[test]
fn a_version_one_catalog_start_moves_to_home_once() {
    let mut settings = AppSettings {
        version: 1,
        initial_view: "catalog".to_string(),
        ..AppSettings::default()
    };

    assert!(settings.migrate());
    assert_eq!(settings.initial_view, "home");
    assert_eq!(settings.version, 2);
    assert!(!settings.migrate());

    let mut chosen = AppSettings {
        version: 1,
        initial_view: "search".to_string(),
        ..AppSettings::default()
    };
    assert!(chosen.migrate());
    assert_eq!(chosen.initial_view, "search");
}

fn entry(media_id: i64, updated_at_ms: i64) -> WatchHistoryEntry {
    WatchHistoryEntry {
        media_id,
        title: media_id.to_string(),
        orig_title: None,
        url: format!("https://hdrzk.org/films/{media_id}-test.html"),
        poster_url: None,
        media_type: MediaType::Movie,
        season: None,
        episode: None,
        episode_title: None,
        translator_id: None,
        translator_name: None,
        position_bits: 10.0f64.to_bits(),
        duration_bits: 100.0f64.to_bits(),
        updated_at_ms,
    }
}

const NOW_MS: i64 = 1_700_000_000_000;
const MINUTE_MS: i64 = 60_000;

#[test]
fn reconciling_drops_entries_the_account_no_longer_lists() {
    let mut history = WatchHistory { entries: vec![entry(1, NOW_MS - 10 * MINUTE_MS), entry(2, NOW_MS - 10 * MINUTE_MS)] };

    assert!(history.retain_media_since(&vec![2], NOW_MS));

    assert_eq!(history.entries.len(), 1);
    assert_eq!(history.entries[0].media_id, 2);
}

#[test]
fn reconciling_keeps_entries_written_since_the_cutoff() {
    let mut history = WatchHistory { entries: vec![entry(3, NOW_MS)] };

    assert!(!history.retain_media_since(&vec![], NOW_MS - 5 * MINUTE_MS));

    assert_eq!(history.entries.len(), 1);
}

#[test]
fn a_rewatched_episode_replaces_its_earlier_entry() {
    let mut history = WatchHistory::new();

    history.update_entry(entry(981, NOW_MS));
    history.update_entry(entry(981, NOW_MS));

    assert_eq!(history.entries.len(), 1);
    assert!(history.get_entry(981, None, None).is_some());
}

#[test]
fn the_latest_episode_of_a_title_wins() {
    let mut older = entry(5, NOW_MS - 30 * MINUTE_MS);
    older.episode = Some(1);
    let mut newest = entry(5, NOW_MS);
    newest.episode = Some(2);
    let history = WatchHistory { entries: vec![older, newest, entry(5, NOW_MS - MINUTE_MS)] };
    assert_eq!(history.latest_for(5).unwrap().episode, Some(2));
    assert!(history.latest_for(6).is_none());
}

#[test]
fn the_history_keeps_the_newest_hundred() {
    let mut history = WatchHistory::new();
    for id in 0..105 {
        history.update_entry(entry(id, NOW_MS + id));
    }
    assert_eq!(history.entries.len(), 100);
    assert_eq!(history.entries[0].media_id, 104);
    assert!(history.get_entry(4, None, None).is_none());
    assert!(history.get_entry(5, None, None).is_some());
}

#[test]
fn removing_a_title_drops_every_episode_of_it() {
    let mut first = entry(8, NOW_MS);
    first.episode = Some(1);
    let mut second = entry(8, NOW_MS);
    second.episode = Some(2);
    let mut history = WatchHistory { entries: vec![first, entry(9, NOW_MS), second] };
    assert!(history.remove_media(8));
    assert_eq!(history.entries.len(), 1);
    assert_eq!(history.entries[0].media_id, 9);
    assert!(!history.remove_media(8));
}

#[test]
fn a_poster_is_kept_under_the_hash_of_its_address() {
    assert_eq!(
        ImageCache::file_name(""),
        "e3b0c44298fc1c149afbf4c8996fb92427ae41e4649b934ca495991b7852b855.img"
    );
    assert_ne!(ImageCache::file_name("https://a/1.jpg"), ImageCache::file_name("https://a/2.jpg"));
}
