use movo_core::client::auth::AuthManager;
use movo_core::client::details::episodes::parse_episodes_html;
use movo_core::client::details::schedule::{labelled_position, mark_scheduled, schedule_item_for};
use movo_core::client::history_sync::history_entry_matches;
use movo_core::client::models::{ScheduleGroup, ScheduleItem};

#[test]
fn labels_are_read_in_either_word_order() {
    assert_eq!(labelled_position("1 сезон 3 серия"), (Some(1), Some(3)));
    assert_eq!(labelled_position("Season 1 Episode 3"), (Some(1), Some(3)));
    assert_eq!(labelled_position("Сезон 2, епізод 12"), (Some(2), Some(12)));
    assert_eq!(labelled_position("3 серия"), (None, Some(3)));
    assert_eq!(
        labelled_position("1 сезон 2 серия (Кириллица) смотреть ещё 14 серий в 1 сезоне"),
        (Some(1), Some(2))
    );
    assert_eq!(labelled_position("Украинский дубляж"), (None, None));
}

fn row(episode: &str, id: &str, watched: bool) -> ScheduleItem {
    ScheduleItem {
        id: id.to_string(),
        episode: episode.to_string(),
        title: String::new(),
        original_title: None,
        date: None,
        release_status: None,
        is_released: true,
        is_watched: watched,
    }
}

fn schedules() -> Vec<ScheduleGroup> {
    vec![
        ScheduleGroup {
            name: "2 сезон".to_string(),
            items: vec![row("1 серия", "w21", true)],
        },
        ScheduleGroup {
            name: String::new(),
            items: vec![row("1 сезон 2 серия", "w12", true), row("1 сезон 1 серия", "", false)],
        },
    ]
}

#[test]
fn schedule_rows_mark_the_episodes_they_name() {
    let schedules = schedules();
    let mut seasons = parse_episodes_html(
        r#"<li class="b-simple_season__item" data-tab_id="1">1</li><li class="b-simple_season__item" data-tab_id="2">2</li>"#,
        r#"<li class="b-simple_episode__item" data-season_id="1" data-episode_id="1">1</li>
           <li class="b-simple_episode__item" data-season_id="1" data-episode_id="2">2</li>
           <li class="b-simple_episode__item" data-season_id="1" data-episode_id="3">3</li>
           <li class="b-simple_episode__item" data-season_id="2" data-episode_id="1">1</li>"#,
    );
    mark_scheduled(&mut seasons, &schedules);
    let first = &seasons[0].episodes;
    assert!(!first[0].is_watched && first[0].watch_id.is_none());
    assert!(first[1].is_watched && first[1].watch_id.as_deref() == Some("w12"));
    assert!(!first[2].is_watched && first[2].watch_id.is_none());
    assert!(seasons[1].episodes[0].is_watched);
    assert_eq!(seasons[1].episodes[0].watch_id.as_deref(), Some("w21"));
}

#[test]
fn a_schedule_row_is_found_by_its_season_and_episode() {
    let schedules = schedules();
    assert_eq!(schedule_item_for(&schedules, 2, 1).map(|item| item.id.clone()), Some("w21".to_string()));
    assert_eq!(schedule_item_for(&schedules, 1, 2).map(|item| item.id.clone()), Some("w12".to_string()));
    assert!(schedule_item_for(&schedules, 3, 1).is_none());
}

fn history_row(watched: bool) -> String {
    format!(
        r#"<div class="b-videosaves__list_item"></div><div class="b-videosaves__list_item{}"><button class="delete" data-id="saved"></button><div class="title"><a href="/films/7-test.html">Test</a></div></div>"#,
        if watched { " watched-row" } else { "" }
    )
}

#[test]
fn episode_history_matching_does_not_accept_a_different_labelled_episode() {
    let mut entry = AuthManager::parse_history(&history_row(false)).pop().unwrap();
    entry.info = Some("Season 1 - Episode 2".to_string());
    assert!(history_entry_matches(&entry, 7, Some(1), Some(2)));
    assert!(!history_entry_matches(&entry, 7, Some(1), Some(3)));
}

#[test]
fn episode_history_matching_accepts_provider_label_order() {
    let mut entry = AuthManager::parse_history(&history_row(false)).pop().unwrap();
    entry.info = Some("1 сезон, 2 серия".to_string());
    assert!(history_entry_matches(&entry, 7, Some(1), Some(2)));
    assert!(!history_entry_matches(&entry, 7, Some(1), Some(3)));

    entry.info = Some("Сезон 1, эпизод 2".to_string());
    assert!(history_entry_matches(&entry, 7, Some(1), Some(2)));
    assert!(!history_entry_matches(&entry, 7, Some(1), Some(3)));
}

#[test]
fn a_history_row_of_another_title_never_matches() {
    let entry = AuthManager::parse_history(&history_row(false)).pop().unwrap();
    assert!(history_entry_matches(&entry, 7, None, None));
    assert!(history_entry_matches(&entry, 7, Some(4), Some(9)));
    assert!(!history_entry_matches(&entry, 8, None, None));
}
