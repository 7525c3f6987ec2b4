use movo_core::client::details::comments::comments_reply;
use movo_core::client::history_sync::{history_readback, schedule_readback, schedule_row_to_mark};
use movo_core::client::models::{parse_country_list, MediaItem, ScheduleGroup, ScheduleItem, ServerHistoryEntry};
use movo_core::client::session::credentials::provider_host;
use movo_core::client::shown;
use movo_core::storage::seen_notifications::SeenNotifications;

fn item(info: &str) -> MediaItem {
    MediaItem {
        id: 1,
        title: String::new(),
        orig_title: None,
        url: String::new(),
        poster_url: None,
        year: None,
        category: None,
        rating: None,
        info: Some(info.to_string()),
    }
}

fn items() -> Vec<MediaItem> {
    vec![
        item("2019, США, Боевики"),
        item("2021, Россия, Драмы"),
        item("2020, Великобритания, Комедии"),
    ]
}

#[test]
fn hidden_countries_drop_listings_by_their_info_line() {
    assert_eq!(shown(items(), &Vec::new()).len(), 3);
    // Named in another language than the listing, and by code.
    let hidden = parse_country_list(" Росія ,, gb");
    let shown = shown(items(), &hidden);
    assert_eq!(shown.len(), 1);
    assert_eq!(shown[0].info.as_deref(), Some("2019, США, Боевики"));
}

#[test]
fn a_country_list_is_reduced_to_codes() {
    assert_eq!(parse_country_list(" Росія ,, gb, Атлантида"), ["ru", "gb", "атлантида"]);
    assert!(parse_country_list(" , ").is_empty());
}

#[test]
fn an_item_without_an_info_line_is_always_shown() {
    let mut bare = item("");
    bare.info = None;
    let kept = shown(vec![bare], &vec!["ru".to_string()]);
    assert_eq!(kept.len(), 1);
    assert!(!kept[0].is_from(&vec!["ru".to_string()]));
    assert!(item("2021, Россия, Драмы").is_from(&vec!["ru".to_string()]));
}

#[test]
fn a_comments_reply_gives_its_markup_and_navigation() {
    let (markup, navigation) = comments_reply(r#"{"success":true,"comments":"<div>hi</div>","navigation":"<a>2</a>"}"#).unwrap();
    assert_eq!(markup, "<div>hi</div>");
    assert_eq!(navigation, "<a>2</a>");
    let (markup, navigation) = comments_reply(r#"{"comments":5}"#).unwrap();
    assert_eq!(markup, "");
    assert_eq!(navigation, "");
    assert_eq!(comments_reply("<html>").unwrap_err(), "Comments response was malformed");
}

fn history_row(watched: bool) -> ServerHistoryEntry {
    ServerHistoryEntry {
        id: "9".to_string(),
        title: String::new(),
        url: String::new(),
        poster_url: None,
        info: None,
        additional_info: None,
        date: None,
        is_watched: watched,
    }
}

#[test]
fn a_watched_mark_holds_only_once_read_back() {
    assert!(history_readback(Some(&history_row(true))).is_ok());
    assert_eq!(
        history_readback(Some(&history_row(false))).unwrap_err().message,
        "The account did not confirm the watched state"
    );
    assert_eq!(
        history_readback(None).unwrap_err().message,
        "History item disappeared while marking watched"
    );
}

fn row(episode: &str, id: &str, watched: bool) -> ScheduleItem {
    ScheduleItem {
        id: id.to_string(),
        episode: episode.to_string(),
        title: String::new(),
        original_title: None,
        date: None,
        release_status: None,
        is_released: true,
        is_watched: watched,
    }
}

#[test]
fn an_episode_is_marked_on_its_schedule_row_and_read_back() {
    let schedules = vec![
        ScheduleGroup { name: "2 сезон".to_string(), items: vec![row("1 серия", "w21", false)] },
        ScheduleGroup { name: String::new(), items: vec![row("1 сезон 1 серия", "", false)] },
    ];
    assert_eq!(schedule_row_to_mark(&schedules, 2, 1).map(|item| item.id.clone()), Some("w21".to_string()));
    assert!(schedule_row_to_mark(&schedules, 1, 1).is_none(), "a row without an id cannot be marked");
    assert!(schedule_row_to_mark(&schedules, 3, 1).is_none());

    assert!(schedule_readback(Some(&row("1 серия", "w21", true))).is_ok());
    assert_eq!(
        schedule_readback(Some(&row("1 серия", "w21", false))).unwrap_err().message,
        "The account did not confirm the episode watched state"
    );
    assert_eq!(schedule_readback(None).unwrap_err().message, "Finished episode was not found");
}

#[test]
fn the_provider_host_comes_from_its_address() {
    assert_eq!(provider_host("https://hdrzk.org").unwrap(), "hdrzk.org");
    assert_eq!(provider_host("not a url").unwrap_err(), "Official provider URL is invalid");
    assert_eq!(provider_host("data:text/plain,x").unwrap_err(), "Official provider URL has no host");
}

#[test]
fn the_seen_state_never_outgrows_the_listing() {
    let seen = SeenNotifications { urls: vec!["a".to_string(), "b".to_string(), "c".to_string()] };
    let listed = vec!["b".to_string()];
    let seen = seen.mark_seen_for("d", &listed);
    assert!(seen.urls.len() <= listed.len());
    assert_eq!(seen.urls, ["b"]);
}
