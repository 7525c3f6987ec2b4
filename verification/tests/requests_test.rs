use movo_core::bridge::{ReadRegistry, TrackedRead, EARLY_DROP_KEPT_MS};
use movo_core::client::account::{after_keyring, logout_outcome, KeyringRestore};
use movo_core::client::anubis::{pass_cookie, pass_query, AnubisAlgorithm, AnubisSolution};
use movo_core::client::history_sync::{check_watch_ids, find_history_entry, history_media_id, watched_readback};
use movo_core::client::auth::AuthManager;
use movo_core::client::models::{CatalogCategory, Translator};
use movo_core::client::requests::{
    catalog_path, comments_path, episode_stream_form, episodes_form, favorites_form, login_form, movie_stream_form,
    rating_form, save_watch_form,
};
use movo_core::error::{ClientError, ErrorKind};
use movo_core::storage::account_dir;

fn pairs(form: &[(String, String)]) -> Vec<(&str, &str)> {
    form.iter().map(|(a, b)| (a.as_str(), b.as_str())).collect()
}

#[test]
fn a_film_stream_asks_under_the_default_voice_over_without_an_id() {
    let translator = Translator {
        id: 0,
        name: String::new(),
        is_premium: false,
        is_camrip: true,
        has_ads: false,
        is_director_cut: true,
    };
    assert_eq!(
        pairs(&movie_stream_form(42, &translator)),
        vec![
            ("id", "42"),
            ("translator_id", "238"),
            ("is_camrip", "1"),
            ("is_ads", "0"),
            ("is_director", "1"),
            ("action", "get_movie"),
        ]
    );
    assert_eq!(
        pairs(&episode_stream_form(42, 56, 1, 3)),
        vec![("id", "42"), ("translator_id", "56"), ("season", "1"), ("episode", "3"), ("action", "get_stream")]
    );
    assert_eq!(pairs(&episodes_form(42, -1)), vec![("id", "42"), ("translator_id", "-1"), ("action", "get_episodes")]);
}

#[test]
fn the_account_forms_carry_their_fields() {
    assert_eq!(
        pairs(&save_watch_form(7, 8, None, Some(2))),
        vec![("post_id", "7"), ("translator_id", "8"), ("season", "0"), ("episode", "2"), ("current_time", "1")]
    );
    assert_eq!(pairs(&favorites_form(7, 3)), vec![("post_id", "7"), ("cat_id", "3"), ("action", "add_post")]);
    assert_eq!(pairs(&rating_form(7, 10)), vec![("news_id", "7"), ("go_rate", "10"), ("skin", "hdrezka")]);
    assert_eq!(
        pairs(&login_form("tester", "secret")),
        vec![("login_name", "tester"), ("login_password", "secret"), ("login_not_save", "0")]
    );
}

#[test]
fn catalog_and_comment_pages_are_addressed() {
    assert_eq!(catalog_path(CatalogCategory::Films, Some("/popular/"), 2), "films/page/2/?filter=popular");
    assert_eq!(catalog_path(CatalogCategory::Series, Some("//"), 1), "series/");
    assert_eq!(catalog_path(CatalogCategory::All, None, 1), "");
    assert_eq!(comments_path(42, 3), "ajax/get_comments?news_id=42&cstart=3&type=0&comment_id=0&skin=hdrezka");
}

#[test]
fn a_solution_is_handed_in_with_its_proof() {
    let mut solution = AnubisSolution {
        pass_url: "https://hdrzk.org/.within.website/x/cmd/anubis/api/pass-challenge".to_string(),
        challenge_id: "c1".to_string(),
        algorithm: AnubisAlgorithm::Fast,
        hash: "00ab".to_string(),
        nonce: 17,
        elapsed_ms: 1234,
        redir_url: "https://hdrzk.org/".to_string(),
    };
    let query = pass_query(&solution);
    assert_eq!(
        pairs(&query),
        vec![
            ("id", "c1"),
            ("redir", "https://hdrzk.org/"),
            ("elapsedTime", "1234"),
            ("response", "00ab"),
            ("nonce", "17"),
        ]
    );
    solution.hash = String::new();
    assert_eq!(pass_query(&solution).len(), 3);
    assert_eq!(pass_cookie("c1"), "techaro.lol-anubis-cookie-verification=c1");
}

#[test]
fn a_restore_falls_back_to_the_old_cookie_file() {
    assert!(matches!(after_keyring(Ok(true), false), KeyringRestore::Verify));
    assert!(matches!(after_keyring(Ok(false), false), KeyringRestore::TryLegacy));
    assert!(matches!(after_keyring(Err("locked".to_string()), true), KeyringRestore::TryLegacy));
    assert!(matches!(after_keyring(Err("locked".to_string()), false), KeyringRestore::Fail(m) if m == "locked"));
}

#[test]
fn a_logout_reports_what_it_could_not_clear() {
    assert!(logout_outcome(Ok(()), true).is_ok());
    let error = logout_outcome(Err(ClientError::new(ErrorKind::Network, "gone".to_string())), true).unwrap_err();
    assert_eq!(error.message, "gone");
    assert_eq!(logout_outcome(Ok(()), false).unwrap_err().message, "Account selection could not be cleared");
    assert!(logout_outcome(Err(ClientError::new(ErrorKind::Other, "x".to_string())), false)
        .unwrap_err()
        .message
        .contains("could not be fully cleared"));
}

fn history_page() -> String {
    r#"<div class="b-videosaves__list_item"></div>
    <div class="b-videosaves__list_item"><button class="delete" data-id="a"></button><div class="title"><a href="/films/7-test.html">Test</a></div></div>
    <div class="b-videosaves__list_item watched-row"><button class="delete" data-id="b"></button><div class="title"><a href="/series/9-show.html">Show</a></div></div>"#
        .to_string()
}

#[test]
fn the_history_read_back_finds_the_row_saved() {
    let entries = AuthManager::parse_history(&history_page());
    assert_eq!(entries.len(), 2);
    assert_eq!(find_history_entry(&entries, 9, None, None), Some(1));
    assert_eq!(find_history_entry(&entries, 8, None, None), None);
    assert_eq!(history_media_id(&entries, "b").unwrap(), 9);
    assert_eq!(history_media_id(&entries, "c").unwrap_err(), "History item was not found");
    assert!(check_watch_ids(7, 8).is_ok());
    assert!(check_watch_ids(0, 8).is_err());
    assert!(check_watch_ids(7, 0).is_err());
}

#[test]
fn a_watched_toggle_is_judged_by_the_read_back() {
    assert!(watched_readback(true, true, None).is_ok());
    let error = watched_readback(false, true, None).unwrap_err();
    assert!(error.message.contains("did not confirm"));
    let refused = ClientError::new(ErrorKind::Provider, "refused".to_string());
    assert_eq!(watched_readback(false, true, Some(refused)).unwrap_err().message, "refused");
}

#[test]
fn an_account_has_a_directory_of_its_own() {
    assert_eq!(account_dir("42"), "user-3432");
}

#[test]
fn a_drop_nothing_came_for_is_forgotten() {
    let now: u64 = 10 * EARLY_DROP_KEPT_MS;
    let mut reads: ReadRegistry<u32> = ReadRegistry::new();
    reads.reads.push(TrackedRead { id: 9_005, signal: 0, early_since: Some(now - 2 * EARLY_DROP_KEPT_MS) });

    reads.expire(now);

    assert!(reads.reads.iter().all(|read| read.id != 9_005));
}

#[test]
fn a_drop_that_arrives_before_its_read_keeps_its_signal() {
    let mut reads: ReadRegistry<u32> = ReadRegistry::new();
    let at = reads.drop_read(9_002, 1_000, 1);
    assert_eq!(reads.reads[at].early_since, Some(1_000));
    let at = reads.track(9_002, 1_500, 2);
    assert_eq!(reads.reads[at].signal, 1);
    assert_eq!(reads.reads[at].early_since, None);
    reads.finish(9_002);
    assert!(reads.reads.is_empty());
}
