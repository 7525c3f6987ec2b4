use movo_core::client::anubis::{is_challenge, solve_pow};
use movo_core::client::auth::AuthManager;
use movo_core::client::catalog::CatalogScraper;

#[test]
fn parses_notifications_and_premium_days() {
    let (groups, days) = AuthManager::parse_notifications(
        r#"
        <div class="b-tophead-premuser">Осталось 12 дней Продлить</div>
        <div class="b-seriesupdate__block"><div class="b-seriesupdate__block_date">Today развернуть</div><div class="tracked"><span class="season">Season 1</span><span class="cell-2">Episode 2</span><a class="b-seriesupdate__block_list_link" href="/series/42-show.html">Show</a></div></div>
    "#,
    );
    assert_eq!(days, Some(12));
    assert_eq!(groups[0].items[0].info, "Season 1 - Episode 2");
}

#[test]
fn account_parsers_reject_landing_page_and_parse_server_state() {
    assert!(AuthManager::parse_verified_profile("<html><head><title>HDRezka</title></head></html>", "42").is_err());

    let categories = AuthManager::parse_favorites_categories(
        r#"<li class="b-favorites_content__cats_list_item" data-cat_id="3">
            <span class="name">Later</span><span class="num">2</span>
        </li>"#,
    );
    assert_eq!(categories[0].id, Some(3));
    assert_eq!(categories[0].count, 2);
    let history = AuthManager::parse_history(
        r#"<div class="b-videosaves__list_item"></div>
        <div class="b-videosaves__list_item watched-row">
            <a class="delete" data-id="save-7"></a>
            <div class="title"><a href="/films/7-test.html" data-cover_url="cover.jpg">Test</a></div>
            <div class="date">today</div>
        </div>"#,
    );
    assert_eq!(history.len(), 1);
    assert_eq!(history[0].id, "save-7");
    assert!(history[0].is_watched);
}

#[test]
fn test_official_account_fixtures() {
    let categories = AuthManager::parse_favorites_categories(
        r#"<li class="b-favorites_content__cats_list_item" data-cat_id="4">
            <span class="name">Избранное</span><span class="num">12</span>
        </li>"#,
    );
    assert_eq!(categories[0].id, Some(4));
    assert_eq!(categories[0].count, 12);

    let history = AuthManager::parse_history(
        r#"<div class="b-videosaves__list_item"></div>
        <div class="b-videosaves__list_item watched-row">
            <button class="delete" data-id="77"></button>
            <div class="title"><a href="/films/77-test.html">Test</a></div>
        </div>"#,
    );
    assert_eq!(history[0].id, "77");
    assert_eq!(history[0].media_id(), Some(77));
    assert!(history[0].is_watched);
}

#[test]
fn test_extract_user_info_and_vip() {
    let html_vip = r#"
        <div class="b-users__panel">
            <span class="user_name">RezkaFan</span>
            <span class="vip badge">VIP</span>
        </div>
    "#;

    let username = AuthManager::extract_logged_in_username(html_vip);
    assert_eq!(username, Some("RezkaFan".to_string()));

    let is_vip = AuthManager::extract_vip_status(html_vip);
    assert!(is_vip);

    let html_normal = r#"
        <div class="b-users__panel">
            <span class="user_name">RegularUser</span>
        </div>
    "#;

    let username_normal = AuthManager::extract_logged_in_username(html_normal);
    assert_eq!(username_normal, Some("RegularUser".to_string()));

    let is_vip_normal = AuthManager::extract_vip_status(html_normal);
    assert!(!is_vip_normal);
}

#[test]
fn solves_the_proof_of_work_challenge() {
    let (_nonce, hash) = solve_pow("test_random_data_sample", 2).unwrap();
    assert!(hash.starts_with("00"));
}

#[test]
fn a_challenge_without_difficulty_takes_the_first_nonce() {
    let (nonce, hash) = solve_pow("abc", 0).unwrap();
    assert_eq!(nonce, 0);
    assert_eq!(hash.len(), 64);
}

#[test]
fn catalog_uses_secure_lazy_poster_url() {
    let items = CatalogScraper::parse_catalog_html(
        r#"<div class="b-content__inline_item">
            <div class="b-content__inline_item-cover">
                <img src="placeholder.gif" data-src="http://statichdrezka.ac/poster.jpg">
            </div>
            <div class="b-content__inline_item-link"><a href="/1-test.html">Test</a></div>
        </div>"#,
    );

    assert_eq!(items[0].poster_url.as_deref(), Some("https://statichdrezka.ac/poster.jpg"));
}

#[test]
fn a_catalog_link_gives_its_id_and_year() {
    assert_eq!(CatalogScraper::extract_id_from_url("https://hdrzk.org/films/fiction/981-matrica-1999.html"), 981);
    assert_eq!(CatalogScraper::extract_year("1999, США, Фантастика"), Some(1999));
    assert_eq!(CatalogScraper::secure_poster_url("http://a/b.jpg"), "https://a/b.jpg");
}

#[test]
fn a_page_without_the_challenge_is_not_one() {
    assert!(!is_challenge("<html><body>catalog</body></html>"));
}
