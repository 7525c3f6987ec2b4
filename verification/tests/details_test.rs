use movo_core::client::details::episodes::{parse_episodes_html, read_episodes, take_first_episodes, Episodes};
use movo_core::client::details::page::parse_details_html;
use movo_core::client::details::DetailsScraper;
use movo_core::client::models::Translator;

const SERIES_PAGE: &str = r#"
    <h1 class="b-post__title">Upcoming</h1>
    <script>sof.tv.initCDNSeriesEvents(42, 56, 1, 1, false, 'hdrezka');</script>
"#;

fn voice(id: i64) -> Translator {
    Translator {
        id,
        name: format!("voice {id}"),
        is_premium: false,
        is_camrip: false,
        has_ads: false,
        is_director_cut: false,
    }
}

#[test]
fn a_title_without_a_list_offers_the_voice_over_its_player_starts_with() {
    let details = parse_details_html(SERIES_PAGE, "https://example.test/series/42-upcoming.html").unwrap();

    assert_eq!(details.translators.iter().map(|t| t.id).collect::<Vec<_>>(), vec![56]);
}

#[test]
fn a_title_not_released_yet_offers_no_voice_over() {
    let page = format!(r#"{SERIES_PAGE}<div class="b-post__go_status">Ожидается</div>"#);

    let details = parse_details_html(&page, "https://example.test/series/42-upcoming.html").unwrap();

    assert!(details.translators.is_empty());
}

#[test]
fn a_page_without_a_player_offers_no_voice_over() {
    let details = parse_details_html(
        r#"<h1 class="b-post__title">No player</h1>"#,
        "https://example.test/films/42-no-player.html",
    )
    .unwrap();

    assert!(details.translators.is_empty());
}

#[test]
fn a_series_whose_only_voice_over_has_no_episodes_offers_none() {
    let mut details = parse_details_html(SERIES_PAGE, "https://example.test/series/42-upcoming.html").unwrap();

    take_first_episodes(&mut details, Episodes::Refused("not found".to_string()));

    assert!(details.translators.is_empty());
}

#[test]
fn a_refused_first_voice_over_leaves_the_others_to_choose_from() {
    let mut details = parse_details_html(SERIES_PAGE, "https://example.test/series/42-upcoming.html").unwrap();
    details.translators = vec![voice(1), voice(2)];

    take_first_episodes(&mut details, Episodes::Refused("not found".to_string()));

    assert_eq!(details.translators.len(), 2);
}

#[test]
fn parses_account_membership_and_watched_episode_state() {
    let details = parse_details_html(
        r#"
            <h1 class="b-post__title">Test</h1>
            <div class="hd-label-row"><input value="2" checked></div>
            <div class="hd-label-row"><input value="7"></div>
        "#,
        "https://example.test/films/42-test.html",
    )
    .unwrap();
    assert_eq!(details.favorite_category_ids, vec![2]);

    let seasons = parse_episodes_html(
        r#"<li class="b-simple_season__item" data-tab_id="1">Season 1</li>"#,
        r#"<li class="b-simple_episode__item watched" data-season_id="1" data-episode_id="3" data-id="watch-9">Episode 3</li>"#,
    );
    assert_eq!(seasons[0].episodes[0].watch_id.as_deref(), Some("watch-9"));
    assert!(seasons[0].episodes[0].is_watched);
}

#[test]
fn rejects_missing_or_zero_media_id() {
    assert!(parse_details_html(r#"<h1 class="b-post__title">Unknown</h1>"#, "https://example.test/films/unknown.html").is_err());
    assert!(parse_details_html(
        r#"<div id="user-favorites-holder" data-post_id="0"></div>"#,
        "https://example.test/films/unknown.html",
    )
    .is_err());
}

#[test]
fn parses_detail_page_surfaces() {
    let details = parse_details_html(r#"
        <div id="user-favorites-holder" data-post_id="42"></div>
        <div class="b-post__title"><h1>Show</h1></div>
        <table class="b-post__info">
          <tr><td>Страна:</td><td><a href="/country/us/">США</a></td></tr>
          <tr><td>Жанр:</td><td><a href="/genre/drama/">Драма</a></td></tr>
          <tr><td>Режиссер:</td><td><span class="person-name-item" data-photo="p.jpg" data-job="director"><a href="/person/1/"><span>Director</span></a></span></td></tr>
          <tr><td>В ролях актеры:</td><td><span class="person-name-item"><a href="/person/2/"><span>Actor</span></a></span></td></tr>
          <tr><td>Из серии:</td><td><a href="/collections/x/">Saga</a></td></tr>
        </table>
        <div class="b-post__schedule_block"><div class="b-post__schedule_block_title"><span class="title">Season 1</span></div><table><tr><td>1 серия</td><td><b>Pilot</b><span>Pilot original</span></td><td><i class="watched" data-id="w1"></i></td><td>1 Jan</td><td><span class="exists-episode">✓</span></td></tr></table></div>
        <div class="b-rgstats__help" title="&lt;div class='b-rgstats__list_item'&gt;&lt;span class='title'&gt;Voice&lt;/span&gt;&lt;span class='count'&gt;87,5%&lt;/span&gt;&lt;/div&gt;"></div>
        <button class="b-post__trailer_button"></button><div class="b-rating"><span class="current"></span></div>
    "#, "https://example.test/series/42-show.html").unwrap();
    assert_eq!(details.genre_links[0].url, "/genre/drama/");
    assert_eq!(details.directors_details[0].name, "Director");
    assert_eq!(details.actors_details[0].url, "/person/2/");
    assert_eq!(details.from_collections[0].name, "Saga");
    assert_eq!(details.schedules[0].items[0].id, "w1");
    assert!(details.schedules[0].items[0].is_watched);
    assert!(details.schedules[0].items[0].is_released);
    assert_eq!(details.schedules[0].items[0].release_status.as_deref(), Some("\u{2713}"));
    assert_eq!(details.voice_ratings[0].rating.parse::<f64>().unwrap(), 87.5);
    assert!(details.has_trailer && details.has_posted_rating);
}

#[test]
fn parses_actor_pages() {
    let actor = DetailsScraper::parse_actor_html(
        r#"<div class="b-post__title"><span class="t1">Name</span><span class="t2">Original</span></div><div class="b-sidecover"><img src="photo.jpg"></div><table class="b-post__info"><tr><td>Дата рождения:</td><td>1 Jan</td></tr><tr><td>Карьера:</td><td><a>Actor</a></td></tr></table>"#,
    );
    assert_eq!(actor.name, "Name");
    assert_eq!(actor.careers, vec!["Actor"]);
}

#[test]
fn parses_comment_pages() {
    let comments = DetailsScraper::parse_comments(
        r#"<div class="comments-tree-item" data-id="c1" data-indent="2"><span class="name">User</span><span class="date">оставлен Today</span><div class="text"><div>Hello <b>world</b></div></div><span class="b-comment__like_it" data-likes_num="7"></span></div>"#,
        r#"<div class="b-navigation"><a>1</a><a>3</a><a>Next</a></div>"#,
        1,
    );
    assert_eq!(comments.items[0].text, "Hello world");
    assert_eq!(comments.total_pages, 3);
}

#[test]
fn a_refusal_keeps_the_providers_reason() {
    let reply = read_episodes(r#"{"success":false,"message":"Не удалось найти выбранную озвучку"}"#);

    assert!(matches!(reply, Ok(Episodes::Refused(reason)) if reason == "Не удалось найти выбранную озвучку"));
}

#[test]
fn a_listing_reads_its_seasons() {
    let reply = read_episodes(
        r#"{"success":true,"message":"","seasons":"<li class=\"b-simple_season__item\" data-tab_id=\"1\">Сезон 1</li>","episodes":"<li class=\"b-simple_episode__item\" data-season_id=\"1\" data-episode_id=\"1\">Серия 1</li>"}"#,
    );

    assert!(matches!(reply, Ok(Episodes::Listed(seasons)) if seasons.len() == 1 && seasons[0].episodes.len() == 1));
}
