use base64::Engine;
use movo_core::client::details::page::parse_details_html;
use movo_core::client::models::StreamEntry;
use movo_core::client::stream::{
    clean_quality_label, decrypt_streams, parse_stream_entries, parse_stream_json, parse_subtitles,
    parse_subtitles_with_meta, quality_rank,
};

#[test]
fn test_parse_cleartext_streams() {
    let raw = "[360p]https://cdn.example.com/360.mp4:hls:manifest.m3u8 or https://cdn.example.com/360.mp4,[720p]https://cdn.example.com/720.mp4:hls:manifest.m3u8,[<span class=\"pjs-prem-quality\">1080p Ultra</span>]https://cdn.example.com/1080u.mp4,[<i class=\"pjs-prem-quality\">4K (2160p)</i>]https://cdn.example.com/4k.mp4:hls:manifest.m3u8";
    let entries = parse_stream_entries(raw);

    assert_eq!(entries.len(), 4);
    assert_eq!(entries[0].quality, "4K (2160p)");
    assert!(entries[0].is_premium);
    assert_eq!(entries[0].urls.len(), 1);

    assert_eq!(entries[1].quality, "1080p Ultra");
    assert!(entries[1].is_premium);

    assert_eq!(entries[2].quality, "720p");
    assert!(!entries[2].is_premium);

    assert_eq!(entries[3].quality, "360p");
    assert!(!entries[3].is_premium);
    assert_eq!(entries[3].urls.len(), 2);
    assert_eq!(entries[3].best_url(), Some("https://cdn.example.com/360.mp4:hls:manifest.m3u8"));
}

#[test]
fn test_translator_stream_flags() {
    let html = r#"
        <meta property="og:type" content="video.movie">
        <h1 class="b-post__title">Test</h1>
        <ul id="translators-list">
          <li data-translator_id="77" data-camrip="1" data-ad="0" data-director="1">Voice</li>
        </ul>
    "#;
    let details = parse_details_html(html, "https://example.test/films/123-test.html").unwrap();
    let translator = &details.translators[0];
    assert!(translator.is_camrip);
    assert!(!translator.has_ads);
    assert!(translator.is_director_cut);
}

#[test]
fn test_parse_subtitles() {
    let raw_sub = "[rus]https://cdn.example.com/sub_ru.vtt,[eng]https://cdn.example.com/sub_en.vtt";
    let tracks = parse_subtitles(raw_sub);

    assert_eq!(tracks.len(), 2);
    assert_eq!(tracks[0].code, "rus");
    assert_eq!(tracks[0].url, "https://cdn.example.com/sub_ru.vtt");
    assert_eq!(tracks[1].code, "eng");
    assert_eq!(tracks[1].url, "https://cdn.example.com/sub_en.vtt");
}

#[test]
fn test_parse_subtitles_with_meta_default_and_lns() {
    let raw_sub = "[sub_rus]https://cdn.example.com/ru.vtt,[sub_eng]https://cdn.example.com/en.vtt";
    let lns = vec![
        ("sub_rus".to_string(), "rus".to_string()),
        ("sub_eng".to_string(), "eng".to_string()),
    ];

    let tracks = parse_subtitles_with_meta(raw_sub, "rus", &lns);

    assert_eq!(tracks.len(), 2);
    assert_eq!(tracks[0].code, "sub_rus");
    assert_eq!(tracks[0].language_code.as_deref(), Some("rus"));
    assert!(tracks[0].is_default);

    assert_eq!(tracks[1].code, "sub_eng");
    assert_eq!(tracks[1].language_code.as_deref(), Some("eng"));
    assert!(!tracks[1].is_default);
}

#[test]
fn test_dedupe_by_url_first_wins() {
    let raw = "[720p]https://cdn.example.com/720.mp4,[1080p]https://cdn.example.com/720.mp4";
    let entries = parse_stream_entries(raw);

    assert_eq!(entries.len(), 1);
    assert_eq!(entries[0].quality, "720p");
}

#[test]
fn test_hls_best_url_selection() {
    let entry_both = StreamEntry {
        quality: "1080p".to_string(),
        is_premium: false,
        urls: vec![
            "https://cdn.example.com/stream.m3u8".to_string(),
            "https://cdn.example.com/stream.mp4".to_string(),
        ],
    };
    assert_eq!(
        entry_both.best_url(),
        Some("https://cdn.example.com/stream.m3u8"),
        "best_url must prefer HLS when available"
    );

    let entry_mp4_only = StreamEntry {
        quality: "720p".to_string(),
        is_premium: false,
        urls: vec!["https://cdn.example.com/720.mp4".to_string()],
    };
    assert_eq!(
        entry_mp4_only.best_url(),
        Some("https://cdn.example.com/720.mp4"),
        "best_url should fall back to MP4 when HLS is not available"
    );
}

#[test]
fn test_streams_object_does_not_require_legacy_url() {
    let bundle = parse_stream_json(
        r#"{"success":true,"streams":{"720p":"https://cdn.example.com/video.m3u8"}}"#,
        1,
        2,
        None,
        None,
    )
    .unwrap();

    assert_eq!(bundle.streams[0].best_url(), Some("https://cdn.example.com/video.m3u8"));
}

fn obfuscate(plain: &str, pieces: usize) -> String {
    let engine = base64::engine::general_purpose::STANDARD;
    let encoded = engine.encode(plain).replace('=', "");
    let step = encoded.len().div_ceil(pieces).max(1);
    let runs = ["@@", "#!^", "$$", "^@!", "!!"];

    let mut payload = String::from("#h");
    for (index, piece) in encoded.as_bytes().chunks(step).enumerate() {
        if index > 0 {
            payload.push_str("//_//");
            payload.push_str(&engine.encode(runs[index % runs.len()]));
        }
        payload.push_str(std::str::from_utf8(piece).expect("base64 is ASCII"));
    }
    payload
}

#[test]
fn decodes_a_payload_split_by_noise_runs() {
    let plain = "[1080p]https://cdn.example.org/video/master.m3u8 or https://cdn.example.org/video/1080.mp4";
    for pieces in 1..=8 {
        assert_eq!(decrypt_streams(&obfuscate(plain, pieces)), plain, "failed with {pieces} pieces");
    }
}

#[test]
fn decodes_a_payload_whose_padding_was_dropped() {
    assert_eq!(decrypt_streams("#hYWJjZA"), "abcd");
}

#[test]
fn returns_a_plain_url_untouched() {
    let url = "https://cdn.example.org/video/1080.mp4";
    assert_eq!(decrypt_streams(url), url);
}

#[test]
fn offers_every_stream_on_the_other_cdn_hosts() {
    let entries = parse_stream_entries(
        "[720p]https://prx-ams.ukrtelcdn.net/s/a/720.mp4:hls:manifest.m3u8 or https://prx-ams.ukrtelcdn.net/s/a/720.mp4",
    );

    let urls = &entries[0].urls;
    assert_eq!(
        &urls[..2],
        [
            "https://prx-ams.ukrtelcdn.net/s/a/720.mp4:hls:manifest.m3u8",
            "https://prx-ams.ukrtelcdn.net/s/a/720.mp4",
        ]
    );
    assert_eq!(urls.len(), 2 * 11);
    assert!(urls.contains(&"https://stream.voidboost.cc/s/a/720.mp4:hls:manifest.m3u8".to_string()));
    assert!(urls.contains(&"https://prx-cogent.ukrtelcdn.net/s/a/720.mp4".to_string()));
}

#[test]
fn stream_leaves_urls_on_other_hosts_alone() {
    let entries = parse_stream_entries("[720p]https://cdn.example.com/720.mp4");
    assert_eq!(entries[0].urls, ["https://cdn.example.com/720.mp4"]);
}

#[test]
fn quality_labels_and_ranks() {
    assert_eq!(clean_quality_label("<span class=\"x\">1080p Ultra</span>"), "1080p Ultra");
    assert_eq!(clean_quality_label("2160p"), "4K (2160p)");
    assert_eq!(quality_rank("4K (2160p)"), 60);
    assert_eq!(quality_rank("720p"), 30);
    assert_eq!(quality_rank("audio"), 0);
}

#[test]
fn a_failed_player_reply_keeps_the_providers_message() {
    let reply = parse_stream_json(r#"{"success":false,"message":"Нет доступа"}"#, 1, 2, None, None);
    assert_eq!(reply.unwrap_err(), "Stream request failed: Нет доступа");
    let reply = parse_stream_json("not json", 1, 2, None, None);
    assert!(reply.unwrap_err().starts_with("Failed to parse stream JSON: "));
}
