use movo_core::client::cdn::{claim_check, move_origin_first, probe_candidates, record_check, reorder_streams, with_mirrors, Health, CHECK_INTERVAL_MS};
use movo_core::client::models::StreamEntry;

#[test]
fn checks_again_only_once_the_last_check_is_old() {
    let now: u64 = 5_000_000;
    let mut health = Health::default();
    assert!(claim_check(&mut health, now));
    assert!(!claim_check(&mut health, now), "a check is running");

    health.checking = false;
    health.checked = Some(now);
    assert!(!claim_check(&mut health, now + CHECK_INTERVAL_MS / 2));
    assert!(claim_check(&mut health, now + CHECK_INTERVAL_MS));
}

#[test]
fn offers_a_url_on_every_other_known_host() {
    let urls = with_mirrors(vec![
        "https://prx-ams.ukrtelcdn.net/s/a/720.mp4:hls:manifest.m3u8".to_string(),
        "https://prx-ams.ukrtelcdn.net/s/a/720.mp4".to_string(),
    ]);

    assert_eq!(
        &urls[..2],
        [
            "https://prx-ams.ukrtelcdn.net/s/a/720.mp4:hls:manifest.m3u8",
            "https://prx-ams.ukrtelcdn.net/s/a/720.mp4",
        ]
    );
    assert_eq!(urls.len(), 2 * 11);
    assert!(urls.contains(&"https://stream.voidboost.cc/s/a/720.mp4:hls:manifest.m3u8".to_string()));
    assert!(urls.contains(&"https://prx-cogent.ukrtelcdn.net/s/a/720.mp4".to_string()));
}

#[test]
fn cdn_leaves_urls_on_other_hosts_alone() {
    let urls = with_mirrors(vec!["https://cdn.example.com/720.mp4".to_string()]);
    assert_eq!(urls, ["https://cdn.example.com/720.mp4"]);
}

#[test]
fn a_recorded_check_waits_a_full_interval() {
    let mut health = Health::default();
    assert!(claim_check(&mut health, 1_000));
    record_check(
        &mut health,
        &vec![
            ("https://a.example".to_string(), None),
            ("https://b.example".to_string(), Some(20_000_000u128)),
        ],
        2_000,
    );
    assert!(!health.checking);
    assert_eq!(health.checked, Some(2_000));
    assert_eq!(health.down, vec!["https://a.example".to_string()]);
    assert!(!claim_check(&mut health, 2_000 + CHECK_INTERVAL_MS - 1));
    assert!(claim_check(&mut health, 2_000 + CHECK_INTERVAL_MS));
}

fn entry(quality: &str, premium: bool, urls: &[&str]) -> StreamEntry {
    StreamEntry {
        quality: quality.to_string(),
        is_premium: premium,
        urls: urls.iter().map(|u| u.to_string()).collect(),
    }
}

#[test]
fn probes_one_address_per_host_of_a_free_stream() {
    let streams = vec![
        entry("1080p Ultra", true, &["https://p.example/1080.mp4", "https://q.example/1080.mp4"]),
        entry("360p", false, &["https://only.example/360.mp4"]),
        entry(
            "720p",
            false,
            &[
                "https://a.example/720.mp4",
                "https://a.example/720.mp4:hls:manifest.m3u8",
                "https://b.example:8443/720.mp4",
            ],
        ),
    ];
    assert_eq!(
        probe_candidates(&streams),
        ["https://a.example/720.mp4", "https://b.example:8443/720.mp4"]
    );

    let premium_only = vec![entry("1080p Ultra", true, &["https://p.example/1.mp4", "https://q.example/1.mp4"])];
    assert_eq!(
        probe_candidates(&premium_only),
        ["https://p.example/1.mp4", "https://q.example/1.mp4"]
    );
    assert!(probe_candidates(&vec![entry("360p", false, &["https://only.example/360.mp4"])]).is_empty());
}

#[test]
fn the_chosen_host_leads_and_down_hosts_trail() {
    let mut health = Health::default();
    health.down = vec!["https://slow.example".to_string()];
    health.latency = vec![
        ("https://b.example".to_string(), 30),
        ("https://c.example".to_string(), 10),
    ];
    let mut streams = vec![entry(
        "720p",
        false,
        &[
            "https://slow.example/720.mp4",
            "https://b.example/720.mp4",
            "https://c.example/720.mp4",
            "https://chosen.example/720.mp4",
        ],
    )];
    reorder_streams(&mut streams, "https://chosen.example", &health);
    assert_eq!(
        streams[0].urls,
        [
            "https://chosen.example/720.mp4",
            "https://c.example/720.mp4",
            "https://b.example/720.mp4",
            "https://slow.example/720.mp4",
        ]
    );
    assert_eq!(streams[0].quality, "720p");
}

#[test]
fn the_first_address_on_a_host_moves_to_the_front() {
    let mut streams = vec![entry(
        "720p",
        false,
        &["https://a.example/1.mp4", "https://b.example/1.mp4", "https://b.example/2.mp4"],
    )];
    move_origin_first(&mut streams, "https://b.example");
    assert_eq!(
        streams[0].urls,
        ["https://b.example/1.mp4", "https://a.example/1.mp4", "https://b.example/2.mp4"]
    );
    move_origin_first(&mut streams, "https://none.example");
    assert_eq!(
        streams[0].urls,
        ["https://b.example/1.mp4", "https://a.example/1.mp4", "https://b.example/2.mp4"]
    );
}
