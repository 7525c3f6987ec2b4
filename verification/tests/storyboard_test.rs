use movo_core::client::storyboard::{cue_time_texts, storyboard_cues, storyboard_lines};

#[test]
fn reads_the_lines_and_cues_of_a_storyboard() {
    let vtt = "WEBVTT\r\n\r\n00:00.000 --> 00:05.000\r\nsprite.jpg#xywh=0,75,150,75\r\n\r\n00:05.000 --> 00:10.000\r\nsprite.jpg\n";
    let lines = storyboard_lines(vtt);
    assert_eq!(
        lines,
        [
            "WEBVTT",
            "",
            "00:00.000 --> 00:05.000",
            "sprite.jpg#xywh=0,75,150,75",
            "",
            "00:05.000 --> 00:10.000",
            "sprite.jpg"
        ]
    );
    assert_eq!(
        cue_time_texts(&lines[2]),
        Some(("00:00.000".to_string(), "00:05.000".to_string()))
    );
    assert_eq!(cue_time_texts(&lines[3]), None);

    let times = vec![None, None, Some((0, 5_000)), None, None, Some((5_000, 10_000)), None];
    let cues = storyboard_cues(&lines, &times, "https://cdn.example.com/sb/thumbs.vtt");
    assert_eq!(cues.len(), 2);
    assert_eq!(cues[0].image_url, "https://cdn.example.com/sb/sprite.jpg");
    assert_eq!((cues[0].x, cues[0].y, cues[0].width, cues[0].height), (0, 75, 150, 75));
    assert_eq!((cues[0].start_ms, cues[0].end_ms), (0, 5_000));
    assert_eq!((cues[1].x, cues[1].y, cues[1].width, cues[1].height), (0, 0, 150, 75));
    assert_eq!(cues[1].start_ms, 5_000);
}

#[test]
fn a_region_skips_what_does_not_read_and_an_unresolvable_image_stays_as_written() {
    let lines = vec!["1 --> 2".to_string(), "tile.png#xywh=1,x,2,3,4".to_string()];
    let cues = storyboard_cues(&lines, &vec![Some((1, 2)), None], "not an address");
    assert_eq!(cues.len(), 1);
    assert_eq!(cues[0].image_url, "tile.png");
    assert_eq!((cues[0].x, cues[0].y, cues[0].width, cues[0].height), (1, 2, 3, 4));
    assert!(storyboard_cues(&lines, &vec![None, Some((1, 2))], "").is_empty());
    assert!(storyboard_lines("").is_empty());
}
