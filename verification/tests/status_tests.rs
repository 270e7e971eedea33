use down_on_spot::queue::{Download, DownloadState};
use down_on_spot::status::{audio_size, count_states, download_file_name, keep_latest, secs_to_min_sec};

#[test]
fn minutes_and_seconds() {
    assert_eq!(secs_to_min_sec(0), "00m00s");
    assert_eq!(secs_to_min_sec(125), "02m05s");
    assert_eq!(secs_to_min_sec(3600), "60m00s");
    assert_eq!(secs_to_min_sec(-61), "-1m-1s");
    for s in [0, 59, 60, 61, 599, 6000, -5, -600, i32::MAX, i32::MIN] {
        assert_eq!(secs_to_min_sec(s), format!("{:0>2}m{:0>2}s", s / 60, s % 60));
    }
}

fn with_state(state: DownloadState) -> Download {
    Download { id: 0, track_id: String::new(), title: String::new(), subtitle: String::new(), state }
}

#[test]
fn counts_by_state() {
    let v = vec![
        with_state(DownloadState::Queued),
        with_state(DownloadState::Lock),
        with_state(DownloadState::Downloading(1, 2)),
        with_state(DownloadState::Post),
        with_state(DownloadState::Error("x".to_string())),
        with_state(DownloadState::Done),
        with_state(DownloadState::Done),
    ];
    let (c, over) = count_states(&v);
    assert_eq!((c.waiting, c.downloading, c.post_processing, c.errors, c.completed), (2, 1, 1, 1, 2));
    assert_eq!(c.waiting + c.downloading + c.post_processing + c.errors + c.completed, v.len());
    assert!(!over);
    let (_, over) = count_states(&vec![with_state(DownloadState::Done), with_state(DownloadState::Error(String::new()))]);
    assert!(over);
    let (_, over) = count_states(&vec![]);
    assert!(over);
}

#[test]
fn event_log_keeps_latest() {
    let mut m: Vec<String> = (0..11).map(|i| i.to_string()).collect();
    keep_latest(&mut m, 8);
    assert_eq!(m, (3..11).map(|i| i.to_string()).collect::<Vec<_>>());
    let mut m = vec!["a".to_string()];
    keep_latest(&mut m, 8);
    assert_eq!(m, vec!["a".to_string()]);
}

#[test]
fn stream_sizes_and_names() {
    assert_eq!(audio_size(1000, true), 1000 - 0xA7);
    assert_eq!(audio_size(1000, false), 1000);
    assert_eq!(download_file_name("Artist", "Song", true), "Artist - Song.mp3");
    assert_eq!(download_file_name("Artist", "Song", false), "Artist - Song.ogg");
}
