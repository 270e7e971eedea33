use down_on_spot::media::FileFormat;
use down_on_spot::queue::{Download, DownloadState};
use down_on_spot::tags::Field;
use down_on_spot::template::{
    audio_file_path, check_not_downloaded, render_template, sanitize_names, tag_fields, template_tags, SearchResult, TrackMetadata,
    TrackSummary,
};

fn track() -> TrackMetadata {
    TrackMetadata {
        name: "What's Up?".to_string(),
        artists: vec!["AC/DC".to_string(), "Guest".to_string()],
        track_number: 3,
        disc_number: 12,
        album_name: "Live: 1991".to_string(),
        album_artists: vec!["AC/DC".to_string()],
    }
}

#[test]
fn names_are_sanitized() {
    let n = sanitize_names(&track());
    assert_eq!(n.title, "What's Up");
    assert_eq!(n.artist, "ACDC");
    assert_eq!(n.artists, "ACDC, Guest");
    assert_eq!(n.album, "Live 1991");
    assert_eq!(n.album_artist, "ACDC");
    assert_eq!(n.album_artists, "ACDC");
}

#[test]
fn template_tags_in_order() {
    let t = track();
    let n = sanitize_names(&t);
    let tags = template_tags(&n, &t, "4uLU6hMCjMI75M1A2tKUQC");
    let keys: Vec<&str> = tags.iter().map(|(k, _)| k.as_str()).collect();
    assert_eq!(
        keys,
        vec![
            "%title%", "%artist%", "%artists%", "%track%", "%0track%", "%disc%", "%0disc%", "%id%", "%album%",
            "%albumArtist%", "%albumArtists%"
        ]
    );
    assert!(tags.iter().all(|(k, _)| !k.is_empty() && k.contains('%')));
    assert_eq!(tags[3].1, "3");
    assert_eq!(tags[4].1, "03");
    assert_eq!(tags[5].1, "12");
    assert_eq!(tags[6].1, "12");
    assert_eq!(tags[7].1, "4uLU6hMCjMI75M1A2tKUQC");
}

#[test]
fn default_file_name_template() {
    let t = track();
    let n = sanitize_names(&t);
    let tags = template_tags(&n, &t, "id");
    assert_eq!(render_template("%artist% - %title%", &tags), "ACDC - What's Up");
    assert_eq!(
        render_template("%albumArtists%/%album%/%0disc%-%0track% %artists%", &tags),
        "ACDC/Live 1991/12-03 ACDC, Guest"
    );
    assert_eq!(render_template("downloads", &tags), "downloads");
    assert_eq!(render_template("%unknown% %id%", &tags), "%unknown% id");
}

#[test]
fn file_path_extension() {
    assert_eq!(audio_file_path("dir/A - B", false, FileFormat::OGG_VORBIS_320), "dir/A - B.ogg");
    assert_eq!(audio_file_path("dir/A - B", true, FileFormat::OGG_VORBIS_320), "dir/A - B.mp3");
    assert_eq!(audio_file_path("x", false, FileFormat::AAC_160), "x.m4a");
    assert_eq!(audio_file_path("x", false, FileFormat::OTHER5), "x.");
}

#[test]
fn tag_fields_of_track() {
    let fields = tag_fields(&track(), &vec!["rock".to_string(), "metal".to_string()], "Columbia");
    assert_eq!(fields.len(), 8);
    assert_eq!(fields[0], (Field::Title, vec!["What's Up?".to_string()]));
    assert_eq!(fields[2], (Field::Artist, vec!["AC/DC".to_string(), "Guest".to_string()]));
    assert_eq!(fields[4], (Field::TrackNumber, vec!["3".to_string()]));
    assert_eq!(fields[5], (Field::DiscNumber, vec!["12".to_string()]));
    assert_eq!(fields[6], (Field::Genre, vec!["rock".to_string(), "metal".to_string()]));
    assert_eq!(fields[7], (Field::Label, vec!["Columbia".to_string()]));
}

#[test]
fn download_and_search_result_from_track() {
    let s = TrackSummary { id: Some("abc".to_string()), name: "Song".to_string(), artists: vec![] };
    let d = Download::from_track(s);
    assert_eq!(d.id, 0);
    assert_eq!(d.track_id, "abc");
    assert_eq!(d.title, "Song");
    assert_eq!(d.subtitle, "");
    assert_eq!(d.state, DownloadState::Queued);
    let s = TrackSummary {
        id: Some("abc".to_string()),
        name: "Song".to_string(),
        artists: vec!["First".to_string(), "Second".to_string()],
    };
    let r = SearchResult::from_track(s);
    assert_eq!((r.track_id.as_str(), r.author.as_str(), r.title.as_str()), ("abc", "First", "Song"));
}

#[test]
fn existing_files_are_skipped() {
    assert!(check_not_downloaded(true, false).is_ok());
    assert!(check_not_downloaded(false, true).is_ok());
    match check_not_downloaded(true, true) {
        Err(down_on_spot::error::SpotifyError::AlreadyDownloaded) => {},
        other => panic!("unexpected {:?}", other),
    }
}

#[test]
fn sanitized_names_edge_cases() {
    let long = "é".repeat(200);
    let t = TrackMetadata {
        name: "...".to_string(),
        artists: vec![],
        track_number: 1,
        disc_number: 1,
        album_name: long.clone(),
        album_artists: vec!["a\u{1}b".to_string(), "c".to_string()],
    };
    let n = sanitize_names(&t);
    assert_eq!(n.title, "");
    assert_eq!(n.artist, "");
    assert_eq!(n.artists, "");
    assert_eq!(n.album, "é".repeat(127));
    assert_eq!(n.album_artist, "ab");
    assert_eq!(n.album_artists, "ab, c");
}
