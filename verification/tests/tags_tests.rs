use base64::Engine;
use down_on_spot::config::DownloaderConfig;
use down_on_spot::error::SpotifyError;
use down_on_spot::tags::{apply_tags, picture_block_bytes, save_id3, vorbis_date, Field, ID3Tag, Id3Version, OggTag, ReleaseDate, TagWrap};
use id3::TagLike;
use oggvorbismeta::VorbisComments;

fn text(tag: &ID3Tag, id: &str) -> Option<String> {
    tag.tag().get(id).and_then(|f| f.content().text()).map(|s| s.to_string())
}

#[test]
fn id3_open_missing_file_gives_empty_tag() {
    let t = ID3Tag::open("/nonexistent/file.mp3").ok().unwrap();
    assert_eq!(t.path(), "/nonexistent/file.mp3");
    assert_eq!(t.version(), Id3Version::Id3v23);
    assert_eq!(t.tag().frames().count(), 0);
}

#[test]
fn id3_version_switch() {
    let mut t = ID3Tag::open("/nonexistent/file.mp3").ok().unwrap();
    t.use_id3_v24(true);
    assert_eq!(t.version(), Id3Version::Id3v24);
    t.use_id3_v24(false);
    assert_eq!(t.version(), Id3Version::Id3v23);
}

#[test]
fn id3_fields_joined_with_separator() {
    let mut t = ID3Tag::open("/nonexistent/file.mp3").ok().unwrap();
    t.set_separator(", ");
    t.set_field(Field::Artist, vec!["A".to_string(), "B".to_string()]);
    t.set_field(Field::Title, vec!["Song".to_string()]);
    t.set_field(Field::Title, vec!["Other".to_string()]);
    assert_eq!(text(&t, "TPE1"), Some("A, B".to_string()));
    assert_eq!(text(&t, "TIT2"), Some("Other".to_string()));
    assert_eq!(t.tag().frames().count(), 2);
}

#[test]
fn id3_frame_ids() {
    assert_eq!(Field::Title.id3_frame_id(), "TIT2");
    assert_eq!(Field::Artist.id3_frame_id(), "TPE1");
    assert_eq!(Field::Album.id3_frame_id(), "TALB");
    assert_eq!(Field::TrackNumber.id3_frame_id(), "TRCK");
    assert_eq!(Field::DiscNumber.id3_frame_id(), "TPOS");
    assert_eq!(Field::Genre.id3_frame_id(), "TCON");
    assert_eq!(Field::Label.id3_frame_id(), "TPUB");
    assert_eq!(Field::AlbumArtist.id3_frame_id(), "TPE2");
    assert_eq!(Field::AlbumArtist.vorbis_name(), "ALBUMARTIST");
    assert_eq!(Field::TrackNumber.vorbis_name(), "TRACKNUMBER");
}

#[test]
fn id3_cover_date_and_identifier() {
    let mut t = ID3Tag::open("/nonexistent/file.mp3").ok().unwrap();
    t.add_cover("image/jpeg", vec![1, 2, 3]);
    t.set_release_date(ReleaseDate { year: 2021, month: 3, day: 5 });
    t.add_unique_file_identifier("abc");
    let pic = t.tag().pictures().next().unwrap().clone();
    assert_eq!(pic.mime_type, "image/jpeg");
    assert_eq!(pic.description, "cover");
    assert_eq!(pic.data, vec![1, 2, 3]);
    assert_eq!(pic.picture_type, id3::frame::PictureType::CoverFront);
    assert_eq!(text(&t, "TDRL"), Some("2021-03-05".to_string()));
    let ufid = t.tag().get("UFID").unwrap().content().unique_file_identifier().unwrap().clone();
    assert_eq!(ufid.owner_identifier, "spotify.com");
    assert_eq!(ufid.identifier, b"abc".to_vec());
}

#[test]
fn id3_save_to_missing_directory_fails() {
    let mut t = ID3Tag::open("/nonexistent/dir/file.mp3").ok().unwrap();
    match t.save() {
        Err(SpotifyError::ID3Error(_, _)) => {},
        other => panic!("unexpected {:?}", other),
    }
}

fn empty_ogg() -> OggTag {
    OggTag::new("song.ogg", <oggvorbismeta::CommentHeader as VorbisComments>::new())
}

#[test]
fn ogg_fields_are_lowercase_comments() {
    let mut t = empty_ogg();
    t.set_separator(", ");
    t.set_field(Field::Artist, vec!["A".to_string(), "B".to_string()]);
    t.add_unique_file_identifier("abc");
    assert_eq!(
        t.tag().comment_list,
        vec![
            ("artist".to_string(), "A".to_string()),
            ("artist".to_string(), "B".to_string()),
            ("spotify.com_trackid".to_string(), "abc".to_string()),
        ]
    );
    assert_eq!(t.path(), "song.ogg");
}

#[test]
fn ogg_date() {
    let mut t = empty_ogg();
    t.set_release_date(ReleaseDate { year: 1999, month: 12, day: 1 });
    assert_eq!(t.tag().comment_list, vec![("date".to_string(), "1999-12-01".to_string())]);
    assert_eq!(vorbis_date(-44, 3, 15), "-44-03-15");
}

#[test]
fn ogg_cover_is_base64_picture_block() {
    let block = picture_block_bytes("image/png", &vec![9, 8]);
    let mut expected: Vec<u8> = vec![0, 0, 0, 3, 0, 0, 0, 9];
    expected.extend(b"image/png");
    expected.extend([0u8; 20]);
    expected.extend([0, 0, 0, 2, 9, 8]);
    assert_eq!(block, expected);
    let mut t = empty_ogg();
    t.add_cover("image/png", vec![9, 8]);
    let encoded = base64::engine::general_purpose::STANDARD.encode(&expected);
    assert_eq!(t.tag().comment_list, vec![("metadata_block_picture".to_string(), encoded)]);
    assert_eq!(
        t.tag().comment_list[0].1,
        "AAAAAwAAAAlpbWFnZS9wbmcAAAAAAAAAAAAAAAAAAAAAAAAAAAAAAAIJCA=="
    );
}

#[test]
fn apply_tags_to_ogg() {
    let mut w = TagWrap::Ogg(empty_ogg());
    let fields = vec![(Field::Title, vec!["T".to_string()]), (Field::Genre, vec![])];
    apply_tags(&mut w, fields, ReleaseDate { year: 2020, month: 1, day: 2 }, None, &DownloaderConfig::new());
    match w {
        TagWrap::Ogg(t) => assert_eq!(
            t.tag().comment_list,
            vec![("title".to_string(), "T".to_string()), ("date".to_string(), "2020-01-02".to_string())]
        ),
        TagWrap::Id3(_) => panic!("variant changed"),
    }
}

#[test]
fn apply_tags_to_id3() {
    let mut w = TagWrap::Id3(ID3Tag::open("/nonexistent/file.mp3").ok().unwrap());
    let fields = vec![(Field::Artist, vec!["A".to_string(), "B".to_string()])];
    let config = DownloaderConfig::new();
    apply_tags(&mut w, fields, ReleaseDate { year: 2020, month: 1, day: 2 }, Some(("image/jpeg".to_string(), vec![1])), &config);
    match w {
        TagWrap::Id3(t) => {
            assert_eq!(t.version(), Id3Version::Id3v24);
            assert_eq!(text(&t, "TPE1"), Some("A, B".to_string()));
            assert_eq!(text(&t, "TDRL"), Some("2020-01-02".to_string()));
            assert_eq!(t.tag().pictures().count(), 1);
        },
        TagWrap::Ogg(_) => panic!("variant changed"),
    }
}

#[test]
fn release_day_texts() {
    let mut t = ID3Tag::open("/nonexistent/file.mp3").ok().unwrap();
    t.set_release_day(-7, 1, 2);
    assert_eq!(text(&t, "TDRL"), Some("-007-01-02".to_string()));
    t.set_release_day(987, 11, 30);
    assert_eq!(text(&t, "TDRL"), Some("0987-11-30".to_string()));
    let mut o = empty_ogg();
    o.set_release_day(987, 11, 30);
    assert_eq!(o.tag().comment_list, vec![("date".to_string(), "987-11-30".to_string())]);
}

#[test]
fn id3_text_frame_is_replaced_once() {
    let mut t = ID3Tag::open("/nonexistent/file.mp3").ok().unwrap();
    t.set_release_day(2001, 1, 1);
    t.set_field(Field::Title, vec!["A".to_string()]);
    t.set_release_date(ReleaseDate { year: 2002, month: 2, day: 2 });
    let ids: Vec<String> = t.tag().frames().map(|f| f.id().to_string()).collect();
    assert_eq!(ids, vec!["TIT2".to_string(), "TDRL".to_string()]);
    assert_eq!(text(&t, "TDRL"), Some("2002-02-02".to_string()));
}

#[test]
fn id3_write_request_and_save() {
    let mut t = ID3Tag::open("/nonexistent/dir/file.mp3").ok().unwrap();
    t.use_id3_v24(true);
    t.set_field(Field::Album, vec!["X".to_string()]);
    let (tag, path, version) = t.write_request();
    assert_eq!(path, "/nonexistent/dir/file.mp3");
    assert_eq!(version, Id3Version::Id3v24);
    assert_eq!(tag.frames().count(), 1);
    let mut w = TagWrap::Id3(t);
    assert!(matches!(save_id3(&mut w), Err(SpotifyError::ID3Error(_, _))));
    let mut o = TagWrap::Ogg(empty_ogg());
    assert!(save_id3(&mut o).is_ok());
}

#[test]
fn id3_from_read() {
    let mut read = id3::Tag::new();
    read.set_title("Kept");
    let t = ID3Tag::from_read("a.mp3", Some(read));
    assert_eq!(text(&t, "TIT2"), Some("Kept".to_string()));
    assert_eq!(t.version(), Id3Version::Id3v23);
    let e = ID3Tag::from_read("b.mp3", None);
    assert_eq!(e.tag().frames().count(), 0);
    assert_eq!(e.path(), "b.mp3");
}

#[test]
fn id3_cover_and_identifier_replaced() {
    let mut t = ID3Tag::open("/nonexistent/file.mp3").ok().unwrap();
    t.add_cover("image/jpeg", vec![1]);
    t.add_unique_file_identifier("a");
    t.add_cover("image/png", vec![2]);
    t.add_unique_file_identifier("b");
    assert_eq!(t.tag().pictures().count(), 1);
    assert_eq!(t.tag().pictures().next().unwrap().data, vec![2]);
    let ids: Vec<String> = t.tag().frames().map(|f| f.id().to_string()).collect();
    assert_eq!(ids, vec!["APIC".to_string(), "UFID".to_string()]);
}
