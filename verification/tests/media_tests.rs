use down_on_spot::media::{select_file_format, AudioBitrate, AudioFormat, FileFormat, Quality};

#[test]
fn extension_of_each_format() {
    assert_eq!(AudioFormat::Ogg.extension(), "ogg");
    assert_eq!(AudioFormat::Aac.extension(), "m4a");
    assert_eq!(AudioFormat::Mp3.extension(), "mp3");
    assert_eq!(AudioFormat::Mp4.extension(), "mp4");
    assert_eq!(AudioFormat::Unknown.extension(), "");
}

#[test]
fn audio_format_from_file_format() {
    assert_eq!(AudioFormat::from(FileFormat::OGG_VORBIS_160), AudioFormat::Ogg);
    assert_eq!(AudioFormat::from(FileFormat::MP3_160_ENC), AudioFormat::Mp3);
    assert_eq!(AudioFormat::from(FileFormat::MP4_128_DUAL), AudioFormat::Mp4);
    assert_eq!(AudioFormat::from(FileFormat::AAC_320), AudioFormat::Aac);
    assert_eq!(AudioFormat::from(FileFormat::OTHER3), AudioFormat::Unknown);
    assert_eq!(AudioFormat::from(FileFormat::OTHER5), AudioFormat::Unknown);
}

#[test]
fn fallback_chain_ends_at_96() {
    assert_eq!(Quality::Q320.fallback(), Some(Quality::Q256));
    assert_eq!(Quality::Q256.fallback(), Some(Quality::Q160));
    assert_eq!(Quality::Q160.fallback(), Some(Quality::Q96));
    assert_eq!(Quality::Q96.fallback(), None);
}

#[test]
fn fallback_lowers_bitrate() {
    let mut q = Quality::Q320;
    while let Some(lower) = q.fallback() {
        assert!(lower.kilobitrate() < q.kilobitrate());
        q = lower;
    }
}

#[test]
fn file_formats_of_each_quality() {
    assert_eq!(
        Quality::Q320.get_file_formats(),
        vec![FileFormat::OGG_VORBIS_320, FileFormat::AAC_320, FileFormat::MP3_320]
    );
    assert_eq!(Quality::Q256.get_file_formats(), vec![FileFormat::MP3_256]);
    assert_eq!(
        Quality::Q160.get_file_formats(),
        vec![FileFormat::OGG_VORBIS_160, FileFormat::AAC_160, FileFormat::MP3_160]
    );
    assert_eq!(Quality::Q96.get_file_formats(), vec![FileFormat::OGG_VORBIS_96, FileFormat::MP3_96]);
}

#[test]
fn quality_labels_and_bitrates() {
    assert_eq!(Quality::Q320.to_string(), "320kbps");
    assert_eq!(Quality::Q96.to_string(), "96kbps");
    assert_eq!(Quality::Q256.kilobitrate(), 256);
    assert_eq!(Quality::Q160.kilobitrate(), 160);
}

#[test]
fn select_prefers_first_format_of_quality() {
    let available = vec![FileFormat::MP3_320, FileFormat::OGG_VORBIS_320];
    assert_eq!(select_file_format(Quality::Q320, &available), Some((FileFormat::OGG_VORBIS_320, Quality::Q320)));
}

#[test]
fn select_falls_back_to_lower_quality() {
    let available = vec![FileFormat::OGG_VORBIS_96, FileFormat::OGG_VORBIS_160];
    assert_eq!(select_file_format(Quality::Q320, &available), Some((FileFormat::OGG_VORBIS_160, Quality::Q160)));
}

#[test]
fn select_never_goes_up() {
    let available = vec![FileFormat::OGG_VORBIS_320];
    assert_eq!(select_file_format(Quality::Q160, &available), None);
    assert_eq!(select_file_format(Quality::Q96, &vec![]), None);
}

#[test]
fn bitrate_for_encoder() {
    assert_eq!(AudioBitrate::from_file_format(FileFormat::OGG_VORBIS_160), AudioBitrate::Q160);
    assert_eq!(AudioBitrate::from_file_format(FileFormat::OGG_VORBIS_96), AudioBitrate::Q96);
    assert_eq!(AudioBitrate::from_file_format(FileFormat::MP3_96), AudioBitrate::Q320);
    assert_eq!(AudioBitrate::Q160.kilobitrate(), 160);
    assert_eq!(AudioBitrate::Q320.encoder_quality(), 0);
    assert_eq!(AudioBitrate::Q160.encoder_quality(), 2);
    assert_eq!(AudioBitrate::Q96.encoder_quality(), 5);
}
