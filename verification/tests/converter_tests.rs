use down_on_spot::converter::{
    after_encode, bitrate_settings, check_convertible, encoder_settings, on_packet, EncoderStep, PacketOutcome,
    ReadAction,
};
use down_on_spot::error::{DownOnSpotError, SpotifyError};
use down_on_spot::media::{AudioBitrate, AudioFormat, Quality};

#[test]
fn encoder_settings_per_quality() {
    for (q, kbps) in [(Quality::Q320, 320), (Quality::Q256, 256), (Quality::Q160, 160), (Quality::Q96, 96)] {
        let s = encoder_settings(q);
        assert_eq!((s.channels, s.quality, s.kilobitrate), (2, 0, kbps));
    }
    assert_eq!(bitrate_settings(AudioBitrate::Q320), (320, 0));
    assert_eq!(bitrate_settings(AudioBitrate::Q160), (160, 2));
    assert_eq!(bitrate_settings(AudioBitrate::Q96), (96, 5));
}

#[test]
fn encoder_step_errors() {
    assert_eq!(EncoderStep::Channels.error().to_string(), "Lame error: Channels");
    assert_eq!(EncoderStep::Quality.error().to_string(), "Lame error: Quality");
    assert_eq!(EncoderStep::Bitrate.error().to_string(), "Lame error: Bitrate");
    assert_eq!(EncoderStep::SampleRate.error().to_string(), "Lame error: Sample rate");
    assert_eq!(EncoderStep::Init.error().to_string(), "Lame error: Init");
    match EncoderStep::Bitrate.encoder_error() {
        DownOnSpotError::EncoderError(s) => assert_eq!(s, "Bitrate"),
        other => panic!("unexpected {:?}", other),
    }
}

#[test]
fn only_ogg_converts() {
    assert!(check_convertible(AudioFormat::Ogg).is_ok());
    assert!(matches!(check_convertible(AudioFormat::Mp4), Err(SpotifyError::InvalidFormat)));
    assert!(matches!(check_convertible(AudioFormat::Unknown), Err(SpotifyError::InvalidFormat)));
}

#[test]
fn read_loop_decisions() {
    let mut end = false;
    assert_eq!(on_packet(&mut end, PacketOutcome::Samples { empty: true }), ReadAction::ReadNext);
    assert_eq!(on_packet(&mut end, PacketOutcome::Samples { empty: false }), ReadAction::Encode);
    assert!(!end);
    assert_eq!(on_packet(&mut end, PacketOutcome::DecodeError), ReadAction::EndOfFile);
    assert!(end);
    assert_eq!(on_packet(&mut end, PacketOutcome::EndOfStream), ReadAction::EndOfFile);
    assert!(end);
    assert_eq!(after_encode(0), None);
    assert_eq!(after_encode(417), Some(417));
}
