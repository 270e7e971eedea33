//! The settings and errors of the MP3 encoder that converts downloaded Ogg
//! Vorbis audio, and the decisions of the conversion's read loop.
use vstd::prelude::*;
use crate::error::{DownOnSpotError, DownOnSpotErrorView, SpotifyError};
use crate::media::{AudioBitrate, AudioFormat, Quality, kbps_of};
use crate::text::copy_str;

verus! {

/// A step of setting up the MP3 encoder.
#[derive(PartialEq, Eq, Structural, Clone, Copy, Debug)]
pub enum EncoderStep {
    Channels,
    Quality,
    Bitrate,
    SampleRate,
    Init,
}

/// The name of a setup step, as reported when the encoder refuses it.
pub open spec fn step_name(s: EncoderStep) -> Seq<char> {
    match s {
        EncoderStep::Channels => "Channels"@,
        EncoderStep::Quality => "Quality"@,
        EncoderStep::Bitrate => "Bitrate"@,
        EncoderStep::SampleRate => "Sample rate"@,
        EncoderStep::Init => "Init"@,
    }
}

impl EncoderStep {
    /// The converter error, as a `SpotifyError`, when the encoder refuses this step.
    pub fn error(&self) -> (e: SpotifyError)
        ensures
            e matches SpotifyError::LameConverterError(s) && s@ == step_name(*self),
    {
        let name = match self {
            EncoderStep::Channels => copy_str("Channels"),
            EncoderStep::Quality => copy_str("Quality"),
            EncoderStep::Bitrate => copy_str("Bitrate"),
            EncoderStep::SampleRate => copy_str("Sample rate"),
            EncoderStep::Init => copy_str("Init"),
        };
        SpotifyError::LameConverterError(name)
    }

    /// The encoder error, as a `DownOnSpotError`, when the encoder refuses this step.
    pub fn encoder_error(&self) -> (e: DownOnSpotError)
        ensures
            e@ == DownOnSpotErrorView::EncoderError(step_name(*self)),
    {
        let name = match self {
            EncoderStep::Channels => copy_str("Channels"),
            EncoderStep::Quality => copy_str("Quality"),
            EncoderStep::Bitrate => copy_str("Bitrate"),
            EncoderStep::SampleRate => copy_str("Sample rate"),
            EncoderStep::Init => copy_str("Init"),
        };
        DownOnSpotError::EncoderError(name)
    }
}

/// What is set on the MP3 encoder before it gets the sample rate.
#[derive(Debug)]
pub struct EncoderSettings {
    pub channels: u8,
    pub quality: u8,
    pub kilobitrate: i32,
}

/// Encoder settings for a quality: two channels, best encoding quality (0),
/// and the quality's bitrate.
pub fn encoder_settings(quality: Quality) -> (r: EncoderSettings)
    ensures
        r.channels == 2,
        r.quality == 0,
        r.kilobitrate == kbps_of(quality),
{
    EncoderSettings { channels: 2, quality: 0, kilobitrate: quality.kilobitrate() }
}

/// Encoder settings for the bitrate of an Ogg stream: its bitrate and the
/// matching encoding quality.
pub fn bitrate_settings(bitrate: AudioBitrate) -> (r: (i32, u8))
    ensures
        r == (match bitrate {
            AudioBitrate::Q320 => (320i32, 0u8),
            AudioBitrate::Q160 => (160i32, 2u8),
            AudioBitrate::Q96 => (96i32, 5u8),
        }),
{
    (bitrate.kilobitrate(), bitrate.encoder_quality())
}

/// Whether audio of a format can be converted to MP3: Ogg can, the formats
/// other than AAC and MP3 cannot.
pub fn check_convertible(format: AudioFormat) -> (r: Result<(), SpotifyError>)
    requires
        format != AudioFormat::Aac,
        format != AudioFormat::Mp3,
    ensures
        r is Ok <==> format == AudioFormat::Ogg,
        r matches Err(e) ==> e is InvalidFormat,
{
    match format {
        AudioFormat::Ogg => Ok(()),
        _ => Err(SpotifyError::InvalidFormat),
    }
}

/// What the decoder produced when asked for the next packet.
#[derive(PartialEq, Eq, Structural, Clone, Copy, Debug)]
pub enum PacketOutcome {
    /// Decoded samples; `empty` when the packet holds none.
    Samples { empty: bool },
    /// The stream has ended.
    EndOfStream,
    /// The stream could not be decoded further.
    DecodeError,
}

/// What the converter does with a packet.
#[derive(PartialEq, Eq, Structural, Clone, Copy, Debug)]
pub enum ReadAction {
    /// Ask the decoder for the next packet.
    ReadNext,
    /// Encode the samples.
    Encode,
    /// Report the end of the converted stream.
    EndOfFile,
}

/// The action for a packet: empty packets are skipped, samples are encoded,
/// and the end of the stream or a decoding error ends the converted stream.
pub open spec fn read_action(p: PacketOutcome) -> ReadAction {
    match p {
        PacketOutcome::Samples { empty } => if empty { ReadAction::ReadNext } else { ReadAction::Encode },
        PacketOutcome::EndOfStream => ReadAction::EndOfFile,
        PacketOutcome::DecodeError => ReadAction::EndOfFile,
    }
}

/// Decides what to do with a packet, and marks the encoder finished when the
/// stream ends.
pub fn on_packet(lame_end: &mut bool, p: PacketOutcome) -> (a: ReadAction)
    ensures
        a == read_action(p),
        *final(lame_end) == (*old(lame_end) || a == ReadAction::EndOfFile),
{
    match p {
        PacketOutcome::Samples { empty } => if empty { ReadAction::ReadNext } else { ReadAction::Encode },
        PacketOutcome::EndOfStream => {
            if !*lame_end {
                *lame_end = true;
            }
            ReadAction::EndOfFile
        },
        PacketOutcome::DecodeError => {
            if !*lame_end {
                *lame_end = true;
            }
            ReadAction::EndOfFile
        },
    }
}

/// The number of bytes to hand out after encoding: none yet when the encoder
/// produced nothing (the next packet must be read), else all of them.
pub fn after_encode(size: usize) -> (r: Option<usize>)
    ensures
        r == if size == 0 { None::<usize> } else { Some(size) },
{
    if size == 0 { None } else { Some(size) }
}

} // verus!
