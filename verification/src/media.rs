//! Audio file formats, container formats, bitrates, and the choice of the
//! file to download for a requested quality.
use vstd::prelude::*;
use vstd::std_specs::convert::FromSpecImpl;
use crate::text::copy_str;

verus! {

/// The formats in which Spotify offers an audio file.
#[allow(non_camel_case_types)]
#[derive(PartialEq, Eq, Structural, Clone, Copy, Debug)]
pub enum FileFormat {
    OGG_VORBIS_96,
    OGG_VORBIS_160,
    OGG_VORBIS_320,
    MP3_256,
    MP3_320,
    MP3_160,
    MP3_96,
    MP3_160_ENC,
    MP4_128_DUAL,
    OTHER3,
    AAC_160,
    AAC_320,
    MP4_128,
    OTHER5,
}

/// Container format of a downloaded file.
#[derive(PartialEq, Eq, Structural, Clone, Copy, Debug)]
pub enum AudioFormat {
    Ogg,
    Aac,
    Mp3,
    Mp4,
    Unknown,
}

/// Bitrate of music.
#[derive(PartialEq, Eq, Structural, Clone, Copy, Debug)]
pub enum Quality {
    Q320,
    Q256,
    Q160,
    Q96,
}

/// Bitrate of an Ogg Vorbis stream handed to the MP3 encoder.
#[derive(PartialEq, Eq, Structural, Clone, Copy, Debug)]
pub enum AudioBitrate {
    Q320,
    Q160,
    Q96,
}

/// The container format in which a file format is stored.
pub open spec fn audio_format_of(f: FileFormat) -> AudioFormat {
    match f {
        FileFormat::OGG_VORBIS_96 => AudioFormat::Ogg,
        FileFormat::OGG_VORBIS_160 => AudioFormat::Ogg,
        FileFormat::OGG_VORBIS_320 => AudioFormat::Ogg,
        FileFormat::MP3_256 => AudioFormat::Mp3,
        FileFormat::MP3_320 => AudioFormat::Mp3,
        FileFormat::MP3_160 => AudioFormat::Mp3,
        FileFormat::MP3_96 => AudioFormat::Mp3,
        FileFormat::MP3_160_ENC => AudioFormat::Mp3,
        FileFormat::MP4_128_DUAL => AudioFormat::Mp4,
        FileFormat::OTHER3 => AudioFormat::Unknown,
        FileFormat::AAC_160 => AudioFormat::Aac,
        FileFormat::AAC_320 => AudioFormat::Aac,
        FileFormat::MP4_128 => AudioFormat::Mp4,
        FileFormat::OTHER5 => AudioFormat::Unknown,
    }
}

/// File name extension of a container format.
pub open spec fn extension_of(f: AudioFormat) -> Seq<char> {
    match f {
        AudioFormat::Ogg => "ogg"@,
        AudioFormat::Aac => "m4a"@,
        AudioFormat::Mp3 => "mp3"@,
        AudioFormat::Mp4 => "mp4"@,
        AudioFormat::Unknown => ""@,
    }
}

/// The file formats that make up a quality level, in order of preference.
pub open spec fn formats_of(q: Quality) -> Seq<FileFormat> {
    match q {
        Quality::Q320 => seq![FileFormat::OGG_VORBIS_320, FileFormat::AAC_320, FileFormat::MP3_320],
        Quality::Q256 => seq![FileFormat::MP3_256],
        Quality::Q160 => seq![FileFormat::OGG_VORBIS_160, FileFormat::AAC_160, FileFormat::MP3_160],
        Quality::Q96 => seq![FileFormat::OGG_VORBIS_96, FileFormat::MP3_96],
    }
}

/// The next lower quality level, if any.
pub open spec fn fallback_of(q: Quality) -> Option<Quality> {
    match q {
        Quality::Q320 => Some(Quality::Q256),
        Quality::Q256 => Some(Quality::Q160),
        Quality::Q160 => Some(Quality::Q96),
        Quality::Q96 => None,
    }
}

/// Kilobits per second of a quality level.
pub open spec fn kbps_of(q: Quality) -> int {
    match q {
        Quality::Q320 => 320,
        Quality::Q256 => 256,
        Quality::Q160 => 160,
        Quality::Q96 => 96,
    }
}

/// Number of quality levels below `q`.
pub open spec fn levels_below(q: Quality) -> nat {
    match q {
        Quality::Q320 => 3,
        Quality::Q256 => 2,
        Quality::Q160 => 1,
        Quality::Q96 => 0,
    }
}

/// Display label of a quality level.
pub open spec fn quality_label(q: Quality) -> Seq<char> {
    match q {
        Quality::Q320 => "320kbps"@,
        Quality::Q256 => "256kbps"@,
        Quality::Q160 => "160kbps"@,
        Quality::Q96 => "96kbps"@,
    }
}

/// The first format of `formats` that is in `available`.
pub open spec fn first_available(formats: Seq<FileFormat>, available: Seq<FileFormat>) -> Option<FileFormat>
    decreases formats.len(),
{
    if formats.len() == 0 {
        None
    } else if available.contains(formats[0]) {
        Some(formats[0])
    } else {
        first_available(formats.drop_first(), available)
    }
}

/// The format to download for quality `q`: the first available format of `q`,
/// else of the next lower quality, and so on; paired with the quality it belongs to.
pub open spec fn selection(q: Quality, available: Seq<FileFormat>) -> Option<(FileFormat, Quality)>
    decreases levels_below(q),
{
    match first_available(formats_of(q), available) {
        Some(f) => Some((f, q)),
        None => match fallback_of(q) {
            Some(lower) => selection(lower, available),
            None => None,
        },
    }
}

/// Bitrate of the Ogg stream of a file format (320 for anything that is not Ogg Vorbis).
pub open spec fn bitrate_of(f: FileFormat) -> AudioBitrate {
    match f {
        FileFormat::OGG_VORBIS_320 => AudioBitrate::Q320,
        FileFormat::OGG_VORBIS_160 => AudioBitrate::Q160,
        FileFormat::OGG_VORBIS_96 => AudioBitrate::Q96,
        _ => AudioBitrate::Q320,
    }
}

impl AudioFormat {
    /// Get extension.
    pub fn extension(&self) -> (r: String)
        ensures
            r@ == extension_of(*self),
    {
        match self {
            AudioFormat::Ogg => copy_str("ogg"),
            AudioFormat::Aac => copy_str("m4a"),
            AudioFormat::Mp3 => copy_str("mp3"),
            AudioFormat::Mp4 => copy_str("mp4"),
            AudioFormat::Unknown => copy_str(""),
        }
    }
}

impl From<FileFormat> for AudioFormat {
    fn from(f: FileFormat) -> (r: AudioFormat) {
        match f {
            FileFormat::OGG_VORBIS_96 => AudioFormat::Ogg,
            FileFormat::OGG_VORBIS_160 => AudioFormat::Ogg,
            FileFormat::OGG_VORBIS_320 => AudioFormat::Ogg,
            FileFormat::MP3_256 => AudioFormat::Mp3,
            FileFormat::MP3_320 => AudioFormat::Mp3,
            FileFormat::MP3_160 => AudioFormat::Mp3,
            FileFormat::MP3_96 => AudioFormat::Mp3,
            FileFormat::MP3_160_ENC => AudioFormat::Mp3,
            FileFormat::MP4_128_DUAL => AudioFormat::Mp4,
            FileFormat::OTHER3 => AudioFormat::Unknown,
            FileFormat::AAC_160 => AudioFormat::Aac,
            FileFormat::AAC_320 => AudioFormat::Aac,
            FileFormat::MP4_128 => AudioFormat::Mp4,
            FileFormat::OTHER5 => AudioFormat::Unknown,
        }
    }
}

impl FromSpecImpl<FileFormat> for AudioFormat {
    open spec fn obeys_from_spec() -> bool {
        true
    }

    open spec fn from_spec(f: FileFormat) -> AudioFormat {
        audio_format_of(f)
    }
}

impl Quality {
    /// Get the file formats of this quality, in order of preference.
    pub fn get_file_formats(&self) -> (r: Vec<FileFormat>)
        ensures
            r@ == formats_of(*self),
    {
        let r = match self {
            Quality::Q320 => vec![FileFormat::OGG_VORBIS_320, FileFormat::AAC_320, FileFormat::MP3_320],
            Quality::Q256 => vec![FileFormat::MP3_256],
            Quality::Q160 => vec![FileFormat::OGG_VORBIS_160, FileFormat::AAC_160, FileFormat::MP3_160],
            Quality::Q96 => vec![FileFormat::OGG_VORBIS_96, FileFormat::MP3_96],
        };
        proof {
            assert(r@ =~= formats_of(*self));
        }
        r
    }

    /// Fallback to lower quality.
    pub fn fallback(&self) -> (r: Option<Quality>)
        ensures
            r == fallback_of(*self),
    {
        match self {
            Quality::Q320 => Some(Quality::Q256),
            Quality::Q256 => Some(Quality::Q160),
            Quality::Q160 => Some(Quality::Q96),
            Quality::Q96 => None,
        }
    }

    /// Kilobits per second of this quality, as set on the MP3 encoder.
    pub fn kilobitrate(&self) -> (r: i32)
        ensures
            r == kbps_of(*self),
    {
        match self {
            Quality::Q320 => 320,
            Quality::Q256 => 256,
            Quality::Q160 => 160,
            Quality::Q96 => 96,
        }
    }

    /// Display label, such as `320kbps`.
    pub fn to_string(&self) -> (r: String)
        ensures
            r@ == quality_label(*self),
    {
        match self {
            Quality::Q320 => copy_str("320kbps"),
            Quality::Q256 => copy_str("256kbps"),
            Quality::Q160 => copy_str("160kbps"),
            Quality::Q96 => copy_str("96kbps"),
        }
    }
}

impl AudioBitrate {
    /// Bitrate of the Ogg stream of a file format.
    pub fn from_file_format(f: FileFormat) -> (r: AudioBitrate)
        ensures
            r == bitrate_of(f),
    {
        match f {
            FileFormat::OGG_VORBIS_320 => AudioBitrate::Q320,
            FileFormat::OGG_VORBIS_160 => AudioBitrate::Q160,
            FileFormat::OGG_VORBIS_96 => AudioBitrate::Q96,
            _ => AudioBitrate::Q320,
        }
    }

    /// Kilobits per second for the encoder.
    pub fn kilobitrate(&self) -> (r: i32)
        ensures
            r == (match *self {
                AudioBitrate::Q320 => 320i32,
                AudioBitrate::Q160 => 160i32,
                AudioBitrate::Q96 => 96i32,
            }),
    {
        match self {
            AudioBitrate::Q320 => 320,
            AudioBitrate::Q160 => 160,
            AudioBitrate::Q96 => 96,
        }
    }

    /// Encoder quality setting (0 is best, 9 is worst).
    pub fn encoder_quality(&self) -> (r: u8)
        ensures
            r == (match *self {
                AudioBitrate::Q320 => 0u8,
                AudioBitrate::Q160 => 2u8,
                AudioBitrate::Q96 => 5u8,
            }),
    {
        match self {
            AudioBitrate::Q320 => 0,
            AudioBitrate::Q160 => 2,
            AudioBitrate::Q96 => 5,
        }
    }
}

/// Whether `f` is in `available`.
fn contains_format(available: &Vec<FileFormat>, f: FileFormat) -> (b: bool)
    ensures
        b == available@.contains(f),
{
    let mut i: usize = 0;
    while i < available.len()
        invariant
            i <= available@.len(),
            forall|j: int| 0 <= j < i ==> available@[j] != f,
        decreases available.len() - i,
    {
        if available[i] == f {
            proof {
                assert(available@[i as int] == f);
            }
            return true;
        }
        i += 1;
    }
    false
}

/// The first format of `formats` that is available.
fn first_available_exec(formats: &Vec<FileFormat>, available: &Vec<FileFormat>) -> (r: Option<FileFormat>)
    ensures
        r == first_available(formats@, available@),
{
    let mut i: usize = 0;
    proof {
        assert(formats@.skip(0) =~= formats@);
    }
    while i < formats.len()
        invariant
            i <= formats@.len(),
            first_available(formats@, available@) == first_available(formats@.skip(i as int), available@),
        decreases formats.len() - i,
    {
        let f = formats[i];
        if contains_format(available, f) {
            proof {
                assert(formats@.skip(i as int)[0] == f);
            }
            return Some(f);
        }
        proof {
            assert(formats@.skip(i as int).drop_first() =~= formats@.skip(i + 1));
        }
        i += 1;
    }
    proof {
        assert(formats@.skip(i as int).len() == 0);
    }
    None
}

/// The file format to download at quality `quality`, falling back to lower
/// qualities when none of its formats is available; with the quality used.
pub fn select_file_format(quality: Quality, available: &Vec<FileFormat>) -> (r: Option<(FileFormat, Quality)>)
    ensures
        r == selection(quality, available@),
{
    let mut q = quality;
    loop
        invariant
            selection(quality, available@) == selection(q, available@),
        decreases levels_below(q),
    {
        let formats = q.get_file_formats();
        if let Some(f) = first_available_exec(&formats, available) {
            return Some((f, q));
        }
        match q.fallback() {
            Some(lower) => {
                q = lower;
            },
            None => {
                return None;
            },
        }
    }
}

/// The container of a file format follows its codec family: the Ogg Vorbis
/// formats are Ogg, the MP3 formats MP3, the AAC formats AAC, the MP4 formats
/// MP4, and only the two unnamed formats are unknown. So every format that a
/// quality level offers has a known container and a file name extension.
pub proof fn lemma_container_of_format(f: FileFormat, q: Quality, i: int)
    ensures
        (audio_format_of(f) == AudioFormat::Ogg) <==> (f == FileFormat::OGG_VORBIS_96 || f == FileFormat::OGG_VORBIS_160
            || f == FileFormat::OGG_VORBIS_320),
        (audio_format_of(f) == AudioFormat::Mp3) <==> (f == FileFormat::MP3_96 || f == FileFormat::MP3_160
            || f == FileFormat::MP3_160_ENC || f == FileFormat::MP3_256 || f == FileFormat::MP3_320),
        (audio_format_of(f) == AudioFormat::Aac) <==> (f == FileFormat::AAC_160 || f == FileFormat::AAC_320),
        (audio_format_of(f) == AudioFormat::Mp4) <==> (f == FileFormat::MP4_128 || f == FileFormat::MP4_128_DUAL),
        (audio_format_of(f) == AudioFormat::Unknown) <==> (f == FileFormat::OTHER3 || f == FileFormat::OTHER5),
        0 <= i < formats_of(q).len() ==> audio_format_of(formats_of(q)[i]) != AudioFormat::Unknown
            && extension_of(audio_format_of(formats_of(q)[i])).len() == 3,
{
    reveal_strlit("ogg");
    reveal_strlit("m4a");
    reveal_strlit("mp3");
    reveal_strlit("mp4");
}

/// Falling back always lowers the bitrate.
pub proof fn lemma_fallback_lowers_bitrate(q: Quality)
    ensures
        fallback_of(q) matches Some(lower) ==> kbps_of(lower) < kbps_of(q),
{
}

/// A selected format is available and belongs to the selected quality, which is
/// the requested quality or a lower one.
pub proof fn lemma_selection_sound(q: Quality, available: Seq<FileFormat>)
    ensures
        selection(q, available) matches Some((f, used)) ==> {
            &&& available.contains(f)
            &&& formats_of(used).contains(f)
            &&& kbps_of(used) <= kbps_of(q)
        },
    decreases levels_below(q),
{
    lemma_first_available_sound(formats_of(q), available);
    if first_available(formats_of(q), available) is None {
        if let Some(lower) = fallback_of(q) {
            lemma_selection_sound(lower, available);
        }
    }
}

/// No format is selected only when no format of the requested quality or any
/// lower quality is available.
pub proof fn lemma_selection_complete(q: Quality, available: Seq<FileFormat>, lower: Quality, f: FileFormat)
    requires
        kbps_of(lower) <= kbps_of(q),
        formats_of(lower).contains(f),
        available.contains(f),
    ensures
        selection(q, available) is Some,
    decreases levels_below(q),
{
    if first_available(formats_of(q), available) is None {
        if q == lower {
            lemma_first_available_complete(formats_of(q), available, f);
        } else {
            match fallback_of(q) {
                Some(next) => lemma_selection_complete(next, available, lower, f),
                None => {},
            }
        }
    }
}

/// `first_available` returns an available member of the list.
pub proof fn lemma_first_available_sound(formats: Seq<FileFormat>, available: Seq<FileFormat>)
    ensures
        first_available(formats, available) matches Some(f) ==> available.contains(f) && formats.contains(f),
    decreases formats.len(),
{
    if formats.len() > 0 {
        if !available.contains(formats[0]) {
            lemma_first_available_sound(formats.drop_first(), available);
            if let Some(f) = first_available(formats.drop_first(), available) {
                let k = choose|k: int| 0 <= k < formats.drop_first().len() && formats.drop_first()[k] == f;
                assert(formats[k + 1] == f);
            }
        } else {
            assert(formats[0] == formats[0]);
        }
    }
}

/// `first_available` finds something whenever a member of the list is available.
pub proof fn lemma_first_available_complete(formats: Seq<FileFormat>, available: Seq<FileFormat>, f: FileFormat)
    requires
        formats.contains(f),
        available.contains(f),
    ensures
        first_available(formats, available) is Some,
    decreases formats.len(),
{
    if !available.contains(formats[0]) {
        let k = choose|k: int| 0 <= k < formats.len() && formats[k] == f;
        assert(k != 0);
        assert(formats.drop_first()[k - 1] == f);
        lemma_first_available_complete(formats.drop_first(), available, f);
    }
}

} // verus!
