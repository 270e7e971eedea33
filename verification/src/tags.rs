//! Metadata tags of downloaded files: ID3 frames for MP3 files and Vorbis
//! comments for Ogg files.
use vstd::prelude::*;
use vstd::string::StringSliceAdditionalSpecFns;
use base64::Engine;
use id3::TagLike;
use oggvorbismeta::VorbisComments;
use crate::config::DownloaderConfig;
use crate::error::SpotifyError;
use crate::template::{copy_strings, fields_view, FieldValues};
use crate::text::{
    all_ascii, ascii_lower, ascii_lower_char, copy_str, decimal, join, joined, pad_left, pad_left_string,
    signed_decimal, signed_decimal_string, unicode_lowercase, zero_padded,
};

verus! {

/// Declaration of `id3::Tag`.
#[verifier::external_type_specification]
#[verifier::external_body]
pub struct ExId3Tag(id3::Tag);

/// Declaration of `id3::Error`.
#[verifier::external_type_specification]
#[verifier::external_body]
pub struct ExId3Error(id3::Error);

/// Declaration of `oggvorbismeta::CommentHeader`.
#[verifier::external_type_specification]
#[verifier::external_body]
pub struct ExCommentHeader(oggvorbismeta::CommentHeader);

/// A metadata field of a track.
#[derive(PartialEq, Eq, Structural, Clone, Copy, Debug)]
pub enum Field {
    Title,
    Artist,
    Album,
    TrackNumber,
    DiscNumber,
    Genre,
    Label,
    AlbumArtist,
}

/// The ID3 frame that holds a field.
pub open spec fn id3_frame_id(f: Field) -> Seq<char> {
    match f {
        Field::Title => "TIT2"@,
        Field::Artist => "TPE1"@,
        Field::Album => "TALB"@,
        Field::TrackNumber => "TRCK"@,
        Field::DiscNumber => "TPOS"@,
        Field::Genre => "TCON"@,
        Field::Label => "TPUB"@,
        Field::AlbumArtist => "TPE2"@,
    }
}

/// The Vorbis comment name of a field.
pub open spec fn vorbis_field_name(f: Field) -> Seq<char> {
    match f {
        Field::Title => "TITLE"@,
        Field::Artist => "ARTIST"@,
        Field::Album => "ALBUM"@,
        Field::TrackNumber => "TRACKNUMBER"@,
        Field::DiscNumber => "DISCNUMBER"@,
        Field::Genre => "GENRE"@,
        Field::Label => "LABEL"@,
        Field::AlbumArtist => "ALBUMARTIST"@,
    }
}

/// Distinct fields are stored under distinct names: each field has its own
/// ID3 frame and its own Vorbis comment name, so writing one field never
/// overwrites or duplicates another.
pub proof fn lemma_field_names_distinct(f: Field, g: Field)
    requires
        f != g,
    ensures
        id3_frame_id(f) != id3_frame_id(g),
        vorbis_field_name(f) != vorbis_field_name(g),
        stored_name(vorbis_field_name(f)) != stored_name(vorbis_field_name(g)),
{
    reveal_strlit("TIT2");
    reveal_strlit("TPE1");
    reveal_strlit("TALB");
    reveal_strlit("TRCK");
    reveal_strlit("TPOS");
    reveal_strlit("TCON");
    reveal_strlit("TPUB");
    reveal_strlit("TPE2");
    reveal_strlit("TITLE");
    reveal_strlit("ARTIST");
    reveal_strlit("ALBUM");
    reveal_strlit("TRACKNUMBER");
    reveal_strlit("DISCNUMBER");
    reveal_strlit("GENRE");
    reveal_strlit("LABEL");
    reveal_strlit("ALBUMARTIST");
    let a = id3_frame_id(f);
    let b = id3_frame_id(g);
    assert(a[1] != b[1] || a[2] != b[2] || a[3] != b[3]);
    let x = vorbis_field_name(f);
    let y = vorbis_field_name(g);
    if x.len() == y.len() {
        assert(x[0] != y[0] || x[1] != y[1] || x[5] != y[5]);
    }
    assert(all_ascii(x) && all_ascii(y));
    let lx = stored_name(x);
    let ly = stored_name(y);
    assert(lx.len() == x.len() && ly.len() == y.len());
    if x.len() == y.len() {
        assert(lx[0] == ascii_lower_char(x[0]) && ly[0] == ascii_lower_char(y[0]));
        assert(lx[0] != ly[0]);
    }
}

impl Field {
    /// The ID3 frame that holds this field.
    pub fn id3_frame_id(&self) -> (r: &'static str)
        ensures
            r@ == id3_frame_id(*self),
            r.spec_bytes().len() == 4,
    {
        proof {
            reveal_strlit("TIT2");
            reveal_strlit("TPE1");
            reveal_strlit("TALB");
            reveal_strlit("TRCK");
            reveal_strlit("TPOS");
            reveal_strlit("TCON");
            reveal_strlit("TPUB");
            reveal_strlit("TPE2");
        }
        let r = match self {
            Field::Title => "TIT2",
            Field::Artist => "TPE1",
            Field::Album => "TALB",
            Field::TrackNumber => "TRCK",
            Field::DiscNumber => "TPOS",
            Field::Genre => "TCON",
            Field::Label => "TPUB",
            Field::AlbumArtist => "TPE2",
        };
        proof {
            vstd::string::is_ascii_spec_bytes(r);
            assert(vstd::string::is_ascii(r));
        }
        r
    }

    /// The Vorbis comment name of this field.
    pub fn vorbis_name(&self) -> (r: &'static str)
        ensures
            r@ == vorbis_field_name(*self),
    {
        match self {
            Field::Title => "TITLE",
            Field::Artist => "ARTIST",
            Field::Album => "ALBUM",
            Field::TrackNumber => "TRACKNUMBER",
            Field::DiscNumber => "DISCNUMBER",
            Field::Genre => "GENRE",
            Field::Label => "LABEL",
            Field::AlbumArtist => "ALBUMARTIST",
        }
    }
}

/// A calendar date: year, month (1 to 12) and day of the month (1 to 31).
#[derive(PartialEq, Eq, Structural, Clone, Copy, Debug)]
pub struct ReleaseDate {
    pub year: i32,
    pub month: u8,
    pub day: u8,
}

// ---------------------------------------------------------------------------
// ID3

/// Model of the content of an ID3 frame. `Unkeyed` stands for the other
/// contents that id3 keeps one of per frame id (involved people lists and MPEG
/// location lookup tables); `Keyed` for the contents that id3 tells apart by a
/// key (`Content::unique`: comments, lyrics, extended texts and links,
/// popularimeters, encapsulated objects, chapters, tables of contents, private
/// frames), with that key; `Other` for unknown contents, which never conflict.
pub enum Id3ContentView {
    Text(Seq<char>),
    Link(Seq<char>),
    Unkeyed,
    Picture { mime: Seq<char>, front_cover: bool, description: Seq<char>, data: Seq<u8> },
    FileIdentifier { owner: Seq<char>, identifier: Seq<u8> },
    Keyed(Seq<Seq<u8>>),
    Other,
}

/// Model of an ID3 frame: its id and its content.
pub struct Id3FrameView {
    pub id: Seq<char>,
    pub content: Id3ContentView,
}

/// The frames of an ID3 tag, in order: each frame's id as text and its content
/// (`Content::Text` as `Text`, `Content::Link` as `Link`, `Content::Picture` as
/// `Picture` with whether its type is `CoverFront`, `Content::UniqueFileIdentifier`
/// as `FileIdentifier`, `InvolvedPeopleList` and `MpegLocationLookupTable` as
/// `Unkeyed`, `Content::Unknown` as `Other`, the rest as `Keyed` with the bytes
/// that `Content::unique` compares).
pub uninterp spec fn id3_frames(tag: id3::Tag) -> Seq<Id3FrameView>;

/// The key by which id3 compares a front cover picture (`PictureType::CoverFront`
/// displayed).
pub open spec fn front_cover_key() -> Seq<u8> {
    vstd::utf8::encode_utf8("Front cover"@)
}

/// Whether adding `new`, a text frame, a front cover or a file identifier (the
/// frames this library adds), replaces the frame `old` (`Frame::compare`; a new
/// frame has no encoding set, so encodings never keep frames apart): the ids are
/// the same, and
/// - for text: for the link ids `WCOM` and `WOAR`, `old` holds no link
///   (links are compared there); for other ids, `old` holds text, a link or an
///   unkeyed content;
/// - for a front cover: `old` is a front cover or has the same key;
/// - for a file identifier: `old` has the same owner, or the same key.
pub open spec fn frame_conflict(old: Id3FrameView, new: Id3FrameView) -> bool {
    &&& old.id == new.id
    &&& match new.content {
        Id3ContentView::Text(_) => if new.id == "WCOM"@ || new.id == "WOAR"@ {
            !(old.content is Link)
        } else {
            old.content is Text || old.content is Link || old.content is Unkeyed
        },
        Id3ContentView::Picture { front_cover, .. } => front_cover && (
            old.content matches Id3ContentView::Picture { front_cover: f, .. } && f
            || old.content == Id3ContentView::Keyed(seq![front_cover_key()])),
        Id3ContentView::FileIdentifier { owner, .. } =>
            old.content matches Id3ContentView::FileIdentifier { owner: o, .. } && o == owner
            || old.content == Id3ContentView::Keyed(seq![vstd::utf8::encode_utf8(owner)]),
        _ => false,
    }
}

/// Index of the first frame at or after `from` that adding `new` replaces.
pub open spec fn first_conflict(frames: Seq<Id3FrameView>, new: Id3FrameView, from: nat) -> Option<int>
    decreases frames.len() - from,
{
    if from >= frames.len() {
        None
    } else if frame_conflict(frames[from as int], new) {
        Some(from as int)
    } else {
        first_conflict(frames, new, from + 1)
    }
}

/// The frames after adding `frame` (`TagLike::add_frame`): the first frame it
/// replaces, if any, is removed, and `frame` goes at the end.
pub open spec fn with_frame(frames: Seq<Id3FrameView>, frame: Id3FrameView) -> Seq<Id3FrameView> {
    match first_conflict(frames, frame, 0) {
        Some(i) => frames.remove(i),
        None => frames,
    }.push(frame)
}

/// The tag of the file at `path` (`Tag::read_from_path`), or `None` when it
/// cannot be read. What it holds depends on the disk.
#[verifier::external_body]
fn read_id3(path: &str) -> (r: Option<id3::Tag>) {
    match id3::Tag::read_from_path(path) {
        Ok(tag) => Some(tag),
        Err(_) => None,
    }
}

/// A tag without frames (`Tag::new`).
#[verifier::external_body]
fn empty_id3_tag() -> (r: id3::Tag)
    ensures
        id3_frames(r) == Seq::<Id3FrameView>::empty(),
{
    id3::Tag::new()
}

/// The ID3v2.3 id that id3 gives an ID3v2.2 frame id, if it knows one
/// (`convert_id_2_to_3`, a fixed table).
pub uninterp spec fn id3_v22_to_v23(id: Seq<char>) -> Option<Seq<char>>;

/// The id of a frame created with the 3-byte (ID3v2.2) id `id`
/// (`Frame::with_content`): its ID3v2.3 form where there is one, else `id`.
pub open spec fn v22_frame_id(id: Seq<char>) -> Seq<char> {
    match id3_v22_to_v23(id) {
        Some(v23) => v23,
        None => id,
    }
}

/// Sets the text frame `id` (`TagLike::set_text`, which is `add_frame` of a
/// text frame). `Frame::with_content` panics on ids that are not 3 or 4 bytes
/// long; a 4-byte id is kept as it is, a 3-byte (ID3v2.2) id is mapped to its
/// ID3v2.3 form where id3 knows one and kept otherwise.
#[verifier::external_body]
fn id3_set_text(tag: &mut id3::Tag, id: &str, text: &str)
    requires
        id.spec_bytes().len() == 3 || id.spec_bytes().len() == 4,
    ensures
        id.spec_bytes().len() == 4 ==> id3_frames(*final(tag)) == with_frame(id3_frames(*old(tag)), Id3FrameView {
            id: id@,
            content: Id3ContentView::Text(text@),
        }),
        id.spec_bytes().len() == 3 ==> id3_frames(*final(tag)) == with_frame(id3_frames(*old(tag)), Id3FrameView {
            id: match id3_v22_to_v23(id@) {
                Some(v23) => v23,
                None => id@,
            },
            content: Id3ContentView::Text(text@),
        }),
{
    tag.set_text(id, text)
}

/// Adds a front cover picture frame `APIC` (`TagLike::add_frame` of a `Picture`
/// with `PictureType::CoverFront`).
#[verifier::external_body]
fn id3_add_front_cover(tag: &mut id3::Tag, mime: &str, description: &str, data: Vec<u8>)
    ensures
        id3_frames(*final(tag)) == with_frame(id3_frames(*old(tag)), Id3FrameView {
            id: "APIC"@,
            content: Id3ContentView::Picture { mime: mime@, front_cover: true, description: description@, data: data@ },
        }),
{
    tag.add_frame(id3::frame::Picture {
        mime_type: mime.to_string(),
        picture_type: id3::frame::PictureType::CoverFront,
        description: description.to_string(),
        data,
    });
}

/// Adds a unique file identifier frame `UFID` (`TagLike::add_frame` of a
/// `UniqueFileIdentifier`).
#[verifier::external_body]
fn id3_add_file_identifier(tag: &mut id3::Tag, owner: &str, identifier: Vec<u8>)
    ensures
        id3_frames(*final(tag)) == with_frame(id3_frames(*old(tag)), Id3FrameView {
            id: "UFID"@,
            content: Id3ContentView::FileIdentifier { owner: owner@, identifier: identifier@ },
        }),
{
    tag.add_frame(id3::frame::UniqueFileIdentifier { owner_identifier: owner.to_string(), identifier });
}

/// The text of an ID3 timestamp with year, month and day (`Timestamp` display:
/// `{:04}` year, then `-{:02}` month and `-{:02}` day).
pub open spec fn timestamp_text(year: i32, month: u8, day: u8) -> Seq<char> {
    zero_padded(year as int, 4) + "-"@ + pad_left(decimal(month as nat), '0', 2) + "-"@ + pad_left(decimal(day as nat), '0', 2)
}

/// The release date frame of a date.
pub open spec fn date_frame(year: i32, month: u8, day: u8) -> Id3FrameView {
    Id3FrameView { id: "TDRL"@, content: Id3ContentView::Text(timestamp_text(year, month, day)) }
}

/// Sets the release date frame `TDRL` to a timestamp with year, month and day
/// (`TagLike::set_date_released`, which sets the timestamp's text with `set_text`).
#[verifier::external_body]
fn id3_set_date_released(tag: &mut id3::Tag, year: i32, month: u8, day: u8)
    ensures
        id3_frames(*final(tag)) == with_frame(id3_frames(*old(tag)), date_frame(year, month, day)),
{
    tag.set_date_released(id3::Timestamp {
        year,
        month: Some(month),
        day: Some(day),
        hour: None,
        minute: None,
        second: None,
    })
}

/// ID3 versions.
#[derive(PartialEq, Eq, Structural, Clone, Copy, Debug)]
pub enum Id3Version {
    Id3v22,
    Id3v23,
    Id3v24,
}

/// Writes a tag into a file (`Tag::write_to_path`): the request holds the tag,
/// the path and the version. Whether it succeeds depends on the disk.
#[verifier::external_body]
fn write_id3(request: (&id3::Tag, &str, Id3Version)) -> (r: Result<(), id3::Error>) {
    let (tag, path, version) = request;
    let v = match version {
        Id3Version::Id3v22 => id3::Version::Id3v22,
        Id3Version::Id3v23 => id3::Version::Id3v23,
        Id3Version::Id3v24 => id3::Version::Id3v24,
    };
    tag.write_to_path(path, v)
}

/// The kind (`ErrorKind` display) and description of an ID3 error. They are
/// fields of the error, which this crate does not model.
#[verifier::external_body]
fn id3_error_texts(e: &id3::Error) -> (r: (String, String)) {
    (e.kind.to_string(), e.description.to_string())
}

/// ID3 tag of an MP3 file.
pub struct ID3Tag {
    path: String,
    tag: id3::Tag,
    separator: String,
    version: Id3Version,
}

impl ID3Tag {
    /// The file path.
    pub closed spec fn path_view(&self) -> Seq<char> {
        self.path@
    }

    /// The frames of the tag.
    pub closed spec fn frames(&self) -> Seq<Id3FrameView> {
        id3_frames(self.tag)
    }

    /// The separator between the values of one field.
    pub closed spec fn separator_view(&self) -> Seq<char> {
        self.separator@
    }

    /// The version in which the tag is written.
    pub closed spec fn version_view(&self) -> Id3Version {
        self.version
    }

    /// Load from path: the tag of the file, or an empty one; written as ID3v2.3
    /// with an empty separator unless changed. Which tag was read depends on
    /// the disk; `from_read` states what becomes of it.
    pub fn open(path: &str) -> (r: Result<ID3Tag, SpotifyError>)
        ensures
            r matches Ok(t) && t.path_view() == path@ && t.separator_view() == Seq::<char>::empty()
                && t.version_view() == Id3Version::Id3v23,
    {
        let read = read_id3(path);
        Ok(ID3Tag::from_read(path, read))
    }

    /// The tag for the file at `path` given what was read from it: the tag
    /// read, or an empty tag when none could be read; ID3v2.3 and an empty
    /// separator.
    pub fn from_read(path: &str, read: Option<id3::Tag>) -> (r: ID3Tag)
        ensures
            r.path_view() == path@,
            r.frames() == match read {
                Some(t) => id3_frames(t),
                None => Seq::<Id3FrameView>::empty(),
            },
            r.separator_view() == Seq::<char>::empty(),
            r.version_view() == Id3Version::Id3v23,
    {
        let tag = match read {
            Some(t) => t,
            None => empty_id3_tag(),
        };
        ID3Tag { path: copy_str(path), tag, separator: String::new(), version: Id3Version::Id3v23 }
    }

    /// Whether to use ID3v2.4 (else ID3v2.3).
    pub fn use_id3_v24(&mut self, v: bool)
        ensures
            final(self).version_view() == (if v { Id3Version::Id3v24 } else { Id3Version::Id3v23 }),
            final(self).frames() == old(self).frames(),
            final(self).path_view() == old(self).path_view(),
            final(self).separator_view() == old(self).separator_view(),
    {
        if v {
            self.version = Id3Version::Id3v24;
        } else {
            self.version = Id3Version::Id3v23;
        }
    }

    /// Sets the separator between the values of one field.
    pub fn set_separator(&mut self, separator: &str)
        ensures
            final(self).separator_view() == separator@,
            final(self).frames() == old(self).frames(),
            final(self).path_view() == old(self).path_view(),
            final(self).version_view() == old(self).version_view(),
    {
        self.separator = copy_str(separator);
    }

    /// Sets text frame `tag` to the values joined with the separator; the
    /// frame id must be 3 or 4 bytes long.
    pub fn set_raw(&mut self, tag: &str, value: Vec<String>)
        requires
            tag.spec_bytes().len() == 3 || tag.spec_bytes().len() == 4,
        ensures
            tag.spec_bytes().len() == 4 ==> final(self).frames() == with_frame(old(self).frames(), Id3FrameView {
                id: tag@,
                content: Id3ContentView::Text(joined(value.deep_view(), old(self).separator_view())),
            }),
            tag.spec_bytes().len() == 3 ==> final(self).frames() == with_frame(old(self).frames(), Id3FrameView {
                id: v22_frame_id(tag@),
                content: Id3ContentView::Text(joined(value.deep_view(), old(self).separator_view())),
            }),
            final(self).path_view() == old(self).path_view(),
            final(self).separator_view() == old(self).separator_view(),
            final(self).version_view() == old(self).version_view(),
    {
        let text = join(&value, self.separator.as_str());
        id3_set_text(&mut self.tag, tag, text.as_str());
    }

    /// Sets the frame of a field to its values joined with the separator.
    pub fn set_field(&mut self, field: Field, value: Vec<String>)
        ensures
            final(self).frames() == with_frame(old(self).frames(), field_frame((field, value.deep_view()), old(self).separator_view())),
            final(self).path_view() == old(self).path_view(),
            final(self).separator_view() == old(self).separator_view(),
            final(self).version_view() == old(self).version_view(),
    {
        let id = field.id3_frame_id();
        self.set_raw(id, value);
    }

    /// What a save hands to the writer: the tag, the file path and the version.
    pub fn write_request(&self) -> (r: (&id3::Tag, &str, Id3Version))
        ensures
            id3_frames(*r.0) == self.frames(),
            r.1@ == self.path_view(),
            r.2 == self.version_view(),
    {
        (&self.tag, self.path.as_str(), self.version)
    }

    /// Writes the tag into the file, in the tag's version. Whether the write
    /// succeeds depends on the disk; a failure is an `ID3Error`.
    pub fn save(&mut self) -> (r: Result<(), SpotifyError>)
        ensures
            r matches Err(e) ==> e is ID3Error,
            final(self).frames() == old(self).frames(),
            final(self).path_view() == old(self).path_view(),
            final(self).separator_view() == old(self).separator_view(),
            final(self).version_view() == old(self).version_view(),
    {
        let request = self.write_request();
        match write_id3(request) {
            Ok(()) => Ok(()),
            Err(e) => {
                let (kind, description) = id3_error_texts(&e);
                Err(SpotifyError::ID3Error(kind, description))
            },
        }
    }

    /// Adds the front cover picture, described as `cover`.
    pub fn add_cover(&mut self, mime: &str, data: Vec<u8>)
        ensures
            final(self).frames() == with_frame(old(self).frames(), Id3FrameView {
                id: "APIC"@,
                content: Id3ContentView::Picture { mime: mime@, front_cover: true, description: "cover"@, data: data@ },
            }),
            final(self).path_view() == old(self).path_view(),
            final(self).separator_view() == old(self).separator_view(),
            final(self).version_view() == old(self).version_view(),
    {
        id3_add_front_cover(&mut self.tag, mime, "cover", data);
    }

    /// Sets the release date frame to the year, month and day of `date`.
    pub fn set_release_date(&mut self, date: ReleaseDate)
        ensures
            final(self).frames() == with_frame(old(self).frames(), date_frame(date.year, date.month, date.day)),
            final(self).path_view() == old(self).path_view(),
            final(self).separator_view() == old(self).separator_view(),
            final(self).version_view() == old(self).version_view(),
    {
        self.set_release_day(date.year, date.month, date.day);
    }

    /// Sets the release date frame to a year, month and day.
    pub fn set_release_day(&mut self, year: i32, month: u8, day: u8)
        ensures
            final(self).frames() == with_frame(old(self).frames(), date_frame(year, month, day)),
            final(self).path_view() == old(self).path_view(),
            final(self).separator_view() == old(self).separator_view(),
            final(self).version_view() == old(self).version_view(),
    {
        id3_set_date_released(&mut self.tag, year, month, day);
    }

    /// Adds a unique file identifier owned by `spotify.com` holding the track id.
    pub fn add_unique_file_identifier(&mut self, track_id: &str)
        ensures
            final(self).frames() == with_frame(old(self).frames(), Id3FrameView {
                id: "UFID"@,
                content: Id3ContentView::FileIdentifier { owner: "spotify.com"@, identifier: track_id.spec_bytes() },
            }),
            final(self).path_view() == old(self).path_view(),
            final(self).separator_view() == old(self).separator_view(),
            final(self).version_view() == old(self).version_view(),
    {
        let bytes = track_id.as_bytes_vec();
        id3_add_file_identifier(&mut self.tag, "spotify.com", bytes);
    }

    /// The tag, for writing elsewhere.
    pub fn tag(&self) -> (r: &id3::Tag)
        ensures
            id3_frames(*r) == self.frames(),
    {
        &self.tag
    }

    /// The file path.
    pub fn path(&self) -> (r: &str)
        ensures
            r@ == self.path_view(),
    {
        self.path.as_str()
    }

    /// The version in which the tag is written.
    pub fn version(&self) -> (r: Id3Version)
        ensures
            r == self.version_view(),
    {
        self.version
    }
}

// ---------------------------------------------------------------------------
// Vorbis comments

/// The comments of a Vorbis comment header, as (name, value) pairs in order.
pub uninterp spec fn vorbis_comments(header: oggvorbismeta::CommentHeader) -> Seq<(Seq<char>, Seq<char>)>;

/// The comment name stored for `tag` (its lowercase, `str::to_lowercase`).
pub open spec fn stored_name(tag: Seq<char>) -> Seq<char> {
    if all_ascii(tag) { ascii_lower(tag) } else { unicode_lowercase(tag) }
}

/// Adds one comment (`VorbisComments::add_tag_single`): the lowercase name and the value.
#[verifier::external_body]
fn vorbis_add_single(header: &mut oggvorbismeta::CommentHeader, tag: &str, value: &str)
    ensures
        vorbis_comments(*final(header)) == vorbis_comments(*old(header)).push((
            if all_ascii(tag@) { ascii_lower(tag@) } else { unicode_lowercase(tag@) },
            value@,
        )),
{
    header.add_tag_single(tag, value)
}

/// Adds one comment per value (`VorbisComments::add_tag_multi`), in order.
#[verifier::external_body]
fn vorbis_add_multi(header: &mut oggvorbismeta::CommentHeader, tag: &str, values: &Vec<&str>)
    ensures
        vorbis_comments(*final(header)) == vorbis_comments(*old(header)) + values@.map_values(|v: &str| (
            if all_ascii(tag@) { ascii_lower(tag@) } else { unicode_lowercase(tag@) },
            v@,
        )),
{
    header.add_tag_multi(tag, values)
}

/// The character of a 6-bit value in the standard Base64 alphabet:
/// `A`-`Z`, `a`-`z`, `0`-`9`, `+`, `/`.
pub open spec fn base64_char(v: int) -> char {
    if v < 26 {
        (65 + v) as char
    } else if v < 52 {
        (97 + (v - 26)) as char
    } else if v < 62 {
        (48 + (v - 52)) as char
    } else if v == 62 {
        '+'
    } else {
        '/'
    }
}

/// Standard Base64 encoding with padding: every three bytes become four
/// characters of six bits each; a last group of one or two bytes is filled with
/// zero bits and `=`.
pub open spec fn base64_standard(d: Seq<u8>) -> Seq<char>
    decreases d.len(),
{
    if d.len() == 0 {
        Seq::empty()
    } else {
        let b0 = d[0] as int;
        let b1 = if d.len() > 1 { d[1] as int } else { 0 };
        let b2 = if d.len() > 2 { d[2] as int } else { 0 };
        let c0 = base64_char(b0 / 4);
        let c1 = base64_char((b0 % 4) * 16 + b1 / 16);
        if d.len() == 1 {
            seq![c0, c1, '=', '=']
        } else if d.len() == 2 {
            seq![c0, c1, base64_char((b1 % 16) * 4), '=']
        } else {
            seq![c0, c1, base64_char((b1 % 16) * 4 + b2 / 64), base64_char(b2 % 64)] + base64_standard(d.skip(3))
        }
    }
}

/// Encodes bytes as standard Base64 with padding (`Engine::encode`).
#[verifier::external_body]
fn encode_base64(data: &Vec<u8>) -> (r: String)
    ensures
        r@ == base64_standard(data@),
{
    base64::engine::general_purpose::STANDARD.encode(data)
}

/// Big-endian bytes of a 32-bit number.
pub open spec fn be32(v: u32) -> Seq<u8> {
    seq![(v >> 24u32) as u8, (v >> 16u32) as u8, (v >> 8u32) as u8, v as u8]
}

/// Appends the big-endian bytes of `v`.
fn push_be32(out: &mut Vec<u8>, v: u32)
    ensures
        final(out)@ == old(out)@ + be32(v),
{
    out.push(#[verifier::truncate] ((v >> 24u32) as u8));
    out.push(#[verifier::truncate] ((v >> 16u32) as u8));
    out.push(#[verifier::truncate] ((v >> 8u32) as u8));
    out.push(#[verifier::truncate] (v as u8));
    proof {
        assert(out@ =~= old(out)@ + be32(v));
    }
}

/// Appends bytes.
fn push_bytes(out: &mut Vec<u8>, data: &Vec<u8>)
    ensures
        final(out)@ == old(out)@ + data@,
{
    let ghost start = out@;
    let mut i: usize = 0;
    while i < data.len()
        invariant
            i <= data@.len(),
            out@ == start + data@.subrange(0, i as int),
        decreases data.len() - i,
    {
        out.push(data[i]);
        i += 1;
        proof {
            assert(out@ =~= start + data@.subrange(0, i as int));
        }
    }
    proof {
        assert(data@.subrange(0, i as int) =~= data@);
    }
}

/// A FLAC picture block for a front cover: picture type 3, the MIME type with
/// its length, an empty description, zero width, height, depth and number of
/// colors, then the image data with its length, all numbers as 32-bit big endian.
pub open spec fn picture_block(mime: Seq<u8>, data: Seq<u8>) -> Seq<u8> {
    be32(3) + be32(mime.len() as u32) + mime + be32(0) + be32(0) + be32(0) + be32(0) + be32(0)
        + be32(data.len() as u32) + data
}

/// The FLAC picture block of a front cover image.
pub fn picture_block_bytes(mime: &str, data: &Vec<u8>) -> (r: Vec<u8>)
    ensures
        r@ == picture_block(mime.spec_bytes(), data@),
{
    let m = mime.as_bytes_vec();
    let mut p: Vec<u8> = Vec::new();
    push_be32(&mut p, 3);
    push_be32(&mut p, #[verifier::truncate] (m.len() as u32));
    push_bytes(&mut p, &m);
    push_be32(&mut p, 0);
    push_be32(&mut p, 0);
    push_be32(&mut p, 0);
    push_be32(&mut p, 0);
    push_be32(&mut p, 0);
    push_be32(&mut p, #[verifier::truncate] (data.len() as u32));
    push_bytes(&mut p, data);
    proof {
        assert(p@ =~= picture_block(mime.spec_bytes(), data@));
    }
    p
}

/// The text of a release date in a Vorbis comment: `year-MM-DD`.
pub open spec fn vorbis_date_text(year: i32, month: u32, day: u32) -> Seq<char> {
    signed_decimal(year as int) + "-"@ + pad_left(decimal(month as nat), '0', 2) + "-"@ + pad_left(decimal(day as nat), '0', 2)
}

/// The text of a release date in a Vorbis comment.
pub fn vorbis_date(year: i32, month: u32, day: u32) -> (r: String)
    ensures
        r@ == vorbis_date_text(year, month, day),
{
    let mut r = signed_decimal_string(year as i64);
    r.append("-");
    let ms = crate::text::decimal_string(month as u64);
    let mp = pad_left_string(ms.as_str(), '0', 2);
    r.append(mp.as_str());
    r.append("-");
    let ds = crate::text::decimal_string(day as u64);
    let dp = pad_left_string(ds.as_str(), '0', 2);
    r.append(dp.as_str());
    r
}

/// Vorbis comments of an Ogg file.
pub struct OggTag {
    path: String,
    tag: oggvorbismeta::CommentHeader,
}

impl OggTag {
    /// A tag for the file at `path` with the comments read from it.
    pub fn new(path: &str, tag: oggvorbismeta::CommentHeader) -> (r: OggTag)
        ensures
            r.path_view() == path@,
            r.comments() == vorbis_comments(tag),
    {
        OggTag { path: copy_str(path), tag }
    }

    /// The file path.
    pub closed spec fn path_view(&self) -> Seq<char> {
        self.path@
    }

    /// The comments of the tag.
    pub closed spec fn comments(&self) -> Seq<(Seq<char>, Seq<char>)> {
        vorbis_comments(self.tag)
    }

    /// Vorbis comments hold one value per comment, so there is no separator.
    pub fn set_separator(&mut self, _separator: &str)
        ensures
            final(self).comments() == old(self).comments(),
            final(self).path_view() == old(self).path_view(),
    {
    }

    /// Adds one comment per value under the name `tag`.
    pub fn set_raw(&mut self, tag: &str, value: Vec<String>)
        ensures
            final(self).comments() == old(self).comments() + value.deep_view().map_values(
                |v: Seq<char>| (stored_name(tag@), v),
            ),
            final(self).path_view() == old(self).path_view(),
    {
        let mut values: Vec<&str> = Vec::new();
        let mut i: usize = 0;
        while i < value.len()
            invariant
                i <= value@.len(),
                values@.len() == i,
                forall|k: int| 0 <= k < i ==> (#[trigger] values@[k])@ == value@[k]@,
            decreases value.len() - i,
        {
            values.push(value[i].as_str());
            i += 1;
        }
        vorbis_add_multi(&mut self.tag, tag, &values);
        proof {
            let added = values@.map_values(|v: &str| (stored_name(tag@), v@));
            let expected = value.deep_view().map_values(|v: Seq<char>| (stored_name(tag@), v));
            assert(added =~= expected) by {
                assert forall|k: int| 0 <= k < added.len() implies added[k] == expected[k] by {
                    assert(value.deep_view()[k] == value@[k]@);
                }
            }
        }
    }

    /// Adds the values of a field.
    pub fn set_field(&mut self, field: Field, value: Vec<String>)
        ensures
            final(self).comments() == old(self).comments() + value.deep_view().map_values(
                |v: Seq<char>| (stored_name(vorbis_field_name(field)), v),
            ),
            final(self).path_view() == old(self).path_view(),
    {
        let name = field.vorbis_name();
        self.set_raw(name, value);
    }

    /// Adds the front cover as a Base64 FLAC picture block.
    pub fn add_cover(&mut self, mime: &str, data: Vec<u8>)
        ensures
            final(self).comments() == old(self).comments().push((
                stored_name("METADATA_BLOCK_PICTURE"@),
                base64_standard(picture_block(mime.spec_bytes(), data@)),
            )),
            final(self).path_view() == old(self).path_view(),
    {
        let block = picture_block_bytes(mime, &data);
        let encoded = encode_base64(&block);
        vorbis_add_single(&mut self.tag, "METADATA_BLOCK_PICTURE", encoded.as_str());
    }

    /// Adds the release date as `year-MM-DD`.
    pub fn set_release_date(&mut self, date: ReleaseDate)
        ensures
            final(self).comments() == old(self).comments().push((stored_name("DATE"@),
                vorbis_date_text(date.year, date.month as u32, date.day as u32))),
            final(self).path_view() == old(self).path_view(),
    {
        self.set_release_day(date.year, date.month as u32, date.day as u32);
    }

    /// Adds a release date given as year, month and day, as `year-MM-DD`.
    pub fn set_release_day(&mut self, year: i32, month: u32, day: u32)
        ensures
            final(self).comments() == old(self).comments().push((stored_name("DATE"@), vorbis_date_text(year, month, day))),
            final(self).path_view() == old(self).path_view(),
    {
        let text = vorbis_date(year, month, day);
        vorbis_add_single(&mut self.tag, "DATE", text.as_str());
    }

    /// Adds the Spotify track id.
    pub fn add_unique_file_identifier(&mut self, track_id: &str)
        ensures
            final(self).comments() == old(self).comments().push((stored_name("SPOTIFY.COM_TRACKID"@), track_id@)),
            final(self).path_view() == old(self).path_view(),
    {
        vorbis_add_single(&mut self.tag, "SPOTIFY.COM_TRACKID", track_id);
    }

    /// The comment header, for writing into the file.
    pub fn tag(&self) -> (r: &oggvorbismeta::CommentHeader)
        ensures
            vorbis_comments(*r) == self.comments(),
    {
        &self.tag
    }

    /// The file path.
    pub fn path(&self) -> (r: &str)
        ensures
            r@ == self.path_view(),
    {
        self.path.as_str()
    }
}

// ---------------------------------------------------------------------------
// Writing all metadata of a track

/// The tag of a downloaded file, by container format.
pub enum TagWrap {
    Id3(ID3Tag),
    Ogg(OggTag),
}

/// The text frame that holds a field's values joined with `sep`.
pub open spec fn field_frame(f: (Field, Seq<Seq<char>>), sep: Seq<char>) -> Id3FrameView {
    Id3FrameView { id: id3_frame_id(f.0), content: Id3ContentView::Text(joined(f.1, sep)) }
}

/// The frames after setting the text frame of each field, in order.
pub open spec fn with_fields(before: Seq<Id3FrameView>, fields: Seq<(Field, Seq<Seq<char>>)>, sep: Seq<char>) -> Seq<Id3FrameView>
    decreases fields.len(),
{
    if fields.len() == 0 {
        before
    } else {
        with_frame(with_fields(before, fields.drop_last(), sep), field_frame(fields.last(), sep))
    }
}

/// The comments that the fields add, in order.
pub open spec fn field_comments(fields: Seq<(Field, Seq<Seq<char>>)>) -> Seq<(Seq<char>, Seq<char>)>
    decreases fields.len(),
{
    if fields.len() == 0 {
        Seq::empty()
    } else {
        field_comments(fields.drop_last()) + fields.last().1.map_values(
            |v: Seq<char>| (stored_name(vorbis_field_name(fields.last().0)), v),
        )
    }
}

/// The ID3 frames after writing the fields, the release date and, if given, the cover.
pub open spec fn id3_written(after: Seq<Id3FrameView>, before: Seq<Id3FrameView>, fields: Seq<(Field, Seq<Seq<char>>)>,
    sep: Seq<char>, date: ReleaseDate, cover: Option<(Seq<char>, Seq<u8>)>) -> bool
{
    let with_date = with_frame(with_fields(before, fields, sep), date_frame(date.year, date.month, date.day));
    match cover {
        None => after == with_date,
        Some((mime, data)) => after == with_frame(with_date, Id3FrameView {
            id: "APIC"@,
            content: Id3ContentView::Picture { mime, front_cover: true, description: "cover"@, data },
        }),
    }
}

/// The Vorbis comments after writing the fields, the release date and, if given, the cover.
pub open spec fn vorbis_written(after: Seq<(Seq<char>, Seq<char>)>, before: Seq<(Seq<char>, Seq<char>)>,
    fields: Seq<(Field, Seq<Seq<char>>)>, date: ReleaseDate, cover: Option<(Seq<u8>, Seq<u8>)>) -> bool
{
    let with_date = before + field_comments(fields)
        + seq![(stored_name("DATE"@), vorbis_date_text(date.year, date.month as u32, date.day as u32))];
    match cover {
        None => after == with_date,
        Some((mime, data)) => after == with_date.push((
            stored_name("METADATA_BLOCK_PICTURE"@),
            base64_standard(picture_block(mime, data)),
        )),
    }
}

/// Model of an optional cover: its MIME type as UTF-8 text and its bytes.
pub open spec fn cover_view(cover: Option<(String, Vec<u8>)>) -> Option<(Seq<char>, Seq<u8>)> {
    match cover {
        Some((m, d)) => Some((m@, d@)),
        None => None,
    }
}

/// Model of an optional cover with the MIME type as UTF-8 bytes.
pub open spec fn cover_bytes(cover: Option<(String, Vec<u8>)>) -> Option<(Seq<u8>, Seq<u8>)> {
    match cover {
        Some((m, d)) => Some((vstd::utf8::encode_utf8(m@), d@)),
        None => None,
    }
}

impl ID3Tag {
    /// Writes the fields, the release date and the cover into the tag.
    fn write_all(&mut self, tags: &Vec<FieldValues>, date: ReleaseDate, cover: Option<(String, Vec<u8>)>)
        ensures
            id3_written(final(self).frames(), old(self).frames(), fields_view(tags@), old(self).separator_view(), date, cover_view(cover)),
            final(self).path_view() == old(self).path_view(),
            final(self).separator_view() == old(self).separator_view(),
            final(self).version_view() == old(self).version_view(),
    {
        let ghost start = self.frames();
        let ghost sep = self.separator_view();
        let ghost fv = fields_view(tags@);
        let mut i: usize = 0;
        proof {
            assert(fv.take(0) =~= Seq::<(Field, Seq<Seq<char>>)>::empty());
        }
        while i < tags.len()
            invariant
                i <= tags@.len(),
                fv == fields_view(tags@),
                fv.len() == tags@.len(),
                self.frames() == with_fields(start, fv.take(i as int), sep),
                self.separator_view() == sep,
                self.path_view() == old(self).path_view(),
                self.version_view() == old(self).version_view(),
            decreases tags.len() - i,
        {
            let field = tags[i].0;
            let values = copy_strings(&tags[i].1);
            self.set_field(field, values);
            proof {
                let next = fv.take(i + 1);
                assert(next.drop_last() =~= fv.take(i as int));
                assert(next.last() == fv[i as int]);
                assert(fv[i as int] == (tags@[i as int].0, tags@[i as int].1.deep_view()));
            }
            i += 1;
        }
        proof {
            assert(fv.take(i as int) =~= fv);
        }
        self.set_release_date(date);
        match cover {
            Some((mime, data)) => {
                self.add_cover(mime.as_str(), data);
            },
            None => {},
        }
    }
}

impl OggTag {
    /// Writes the fields, the release date and the cover into the comments.
    fn write_all(&mut self, tags: &Vec<FieldValues>, date: ReleaseDate, cover: Option<(String, Vec<u8>)>)
        ensures
            vorbis_written(final(self).comments(), old(self).comments(), fields_view(tags@), date, cover_bytes(cover)),
            final(self).path_view() == old(self).path_view(),
    {
        let ghost start = self.comments();
        let ghost fv = fields_view(tags@);
        let mut i: usize = 0;
        proof {
            assert(fv.take(0) =~= Seq::<(Field, Seq<Seq<char>>)>::empty());
            assert(start + field_comments(fv.take(0)) =~= start);
        }
        while i < tags.len()
            invariant
                i <= tags@.len(),
                fv == fields_view(tags@),
                fv.len() == tags@.len(),
                self.comments() == start + field_comments(fv.take(i as int)),
                self.path_view() == old(self).path_view(),
            decreases tags.len() - i,
        {
            let field = tags[i].0;
            let values = copy_strings(&tags[i].1);
            self.set_field(field, values);
            proof {
                let next = fv.take(i + 1);
                assert(next.drop_last() =~= fv.take(i as int));
                assert(next.last() == fv[i as int]);
                assert(fv[i as int] == (tags@[i as int].0, tags@[i as int].1.deep_view()));
                assert(self.comments() =~= start + field_comments(next));
            }
            i += 1;
        }
        proof {
            assert(fv.take(i as int) =~= fv);
        }
        self.set_release_date(date);
        proof {
            assert(self.comments() =~= start + field_comments(fv)
                + seq![(stored_name("DATE"@), vorbis_date_text(date.year, date.month as u32, date.day as u32))]);
        }
        match cover {
            Some((mime, data)) => {
                self.add_cover(mime.as_str(), data);
            },
            None => {},
        }
    }
}

/// Writes the metadata of a track into a tag: for ID3, the version of the
/// settings and their separator between values; then each field, the release
/// date and the cover, if any.
pub fn apply_tags(tag_wrap: &mut TagWrap, tags: Vec<FieldValues>, date: ReleaseDate,
    cover: Option<(String, Vec<u8>)>, config: &DownloaderConfig)
    ensures
        match (*old(tag_wrap), *final(tag_wrap)) {
            (TagWrap::Id3(before), TagWrap::Id3(after)) => {
                &&& after.version_view() == (if config.id3v24 { Id3Version::Id3v24 } else { Id3Version::Id3v23 })
                &&& after.separator_view() == config.separator@
                &&& after.path_view() == before.path_view()
                &&& id3_written(after.frames(), before.frames(), fields_view(tags@), config.separator@, date, cover_view(cover))
            },
            (TagWrap::Ogg(before), TagWrap::Ogg(after)) => {
                &&& after.path_view() == before.path_view()
                &&& vorbis_written(after.comments(), before.comments(), fields_view(tags@), date, cover_bytes(cover))
            },
            _ => false,
        },
{
    match tag_wrap {
        TagWrap::Id3(id3) => {
            id3.use_id3_v24(config.id3v24);
            id3.set_separator(config.separator.as_str());
            id3.write_all(&tags, date, cover);
        },
        TagWrap::Ogg(ogg) => {
            ogg.set_separator(config.separator.as_str());
            ogg.write_all(&tags, date, cover);
        },
    }
}

/// Writes the tag into its file; Ogg files are written by the caller.
pub fn save_id3(tag_wrap: &mut TagWrap) -> (r: Result<(), SpotifyError>)
    ensures
        r matches Err(e) ==> e is ID3Error,
        *old(tag_wrap) is Ogg ==> r is Ok && *final(tag_wrap) == *old(tag_wrap),
        match (*old(tag_wrap), *final(tag_wrap)) {
            (TagWrap::Id3(before), TagWrap::Id3(after)) => {
                &&& after.frames() == before.frames()
                &&& after.path_view() == before.path_view()
                &&& after.separator_view() == before.separator_view()
                &&& after.version_view() == before.version_view()
            },
            (TagWrap::Ogg(_), TagWrap::Ogg(_)) => true,
            _ => false,
        },
{
    match tag_wrap {
        TagWrap::Id3(id3) => id3.save(),
        TagWrap::Ogg(_) => Ok(()),
    }
}

} // verus!
