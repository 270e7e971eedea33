//! Track metadata, and the file names built from it with `%placeholder%`
//! templates.
use vstd::prelude::*;
use crate::media::{audio_format_of, extension_of, AudioFormat, FileFormat};
use crate::queue::{Download, DownloadState, DownloadStateView, DownloadView};
use crate::tags::Field;
use crate::error::SpotifyError;
use crate::text::{ascii_lower, copy_str, decimal, decimal_string, has_prefix, join, joined, lemma_replace_absent, occurs_at, pad_left, pad_left_string, replace_all, replaced};

verus! {

/// Metadata of a track, as the Spotify Web API reports it.
#[derive(Debug)]
pub struct TrackMetadata {
    pub name: String,
    pub artists: Vec<String>,
    pub track_number: usize,
    pub disc_number: usize,
    pub album_name: String,
    pub album_artists: Vec<String>,
}

/// A track as found by a search or listed in an album, playlist or artist.
#[derive(Debug)]
pub struct TrackSummary {
    pub id: Option<String>,
    pub name: String,
    pub artists: Vec<String>,
}

/// A search hit offered to the user.
#[derive(Debug, Clone)]
pub struct SearchResult {
    pub track_id: String,
    pub author: String,
    pub title: String,
}

/// The first element of a list of names, or the empty text.
pub open spec fn first_or_empty(names: Seq<Seq<char>>) -> Seq<char> {
    if names.len() > 0 { names[0] } else { Seq::empty() }
}

/// Whether a character may not appear in a sanitized file name: a path or
/// shell special character, or a control character.
pub open spec fn unsafe_file_char(c: char) -> bool {
    ||| c == '/' || c == '?' || c == '<' || c == '>' || c == '\\'
    ||| c == ':' || c == '*' || c == '|' || c == '"'
    ||| (c as u32) <= 0x1f
    ||| 0x80 <= (c as u32) && (c as u32) <= 0x9f
}

/// The characters of `name` that may stay in a file name, in order.
pub open spec fn safe_chars(name: Seq<char>) -> Seq<char> {
    name.filter(|c: char| !unsafe_file_char(c))
}

/// Whether a text is made of dots only (and is not empty).
pub open spec fn dots_only(s: Seq<char>) -> bool {
    s.len() > 0 && forall|i: int| 0 <= i < s.len() ==> s[i] == '.'
}

/// The number of bytes that a character takes in UTF-8.
pub open spec fn utf8_width(c: char) -> nat {
    if (c as u32) < 0x80 { 1 } else if (c as u32) < 0x800 { 2 } else if (c as u32) < 0x10000 { 3 } else { 4 }
}

/// The longest prefix of `s` whose UTF-8 encoding takes at most `limit` bytes.
pub open spec fn cut_to_bytes(s: Seq<char>, limit: nat) -> Seq<char>
    decreases s.len(),
{
    if s.len() == 0 || utf8_width(s[0]) > limit {
        Seq::empty()
    } else {
        seq![s[0]].add(cut_to_bytes(s.drop_first(), (limit - utf8_width(s[0])) as nat))
    }
}

/// The length of the Windows device name (`con`, `prn`, `aux`, `nul`, `com0`
/// to `com9`, `lpt0` to `lpt9`, in any case) that `s` starts with, or 0.
pub open spec fn device_stem_len(s: Seq<char>) -> nat {
    let l = ascii_lower(s);
    if has_prefix(l, "con"@) || has_prefix(l, "prn"@) || has_prefix(l, "aux"@) || has_prefix(l, "nul"@) {
        3
    } else if (has_prefix(l, "com"@) || has_prefix(l, "lpt"@)) && l.len() > 3 && '0' <= l[3] && l[3] <= '9' {
        4
    } else {
        0
    }
}

/// Whether `s` is a Windows device name, alone or followed by an extension.
pub open spec fn device_name(s: Seq<char>) -> bool {
    let n = device_stem_len(s);
    n > 0 && (s.len() == n || s[n as int] == '.')
}

/// The sanitized file name of `name` where device names are allowed: the unsafe
/// characters dropped, a name of dots only emptied, and the rest cut to 255 bytes.
pub open spec fn sanitized_text(name: Seq<char>) -> Seq<char> {
    let k = safe_chars(name);
    if dots_only(k) { Seq::empty() } else { cut_to_bytes(k, 255) }
}

/// Whether `out` is the sanitized file name of `name`: `sanitized_text(name)`,
/// or, on Windows, the empty text where the safe characters form a device name.
pub open spec fn sanitized_from(out: Seq<char>, name: Seq<char>) -> bool {
    ||| out == sanitized_text(name)
    ||| (device_name(safe_chars(name)) && out.len() == 0)
}

/// File-name-safe version of `name` (`sanitize_filename::sanitize`): the
/// characters `/ ? < > \ : * | "` and the control characters are removed, a
/// name of dots only becomes empty, and the result is cut to at most 255
/// bytes at a character boundary. On Windows a device name such as `con` or
/// `lpt1.txt` becomes empty too; elsewhere it is kept, so the contract admits
/// both outcomes for such a name.
#[verifier::external_body]
fn sanitize(name: &str) -> (r: String)
    ensures
        sanitized_from(r@, name@),
{
    sanitize_filename::sanitize(name)
}

/// The sanitized names that file name templates use.
#[derive(Debug)]
pub struct SanitizedNames {
    pub title: String,
    pub artist: String,
    pub artists: String,
    pub album: String,
    pub album_artist: String,
    pub album_artists: String,
}

/// Whether `n` holds sanitized versions of the names of `t`: title, first artist,
/// all artists joined by `, `, album, first album artist, all album artists.
pub open spec fn sanitized_names_of(n: SanitizedNames, t: TrackMetadata) -> bool {
    &&& sanitized_from(n.title@, t.name@)
    &&& sanitized_from(n.artist@, first_or_empty(t.artists.deep_view()))
    &&& sanitized_from(n.artists@, joined(t.artists.deep_view(), ", "@))
    &&& sanitized_from(n.album@, t.album_name@)
    &&& sanitized_from(n.album_artist@, first_or_empty(t.album_artists.deep_view()))
    &&& sanitized_from(n.album_artists@, joined(t.album_artists.deep_view(), ", "@))
}

/// The first of a list of names, or an empty string.
fn first_or_empty_exec(names: &Vec<String>) -> (r: String)
    ensures
        r@ == first_or_empty(names.deep_view()),
{
    if names.len() > 0 {
        names[0].clone()
    } else {
        String::new()
    }
}

/// Sanitizes the names of a track for use in file names.
pub fn sanitize_names(t: &TrackMetadata) -> (n: SanitizedNames)
    ensures
        sanitized_names_of(n, *t),
{
    let artist = first_or_empty_exec(&t.artists);
    let artists = join(&t.artists, ", ");
    let album_artist = first_or_empty_exec(&t.album_artists);
    let album_artists = join(&t.album_artists, ", ");
    SanitizedNames {
        title: sanitize(t.name.as_str()),
        artist: sanitize(artist.as_str()),
        artists: sanitize(artists.as_str()),
        album: sanitize(t.album_name.as_str()),
        album_artist: sanitize(album_artist.as_str()),
        album_artists: sanitize(album_artists.as_str()),
    }
}

/// A placeholder and the text that replaces it.
pub type TemplateTag = (String, String);

/// The models of a list of template tags.
pub open spec fn tags_view(v: Seq<TemplateTag>) -> Seq<(Seq<char>, Seq<char>)> {
    v.map_values(|t: TemplateTag| (t.0@, t.1@))
}

/// Two-digit zero-padded decimal notation (`{:02}`).
pub open spec fn two_digits(n: nat) -> Seq<char> {
    pad_left(decimal(n), '0', 2)
}

/// The template placeholders of a track and their values, in the order in
/// which they are substituted.
pub open spec fn template_tags_spec(n: SanitizedNames, t: TrackMetadata, track_id: Seq<char>) -> Seq<(Seq<char>, Seq<char>)> {
    seq![
        ("%title%"@, n.title@),
        ("%artist%"@, n.artist@),
        ("%artists%"@, n.artists@),
        ("%track%"@, decimal(t.track_number as nat)),
        ("%0track%"@, two_digits(t.track_number as nat)),
        ("%disc%"@, decimal(t.disc_number as nat)),
        ("%0disc%"@, two_digits(t.disc_number as nat)),
        ("%id%"@, track_id),
        ("%album%"@, n.album@),
        ("%albumArtist%"@, n.album_artist@),
        ("%albumArtists%"@, n.album_artists@),
    ]
}

/// Two-digit zero-padded decimal notation of `n`.
fn two_digit_string(n: usize) -> (r: String)
    ensures
        r@ == two_digits(n as nat),
{
    let d = decimal_string(n as u64);
    pad_left_string(d.as_str(), '0', 2)
}

/// The template placeholders of a track and their values.
pub fn template_tags(n: &SanitizedNames, t: &TrackMetadata, track_id: &str) -> (r: Vec<TemplateTag>)
    ensures
        tags_view(r@) == template_tags_spec(*n, *t, track_id@),
{
    let mut r: Vec<TemplateTag> = Vec::new();
    r.push((copy_str("%title%"), n.title.clone()));
    r.push((copy_str("%artist%"), n.artist.clone()));
    r.push((copy_str("%artists%"), n.artists.clone()));
    r.push((copy_str("%track%"), decimal_string(t.track_number as u64)));
    r.push((copy_str("%0track%"), two_digit_string(t.track_number)));
    r.push((copy_str("%disc%"), decimal_string(t.disc_number as u64)));
    r.push((copy_str("%0disc%"), two_digit_string(t.disc_number)));
    r.push((copy_str("%id%"), copy_str(track_id)));
    r.push((copy_str("%album%"), n.album.clone()));
    r.push((copy_str("%albumArtist%"), n.album_artist.clone()));
    r.push((copy_str("%albumArtists%"), n.album_artists.clone()));
    proof {
        assert(tags_view(r@) =~= template_tags_spec(*n, *t, track_id@));
    }
    r
}

/// What each placeholder of a track stands for, given the track's sanitized
/// names: `%title%`, `%album%` and the artist placeholders the sanitized title,
/// album name, first artist, all artists, first album artist and all album
/// artists of the track; `%track%` and `%disc%` the numbers, `%0track%` and
/// `%0disc%` the numbers with two digits at least; `%id%` the track id. Every
/// one of these eleven placeholders is among the tags.
pub proof fn lemma_template_tag_values(n: SanitizedNames, t: TrackMetadata, track_id: Seq<char>)
    requires
        sanitized_names_of(n, t),
    ensures
        forall|i: int| 0 <= i < template_tags_spec(n, t, track_id).len() ==> {
            let k = (#[trigger] template_tags_spec(n, t, track_id)[i]).0;
            let v = template_tags_spec(n, t, track_id)[i].1;
            &&& k == "%title%"@ ==> sanitized_from(v, t.name@)
            &&& k == "%artist%"@ ==> sanitized_from(v, first_or_empty(t.artists.deep_view()))
            &&& k == "%artists%"@ ==> sanitized_from(v, joined(t.artists.deep_view(), ", "@))
            &&& k == "%album%"@ ==> sanitized_from(v, t.album_name@)
            &&& k == "%albumArtist%"@ ==> sanitized_from(v, first_or_empty(t.album_artists.deep_view()))
            &&& k == "%albumArtists%"@ ==> sanitized_from(v, joined(t.album_artists.deep_view(), ", "@))
            &&& k == "%track%"@ ==> v == decimal(t.track_number as nat)
            &&& k == "%0track%"@ ==> v == pad_left(decimal(t.track_number as nat), '0', 2)
            &&& k == "%disc%"@ ==> v == decimal(t.disc_number as nat)
            &&& k == "%0disc%"@ ==> v == pad_left(decimal(t.disc_number as nat), '0', 2)
            &&& k == "%id%"@ ==> v == track_id
        },
        forall|k: Seq<char>| #![trigger placeholder_listed(template_tags_spec(n, t, track_id), k)]
            k == "%title%"@ || k == "%artist%"@ || k == "%artists%"@ || k == "%track%"@ || k == "%0track%"@
            || k == "%disc%"@ || k == "%0disc%"@ || k == "%id%"@ || k == "%album%"@ || k == "%albumArtist%"@
            || k == "%albumArtists%"@ ==> placeholder_listed(template_tags_spec(n, t, track_id), k),
{
    reveal_strlit("%title%");
    reveal_strlit("%artist%");
    reveal_strlit("%artists%");
    reveal_strlit("%track%");
    reveal_strlit("%0track%");
    reveal_strlit("%disc%");
    reveal_strlit("%0disc%");
    reveal_strlit("%id%");
    reveal_strlit("%album%");
    reveal_strlit("%albumArtist%");
    reveal_strlit("%albumArtists%");
    let tags = template_tags_spec(n, t, track_id);
    let lits = seq!["%title%"@, "%artist%"@, "%artists%"@, "%track%"@, "%0track%"@, "%disc%"@, "%0disc%"@,
        "%id%"@, "%album%"@, "%albumArtist%"@, "%albumArtists%"@];
    assert forall|a: int, b: int| 0 <= a < 11 && 0 <= b < 11 && a != b implies #[trigger] lits[a] != #[trigger] lits[b] by {
        if lits[a].len() == lits[b].len() {
            assert(lits[a][1] != lits[b][1] || lits[a][2] != lits[b][2] || lits[a][3] != lits[b][3] || lits[a][7] != lits[b][7]);
        }
    }
    assert forall|i: int| 0 <= i < 11 implies #[trigger] tags[i].0 == lits[i] by {}
    assert(tags.len() == 11);
    assert forall|k: Seq<char>| k == "%title%"@ || k == "%artist%"@ || k == "%artists%"@ || k == "%track%"@
        || k == "%0track%"@ || k == "%disc%"@ || k == "%0disc%"@ || k == "%id%"@ || k == "%album%"@
        || k == "%albumArtist%"@ || k == "%albumArtists%"@ implies #[trigger] placeholder_listed(tags, k) by {
        if k == "%title%"@ { assert(tags[0].0 == k); }
        else if k == "%artist%"@ { assert(tags[1].0 == k); }
        else if k == "%artists%"@ { assert(tags[2].0 == k); }
        else if k == "%track%"@ { assert(tags[3].0 == k); }
        else if k == "%0track%"@ { assert(tags[4].0 == k); }
        else if k == "%disc%"@ { assert(tags[5].0 == k); }
        else if k == "%0disc%"@ { assert(tags[6].0 == k); }
        else if k == "%id%"@ { assert(tags[7].0 == k); }
        else if k == "%album%"@ { assert(tags[8].0 == k); }
        else if k == "%albumArtist%"@ { assert(tags[9].0 == k); }
        else { assert(tags[10].0 == k); }
    }
}

/// Whether some tag has the placeholder `k`.
pub open spec fn placeholder_listed(tags: Seq<(Seq<char>, Seq<char>)>, k: Seq<char>) -> bool {
    exists|i: int| 0 <= i < tags.len() && tags[i].0 == k
}

/// `template` with each placeholder of `tags`, in order, replaced by its value.
pub open spec fn rendered(template: Seq<char>, tags: Seq<(Seq<char>, Seq<char>)>) -> Seq<char>
    decreases tags.len(),
{
    if tags.len() == 0 {
        template
    } else {
        rendered(replaced(template, tags[0].0, tags[0].1), tags.drop_first())
    }
}

/// `template` with each placeholder of `tags`, in order, replaced by its value
/// (`str::replace` for every tag).
pub fn render_template(template: &str, tags: &Vec<TemplateTag>) -> (r: String)
    requires
        forall|i: int| 0 <= i < tags@.len() ==> (#[trigger] tags@[i]).0@.len() > 0,
    ensures
        r@ == rendered(template@, tags_view(tags@)),
{
    let mut out = copy_str(template);
    let mut i: usize = 0;
    let ghost tv = tags_view(tags@);
    proof {
        assert(tv.skip(0) =~= tv);
    }
    while i < tags.len()
        invariant
            i <= tags@.len(),
            tv == tags_view(tags@),
            forall|i: int| 0 <= i < tags@.len() ==> (#[trigger] tags@[i]).0@.len() > 0,
            rendered(template@, tv) == rendered(out@, tv.skip(i as int)),
        decreases tags.len() - i,
    {
        let ghost before = out@;
        let pat = tags[i].0.as_str();
        let rep = tags[i].1.as_str();
        proof {
            assert(tags@[i as int].0@.len() > 0);
        }
        out = replace_all(out.as_str(), pat, rep);
        proof {
            let rest = tv.skip(i as int);
            assert(rest[0] == tv[i as int]);
            assert(rest.drop_first() =~= tv.skip(i + 1));
        }
        i += 1;
    }
    proof {
        assert(tv.skip(i as int) =~= Seq::<(Seq<char>, Seq<char>)>::empty());
    }
    out
}

/// Whether the character `c` occurs in `s`.
pub open spec fn has_char(s: Seq<char>, c: char) -> bool {
    exists|i: int| 0 <= i < s.len() && s[i] == c
}

/// A template without `%` is left as it is, since every placeholder holds `%`.
pub proof fn lemma_plain_template_unchanged(template: Seq<char>, tags: Seq<(Seq<char>, Seq<char>)>)
    requires
        !has_char(template, '%'),
        forall|i: int| 0 <= i < tags.len() ==> (#[trigger] tags[i]).0.len() > 0 && has_char(tags[i].0, '%'),
    ensures
        rendered(template, tags) == template,
    decreases tags.len(),
{
    if tags.len() > 0 {
        let pat = tags[0].0;
        assert(tags[0].0.len() > 0 && has_char(tags[0].0, '%'));
        assert forall|j: int| 0 <= j implies !occurs_at(template, pat, j) by {
            if occurs_at(template, pat, j) {
                let k = choose|k: int| 0 <= k < pat.len() && pat[k] == '%';
                assert(template.subrange(j, j + pat.len())[k] == '%');
                assert(template[j + k] == '%');
            }
        }
        lemma_replace_absent(template, pat, tags[0].1, 0);
        assert(template.subrange(0, template.len() as int) =~= template);
        assert forall|i: int| 0 <= i < tags.drop_first().len() implies
            (#[trigger] tags.drop_first()[i]).0.len() > 0 && has_char(tags.drop_first()[i].0, '%') by {
            assert(tags.drop_first()[i] == tags[i + 1]);
        }
        lemma_plain_template_unchanged(template, tags.drop_first());
    }
}

/// Every placeholder of a track's template tags is non-empty and holds `%`.
pub proof fn lemma_template_tags_marked(n: SanitizedNames, t: TrackMetadata, track_id: Seq<char>)
    ensures
        forall|i: int| 0 <= i < template_tags_spec(n, t, track_id).len() ==>
            (#[trigger] template_tags_spec(n, t, track_id)[i]).0.len() > 0
            && has_char(template_tags_spec(n, t, track_id)[i].0, '%'),
{
    reveal_strlit("%title%");
    reveal_strlit("%artist%");
    reveal_strlit("%artists%");
    reveal_strlit("%track%");
    reveal_strlit("%0track%");
    reveal_strlit("%disc%");
    reveal_strlit("%0disc%");
    reveal_strlit("%id%");
    reveal_strlit("%album%");
    reveal_strlit("%albumArtist%");
    reveal_strlit("%albumArtists%");
    let tags = template_tags_spec(n, t, track_id);
    assert forall|i: int| 0 <= i < tags.len() implies
        (#[trigger] tags[i]).0.len() > 0 && has_char(tags[i].0, '%') by {
        assert(tags[i].0[0] == '%');
    }
}

/// The path of the downloaded file: the template path with the extension of
/// the file (`mp3` when it is converted).
pub open spec fn audio_file_path_spec(base: Seq<char>, convert_to_mp3: bool, format: FileFormat) -> Seq<char> {
    base + "."@ + if convert_to_mp3 { "mp3"@ } else { extension_of(audio_format_of(format)) }
}

/// The path of the downloaded file: `base` followed by `.` and the extension.
pub fn audio_file_path(base: &str, convert_to_mp3: bool, format: FileFormat) -> (r: String)
    ensures
        r@ == audio_file_path_spec(base@, convert_to_mp3, format),
{
    let mut r = copy_str(base);
    r.append(".");
    if convert_to_mp3 {
        r.append("mp3");
    } else {
        let af: AudioFormat = AudioFormat::from(format);
        let ext = af.extension();
        r.append(ext.as_str());
    }
    r
}

/// A field with its values.
pub type FieldValues = (Field, Vec<String>);

/// The models of a list of fields with their values.
pub open spec fn fields_view(v: Seq<FieldValues>) -> Seq<(Field, Seq<Seq<char>>)> {
    v.map_values(|e: FieldValues| (e.0, e.1.deep_view()))
}

/// The metadata fields written into a file: title, album, artists, album
/// artists, track number, disc number, genres and label.
pub open spec fn tag_fields_spec(t: TrackMetadata, genres: Seq<Seq<char>>, label: Seq<char>) -> Seq<(Field, Seq<Seq<char>>)> {
    seq![
        (Field::Title, seq![t.name@]),
        (Field::Album, seq![t.album_name@]),
        (Field::Artist, t.artists.deep_view()),
        (Field::AlbumArtist, t.album_artists.deep_view()),
        (Field::TrackNumber, seq![decimal(t.track_number as nat)]),
        (Field::DiscNumber, seq![decimal(t.disc_number as nat)]),
        (Field::Genre, genres),
        (Field::Label, seq![label]),
    ]
}

/// A copy of a list of strings.
pub fn copy_strings(v: &Vec<String>) -> (r: Vec<String>)
    ensures
        r.deep_view() == v.deep_view(),
{
    let mut r: Vec<String> = Vec::new();
    let mut i: usize = 0;
    while i < v.len()
        invariant
            i <= v@.len(),
            r@.len() == i,
            forall|k: int| 0 <= k < i ==> (#[trigger] r@[k])@ == v@[k]@,
        decreases v.len() - i,
    {
        let x = v[i].clone();
        r.push(x);
        i += 1;
    }
    proof {
        assert forall|k: int| 0 <= k < r@.len() implies r.deep_view()[k] == v.deep_view()[k] by {
            assert(r.deep_view()[k] == r@[k]@);
            assert(v.deep_view()[k] == v@[k]@);
        }
        assert(r.deep_view() =~= v.deep_view());
    }
    r
}

/// One string as a list.
fn single(s: String) -> (r: Vec<String>)
    ensures
        r.deep_view() == seq![s@],
{
    let mut r: Vec<String> = Vec::new();
    r.push(s);
    proof {
        assert(r.deep_view() =~= seq![s@]);
    }
    r
}

/// The metadata fields of a track to write into its file.
pub fn tag_fields(t: &TrackMetadata, genres: &Vec<String>, label: &str) -> (r: Vec<FieldValues>)
    ensures
        fields_view(r@) == tag_fields_spec(*t, genres.deep_view(), label@),
{
    let mut r: Vec<FieldValues> = Vec::new();
    r.push((Field::Title, single(t.name.clone())));
    r.push((Field::Album, single(t.album_name.clone())));
    r.push((Field::Artist, copy_strings(&t.artists)));
    r.push((Field::AlbumArtist, copy_strings(&t.album_artists)));
    r.push((Field::TrackNumber, single(decimal_string(t.track_number as u64))));
    r.push((Field::DiscNumber, single(decimal_string(t.disc_number as u64))));
    r.push((Field::Genre, copy_strings(genres)));
    r.push((Field::Label, single(copy_str(label))));
    proof {
        assert(fields_view(r@) =~= tag_fields_spec(*t, genres.deep_view(), label@));
    }
    r
}

/// Refuses a download whose file exists when existing files are skipped.
pub fn check_not_downloaded(skip_existing: bool, file_exists: bool) -> (r: Result<(), SpotifyError>)
    ensures
        r is Err <==> skip_existing && file_exists,
        r matches Err(e) ==> e is AlreadyDownloaded,
{
    if skip_existing && file_exists {
        Err(SpotifyError::AlreadyDownloaded)
    } else {
        Ok(())
    }
}

/// The queue entry for a track: no id yet, its name, its first artist.
pub open spec fn download_of(t: TrackSummary) -> DownloadView {
    DownloadView {
        id: 0,
        track_id: t.id.unwrap()@,
        title: t.name@,
        subtitle: first_or_empty(t.artists.deep_view()),
        state: DownloadStateView::Queued,
    }
}

impl Download {
    /// The queue entry for a track; the track must have an id.
    pub fn from_track(t: TrackSummary) -> (r: Download)
        requires
            t.id is Some,
        ensures
            r@ == download_of(t),
    {
        let subtitle = first_or_empty_exec(&t.artists);
        let track_id = match t.id {
            Some(id) => id,
            None => String::new(),
        };
        Download { id: 0, track_id, title: t.name, subtitle, state: DownloadState::Queued }
    }
}

impl SearchResult {
    /// The search hit for a track; the track must have an id and an artist.
    pub fn from_track(t: TrackSummary) -> (r: SearchResult)
        requires
            t.id is Some,
            t.artists@.len() > 0,
        ensures
            r.track_id@ == t.id.unwrap()@,
            r.author@ == t.artists@[0]@,
            r.title@ == t.name@,
    {
        let author = t.artists[0].clone();
        let track_id = match t.id {
            Some(id) => id,
            None => String::new(),
        };
        SearchResult { track_id, author, title: t.name }
    }
}

} // verus!
