//! Resolving user input (an `open.spotify.com` URL or a `spotify:` URI) to the
//! type and id of a Spotify item.
use vstd::prelude::*;
use crate::error::{DownOnSpotError, DownOnSpotErrorView, UrlParseError};
use crate::text::{
    all_ascii, ascii_lower, copy_str, ends_with, has_prefix, has_suffix, replace_all, replaced,
    split, split_on, strip_prefix, to_lowercase, unicode_lowercase,
};

verus! {

/// The error of parsing `input` as a URL, if it is not one (`url::Url::parse`).
pub uninterp spec fn url_parse_error(input: Seq<char>) -> Option<UrlParseError>;

/// The domain of the URL `input` (`url::Url::domain`).
pub uninterp spec fn url_domain(input: Seq<char>) -> Option<Seq<char>>;

/// The path of the URL `input` (`url::Url::path`).
pub uninterp spec fn url_path(input: Seq<char>) -> Seq<char>;

/// The parts of a parsed URL that identify a Spotify item.
pub struct UrlParts {
    pub domain: Option<String>,
    pub path: String,
}

/// The model of an optional string.
pub open spec fn opt_view(o: Option<String>) -> Option<Seq<char>> {
    match o {
        Some(s) => Some(s@),
        None => None,
    }
}

/// Declaration of `url::ParseError`.
#[verifier::external_type_specification]
#[verifier::external_body]
pub struct ExUrlParseError(url::ParseError);

/// The variant of a `url::ParseError` (a non-exhaustive enum; variants added
/// after url 2.5 map to `Other`).
#[verifier::external_body]
fn url_error_kind(e: url::ParseError) -> (r: UrlParseError) {
    match e {
        url::ParseError::EmptyHost => UrlParseError::EmptyHost,
        url::ParseError::IdnaError => UrlParseError::IdnaError,
        url::ParseError::InvalidPort => UrlParseError::InvalidPort,
        url::ParseError::InvalidIpv4Address => UrlParseError::InvalidIpv4Address,
        url::ParseError::InvalidIpv6Address => UrlParseError::InvalidIpv6Address,
        url::ParseError::InvalidDomainCharacter => UrlParseError::InvalidDomainCharacter,
        url::ParseError::RelativeUrlWithoutBase => UrlParseError::RelativeUrlWithoutBase,
        url::ParseError::RelativeUrlWithCannotBeABaseBase => UrlParseError::RelativeUrlWithCannotBeABaseBase,
        url::ParseError::SetHostOnCannotBeABaseUrl => UrlParseError::SetHostOnCannotBeABaseUrl,
        url::ParseError::Overflow => UrlParseError::Overflow,
        _ => UrlParseError::Other,
    }
}

/// Parses `input` as an absolute URL (`url::Url::parse`) and takes its domain
/// (`Url::domain`) and path (`Url::path`). The contract names each result as a
/// function of `input`; what the URL standard makes of a given input is not stated.
#[verifier::external_body]
fn parse_url(input: &str) -> (r: Result<UrlParts, UrlParseError>)
    ensures
        match r {
            Ok(p) => url_parse_error(input@) is None && opt_view(p.domain) == url_domain(input@)
                && p.path@ == url_path(input@),
            Err(e) => url_parse_error(input@) == Some(e),
        },
{
    match url::Url::parse(input) {
        Ok(u) => Ok(UrlParts { domain: u.domain().map(|d| d.to_string()), path: u.path().to_string() }),
        Err(e) => Err(url_error_kind(e)),
    }
}

/// The type (`track`, `album`, ...) and id of a Spotify item.
#[derive(Debug)]
pub struct SpotifyReference {
    pub item_type: String,
    pub id: String,
}

/// The kinds of items that can be downloaded.
#[derive(PartialEq, Eq, Structural, Clone, Copy, Debug)]
pub enum ItemKind {
    Track,
    Album,
    Playlist,
    Show,
    Episode,
}

/// Lowercase, as `str::to_lowercase` computes it.
pub open spec fn lower(s: Seq<char>) -> Seq<char> {
    if all_ascii(s) { ascii_lower(s) } else { unicode_lowercase(s) }
}

/// The path segments of a URL path (`Url::path_segments`): the pieces between
/// `/` after the leading `/`, if the path has one.
pub open spec fn path_segments(path: Seq<char>) -> Option<Seq<Seq<char>>> {
    if has_prefix(path, "/"@) {
        Some(split_on(path.subrange(1, path.len() as int), '/'))
    } else {
        None
    }
}

/// The error for input that is not a Spotify URL.
pub open spec fn invalid_url() -> DownOnSpotErrorView {
    DownOnSpotErrorView::Invalid("Invalid Spotify URL"@)
}

/// The error for input that is neither a Spotify URL nor a Spotify URI.
pub open spec fn invalid_url_or_id() -> DownOnSpotErrorView {
    DownOnSpotErrorView::Invalid("Invalid Spotify URL or ID"@)
}

/// The type and id named by a URL whose domain and path are given: the domain
/// must end with `spotify.com` (ignoring case), the type is the first path
/// segment and the id the last, and there must be two segments at least.
pub open spec fn url_reference(domain: Option<Seq<char>>, path: Seq<char>) -> Result<(Seq<char>, Seq<char>), DownOnSpotErrorView> {
    match domain {
        None => Err(invalid_url()),
        Some(d) => if !has_suffix(lower(d), "spotify.com"@) {
            Err(invalid_url())
        } else {
            match path_segments(path) {
                None => Err(invalid_url()),
                Some(segs) => if segs.len() < 2 {
                    Err(invalid_url())
                } else {
                    Ok((replaced(segs[0], "/"@, ""@), segs.last()))
                },
            }
        },
    }
}

/// The type and id named by a `spotify:type:id` URI.
pub open spec fn uri_reference(input: Seq<char>) -> Result<(Seq<char>, Seq<char>), DownOnSpotErrorView> {
    if !has_prefix(input, "spotify:"@) {
        Err(invalid_url_or_id())
    } else {
        let pieces = split_on(input.subrange(8, input.len() as int), ':');
        if pieces.len() < 2 {
            Err(invalid_url_or_id())
        } else {
            Ok((pieces[0], pieces[1]))
        }
    }
}

/// Model of a resolved reference or its error.
pub open spec fn reference_view(r: Result<SpotifyReference, DownOnSpotError>) -> Result<(Seq<char>, Seq<char>), DownOnSpotErrorView> {
    match r {
        Ok(s) => Ok((s.item_type@, s.id@)),
        Err(e) => Err(e@),
    }
}

/// The type and id of the item behind a URL whose domain and path are given.
pub fn reference_from_url_parts(domain: Option<String>, path: &str) -> (r: Result<SpotifyReference, DownOnSpotError>)
    ensures
        reference_view(r) == url_reference(opt_view(domain), path@),
{
    let ghost dv = opt_view(domain);
    let d = match domain {
        Some(d) => d,
        None => {
            return Err(DownOnSpotError::Invalid(copy_str("Invalid Spotify URL")));
        },
    };
    assert(dv == Some(d@));
    let lowered = to_lowercase(d.as_str());
    if !ends_with(lowered.as_str(), "spotify.com") {
        return Err(DownOnSpotError::Invalid(copy_str("Invalid Spotify URL")));
    }
    let rest = match strip_prefix(path, "/") {
        Some(rest) => rest,
        None => {
            return Err(DownOnSpotError::Invalid(copy_str("Invalid Spotify URL")));
        },
    };
    let segments = split(rest.as_str(), '/');
    proof {
        reveal_strlit("/");
        assert(segments.deep_view().len() == segments@.len());
    }
    if segments.len() < 2 {
        return Err(DownOnSpotError::Invalid(copy_str("Invalid Spotify URL")));
    }
    proof {
        reveal_strlit("/");
        assert("/"@.len() > 0);
        assert(segments.deep_view()[0] == segments@[0]@);
        assert(segments.deep_view().last() == segments@[segments@.len() - 1]@);
    }
    let item_type = replace_all(segments[0].as_str(), "/", "");
    let id = segments[segments.len() - 1].clone();
    Ok(SpotifyReference { item_type, id })
}

/// The type and id of the item behind a Spotify URL (`open.spotify.com/type/id`).
pub fn reference_from_url(input: &str) -> (r: Result<SpotifyReference, DownOnSpotError>)
    ensures
        reference_view(r) == (match url_parse_error(input@) {
            Some(e) => Err(DownOnSpotErrorView::ParseError(e)),
            None => url_reference(url_domain(input@), url_path(input@)),
        }),
{
    match parse_url(input) {
        Ok(parts) => reference_from_url_parts(parts.domain, parts.path.as_str()),
        Err(e) => Err(DownOnSpotError::ParseError(e)),
    }
}

/// The type and id of the item behind a `spotify:type:id` URI.
pub fn reference_from_uri(input: &str) -> (r: Result<SpotifyReference, DownOnSpotError>)
    ensures
        reference_view(r) == uri_reference(input@),
{
    let rest = match strip_prefix(input, "spotify:") {
        Some(rest) => rest,
        None => {
            return Err(DownOnSpotError::Invalid(copy_str("Invalid Spotify URL or ID")));
        },
    };
    proof {
        reveal_strlit("spotify:");
    }
    let pieces = split(rest.as_str(), ':');
    proof {
        assert(pieces.deep_view().len() == pieces@.len());
    }
    if pieces.len() < 2 {
        return Err(DownOnSpotError::Invalid(copy_str("Invalid Spotify URL or ID")));
    }
    proof {
        assert(pieces.deep_view()[0] == pieces@[0]@);
        assert(pieces.deep_view()[1] == pieces@[1]@);
    }
    Ok(SpotifyReference { item_type: pieces[0].clone(), id: pieces[1].clone() })
}

/// The type and id named by user input: a Spotify URL, else a `spotify:` URI.
pub fn parse_reference(input: &str) -> (r: Result<SpotifyReference, DownOnSpotError>)
    ensures
        reference_view(r) == (match url_parse_error(input@) {
            Some(e) => uri_reference(input@),
            None => match url_reference(url_domain(input@), url_path(input@)) {
                Ok(p) => Ok(p),
                Err(_) => uri_reference(input@),
            },
        }),
{
    match reference_from_url(input) {
        Ok(r) => Ok(r),
        Err(_) => reference_from_uri(input),
    }
}

/// The kind of item a type name denotes.
pub open spec fn item_kind_of(item_type: Seq<char>) -> Option<ItemKind> {
    if item_type == "track"@ {
        Some(ItemKind::Track)
    } else if item_type == "album"@ {
        Some(ItemKind::Album)
    } else if item_type == "playlist"@ {
        Some(ItemKind::Playlist)
    } else if item_type == "show"@ {
        Some(ItemKind::Show)
    } else if item_type == "episode"@ {
        Some(ItemKind::Episode)
    } else {
        None
    }
}

/// Whether two strings are equal.
fn str_eq(a: &str, b: &str) -> (r: bool)
    ensures
        r == (a@ == b@),
{
    let x = copy_str(a);
    let y = copy_str(b);
    x.eq(&y)
}

impl ItemKind {
    /// The kind of item a type name denotes; other names are not supported.
    pub fn from_item_type(item_type: &str) -> (r: Result<ItemKind, DownOnSpotError>)
        ensures
            match r {
                Ok(k) => item_kind_of(item_type@) == Some(k),
                Err(e) => item_kind_of(item_type@) is None && e@ == DownOnSpotErrorView::InvalidOrUnsupportedId,
            },
    {
        if str_eq(item_type, "track") {
            Ok(ItemKind::Track)
        } else if str_eq(item_type, "album") {
            Ok(ItemKind::Album)
        } else if str_eq(item_type, "playlist") {
            Ok(ItemKind::Playlist)
        } else if str_eq(item_type, "show") {
            Ok(ItemKind::Show)
        } else if str_eq(item_type, "episode") {
            Ok(ItemKind::Episode)
        } else {
            Err(DownOnSpotError::InvalidOrUnsupportedId)
        }
    }
}

impl SpotifyReference {
    /// The URI of the item: `spotify:` type `:` id.
    pub fn uri(&self) -> (r: String)
        ensures
            r@ == "spotify:"@ + self.item_type@ + ":"@ + self.id@,
    {
        let mut r = copy_str("spotify:");
        r.append(self.item_type.as_str());
        r.append(":");
        r.append(self.id.as_str());
        r
    }
}

/// A URI that `uri` builds is read back by `reference_from_uri` as the same
/// type and id, when the type holds no `:`.
pub proof fn lemma_uri_round_trip(item_type: Seq<char>, id: Seq<char>)
    requires
        forall|i: int| 0 <= i < item_type.len() ==> item_type[i] != ':',
        forall|i: int| 0 <= i < id.len() ==> id[i] != ':',
    ensures
        uri_reference("spotify:"@ + item_type + ":"@ + id) == Ok::<(Seq<char>, Seq<char>), DownOnSpotErrorView>((item_type, id)),
{
    reveal_strlit("spotify:");
    reveal_strlit(":");
    let input = "spotify:"@ + item_type + ":"@ + id;
    assert(input.subrange(0, 8) =~= "spotify:"@);
    let rest = input.subrange(8, input.len() as int);
    assert(rest =~= item_type + seq![':'] + id);
    lemma_split_two(item_type, id, ':');
}

/// Splitting `a:b` on `:`, where neither holds `:`, gives `a` and `b`.
pub proof fn lemma_split_two(a: Seq<char>, b: Seq<char>, sep: char)
    requires
        forall|i: int| 0 <= i < a.len() ==> a[i] != sep,
        forall|i: int| 0 <= i < b.len() ==> b[i] != sep,
    ensures
        split_on(a + seq![sep] + b, sep) == seq![a, b],
{
    let t = a + seq![sep] + b;
    assert(t.subrange((a.len() + 1) as int, t.len() as int) =~= b);
    lemma_split_piece(t, sep, (a.len() + 1) as nat, b);
    assert(crate::text::split_from(t, sep, a.len()) == seq![Seq::<char>::empty(), b]);
    lemma_split_prefix(t, sep, 0, a.len(), seq![Seq::<char>::empty(), b]);
    assert(t.subrange(0, a.len() as int) =~= a);
    assert(seq![Seq::<char>::empty(), b].update(0, a + Seq::<char>::empty()) =~= seq![a, b]);
}

/// Splitting a separator-free suffix gives that suffix as one piece.
pub proof fn lemma_split_piece(t: Seq<char>, sep: char, from: nat, b: Seq<char>)
    requires
        from <= t.len(),
        t.subrange(from as int, t.len() as int) == b,
        forall|i: int| 0 <= i < b.len() ==> b[i] != sep,
    ensures
        crate::text::split_from(t, sep, from) == seq![b],
    decreases t.len() - from,
{
    if from < t.len() {
        assert(t[from as int] == b[0]);
        let b1 = b.drop_first();
        assert(t.subrange((from + 1) as int, t.len() as int) =~= b1);
        lemma_split_piece(t, sep, from + 1, b1);
        assert(seq![t[from as int]] + b1 =~= b);
        assert(seq![b1].update(0, seq![t[from as int]] + b1) =~= seq![b]);
    } else {
        assert(b.len() == 0);
        assert(b =~= Seq::<char>::empty());
        assert(seq![Seq::<char>::empty()] =~= seq![b]);
    }
}

/// Splitting from `from`, when `t[from..to]` holds no separator, prepends that
/// part to the first piece of the split from `to`.
pub proof fn lemma_split_prefix(t: Seq<char>, sep: char, from: nat, to: nat, rest: Seq<Seq<char>>)
    requires
        from <= to <= t.len(),
        forall|i: int| from <= i < to ==> t[i] != sep,
        crate::text::split_from(t, sep, to) == rest,
        rest.len() >= 1,
    ensures
        crate::text::split_from(t, sep, from) == rest.update(0, t.subrange(from as int, to as int) + rest[0]),
    decreases to - from,
{
    if from < to {
        lemma_split_prefix(t, sep, from + 1, to, rest);
        let r1 = rest.update(0, t.subrange((from + 1) as int, to as int) + rest[0]);
        assert(r1.update(0, seq![t[from as int]] + r1[0])
            =~= rest.update(0, t.subrange(from as int, to as int) + rest[0])) by {
            assert(seq![t[from as int]] + (t.subrange((from + 1) as int, to as int) + rest[0])
                =~= t.subrange(from as int, to as int) + rest[0]);
        }
    } else {
        assert(t.subrange(from as int, to as int) + rest[0] =~= rest[0]);
        assert(rest.update(0, rest[0]) =~= rest);
    }
}

} // verus!
