//! Errors of the downloader and their messages.
use vstd::prelude::*;
use crate::text::{copy_str, decimal, decimal_string};

verus! {

/// Why a URL could not be parsed.
#[derive(PartialEq, Eq, Structural, Clone, Copy, Debug)]
pub enum UrlParseError {
    EmptyHost,
    IdnaError,
    InvalidPort,
    InvalidIpv4Address,
    InvalidIpv6Address,
    InvalidDomainCharacter,
    RelativeUrlWithoutBase,
    RelativeUrlWithCannotBeABaseBase,
    SetHostOnCannotBeABaseUrl,
    Overflow,
    Other,
}

/// Description of a URL parse error.
pub open spec fn url_error_text(e: UrlParseError) -> Seq<char> {
    match e {
        UrlParseError::EmptyHost => "empty host"@,
        UrlParseError::IdnaError => "invalid international domain name"@,
        UrlParseError::InvalidPort => "invalid port number"@,
        UrlParseError::InvalidIpv4Address => "invalid IPv4 address"@,
        UrlParseError::InvalidIpv6Address => "invalid IPv6 address"@,
        UrlParseError::InvalidDomainCharacter => "invalid domain character"@,
        UrlParseError::RelativeUrlWithoutBase => "relative URL without a base"@,
        UrlParseError::RelativeUrlWithCannotBeABaseBase => "relative URL with a cannot-be-a-base base"@,
        UrlParseError::SetHostOnCannotBeABaseUrl => "a cannot-be-a-base URL doesn\u{2019}t have a host to set"@,
        UrlParseError::Overflow => "URLs more than 4 GB are not supported"@,
        UrlParseError::Other => "URL parse error"@,
    }
}

impl UrlParseError {
    /// Description of the error.
    pub fn to_string(&self) -> (r: String)
        ensures
            r@ == url_error_text(*self),
    {
        match self {
            UrlParseError::EmptyHost => copy_str("empty host"),
            UrlParseError::IdnaError => copy_str("invalid international domain name"),
            UrlParseError::InvalidPort => copy_str("invalid port number"),
            UrlParseError::InvalidIpv4Address => copy_str("invalid IPv4 address"),
            UrlParseError::InvalidIpv6Address => copy_str("invalid IPv6 address"),
            UrlParseError::InvalidDomainCharacter => copy_str("invalid domain character"),
            UrlParseError::RelativeUrlWithoutBase => copy_str("relative URL without a base"),
            UrlParseError::RelativeUrlWithCannotBeABaseBase => copy_str("relative URL with a cannot-be-a-base base"),
            UrlParseError::SetHostOnCannotBeABaseUrl => copy_str("a cannot-be-a-base URL doesn\u{2019}t have a host to set"),
            UrlParseError::Overflow => copy_str("URLs more than 4 GB are not supported"),
            UrlParseError::Other => copy_str("URL parse error"),
        }
    }
}

/// Errors of the downloader.
#[derive(Debug)]
pub enum SpotifyError {
    Error(String),
    /// An I/O error: the name of its kind and its description.
    IoError(String, String),
    MercuryError,
    AuthenticationError,
    Unavailable,
    SpotifyIdError,
    ChannelError,
    AudioKeyError,
    LameConverterError(String),
    JoinError,
    ASpotify(String),
    Serde(String, usize, usize),
    InvalidUri,
    ParseError(UrlParseError),
    ID3Error(String, String),
    Reqwest(String),
    InvalidFormat,
    AlreadyDownloaded,
}

/// The message shown for an error.
pub open spec fn error_message(e: SpotifyError) -> Seq<char> {
    match e {
        SpotifyError::Error(s) => "Error: "@ + s@,
        SpotifyError::IoError(kind, s) => "IO: "@ + kind@ + " "@ + s@,
        SpotifyError::MercuryError => "Mercury Error"@,
        SpotifyError::AuthenticationError => "Authentication Error"@,
        SpotifyError::Unavailable => "Unavailable!"@,
        SpotifyError::SpotifyIdError => "Invalid Spotify ID"@,
        SpotifyError::ChannelError => "Channel Error"@,
        SpotifyError::AudioKeyError => "Audio Key Error"@,
        SpotifyError::LameConverterError(s) => "Lame error: "@ + s@,
        SpotifyError::JoinError => "Tokio Join Error"@,
        SpotifyError::ASpotify(s) => "Spotify Error: "@ + s@,
        SpotifyError::Serde(s, l, c) => "Serde Error @"@ + decimal(l as nat) + ":"@ + decimal(c as nat) + " "@ + s@,
        SpotifyError::InvalidUri => "Invalid URI"@,
        SpotifyError::ParseError(p) => "Parse Error: "@ + url_error_text(p),
        SpotifyError::ID3Error(k, s) => "ID3 Error: "@ + k@ + " "@ + s@,
        SpotifyError::Reqwest(s) => "Reqwest Error: "@ + s@,
        SpotifyError::InvalidFormat => "Invalid Format!"@,
        SpotifyError::AlreadyDownloaded => "Already Downloaded"@,
    }
}

/// `a` followed by `b`.
fn concat2(a: &str, b: &str) -> (r: String)
    ensures
        r@ == a@ + b@,
{
    let mut r = copy_str(a);
    r.append(b);
    r
}

impl SpotifyError {
    /// The message shown for this error.
    pub fn to_string(&self) -> (r: String)
        ensures
            r@ == error_message(*self),
    {
        match self {
            SpotifyError::Error(s) => concat2("Error: ", s.as_str()),
            SpotifyError::IoError(kind, s) => {
                let mut r = concat2("IO: ", kind.as_str());
                r.append(" ");
                r.append(s.as_str());
                r
            },
            SpotifyError::MercuryError => copy_str("Mercury Error"),
            SpotifyError::AuthenticationError => copy_str("Authentication Error"),
            SpotifyError::Unavailable => copy_str("Unavailable!"),
            SpotifyError::SpotifyIdError => copy_str("Invalid Spotify ID"),
            SpotifyError::ChannelError => copy_str("Channel Error"),
            SpotifyError::AudioKeyError => copy_str("Audio Key Error"),
            SpotifyError::LameConverterError(s) => concat2("Lame error: ", s.as_str()),
            SpotifyError::JoinError => copy_str("Tokio Join Error"),
            SpotifyError::ASpotify(s) => concat2("Spotify Error: ", s.as_str()),
            SpotifyError::Serde(s, l, c) => {
                let mut r = copy_str("Serde Error @");
                let ls = decimal_string(*l as u64);
                let cs = decimal_string(*c as u64);
                r.append(ls.as_str());
                r.append(":");
                r.append(cs.as_str());
                r.append(" ");
                r.append(s.as_str());
                r
            },
            SpotifyError::InvalidUri => copy_str("Invalid URI"),
            SpotifyError::ParseError(p) => {
                let t = p.to_string();
                concat2("Parse Error: ", t.as_str())
            },
            SpotifyError::ID3Error(k, s) => {
                let mut r = concat2("ID3 Error: ", k.as_str());
                r.append(" ");
                r.append(s.as_str());
                r
            },
            SpotifyError::Reqwest(s) => concat2("Reqwest Error: ", s.as_str()),
            SpotifyError::InvalidFormat => copy_str("Invalid Format!"),
            SpotifyError::AlreadyDownloaded => copy_str("Already Downloaded"),
        }
    }

    /// Whether this error reports a file that was downloaded before.
    pub fn is_already_downloaded(&self) -> (b: bool)
        ensures
            b == (*self is AlreadyDownloaded),
    {
        matches!(self, SpotifyError::AlreadyDownloaded)
    }
}

/// Errors when resolving user input to a Spotify item.
#[derive(Debug)]
pub enum DownOnSpotError {
    Invalid(String),
    InvalidOrUnsupportedId,
    Unavailable,
    EncoderError(String),
    ParseError(UrlParseError),
}

/// Mathematical model of [`DownOnSpotError`].
pub enum DownOnSpotErrorView {
    Invalid(Seq<char>),
    InvalidOrUnsupportedId,
    Unavailable,
    EncoderError(Seq<char>),
    ParseError(UrlParseError),
}

impl View for DownOnSpotError {
    type V = DownOnSpotErrorView;

    open spec fn view(&self) -> DownOnSpotErrorView {
        match self {
            DownOnSpotError::Invalid(s) => DownOnSpotErrorView::Invalid(s@),
            DownOnSpotError::InvalidOrUnsupportedId => DownOnSpotErrorView::InvalidOrUnsupportedId,
            DownOnSpotError::Unavailable => DownOnSpotErrorView::Unavailable,
            DownOnSpotError::EncoderError(s) => DownOnSpotErrorView::EncoderError(s@),
            DownOnSpotError::ParseError(p) => DownOnSpotErrorView::ParseError(*p),
        }
    }
}

} // verus!
