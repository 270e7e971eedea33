use down_on_spot::config::{DownloaderConfig, Settings};
use down_on_spot::error::{SpotifyError, UrlParseError};
use down_on_spot::media::Quality;

#[test]
fn error_messages() {
    assert_eq!(SpotifyError::Error("x".to_string()).to_string(), "Error: x");
    assert_eq!(
        SpotifyError::IoError("NotFound".to_string(), "No such file".to_string()).to_string(),
        "IO: NotFound No such file"
    );
    assert_eq!(SpotifyError::MercuryError.to_string(), "Mercury Error");
    assert_eq!(SpotifyError::AuthenticationError.to_string(), "Authentication Error");
    assert_eq!(SpotifyError::Unavailable.to_string(), "Unavailable!");
    assert_eq!(SpotifyError::SpotifyIdError.to_string(), "Invalid Spotify ID");
    assert_eq!(SpotifyError::ChannelError.to_string(), "Channel Error");
    assert_eq!(SpotifyError::AudioKeyError.to_string(), "Audio Key Error");
    assert_eq!(SpotifyError::LameConverterError("Init".to_string()).to_string(), "Lame error: Init");
    assert_eq!(SpotifyError::JoinError.to_string(), "Tokio Join Error");
    assert_eq!(SpotifyError::ASpotify("e".to_string()).to_string(), "Spotify Error: e");
    assert_eq!(SpotifyError::Serde("bad".to_string(), 3, 14).to_string(), "Serde Error @3:14 bad");
    assert_eq!(SpotifyError::InvalidUri.to_string(), "Invalid URI");
    assert_eq!(SpotifyError::ParseError(UrlParseError::EmptyHost).to_string(), "Parse Error: empty host");
    assert_eq!(SpotifyError::ID3Error("Io".to_string(), "d".to_string()).to_string(), "ID3 Error: Io d");
    assert_eq!(SpotifyError::Reqwest("r".to_string()).to_string(), "Reqwest Error: r");
    assert_eq!(SpotifyError::InvalidFormat.to_string(), "Invalid Format!");
    assert_eq!(SpotifyError::AlreadyDownloaded.to_string(), "Already Downloaded");
    assert!(SpotifyError::AlreadyDownloaded.is_already_downloaded());
    assert!(!SpotifyError::InvalidFormat.is_already_downloaded());
}

#[test]
fn url_error_texts_match_url_crate() {
    let pairs = [
        (UrlParseError::EmptyHost, url::ParseError::EmptyHost),
        (UrlParseError::IdnaError, url::ParseError::IdnaError),
        (UrlParseError::InvalidPort, url::ParseError::InvalidPort),
        (UrlParseError::InvalidIpv4Address, url::ParseError::InvalidIpv4Address),
        (UrlParseError::InvalidIpv6Address, url::ParseError::InvalidIpv6Address),
        (UrlParseError::InvalidDomainCharacter, url::ParseError::InvalidDomainCharacter),
        (UrlParseError::RelativeUrlWithoutBase, url::ParseError::RelativeUrlWithoutBase),
        (UrlParseError::RelativeUrlWithCannotBeABaseBase, url::ParseError::RelativeUrlWithCannotBeABaseBase),
        (UrlParseError::SetHostOnCannotBeABaseUrl, url::ParseError::SetHostOnCannotBeABaseUrl),
        (UrlParseError::Overflow, url::ParseError::Overflow),
    ];
    for (mine, theirs) in pairs {
        assert_eq!(mine.to_string(), theirs.to_string());
    }
}

#[test]
fn default_settings() {
    let c = DownloaderConfig::new();
    assert_eq!(c.concurrent_downloads, 4);
    assert_eq!(c.quality, Quality::Q320);
    assert_eq!(c.path, "downloads");
    assert_eq!(c.filename_template, "%artist% - %title%");
    assert!(c.id3v24);
    assert!(!c.convert_to_mp3);
    assert_eq!(c.separator, ", ");
    assert!(c.skip_existing);
    let s = Settings::new("username", "password", "client_id", "secret");
    assert_eq!(s.username, "username");
    assert_eq!(s.client_secret, "secret");
    assert_eq!(s.refresh_ui_seconds, 1);
    assert_eq!(s.market.as_deref(), Some("USA"));
    assert_eq!(s.downloader.filename_template, "%artist% - %title%");
}
