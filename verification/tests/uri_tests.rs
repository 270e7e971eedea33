use down_on_spot::error::{DownOnSpotError, UrlParseError};
use down_on_spot::uri::{parse_reference, reference_from_uri, reference_from_url, ItemKind, SpotifyReference};

fn pair(r: Result<SpotifyReference, DownOnSpotError>) -> Option<(String, String)> {
    r.ok().map(|r| (r.item_type, r.id))
}

#[test]
fn url_with_type_and_id() {
    assert_eq!(
        pair(reference_from_url("https://open.spotify.com/playlist/37i9dQZF1DXcxvFzl58uP7")),
        Some(("playlist".to_string(), "37i9dQZF1DXcxvFzl58uP7".to_string()))
    );
    assert_eq!(
        pair(reference_from_url("https://OPEN.SPOTIFY.COM/track/abc?si=123")),
        Some(("track".to_string(), "abc".to_string()))
    );
    assert_eq!(
        pair(reference_from_url("https://open.spotify.com/intl-de/track/abc")),
        Some(("intl-de".to_string(), "abc".to_string()))
    );
}

#[test]
fn url_errors() {
    match reference_from_url("Ariana Grande") {
        Err(DownOnSpotError::ParseError(UrlParseError::RelativeUrlWithoutBase)) => {},
        other => panic!("unexpected {:?}", other),
    }
    match reference_from_url("https://example.com/track/abc") {
        Err(DownOnSpotError::Invalid(m)) => assert_eq!(m, "Invalid Spotify URL"),
        other => panic!("unexpected {:?}", other),
    }
    match reference_from_url("https://open.spotify.com/track") {
        Err(DownOnSpotError::Invalid(m)) => assert_eq!(m, "Invalid Spotify URL"),
        other => panic!("unexpected {:?}", other),
    }
    match reference_from_url("https://127.0.0.1/track/abc") {
        Err(DownOnSpotError::Invalid(m)) => assert_eq!(m, "Invalid Spotify URL"),
        other => panic!("unexpected {:?}", other),
    }
}

#[test]
fn uri_with_type_and_id() {
    assert_eq!(
        pair(reference_from_uri("spotify:track:0KjAxsrYSvN0xGuh3cKPxD")),
        Some(("track".to_string(), "0KjAxsrYSvN0xGuh3cKPxD".to_string()))
    );
    assert_eq!(pair(reference_from_uri("spotify:user:me:playlist:x")), Some(("user".to_string(), "me".to_string())));
    match reference_from_uri("spotify:track") {
        Err(DownOnSpotError::Invalid(m)) => assert_eq!(m, "Invalid Spotify URL or ID"),
        other => panic!("unexpected {:?}", other),
    }
    match reference_from_uri("track:abc") {
        Err(DownOnSpotError::Invalid(m)) => assert_eq!(m, "Invalid Spotify URL or ID"),
        other => panic!("unexpected {:?}", other),
    }
}

#[test]
fn uri_round_trip() {
    let r = SpotifyReference { item_type: "album".to_string(), id: "xyz".to_string() };
    let uri = r.uri();
    assert_eq!(uri, "spotify:album:xyz");
    assert_eq!(pair(reference_from_uri(&uri)), Some(("album".to_string(), "xyz".to_string())));
}

#[test]
fn item_kinds() {
    assert_eq!(ItemKind::from_item_type("track").ok(), Some(ItemKind::Track));
    assert_eq!(ItemKind::from_item_type("album").ok(), Some(ItemKind::Album));
    assert_eq!(ItemKind::from_item_type("playlist").ok(), Some(ItemKind::Playlist));
    assert_eq!(ItemKind::from_item_type("show").ok(), Some(ItemKind::Show));
    assert_eq!(ItemKind::from_item_type("episode").ok(), Some(ItemKind::Episode));
    assert!(matches!(ItemKind::from_item_type("artist"), Err(DownOnSpotError::InvalidOrUnsupportedId)));
}

#[test]
fn input_as_url_or_uri() {
    assert_eq!(
        pair(parse_reference("https://open.spotify.com/album/1")),
        Some(("album".to_string(), "1".to_string()))
    );
    assert_eq!(pair(parse_reference("spotify:episode:2")), Some(("episode".to_string(), "2".to_string())));
    match parse_reference("Ariana Grande") {
        Err(DownOnSpotError::Invalid(m)) => assert_eq!(m, "Invalid Spotify URL or ID"),
        other => panic!("unexpected {:?}", other),
    }
}
