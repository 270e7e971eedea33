use down_on_spot::error::DownOnSpotError;
use down_on_spot::spotify_id::{base62_in_range, spotify_id_from_base62, spotify_id_from_reference, uri_id_in_range};
use down_on_spot::uri::SpotifyReference;

#[test]
fn base62_digits_and_values() {
    assert_eq!(spotify_id_from_base62("0"), Some(0));
    assert_eq!(spotify_id_from_base62("10"), Some(62));
    assert_eq!(spotify_id_from_base62("a"), Some(10));
    assert_eq!(spotify_id_from_base62("Z"), Some(61));
    assert_eq!(spotify_id_from_base62(""), Some(0));
    assert_eq!(spotify_id_from_base62("ab-c"), None);
    let id = "4uLU6hMCjMI75M1A2tKUQC";
    assert_eq!(spotify_id_from_base62(id), Some(196373991439130863212091700994220317246));
}

#[test]
fn base62_range_check() {
    assert!(base62_in_range("4uLU6hMCjMI75M1A2tKUQC"));
    assert!(!base62_in_range(&"Z".repeat(22)));
    assert!(base62_in_range(&"Z".repeat(21)));
    assert!(base62_in_range(&format!("{}-{}", "Z".repeat(21), "Z".repeat(21))));
}

fn reference(item_type: &str, id: &str) -> SpotifyReference {
    SpotifyReference { item_type: item_type.to_string(), id: id.to_string() }
}

#[test]
fn reference_ids() {
    let id = "4uLU6hMCjMI75M1A2tKUQC";
    let expected: u128 = 196373991439130863212091700994220317246;
    assert_eq!(spotify_id_from_reference(&reference("track", id)).ok(), Some(expected));
    assert!(matches!(spotify_id_from_reference(&reference("track", "short")), Err(DownOnSpotError::InvalidOrUnsupportedId)));
    assert!(matches!(
        spotify_id_from_reference(&reference("album", "4uLU6hMCjMI75M1A2tKU-C")),
        Err(DownOnSpotError::InvalidOrUnsupportedId)
    ));
    assert!(uri_id_in_range(&format!("spotify:track:{}", id)));
    assert!(!uri_id_in_range(&format!("spotify:track:{}", "Z".repeat(22))));
    assert!(uri_id_in_range("spotify:x"));
    assert!(uri_id_in_range("other"));
}
