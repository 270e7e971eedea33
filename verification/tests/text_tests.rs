use down_on_spot::text::{
    decimal_string, ends_with, join, pad_left_string, replace_all, signed_decimal_string, split, strip_prefix,
    to_lowercase, zero_padded_string,
};

#[test]
fn decimal_notation() {
    assert_eq!(decimal_string(0), "0");
    assert_eq!(decimal_string(7), "7");
    assert_eq!(decimal_string(1234567890), "1234567890");
    assert_eq!(decimal_string(u64::MAX), u64::MAX.to_string());
    assert_eq!(signed_decimal_string(-45), "-45");
    assert_eq!(signed_decimal_string(i64::MIN), i64::MIN.to_string());
}

#[test]
fn padding_matches_format() {
    assert_eq!(pad_left_string("5", '0', 2), format!("{:0>2}", 5));
    assert_eq!(pad_left_string("-5", '0', 2), format!("{:0>2}", -5));
    assert_eq!(pad_left_string("123", '0', 2), "123");
    assert_eq!(zero_padded_string(7, 2), format!("{:02}", 7));
    assert_eq!(zero_padded_string(-7, 4), format!("{:04}", -7));
    assert_eq!(zero_padded_string(2021, 4), "2021");
}

#[test]
fn replace_matches_std() {
    let cases = [
        ("%artist% - %title%", "%artist%", "A"),
        ("aaaa", "aa", "b"),
        ("no placeholders", "%x%", "y"),
        ("%x%%x%", "%x%", ""),
        ("ÄÖ%x%Ü", "%x%", "ß"),
    ];
    for (t, p, r) in cases {
        assert_eq!(replace_all(t, p, r), t.replace(p, r));
    }
}

#[test]
fn join_matches_std() {
    let v = vec!["a".to_string(), "b".to_string(), "c".to_string()];
    assert_eq!(join(&v, ", "), "a, b, c");
    assert_eq!(join(&vec![], ", "), "");
    assert_eq!(join(&vec!["x".to_string()], ", "), "x");
}

#[test]
fn split_matches_std() {
    for (t, c) in [("track/abc", '/'), ("a::b", ':'), ("", ':'), ("abc/", '/')] {
        let expected: Vec<String> = t.split(c).map(|s| s.to_string()).collect();
        assert_eq!(split(t, c), expected);
    }
}

#[test]
fn prefixes_and_suffixes() {
    assert_eq!(strip_prefix("spotify:track:1", "spotify:"), Some("track:1".to_string()));
    assert_eq!(strip_prefix("spot", "spotify:"), None);
    assert!(ends_with("open.spotify.com", "spotify.com"));
    assert!(!ends_with("spotify.com.evil", "spotify.com"));
}

#[test]
fn lowercase_folds_letters() {
    assert_eq!(to_lowercase("OPEN.Spotify.COM"), "open.spotify.com");
    assert_eq!(to_lowercase("ÄÖ"), "äö");
}
