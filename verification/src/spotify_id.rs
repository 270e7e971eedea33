//! Spotify ids: the 128-bit number that a base-62 id or a `spotify:` URI names.
use vstd::prelude::*;
use vstd::string::StringSliceAdditionalSpecFns;
use crate::error::{DownOnSpotError, DownOnSpotErrorView};
use crate::uri::SpotifyReference;

verus! {

/// The value of a base-62 digit (`0`-`9`, then `a`-`z`, then `A`-`Z`), if `b` is one.
pub open spec fn base62_digit(b: u8) -> Option<int> {
    if 48 <= b <= 57 {
        Some(b - 48)
    } else if 97 <= b <= 122 {
        Some(b - 97 + 10)
    } else if 65 <= b <= 90 {
        Some(b - 65 + 36)
    } else {
        None
    }
}

/// Whether every byte of `s` is a base-62 digit.
pub open spec fn all_base62(s: Seq<u8>) -> bool {
    forall|j: int| 0 <= j < s.len() ==> (#[trigger] base62_digit(s[j])) is Some
}

/// The number that the base-62 digits `s` write, most significant first.
pub open spec fn base62_value(s: Seq<u8>) -> int
    decreases s.len(),
{
    if s.len() == 0 {
        0
    } else {
        base62_value(s.drop_last()) * 62 + base62_digit(s.last()).unwrap()
    }
}

/// Whether reading `s` digit by digit stays within 128 bits: every prefix made
/// of digits only has a value of at most `u128::MAX`.
pub open spec fn base62_fits(s: Seq<u8>) -> bool {
    forall|k: int| 0 <= k <= s.len() && #[trigger] all_base62(s.take(k)) ==> base62_value(s.take(k)) <= u128::MAX
}

/// The id that the base-62 text `s` names (`SpotifyId::from_base62`): its value
/// when every byte is a digit, else none.
pub open spec fn base62_id(s: Seq<u8>) -> Option<u128> {
    if all_base62(s) { Some(base62_value(s) as u128) } else { None }
}

/// The bytes of `spotify:`.
pub open spec fn uri_prefix() -> Seq<u8> {
    seq![115u8, 112u8, 111u8, 116u8, 105u8, 102u8, 121u8, 58u8]
}

/// The base-62 part of a URI (`SpotifyId::from_uri`): after the `spotify:`
/// prefix, the last 22 bytes, which must be preceded by a `:` and at least
/// nothing else; none when the prefix, the length or the colon is missing.
pub open spec fn uri_id_part(src: Seq<u8>) -> Option<Seq<u8>> {
    if src.len() < 8 || src.take(8) != uri_prefix() {
        None
    } else {
        let rest = src.skip(8);
        if rest.len() <= 22 || rest[rest.len() - 23] != 58u8 {
            None
        } else {
            Some(rest.skip(rest.len() - 22))
        }
    }
}

/// The id that the URI `src` names (`SpotifyId::from_uri`).
pub open spec fn uri_id(src: Seq<u8>) -> Option<u128> {
    match uri_id_part(src) {
        Some(part) => base62_id(part),
        None => None,
    }
}

/// Whether reading the id of the URI `src` stays within 128 bits.
pub open spec fn uri_fits(src: Seq<u8>) -> bool {
    match uri_id_part(src) {
        Some(part) => base62_fits(part),
        None => true,
    }
}

/// Parses a base-62 id (`SpotifyId::from_base62`), keeping its number. The
/// library multiplies by 62 for each digit in 128 bits, which overflows when a
/// prefix of digits is worth more than `u128::MAX`; `requires` leaves that out.
#[verifier::external_body]
fn from_base62(id: &str) -> (r: Option<u128>)
    requires
        base62_fits(id.spec_bytes()),
    ensures
        r == base62_id(id.spec_bytes()),
{
    match librespot::core::spotify_id::SpotifyId::from_base62(id) {
        Ok(parsed) => Some(parsed.id),
        Err(_) => None,
    }
}

/// Parses a `spotify:{type}:{id}` URI (`SpotifyId::from_uri`), keeping the
/// id's number; the item type that the library also records is not kept.
#[verifier::external_body]
fn from_uri(uri: &str) -> (r: Option<u128>)
    requires
        uri_fits(uri.spec_bytes()),
    ensures
        r == uri_id(uri.spec_bytes()),
{
    match librespot::core::spotify_id::SpotifyId::from_uri(uri) {
        Ok(parsed) => Some(parsed.id),
        Err(_) => None,
    }
}

/// The value of a base-62 digit.
fn digit_value(b: u8) -> (r: Option<u8>)
    ensures
        match r {
            Some(v) => base62_digit(b) == Some(v as int),
            None => base62_digit(b) is None,
        },
{
    if 48 <= b && b <= 57 {
        Some(b - 48)
    } else if 97 <= b && b <= 122 {
        Some(b - 97 + 10)
    } else if 65 <= b && b <= 90 {
        Some(b - 65 + 36)
    } else {
        None
    }
}

/// One more digit of a prefix.
proof fn lemma_take_step(s: Seq<u8>, k: int)
    requires
        0 <= k < s.len(),
    ensures
        base62_value(s.take(k + 1)) == base62_value(s.take(k)) * 62 + base62_digit(s[k]).unwrap(),
        all_base62(s.take(k + 1)) == (all_base62(s.take(k)) && base62_digit(s[k]) is Some),
{
    let t = s.take(k + 1);
    assert(t.drop_last() =~= s.take(k));
    assert(t.last() == s[k]);
    if all_base62(s.take(k + 1)) {
        assert(base62_digit(t[k]) is Some);
        assert forall|j: int| 0 <= j < k implies (#[trigger] base62_digit(s.take(k)[j])) is Some by {
            assert(s.take(k)[j] == t[j]);
        }
    }
    if all_base62(s.take(k)) && base62_digit(s[k]) is Some {
        assert forall|j: int| 0 <= j < k + 1 implies (#[trigger] base62_digit(t[j])) is Some by {
            if j < k {
                assert(t[j] == s.take(k)[j]);
            }
        }
    }
}

/// Once a prefix holds a non-digit, so do all longer prefixes.
proof fn lemma_not_all_longer(s: Seq<u8>, k: int, m: int)
    requires
        0 <= k <= m <= s.len(),
        !all_base62(s.take(k)),
    ensures
        !all_base62(s.take(m)),
{
    let j = choose|j: int| 0 <= j < k && !(#[trigger] base62_digit(s.take(k)[j]) is Some);
    assert(s.take(m)[j] == s.take(k)[j]);
}

/// The values of longer all-digit prefixes are at least as large.
proof fn lemma_value_grows(s: Seq<u8>, k: int, m: int)
    requires
        0 <= k <= m <= s.len(),
        all_base62(s.take(m)),
    ensures
        base62_value(s.take(k)) <= base62_value(s.take(m)),
    decreases m - k,
{
    if k < m {
        lemma_take_step(s, m - 1);
        lemma_value_grows(s, k, m - 1);
        assert(base62_value(s.take(m - 1)) >= 0) by {
            lemma_value_nonneg(s.take(m - 1));
        }
    }
}

/// Base-62 values of digit strings are not negative.
proof fn lemma_value_nonneg(s: Seq<u8>)
    requires
        all_base62(s),
    ensures
        base62_value(s) >= 0,
    decreases s.len(),
{
    if s.len() > 0 {
        assert forall|j: int| 0 <= j < s.drop_last().len() implies (#[trigger] base62_digit(s.drop_last()[j])) is Some by {
            assert(s.drop_last()[j] == s[j]);
        }
        assert(base62_digit(s[s.len() - 1]) is Some);
        lemma_value_nonneg(s.drop_last());
    }
}

/// Whether the bytes of `b` from `start` on stay within 128 bits when read as
/// base-62 digits.
fn fits_from(b: &Vec<u8>, start: usize) -> (r: bool)
    requires
        start <= b@.len(),
    ensures
        r == base62_fits(b@.skip(start as int)),
{
    let ghost s = b@.skip(start as int);
    let mut v: u128 = 0;
    let mut i: usize = start;
    proof {
        assert(s.take(0) =~= Seq::<u8>::empty());
    }
    while i < b.len()
        invariant
            start <= i <= b@.len(),
            s == b@.skip(start as int),
            all_base62(s.take(i - start)),
            v as int == base62_value(s.take(i - start)),
            forall|k: int| 0 <= k <= i - start && #[trigger] all_base62(s.take(k)) ==> base62_value(s.take(k)) <= u128::MAX,
        decreases b.len() - i,
    {
        let k: Ghost<int> = Ghost(i - start);
        proof {
            lemma_take_step(s, k@);
            assert(s[k@] == b@[i as int]);
        }
        match digit_value(b[i]) {
            None => {
                proof {
                    assert forall|m: int| 0 <= m <= s.len() && #[trigger] all_base62(s.take(m))
                        implies base62_value(s.take(m)) <= u128::MAX by {
                        if m > k@ {
                            lemma_not_all_longer(s, k@ + 1, m);
                        }
                    }
                }
                return true;
            },
            Some(d) => {
                if v > (u128::MAX - d as u128) / 62 {
                    proof {
                        assert((v as int) * 62 + d as int > u128::MAX) by (nonlinear_arith)
                            requires v > (u128::MAX - d as u128) / 62, d < 62;
                    }
                    return false;
                }
                proof {
                    assert((v as int) * 62 + d as int <= u128::MAX) by (nonlinear_arith)
                        requires v <= (u128::MAX - d as u128) / 62, d < 62;
                }
                v = v * 62 + d as u128;
                i += 1;
            },
        }
    }
    proof {
        assert forall|m: int| 0 <= m <= s.len() && #[trigger] all_base62(s.take(m))
            implies base62_value(s.take(m)) <= u128::MAX by {
            assert(m <= i - start);
        }
    }
    true
}

/// Whether reading the base-62 id `id` stays within 128 bits, as
/// `spotify_id_from_base62` requires.
pub fn base62_in_range(id: &str) -> (r: bool)
    ensures
        r == base62_fits(id.spec_bytes()),
{
    let b = id.as_bytes_vec();
    proof {
        assert(b@.skip(0) =~= b@);
    }
    fits_from(&b, 0)
}

/// The number of a track's base-62 id, or none when it holds a byte that is
/// not a base-62 digit.
pub fn spotify_id_from_base62(id: &str) -> (r: Option<u128>)
    requires
        base62_fits(id.spec_bytes()),
    ensures
        r == base62_id(id.spec_bytes()),
{
    from_base62(id)
}

/// Whether reading the id of the URI `uri` stays within 128 bits, as
/// `spotify_id_from_reference` requires of the reference's URI.
pub fn uri_id_in_range(uri: &str) -> (r: bool)
    ensures
        r == uri_fits(uri.spec_bytes()),
{
    let b = uri.as_bytes_vec();
    if b.len() < 8 || !(b[0] == 115 && b[1] == 112 && b[2] == 111 && b[3] == 116 && b[4] == 105
        && b[5] == 102 && b[6] == 121 && b[7] == 58) {
        proof {
            if b@.len() >= 8 {
                assert(b@.take(8)[0] == b@[0] && b@.take(8)[1] == b@[1] && b@.take(8)[2] == b@[2]
                    && b@.take(8)[3] == b@[3] && b@.take(8)[4] == b@[4] && b@.take(8)[5] == b@[5]
                    && b@.take(8)[6] == b@[6] && b@.take(8)[7] == b@[7]);
                assert(b@.take(8) != uri_prefix());
            }
        }
        return true;
    }
    proof {
        assert(b@.take(8) =~= uri_prefix());
    }
    let rest_len = b.len() - 8;
    if rest_len <= 22 || b[b.len() - 23] != 58 {
        proof {
            let rest = b@.skip(8);
            if rest.len() > 22 {
                assert(rest[rest.len() - 23] == b@[b@.len() - 23]);
            }
        }
        return true;
    }
    proof {
        let rest = b@.skip(8);
        assert(rest[rest.len() - 23] == b@[b@.len() - 23]);
        assert(rest.skip(rest.len() - 22) =~= b@.skip(b@.len() - 22));
    }
    fits_from(&b, b.len() - 22)
}

/// The number that a reference's URI `spotify:{type}:{id}` names
/// (`SpotifyId::from_uri`); an invalid or unsupported id when the URI lacks a
/// 22-byte id after a `:`, or the id holds a non-digit.
pub fn spotify_id_from_reference(r: &SpotifyReference) -> (res: Result<u128, DownOnSpotError>)
    requires
        uri_fits(vstd::utf8::encode_utf8("spotify:"@ + r.item_type@ + ":"@ + r.id@)),
    ensures
        match uri_id(vstd::utf8::encode_utf8("spotify:"@ + r.item_type@ + ":"@ + r.id@)) {
            Some(v) => res == Ok::<u128, DownOnSpotError>(v),
            None => res matches Err(e) && e@ == DownOnSpotErrorView::InvalidOrUnsupportedId,
        },
{
    let uri = r.uri();
    match from_uri(uri.as_str()) {
        Some(v) => Ok(v),
        None => Err(DownOnSpotError::InvalidOrUnsupportedId),
    }
}

} // verus!
