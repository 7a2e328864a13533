//! Reading the expiry embedded in an `LtpaToken`.
//!
//! The token is base64 over a fixed structure:
//!
//! ```text
//! 00 01 02 03 | "6AB115AC" | "6AB14DEC" | CN=.../OU=.../O=... | signature
//! version       issue time   expiry time  user DN               signature
//! ```
//!
//! Both timestamps are ASCII hexadecimal seconds since the Unix epoch. The
//! expiry is written when the token is issued and is absolute: polling the
//! server does not move it, so the only way to extend a session is to log in
//! again.

use base64::Engine;
use vstd::prelude::*;

use crate::text::{chars_of, string_from, trim, trim_range};

verus! {

/// The bytes `base64::engine::general_purpose::STANDARD.decode` yields for
/// `text`, or `None` when it reports an error.
pub uninterp spec fn base64_standard_decoded(text: Seq<char>) -> Option<Seq<u8>>;

/// `STANDARD.decode` from the `base64` crate (RFC 4648 alphabet, padding
/// required).
///
/// Claims only that the result is the one `base64_standard_decoded` names
/// for the input text.
#[verifier::external_body]
fn decode_standard(text: &str) -> (r: Option<Vec<u8>>)
    ensures
        r matches Some(v) ==> base64_standard_decoded(text@) == Some(v@),
        r is None ==> base64_standard_decoded(text@) is None,
{
    base64::engine::general_purpose::STANDARD.decode(text).ok()
}

/// The timestamps carried inside an LTPA token.
#[derive(Clone, Copy, PartialEq, Eq, Structural, Debug)]
pub struct TokenExpiry {
    /// When the token was issued, in seconds since the Unix epoch.
    pub issued_at: i64,
    /// When the token stops being accepted, in seconds since the Unix epoch.
    pub expires_at: i64,
}

impl TokenExpiry {
    /// Seconds remaining until expiry, relative to `now`, saturating at zero.
    pub fn remaining_secs(&self, now: i64) -> (r: i64)
        ensures
            r == (if self.expires_at - now <= 0 {
                0
            } else if self.expires_at - now > i64::MAX {
                i64::MAX as int
            } else {
                self.expires_at - now
            }),
    {
        let d = (self.expires_at as i128) - (now as i128);
        if d <= 0 {
            0
        } else if d > 0x7fff_ffff_ffff_ffff {
            0x7fff_ffff_ffff_ffff
        } else {
            d as i64
        }
    }

    /// Whether the token is already expired at `now`.
    pub fn is_expired(&self, now: i64) -> (b: bool)
        ensures
            b == (now >= self.expires_at),
    {
        now >= self.expires_at
    }
}

/// An ASCII hexadecimal digit's value.
pub open spec fn hex_digit_value(b: u8) -> Option<int> {
    if 48 <= b <= 57 {
        Some(b - 48)
    } else if 97 <= b <= 102 {
        Some(b - 87)
    } else if 65 <= b <= 70 {
        Some(b - 55)
    } else {
        None
    }
}

/// The value of a run of hexadecimal digits; `None` if any byte is not one.
pub open spec fn hex_value(b: Seq<u8>) -> Option<int>
    decreases b.len(),
{
    if b.len() == 0 {
        Some(0)
    } else {
        match (hex_value(b.drop_last()), hex_digit_value(b.last())) {
            (Some(v), Some(d)) => Some(v * 16 + d),
            _ => None,
        }
    }
}

/// `i64::from_str_radix(text, 16)` over the bytes of an eight-byte field: an
/// optional sign followed by at least one hexadecimal digit.
pub open spec fn hex_seconds_spec(b: Seq<u8>) -> Option<int> {
    if b.len() == 0 {
        None
    } else if b[0] == 43 || b[0] == 45 {
        if b.len() == 1 {
            None
        } else {
            match hex_value(b.drop_first()) {
                Some(v) => Some(if b[0] == 45 { -v } else { v }),
                None => None,
            }
        }
    } else {
        hex_value(b)
    }
}

/// The version marker every LTPA token starts with.
pub open spec fn ltpa_version() -> Seq<u8> {
    seq![0u8, 1u8, 2u8, 3u8]
}

/// The (issue, expiry) pair of a decoded token, when it is well formed.
pub open spec fn ltpa_fields(raw: Seq<u8>) -> Option<(int, int)> {
    if raw.len() < 20 || raw.take(4) != ltpa_version() {
        None
    } else {
        match (hex_seconds_spec(raw.subrange(4, 12)), hex_seconds_spec(raw.subrange(12, 20))) {
            (Some(issued), Some(expires)) => if expires < issued {
                None
            } else {
                Some((issued, expires))
            },
            _ => None,
        }
    }
}

/// What `parse_ltpa_expiry` reads from a token's text.
pub open spec fn ltpa_expiry_spec(token: Seq<char>) -> Option<(int, int)> {
    match base64_standard_decoded(trim(token)) {
        None => None,
        Some(raw) => ltpa_fields(raw),
    }
}

/// Read eight ASCII hexadecimal digits, optionally signed, as seconds.
///
/// A byte that is not ASCII can never be a digit or a sign, so checking the
/// bytes directly agrees with decoding them as UTF-8 first.
fn parse_hex_seconds(bytes: &[u8]) -> (r: Option<i64>)
    requires
        bytes@.len() == 8,
    ensures
        r matches Some(v) ==> hex_seconds_spec(bytes@) == Some(v as int),
        r is None ==> hex_seconds_spec(bytes@) is None,
{
    let first = bytes[0];
    let signed = first == 43 || first == 45;
    let start: usize = if signed { 1 } else { 0 };
    let ghost digits = bytes@.skip(start as int);
    assert(bytes@.skip(0) =~= bytes@);
    assert(first == bytes@[0]);
    let mut acc: u64 = 0;
    let mut i = start;
    while i < 8
        invariant
            start <= i <= 8,
            bytes@.len() == 8,
            digits == bytes@.skip(start as int),
            start == (if signed { 1usize } else { 0usize }),
            first == bytes@[0],
            signed == (first == 43 || first == 45),
            hex_value(bytes@.subrange(start as int, i as int)) == Some(acc as int),
            acc < pow16(i - start),
        decreases 8 - i,
    {
        let b = bytes[i];
        let d: u64 = if 48 <= b && b <= 57 {
            (b - 48) as u64
        } else if 97 <= b && b <= 102 {
            (b - 87) as u64
        } else if 65 <= b && b <= 70 {
            (b - 55) as u64
        } else {
            proof {
                assert(bytes@.subrange(start as int, 8)[i - start] == b);
                lemma_hex_value_none(bytes@.subrange(start as int, 8), i - start);
                assert(bytes@.subrange(start as int, 8) =~= digits);
                assert(bytes@.drop_first() =~= bytes@.skip(1));
                assert(hex_value(digits) is None);
                if signed {
                    assert(hex_value(bytes@.drop_first()) is None);
                } else {
                    assert(bytes@.skip(0) =~= bytes@);
                    assert(hex_value(bytes@) is None);
                }
            }
            return None;
        };
        proof {
            assert(bytes@.subrange(start as int, i + 1).drop_last() =~= bytes@.subrange(start as int, i as int));
            lemma_pow16_step(i - start);
        }
        acc = acc * 16 + d;
        i = i + 1;
    }
    assert(bytes@.subrange(start as int, 8) =~= digits);
    assert(bytes@.drop_first() =~= bytes@.skip(1));
    proof {
        lemma_pow16_small(8 - start);
        if signed {
            lemma_pow16_step(6);
        }
    }
    if signed {
        if first == 45 {
            Some(-(acc as i64))
        } else {
            Some(acc as i64)
        }
    } else {
        Some(acc as i64)
    }
}

/// Sixteen to the power `n`.
pub open spec fn pow16(n: int) -> int
    decreases n,
{
    if n <= 0 {
        1
    } else {
        16 * pow16(n - 1)
    }
}

proof fn lemma_pow16_step(n: int)
    requires
        0 <= n < 8,
    ensures
        pow16(n + 1) == 16 * pow16(n),
        pow16(n + 1) <= 0x1_0000_0000,
{
    lemma_pow16_small(n + 1);
}

proof fn lemma_pow16_small(n: int)
    requires
        0 <= n <= 8,
    ensures
        pow16(n) <= 0x1_0000_0000,
{
    reveal_with_fuel(pow16, 9);
    if n == 0 {
    } else if n == 1 {
    } else if n == 2 {
    } else if n == 3 {
    } else if n == 4 {
    } else if n == 5 {
    } else if n == 6 {
    } else if n == 7 {
    } else {
    }
}

/// A run whose byte at `k` is no hexadecimal digit has no value.
proof fn lemma_hex_value_none(b: Seq<u8>, k: int)
    requires
        0 <= k < b.len(),
        hex_digit_value(b[k]) is None,
    ensures
        hex_value(b) is None,
    decreases b.len(),
{
    if k < b.len() - 1 {
        assert(b.drop_last()[k] == b[k]);
        lemma_hex_value_none(b.drop_last(), k);
    }
}

/// Decode the issue and expiry timestamps carried by a base64 `LtpaToken`.
///
/// Returns `None` when the value is not a well-formed LTPA token, so the
/// caller can fall back to attempting the request anyway rather than refusing
/// to work with a token it simply does not understand.
pub fn parse_ltpa_expiry(token: &str) -> (r: Option<TokenExpiry>)
    ensures
        r matches Some(t) ==> ltpa_expiry_spec(token@) == Some((t.issued_at as int, t.expires_at as int)),
        r is None ==> ltpa_expiry_spec(token@) is None,
{
    let t = chars_of(token);
    let (a, b) = trim_range(&t, 0, t.len());
    assert(t@.subrange(0, t@.len() as int) =~= t@);
    let trimmed = string_from(&t, a, b);
    let raw = match decode_standard(trimmed.as_str()) {
        Some(raw) => raw,
        None => return None,
    };
    if raw.len() < 20 {
        return None;
    }
    if !(raw[0] == 0 && raw[1] == 1 && raw[2] == 2 && raw[3] == 3) {
        assert(raw@.take(4)[0] == raw@[0] && raw@.take(4)[1] == raw@[1] && raw@.take(4)[2] == raw@[2] && raw@.take(4)[3] == raw@[3]);
        return None;
    }
    assert(raw@.take(4) =~= ltpa_version());
    let mut issue_field: Vec<u8> = Vec::new();
    let mut expiry_field: Vec<u8> = Vec::new();
    let mut i: usize = 0;
    while i < 8
        invariant
            i <= 8,
            raw@.len() >= 20,
            issue_field@ =~= raw@.subrange(4, 4 + i),
            expiry_field@ =~= raw@.subrange(12, 12 + i),
        decreases 8 - i,
    {
        issue_field.push(raw[4 + i]);
        expiry_field.push(raw[12 + i]);
        i = i + 1;
    }
    let issued_at = match parse_hex_seconds(&issue_field) {
        Some(v) => v,
        None => return None,
    };
    let expires_at = match parse_hex_seconds(&expiry_field) {
        Some(v) => v,
        None => return None,
    };
    if expires_at < issued_at {
        return None;
    }
    Some(TokenExpiry { issued_at, expires_at })
}

} // verus!
