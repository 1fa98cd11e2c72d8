//! Calls into other crates (and a few std functions that vstd does not
//! specify). Each item here is believed as stated; the doc comment of each
//! says which function it calls and what its contract claims of it.
use vstd::prelude::*;
use vstd::string::StringSliceAdditionalSpecFns;
use vstd::utf8::{decode_utf8, valid_utf8};

use argon2::PasswordVerifier;
use base64::Engine;
use chrono::Datelike;
use sha2::Digest;

use crate::state::{TrackMetadata, TrackView};

verus! {

// ---------------------------------------------------------------------------
// Outside types carried through the library
// ---------------------------------------------------------------------------

/// `anyhow::Error`, carried opaquely inside `AppError::Other`.
#[verifier::external_type_specification]
#[verifier::external_body]
pub struct ExAnyhowError(anyhow::Error);

/// `std::time::Instant`, carried opaquely in timestamps.
#[verifier::external_type_specification]
#[verifier::external_body]
pub struct ExInstant(std::time::Instant);

/// `dashmap::DashMap`, the concurrent map that caches track metadata.
#[verifier::external_type_specification]
#[verifier::external_body]
#[verifier::reject_recursive_types(K)]
#[verifier::reject_recursive_types(V)]
#[verifier::reject_recursive_types(S)]
pub struct ExDashMap<K, V, S>(dashmap::DashMap<K, V, S>);

// ---------------------------------------------------------------------------
// Time
// ---------------------------------------------------------------------------

/// `Instant::now()`. Nothing is promised of the value: it is the clock.
#[verifier::external_body]
pub(crate) fn instant_now() -> std::time::Instant {
    std::time::Instant::now()
}

/// `Instant::elapsed()`, split into whole seconds and the sub-second
/// nanoseconds (`Duration::as_secs`, `Duration::subsec_nanos`). Only the
/// documented bound of the nanoseconds is promised: the value is the clock.
#[verifier::external_body]
pub(crate) fn elapsed_parts(t: &std::time::Instant) -> (r: (u64, u32))
    ensures
        r.1 < 1_000_000_000,
{
    let d = t.elapsed();
    (d.as_secs(), d.subsec_nanos())
}

/// Seconds since the Unix epoch by the system clock
/// (`SystemTime::now().duration_since(UNIX_EPOCH)`, 0 for a clock set before
/// the epoch as `unwrap_or_default` gives). Nothing is promised of the value:
/// it is the clock.
#[verifier::external_body]
pub(crate) fn unix_time_secs() -> u64 {
    std::time::SystemTime::now().duration_since(std::time::UNIX_EPOCH).unwrap_or_default().as_secs()
}

// ---------------------------------------------------------------------------
// Unicode case mapping and classification (std)
// ---------------------------------------------------------------------------

/// Result of std's `str::to_lowercase` on a string.
pub uninterp spec fn unicode_lowercase(s: Seq<char>) -> Seq<char>;

/// Result of std's `char::to_uppercase` on a character, as a string.
pub uninterp spec fn unicode_uppercase(c: char) -> Seq<char>;

/// Result of std's `char::is_alphanumeric`.
pub uninterp spec fn unicode_alphanumeric(c: char) -> bool;

/// ASCII characters.
pub open spec fn is_ascii_char(c: char) -> bool {
    (c as u32) < 128
}

/// ASCII lowercase of a character.
pub open spec fn ascii_lower(c: char) -> char {
    if 'A' <= c <= 'Z' {
        ((c as u32) + 32) as char
    } else {
        c
    }
}

/// ASCII uppercase of a character.
pub open spec fn ascii_upper(c: char) -> char {
    if 'a' <= c <= 'z' {
        ((c as u32) - 32) as char
    } else {
        c
    }
}

/// ASCII letters and digits.
pub open spec fn is_ascii_alnum(c: char) -> bool {
    ('0' <= c <= '9') || ('A' <= c <= 'Z') || ('a' <= c <= 'z')
}

/// std's `str::to_lowercase`. Claims: the result is the Unicode lowercase
/// mapping of the input, and on ASCII input it maps `A`-`Z` to `a`-`z` and
/// leaves every other character alone.
#[verifier::external_body]
pub(crate) fn to_lowercase(s: &str) -> (r: String)
    ensures
        r@ == unicode_lowercase(s@),
        (forall|i: int| 0 <= i < s@.len() ==> is_ascii_char(#[trigger] s@[i])) ==> r@ == s@.map_values(
            |c: char| ascii_lower(c),
        ),
{
    s.to_lowercase()
}

/// std's `char::to_uppercase`, collected into a string. Claims: the result is
/// the Unicode uppercase mapping, and for an ASCII character it is the one
/// character `ascii_upper(c)`.
#[verifier::external_body]
pub(crate) fn char_to_uppercase(c: char) -> (r: String)
    ensures
        r@ == unicode_uppercase(c),
        is_ascii_char(c) ==> r@ == seq![ascii_upper(c)],
{
    c.to_uppercase().collect()
}

/// std's `char::is_alphanumeric`. Claims: the result is the Unicode property,
/// and for ASCII characters it holds exactly of letters and digits.
#[verifier::external_body]
pub(crate) fn is_alphanumeric(c: char) -> (r: bool)
    ensures
        r == unicode_alphanumeric(c),
        is_ascii_char(c) ==> (r <==> is_ascii_alnum(c)),
{
    c.is_alphanumeric()
}

/// std's `String::from_utf8`. Claims what its documentation says: it succeeds
/// exactly on valid UTF-8, and then holds the decoded characters.
#[verifier::external_body]
pub(crate) fn utf8_to_string(bytes: Vec<u8>) -> (r: Option<String>)
    ensures
        r is Some <==> valid_utf8(bytes@),
        r matches Some(s) ==> s@ == decode_utf8(bytes@),
{
    String::from_utf8(bytes).ok()
}

// ---------------------------------------------------------------------------
// Hex and percent encoding
// ---------------------------------------------------------------------------

/// Lowercase hex digit of a value below 16.
pub open spec fn hex_digit_lower(n: int) -> char {
    if n < 10 {
        (48 + n) as char
    } else {
        (87 + n) as char
    }
}

/// Uppercase hex digit of a value below 16.
pub open spec fn hex_digit_upper(n: int) -> char {
    if n < 10 {
        (48 + n) as char
    } else {
        (55 + n) as char
    }
}

/// Two lowercase hex digits per byte, most significant first.
pub open spec fn lower_hex(bytes: Seq<u8>) -> Seq<char>
    decreases bytes.len(),
{
    if bytes.len() == 0 {
        Seq::empty()
    } else {
        lower_hex(bytes.drop_last()) + seq![
            hex_digit_lower(bytes.last() as int / 16),
            hex_digit_lower(bytes.last() as int % 16),
        ]
    }
}

/// `hex::encode`. Claims what its source shows: two lowercase hex digits per
/// byte, in order.
#[verifier::external_body]
pub(crate) fn hex_encode(data: &[u8]) -> (r: String)
    ensures
        r@ == lower_hex(data@),
{
    hex::encode(data)
}

/// Bytes that `urlencoding` leaves as they are.
pub open spec fn url_unreserved(b: u8) -> bool {
    (48 <= b <= 57) || (65 <= b <= 90) || (97 <= b <= 122) || b == 45 || b == 46 || b == 95
        || b == 126
}

/// Percent-encoding of a byte string, as `urlencoding` does it.
pub open spec fn percent_encoded(bytes: Seq<u8>) -> Seq<char>
    decreases bytes.len(),
{
    if bytes.len() == 0 {
        Seq::empty()
    } else {
        let b = bytes.last();
        percent_encoded(bytes.drop_last()) + if url_unreserved(b) {
            seq![b as char]
        } else {
            seq!['%', hex_digit_upper(b as int / 16), hex_digit_upper(b as int % 16)]
        }
    }
}

/// `urlencoding::encode`. Claims what its source shows: every UTF-8 byte of
/// the input that is not an ASCII letter, digit, `-`, `.`, `_` or `~` becomes
/// `%` and two uppercase hex digits; the others are kept.
#[verifier::external_body]
pub(crate) fn url_encode(s: &str) -> (r: String)
    ensures
        r@ == percent_encoded(s.spec_bytes()),
{
    urlencoding::encode(s).into_owned()
}

// ---------------------------------------------------------------------------
// Digests and base64
// ---------------------------------------------------------------------------

/// The MD5 digest of a byte string, as computed by `md5::compute`.
pub uninterp spec fn md5_digest(data: Seq<u8>) -> Seq<u8>;

/// The SHA-256 digest of a byte string, as computed by `sha2::Sha256`.
pub uninterp spec fn sha256_digest(data: Seq<u8>) -> Seq<u8>;

/// What `base64`'s `STANDARD` engine decodes a byte string to (`None` when it
/// refuses it).
pub uninterp spec fn base64_standard_decode(data: Seq<u8>) -> Option<Seq<u8>>;

/// `md5::compute` on the UTF-8 bytes of `s`, formatted with `{:x}`. Claims: the
/// result is the lowercase hex of the digest (32 characters, since the
/// digest is 16 bytes).
#[verifier::external_body]
pub(crate) fn md5_hex(s: &str) -> (r: String)
    ensures
        r@ == lower_hex(md5_digest(s.spec_bytes())),
        r@.len() == 32,
{
    format!("{:x}", md5::compute(s.as_bytes()))
}

/// `sha2::Sha256::digest` on the UTF-8 bytes of `s`, formatted with `{:x}`.
/// Claims: the result is the lowercase hex of the digest (64 characters).
#[verifier::external_body]
pub(crate) fn sha256_hex(s: &str) -> (r: String)
    ensures
        r@ == lower_hex(sha256_digest(s.spec_bytes())),
        r@.len() == 64,
{
    format!("{:x}", sha2::Sha256::digest(s.as_bytes()))
}

/// `base64::engine::general_purpose::STANDARD.decode`. Claims: the result is
/// the named decoding of the input bytes.
#[verifier::external_body]
pub(crate) fn base64_decode(data: &[u8]) -> (r: Option<Vec<u8>>)
    ensures
        match r {
            Some(v) => base64_standard_decode(data@) == Some(v@),
            None => base64_standard_decode(data@) is None,
        },
{
    base64::engine::general_purpose::STANDARD.decode(data).ok()
}

// ---------------------------------------------------------------------------
// Regular expressions
// ---------------------------------------------------------------------------

/// Whether `regex::Regex::new` accepts a pattern.
pub uninterp spec fn regex_valid(pattern: Seq<char>) -> bool;

/// The text of capture group `group` in the leftmost-first match of `pattern`
/// in `text` (`Regex::captures`, then `Captures::get`), if there is a match and
/// the group took part in it.
pub uninterp spec fn regex_capture(pattern: Seq<char>, text: Seq<char>, group: nat) -> Option<
    Seq<char>,
>;

/// Capture group `group` of each successive non-overlapping match of
/// `pattern` in `text` (`Regex::captures_iter`, then `Captures::get`): its
/// text, or `None` when the group did not take part in that match.
pub uninterp spec fn regex_group_per_match(pattern: Seq<char>, text: Seq<char>, group: nat) -> Seq<
    Option<Seq<char>>,
>;

/// The texts among `s`, in order, leaving out the `None`s.
pub open spec fn present_texts(s: Seq<Option<Seq<char>>>) -> Seq<Seq<char>>
    decreases s.len(),
{
    if s.len() == 0 {
        Seq::empty()
    } else {
        let p = present_texts(s.drop_last());
        match s.last() {
            Some(x) => p.push(x),
            None => p,
        }
    }
}

/// The texts of capture group `group` over all successive non-overlapping
/// matches of `pattern` in `text`, skipping matches in which the group did
/// not take part.
pub open spec fn regex_capture_all(pattern: Seq<char>, text: Seq<char>, group: nat) -> Seq<Seq<char>> {
    present_texts(regex_group_per_match(pattern, text, group))
}

/// Optional strings seen through their characters.
pub open spec fn opt_texts(s: Seq<Option<String>>) -> Seq<Option<Seq<char>>> {
    s.map_values(|o: Option<String>| match o {
        Some(x) => Some(x@),
        None => None,
    })
}

/// `regex::Regex::new(pattern).is_ok()`.
#[verifier::external_body]
pub(crate) fn regex_is_valid(pattern: &str) -> (r: bool)
    ensures
        r == regex_valid(pattern@),
{
    regex::Regex::new(pattern).is_ok()
}

/// `Regex::new(pattern)` then `captures(text)` and `get(group)`. Claims: an
/// invalid pattern gives `None`; a valid one gives the named capture.
#[verifier::external_body]
pub(crate) fn regex_capture_group(pattern: &str, text: &str, group: usize) -> (r: Option<String>)
    ensures
        !regex_valid(pattern@) ==> r is None,
        regex_valid(pattern@) ==> match r {
            Some(s) => regex_capture(pattern@, text@, group as nat) == Some(s@),
            None => regex_capture(pattern@, text@, group as nat) is None,
        },
{
    let re = match regex::Regex::new(pattern) {
        Ok(re) => re,
        Err(_) => return None,
    };
    let caps = re.captures(text)?;
    let m = caps.get(group)?;
    Some(m.as_str().to_string())
}

/// `Regex::new(pattern)` then `captures_iter(text)`, with `get(group)` of
/// each match. Claims: an invalid pattern gives nothing; a valid one gives
/// the named list, one entry per match.
#[verifier::external_body]
fn regex_group_matches(pattern: &str, text: &str, group: usize) -> (r: Vec<Option<String>>)
    ensures
        !regex_valid(pattern@) ==> r@.len() == 0,
        regex_valid(pattern@) ==> opt_texts(r@) == regex_group_per_match(pattern@, text@, group as nat),
{
    let mut out = Vec::new();
    if let Ok(re) = regex::Regex::new(pattern) {
        for caps in re.captures_iter(text) {
            out.push(match caps.get(group) {
                Some(m) => Some(m.as_str().to_string()),
                None => None,
            });
        }
    }
    out
}

/// The texts of capture group `group` over all matches of `pattern` in
/// `text`, skipping matches in which the group did not take part; nothing for
/// an invalid pattern.
pub(crate) fn regex_capture_group_all(pattern: &str, text: &str, group: usize) -> (r: Vec<String>)
    ensures
        !regex_valid(pattern@) ==> r@.len() == 0,
        regex_valid(pattern@) ==> r@.map_values(|s: String| s@) == regex_capture_all(
            pattern@,
            text@,
            group as nat,
        ),
{
    let found = regex_group_matches(pattern, text, group);
    let ghost views = opt_texts(found@);
    let mut out: Vec<String> = Vec::new();
    assert(views.take(0) == Seq::<Option<Seq<char>>>::empty());
    for i in 0..found.len()
        invariant
            views == opt_texts(found@),
            out@.map_values(|s: String| s@) == present_texts(views.take(i as int)),
    {
        assert(views.take(i + 1).drop_last() == views.take(i as int));
        assert(views.take(i + 1).last() == views[i as int]);
        match &found[i] {
            Some(t) => {
                let ghost before = out@.map_values(|s: String| s@);
                let c = t.clone();
                out.push(c);
                assert(out@.map_values(|s: String| s@) == before.push(c@));
            },
            None => {},
        }
    }
    assert(views.take(found.len() as int) == views);
    out
}

/// Characters that `regex::escape` prefixes with a backslash.
pub open spec fn is_regex_meta(c: char) -> bool {
    c == '\\' || c == '.' || c == '+' || c == '*' || c == '?' || c == '(' || c == ')' || c == '|'
        || c == '[' || c == ']' || c == '{' || c == '}' || c == '^' || c == '$' || c == '#' || c
        == '&' || c == '-' || c == '~'
}

/// `s` with every regex meta character prefixed by a backslash.
pub open spec fn regex_escaped(s: Seq<char>) -> Seq<char>
    decreases s.len(),
{
    if s.len() == 0 {
        Seq::empty()
    } else {
        regex_escaped(s.drop_last()) + if is_regex_meta(s.last()) {
            seq!['\\', s.last()]
        } else {
            seq![s.last()]
        }
    }
}

/// `regex::escape`. Claims what its source shows: each meta character is
/// preceded by a backslash, everything else is kept.
#[verifier::external_body]
pub(crate) fn regex_escape(s: &str) -> (r: String)
    ensures
        r@ == regex_escaped(s@),
{
    regex::escape(s)
}

// ---------------------------------------------------------------------------
// Dates
// ---------------------------------------------------------------------------

/// The calendar date (year, month, day) that `chrono::NaiveDate::parse_from_str`
/// reads from `text` with format `fmt`, or `None` when it refuses the text.
pub uninterp spec fn parsed_date(text: Seq<char>, fmt: Seq<char>) -> Option<(i32, u32, u32)>;

/// `chrono::NaiveDate::parse_from_str(text, fmt)`, read back as year, month and
/// day. Claims: the result is the named parse.
#[verifier::external_body]
pub(crate) fn parse_date(text: &str, fmt: &str) -> (r: Option<(i32, u32, u32)>)
    ensures
        r == parsed_date(text@, fmt@),
{
    match chrono::NaiveDate::parse_from_str(text, fmt) {
        Ok(d) => Some((d.year(), d.month(), d.day())),
        Err(_) => None,
    }
}

// ---------------------------------------------------------------------------
// Password hashes
// ---------------------------------------------------------------------------

/// The error text of `password_hash::PasswordHash::new(hash)`, or `None` when
/// the hash parses.
pub uninterp spec fn password_hash_error_text(hash: Seq<char>) -> Option<Seq<char>>;

/// Whether `Argon2::default().verify_password` accepts `password` for a
/// parsed `hash`.
pub uninterp spec fn argon2_accepts(password: Seq<char>, hash: Seq<char>) -> bool;

/// `PasswordHash::new(hash)`, with its error turned into text. Claims: the
/// result is the named parse outcome.
#[verifier::external_body]
pub(crate) fn password_hash_error(hash: &str) -> (r: Option<String>)
    ensures
        match r {
            Some(t) => password_hash_error_text(hash@) == Some(t@),
            None => password_hash_error_text(hash@) is None,
        },
{
    match argon2::PasswordHash::new(hash) {
        Ok(_) => None,
        Err(e) => Some(e.to_string()),
    }
}

/// `Argon2::default().verify_password(password, &PasswordHash::new(hash)?)`.
/// Claims: true exactly when the hash parses and the named verification
/// accepts the password.
#[verifier::external_body]
pub(crate) fn password_matches(password: &str, hash: &str) -> (r: bool)
    ensures
        r == (password_hash_error_text(hash@) is None && argon2_accepts(password@, hash@)),
{
    match argon2::PasswordHash::new(hash) {
        Ok(h) => argon2::Argon2::default().verify_password(password.as_bytes(), &h).is_ok(),
        Err(_) => false,
    }
}

// ---------------------------------------------------------------------------
// Login tokens (jsonwebtoken, HS256)
// ---------------------------------------------------------------------------

/// The token `jsonwebtoken::encode` makes, with the default header (HS256),
/// for the claims object `{exp, iat, sub}` signed with the HMAC key
/// `secret`; `None` when encoding fails.
pub uninterp spec fn jwt_encoded(sub: Seq<char>, iat: u64, exp: u64, secret: Seq<char>) -> Option<Seq<char>>;

/// The claims `(sub, iat, exp)` that `jsonwebtoken::decode` reads from
/// `token` with the HMAC key `secret`, accepting HS256 only, requiring `exp`
/// and not comparing it with the clock; `None` when the token, its algorithm,
/// its signature or its claims are refused.
pub uninterp spec fn jwt_decoded(token: Seq<char>, secret: Seq<char>) -> Option<(Seq<char>, u64, u64)>;

/// `jsonwebtoken::encode(&Header::default(), &claims, &EncodingKey::from_secret(secret))`
/// with the claims `sub`, `iat` and `exp`. Claims: the result is the named
/// token, and decoding that token with the same key gives the claims back
/// (HMAC-SHA256 signing and checking with one key, and a JSON object written
/// and read by serde).
#[verifier::external_body]
pub(crate) fn jwt_encode(sub: &str, iat: u64, exp: u64, secret: &str) -> (r: Option<String>)
    ensures
        match r {
            Some(t) => jwt_encoded(sub@, iat, exp, secret@) == Some(t@) && jwt_decoded(t@, secret@) == Some(
                (sub@, iat, exp),
            ),
            None => jwt_encoded(sub@, iat, exp, secret@) is None,
        },
{
    let mut claims = std::collections::BTreeMap::new();
    claims.insert("sub", serde_json::Value::from(sub));
    claims.insert("iat", serde_json::Value::from(iat));
    claims.insert("exp", serde_json::Value::from(exp));
    let key = jsonwebtoken::EncodingKey::from_secret(secret.as_bytes());
    jsonwebtoken::encode(&jsonwebtoken::Header::default(), &claims, &key).ok()
}

/// `jsonwebtoken::decode` of `token` with `DecodingKey::from_secret(secret)`
/// and `Validation::new(HS256)` with `validate_exp` off, then the `sub`
/// (a string), `iat` and `exp` (unsigned integers) of the claims object.
/// Claims: the result is the named decoding.
#[verifier::external_body]
pub(crate) fn jwt_decode(token: &str, secret: &str) -> (r: Option<(String, u64, u64)>)
    ensures
        match r {
            Some(c) => jwt_decoded(token@, secret@) == Some((c.0@, c.1, c.2)),
            None => jwt_decoded(token@, secret@) is None,
        },
{
    let mut validation = jsonwebtoken::Validation::new(jsonwebtoken::Algorithm::HS256);
    validation.validate_exp = false;
    let key = jsonwebtoken::DecodingKey::from_secret(secret.as_bytes());
    let data = jsonwebtoken::decode::<std::collections::BTreeMap<String, serde_json::Value>>(token, &key, &validation).ok()?;
    let sub = data.claims.get("sub")?.as_str()?.to_string();
    let iat = data.claims.get("iat")?.as_u64()?;
    let exp = data.claims.get("exp")?.as_u64()?;
    Some((sub, iat, exp))
}

// ---------------------------------------------------------------------------
// The track-metadata cache (a `DashMap` keyed by track id)
// ---------------------------------------------------------------------------

/// The track-metadata cache: a concurrent map from track id to metadata.
pub type MetadataCache = dashmap::DashMap<String, TrackMetadata>;

/// The entries of the track-metadata cache, keyed by the characters of the
/// track id, each entry seen through its view.
pub uninterp spec fn cache_contents(cache: MetadataCache) -> Map<
    Seq<char>,
    TrackView,
>;

/// `DashMap::get(key)`, cloning the entry out. Claims: the entry for `key`
/// when there is one, `None` otherwise.
#[verifier::external_body]
pub(crate) fn cache_get(cache: &MetadataCache, key: &str) -> (r: Option<
    TrackMetadata,
>)
    ensures
        match r {
            Some(m) => cache_contents(*cache).contains_key(key@) && cache_contents(*cache)[key@]
                == m@,
            None => !cache_contents(*cache).contains_key(key@),
        },
{
    match cache.get(key) {
        Some(entry) => Some(entry.value().clone()),
        None => None,
    }
}

/// `DashMap::insert(key, value)`. Claims: afterwards `key` maps to `value`
/// and every other entry is unchanged.
#[verifier::external_body]
pub(crate) fn cache_insert(cache: &mut MetadataCache, key: String, value: TrackMetadata)
    ensures
        cache_contents(*final(cache)) == cache_contents(*old(cache)).insert(key@, value@),
{
    cache.insert(key, value);
}

} // verus!
