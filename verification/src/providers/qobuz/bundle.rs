//! Reading the Qobuz application credentials out of the web player's
//! JavaScript bundle.
use vstd::prelude::*;
use vstd::string::StringSliceAdditionalSpecFns;
use vstd::utf8::{decode_utf8, encode_utf8, valid_utf8};

use crate::bindings::{
    base64_decode, base64_standard_decode, char_to_uppercase, hex_encode, lower_hex, regex_capture,
    regex_capture_all, regex_capture_group, regex_capture_group_all, regex_escape, regex_escaped,
    regex_is_valid, regex_valid, unicode_uppercase, utf8_to_string,
};
use crate::errors::AppError;
use crate::state::strings_view;
use crate::text::{chars_of, concat2, concat3, owned, parse_unsigned, parse_unsigned_str, slice_string};

verus! {

/// The address of the Qobuz web player.
pub const PLAYER_URL: &'static str = "https://play.qobuz.com";

/// Where the login page names its bundle.
pub const BUNDLE_PATH_PATTERN: &'static str = r#"<script src="(/resources/\d+\.\d+\.\d+-[a-z]\d{3}/bundle\.js)"#;

/// The production `appId` of the bundle's configuration.
pub const APP_ID_PRIMARY: &'static str = r#"production:\{api:\{appId:"([^"]*)""#;

pub const APP_ID_FALLBACK_1: &'static str = r#"ext_app_id["\s:=,]+(\d{7,10})"#;

pub const APP_ID_FALLBACK_2: &'static str = r#"app_id["\s:=,]+["'](\d{7,10})["']"#;

pub const APP_ID_FALLBACK_3: &'static str = r#""appId"\s*:\s*"(\d{7,10})""#;

pub const APP_ID_FALLBACK_4: &'static str = r#"appId\s*=\s*["'](\d{7,10})["']"#;

pub const PRIVATE_KEY_1: &'static str = r#"private_key["\s:=,]+["']([A-Za-z0-9]{8,20})["']"#;

pub const PRIVATE_KEY_2: &'static str = r#"privateKey["\s:=,]+["']([A-Za-z0-9]{8,20})["']"#;

pub const PRIVATE_KEY_3: &'static str = r#""privateKey"\s*:\s*"([A-Za-z0-9]{8,20})""#;

pub const PRIVATE_KEY_4: &'static str = r#"privateKey\s*=\s*["']([A-Za-z0-9]{8,20})["']"#;

/// The seed and time zone that the bundle's secret is built from.
pub const SEED_PATTERN: &'static str = r#"\):[a-z]\.initialSeed\("(?P<seed>.*?)",window\.utimezone\.(?P<timezone>[a-z]+)\)"#;

pub const INFO_PATTERN: &'static str = r#"info:"([^"]*)""#;

pub const EXTRAS_PATTERN: &'static str = r#"extras:"([^"]*)""#;

/// Base64 strings of 44 characters, quoted.
pub const BASE64_SECRET_PATTERN: &'static str = r#"["']([A-Za-z0-9+/]{44}={0,2})["']"#;

/// Hex strings of 32 characters.
pub const HEX_SECRET_PATTERN: &'static str = r#"\b([a-f0-9]{32})\b"#;

/// The application credentials of the Qobuz web player.
#[derive(Clone, Debug)]
pub struct QobuzCredentials {
    pub app_id: String,
    pub private_key: String,
    /// Candidate secrets, to be validated later.
    pub app_secret: Vec<String>,
}

/// Number of UTF-8 bytes of a text (what `str::len` counts).
pub open spec fn byte_len(s: Seq<char>) -> nat {
    encode_utf8(s).len()
}

/// The texts of capture group 1 of a set of patterns, tried in order.
pub open spec fn first_app_id(bundle: Seq<char>, patterns: Seq<Seq<char>>) -> Option<Seq<char>>
    decreases patterns.len(),
{
    if patterns.len() == 0 {
        None
    } else {
        match regex_capture(patterns[0], bundle, 1) {
            Some(id) => if 7 <= byte_len(id) <= 10 && parse_unsigned(id, u64::MAX as nat) is Some {
                Some(id)
            } else {
                first_app_id(bundle, patterns.drop_first())
            },
            None => first_app_id(bundle, patterns.drop_first()),
        }
    }
}

/// The fallback `app_id` patterns.
pub open spec fn app_id_fallbacks() -> Seq<Seq<char>> {
    seq![APP_ID_FALLBACK_1@, APP_ID_FALLBACK_2@, APP_ID_FALLBACK_3@, APP_ID_FALLBACK_4@]
}

/// The `app_id` of a bundle: the non-empty production `appId`, else the first
/// fallback pattern whose capture is 7 to 10 bytes long and reads as a `u64`.
/// Nothing when a pattern does not compile.
pub open spec fn app_id_of(bundle: Seq<char>) -> Option<Seq<char>> {
    if !regex_valid(APP_ID_PRIMARY@) {
        None
    } else {
        match regex_capture(APP_ID_PRIMARY@, bundle, 1) {
            Some(id) if id.len() > 0 => Some(id),
            _ => if !(regex_valid(APP_ID_FALLBACK_1@) && regex_valid(APP_ID_FALLBACK_2@) && regex_valid(
                APP_ID_FALLBACK_3@,
            ) && regex_valid(APP_ID_FALLBACK_4@)) {
                None
            } else {
                first_app_id(bundle, app_id_fallbacks())
            },
        }
    }
}

/// Tries one fallback pattern for the `app_id`.
fn try_app_id(pattern: &str, bundle: &str) -> (r: Option<String>)
    ensures
        regex_valid(pattern@) ==> match r {
            Some(id) => regex_capture(pattern@, bundle@, 1) == Some(id@) && 7 <= byte_len(id@) <= 10
                && parse_unsigned(id@, u64::MAX as nat) is Some,
            None => !(regex_capture(pattern@, bundle@, 1) matches Some(id) && 7 <= byte_len(id) <= 10
                && parse_unsigned(id, u64::MAX as nat) is Some),
        },
{
    match regex_capture_group(pattern, bundle, 1) {
        Some(id) => {
            let n = id.as_str().as_bytes().len();
            if 7 <= n && n <= 10 && parse_unsigned_str(id.as_str(), u64::MAX).is_some() {
                Some(id)
            } else {
                None
            }
        },
        None => None,
    }
}

/// Finds the application id in a bundle.
pub fn find_app_id(bundle: &str) -> (r: Option<String>)
    ensures
        match r {
            Some(id) => app_id_of(bundle@) == Some(id@),
            None => app_id_of(bundle@) is None,
        },
{
    proof {
        reveal_with_fuel(first_app_id, 5);
    }
    if !regex_is_valid(APP_ID_PRIMARY) {
        return None;
    }
    if let Some(id) = regex_capture_group(APP_ID_PRIMARY, bundle, 1) {
        if !id.as_str().is_empty() {
            return Some(id);
        }
    }
    if !(regex_is_valid(APP_ID_FALLBACK_1) && regex_is_valid(APP_ID_FALLBACK_2) && regex_is_valid(
        APP_ID_FALLBACK_3,
    ) && regex_is_valid(APP_ID_FALLBACK_4)) {
        return None;
    }
    let ghost p = app_id_fallbacks();
    assert(p.drop_first() == seq![APP_ID_FALLBACK_2@, APP_ID_FALLBACK_3@, APP_ID_FALLBACK_4@]);
    assert(p.drop_first().drop_first() == seq![APP_ID_FALLBACK_3@, APP_ID_FALLBACK_4@]);
    assert(p.drop_first().drop_first().drop_first() == seq![APP_ID_FALLBACK_4@]);
    assert(p.drop_first().drop_first().drop_first().drop_first() == Seq::<Seq<char>>::empty());
    if let Some(id) = try_app_id(APP_ID_FALLBACK_1, bundle) {
        return Some(id);
    }
    if let Some(id) = try_app_id(APP_ID_FALLBACK_2, bundle) {
        return Some(id);
    }
    if let Some(id) = try_app_id(APP_ID_FALLBACK_3, bundle) {
        return Some(id);
    }
    if let Some(id) = try_app_id(APP_ID_FALLBACK_4, bundle) {
        return Some(id);
    }
    None
}

/// The private key patterns.
pub open spec fn private_key_patterns() -> Seq<Seq<char>> {
    seq![PRIVATE_KEY_1@, PRIVATE_KEY_2@, PRIVATE_KEY_3@, PRIVATE_KEY_4@]
}

/// The first pattern's capture of 8 to 20 bytes.
pub open spec fn first_private_key(bundle: Seq<char>, patterns: Seq<Seq<char>>) -> Option<Seq<char>>
    decreases patterns.len(),
{
    if patterns.len() == 0 {
        None
    } else {
        match regex_capture(patterns[0], bundle, 1) {
            Some(k) => if 8 <= byte_len(k) <= 20 {
                Some(k)
            } else {
                first_private_key(bundle, patterns.drop_first())
            },
            None => first_private_key(bundle, patterns.drop_first()),
        }
    }
}

/// The private key of a bundle: the first pattern's capture of 8 to 20
/// bytes. Nothing when a pattern does not compile.
pub open spec fn private_key_of(bundle: Seq<char>) -> Option<Seq<char>> {
    if !(regex_valid(PRIVATE_KEY_1@) && regex_valid(PRIVATE_KEY_2@) && regex_valid(PRIVATE_KEY_3@)
        && regex_valid(PRIVATE_KEY_4@)) {
        None
    } else {
        first_private_key(bundle, private_key_patterns())
    }
}

/// Tries one private key pattern.
fn try_private_key(pattern: &str, bundle: &str) -> (r: Option<String>)
    ensures
        regex_valid(pattern@) ==> match r {
            Some(k) => regex_capture(pattern@, bundle@, 1) == Some(k@) && 8 <= byte_len(k@) <= 20,
            None => !(regex_capture(pattern@, bundle@, 1) matches Some(k) && 8 <= byte_len(k) <= 20),
        },
{
    match regex_capture_group(pattern, bundle, 1) {
        Some(k) => {
            let n = k.as_str().as_bytes().len();
            if 8 <= n && n <= 20 {
                Some(k)
            } else {
                None
            }
        },
        None => None,
    }
}

/// Finds the private key in a bundle.
pub fn find_private_key(bundle: &str) -> (r: Option<String>)
    ensures
        match r {
            Some(k) => private_key_of(bundle@) == Some(k@),
            None => private_key_of(bundle@) is None,
        },
{
    if !(regex_is_valid(PRIVATE_KEY_1) && regex_is_valid(PRIVATE_KEY_2) && regex_is_valid(PRIVATE_KEY_3)
        && regex_is_valid(PRIVATE_KEY_4)) {
        return None;
    }
    proof {
        reveal_with_fuel(first_private_key, 5);
    }
    let ghost p = private_key_patterns();
    assert(p.drop_first() == seq![PRIVATE_KEY_2@, PRIVATE_KEY_3@, PRIVATE_KEY_4@]);
    assert(p.drop_first().drop_first() == seq![PRIVATE_KEY_3@, PRIVATE_KEY_4@]);
    assert(p.drop_first().drop_first().drop_first() == seq![PRIVATE_KEY_4@]);
    assert(p.drop_first().drop_first().drop_first().drop_first() == Seq::<Seq<char>>::empty());
    if let Some(k) = try_private_key(PRIVATE_KEY_1, bundle) {
        return Some(k);
    }
    if let Some(k) = try_private_key(PRIVATE_KEY_2, bundle) {
        return Some(k);
    }
    if let Some(k) = try_private_key(PRIVATE_KEY_3, bundle) {
        return Some(k);
    }
    if let Some(k) = try_private_key(PRIVATE_KEY_4, bundle) {
        return Some(k);
    }
    None
}

/// `s` with its first character replaced by that character's uppercase form.
pub open spec fn capitalized(s: Seq<char>) -> Seq<char> {
    if s.len() == 0 {
        Seq::empty()
    } else {
        unicode_uppercase(s[0]) + s.drop_first()
    }
}

/// Uppercases the first character of a string.
pub fn capitalize_first_letter(s: &str) -> (r: String)
    ensures
        r@ == capitalized(s@),
{
    let v = chars_of(s);
    if v.len() == 0 {
        return String::new();
    }
    let mut r = char_to_uppercase(v[0]);
    let rest = slice_string(v.as_slice(), 1, v.len());
    r.append(rest.as_str());
    assert(v@.subrange(1, v@.len() as int) == s@.drop_first());
    r
}

/// ASCII hex digits.
pub open spec fn is_hex_char(c: char) -> bool {
    ('0' <= c <= '9') || ('a' <= c <= 'f') || ('A' <= c <= 'F')
}

/// A secret as the old method decodes it: valid UTF-8 of 32 bytes, all hex.
pub open spec fn decoded_secret(bytes: Seq<u8>) -> Option<Seq<char>> {
    if valid_utf8(bytes) {
        let s = decode_utf8(bytes);
        if byte_len(s) == 32 && (forall|i: int| 0 <= i < s.len() ==> is_hex_char(#[trigger] s[i])) {
            Some(s)
        } else {
            None
        }
    } else {
        None
    }
}

/// The pattern that finds the time zone object of the bundle.
pub open spec fn info_extras_pattern(timezone: Seq<char>) -> Seq<char> {
    "name:\"[^\"]*/"@ + regex_escaped(capitalized(timezone)) + "\"[^}]*"@
}

/// A capture group's text, or empty.
pub open spec fn capture_or_empty(pattern: Seq<char>, text: Seq<char>, group: nat) -> Seq<char> {
    if regex_valid(pattern) {
        match regex_capture(pattern, text, group) {
            Some(t) => t,
            None => Seq::empty(),
        }
    } else {
        Seq::empty()
    }
}

/// The secret the seed, info and extras of the bundle decode to (the old,
/// proven method), if any.
pub open spec fn seeded_secret(bundle: Seq<char>) -> Option<Seq<char>> {
    if regex_valid(SEED_PATTERN@) && regex_capture(SEED_PATTERN@, bundle, 0) is Some {
        let seed = capture_or_empty(SEED_PATTERN@, bundle, 1);
        let timezone = capture_or_empty(SEED_PATTERN@, bundle, 2);
        let pattern = info_extras_pattern(timezone);
        if regex_valid(pattern) && regex_capture(pattern, bundle, 0) is Some {
            let obj = regex_capture(pattern, bundle, 0)->0;
            let b64 = encode_utf8(seed + capture_or_empty(INFO_PATTERN@, obj, 1) + capture_or_empty(
                EXTRAS_PATTERN@,
                obj,
                1,
            ));
            if b64.len() > 44 {
                match base64_standard_decode(b64.take(b64.len() - 44)) {
                    Some(bytes) => decoded_secret(bytes),
                    None => None,
                }
            } else {
                None
            }
        } else {
            None
        }
    } else {
        None
    }
}

/// `s` without repeated texts: each text kept at its first occurrence.
pub open spec fn dedup(s: Seq<Seq<char>>) -> Seq<Seq<char>>
    decreases s.len(),
{
    if s.len() == 0 {
        Seq::empty()
    } else if s.drop_last().contains(s.last()) {
        dedup(s.drop_last())
    } else {
        dedup(s.drop_last()).push(s.last())
    }
}

/// Removing repeats keeps each text once: the result never repeats a text,
/// and holds exactly the texts of the input.
pub proof fn lemma_dedup(s: Seq<Seq<char>>)
    ensures
        forall|j: int, k: int| 0 <= j < k < dedup(s).len() ==> #[trigger] dedup(s)[j] != #[trigger] dedup(s)[k],
        forall|t: Seq<char>| #[trigger] dedup(s).contains(t) <==> s.contains(t),
    decreases s.len(),
{
    if s.len() > 0 {
        let p = s.drop_last();
        let x = s.last();
        lemma_dedup(p);
        let d = dedup(p);
        if p.contains(x) {
            assert forall|t: Seq<char>| #[trigger] dedup(s).contains(t) <==> s.contains(t) by {
                if s.contains(t) {
                    let j = choose|j: int| 0 <= j < s.len() && s[j] == t;
                    if j < s.len() - 1 {
                        assert(p[j] == s[j]);
                    }
                }
                if p.contains(t) {
                    let j = choose|j: int| 0 <= j < p.len() && p[j] == t;
                    assert(s[j] == p[j]);
                }
            }
        } else {
            let e = d.push(x);
            assert forall|j: int, k: int| 0 <= j < k < e.len() implies #[trigger] e[j] != #[trigger] e[k] by {
                if k == d.len() {
                    assert(e[j] == d[j]);
                    assert(d.contains(d[j]));
                } else {
                    assert(e[j] == d[j] && e[k] == d[k]);
                }
            }
            assert forall|t: Seq<char>| #[trigger] e.contains(t) <==> s.contains(t) by {
                if e.contains(t) {
                    let j = choose|j: int| 0 <= j < e.len() && e[j] == t;
                    if j < d.len() {
                        assert(e[j] == d[j]);
                        assert(d.contains(t));
                        let i = choose|i: int| 0 <= i < p.len() && p[i] == t;
                        assert(s[i] == p[i]);
                    } else {
                        assert(s[s.len() - 1] == t);
                    }
                }
                if s.contains(t) {
                    let j = choose|j: int| 0 <= j < s.len() && s[j] == t;
                    if j < s.len() - 1 {
                        assert(p[j] == s[j]);
                        assert(p.contains(t));
                        assert(dedup(p).contains(t));
                        let i = choose|i: int| 0 <= i < d.len() && d[i] == t;
                        assert(e[i] == d[i]);
                    } else {
                        assert(e[d.len() as int] == t);
                    }
                }
            }
        }
    }
}

/// The secret candidates of a bundle never repeat one another.
pub proof fn lemma_app_secrets_distinct(bundle: Seq<char>)
    ensures
        forall|j: int, k: int|
            0 <= j < k < app_secrets_of(bundle).len() ==> #[trigger] app_secrets_of(bundle)[j] != #[trigger] app_secrets_of(bundle)[k],
{
    if regex_valid(BASE64_SECRET_PATTERN@) {
        lemma_dedup(
            crate::json::filter_map(
                regex_capture_all(BASE64_SECRET_PATTERN@, bundle, 1),
                |t: Seq<char>| hex_of_base64(t),
            ),
        );
    }
    if regex_valid(HEX_SECRET_PATTERN@) {
        lemma_dedup(regex_capture_all(HEX_SECRET_PATTERN@, bundle, 1));
    }
}

/// A base64 candidate that decodes to 32 bytes, written in lowercase hex.
pub open spec fn hex_of_base64(text: Seq<char>) -> Option<Seq<char>> {
    match base64_standard_decode(encode_utf8(text)) {
        Some(bytes) => if bytes.len() == 32 {
            Some(lower_hex(bytes))
        } else {
            None
        },
        None => None,
    }
}

/// Candidates written in hex, from every base64 string of the bundle that
/// decodes to 32 bytes, without repeats.
pub open spec fn base64_secrets(bundle: Seq<char>) -> Seq<Seq<char>> {
    if regex_valid(BASE64_SECRET_PATTERN@) {
        dedup(
            crate::json::filter_map(
                regex_capture_all(BASE64_SECRET_PATTERN@, bundle, 1),
                |t: Seq<char>| hex_of_base64(t),
            ),
        )
    } else {
        Seq::empty()
    }
}

/// Candidates from every 32-character hex word of the bundle, without repeats.
pub open spec fn hex_secrets(bundle: Seq<char>) -> Seq<Seq<char>> {
    if regex_valid(HEX_SECRET_PATTERN@) {
        dedup(regex_capture_all(HEX_SECRET_PATTERN@, bundle, 1))
    } else {
        Seq::empty()
    }
}

/// The secret candidates of a bundle: the seeded secret alone if there is
/// one, else the base64 candidates if there are any, else the hex ones.
pub open spec fn app_secrets_of(bundle: Seq<char>) -> Seq<Seq<char>> {
    match seeded_secret(bundle) {
        Some(s) => seq![s],
        None => if base64_secrets(bundle).len() > 0 {
            base64_secrets(bundle)
        } else {
            hex_secrets(bundle)
        },
    }
}

/// A capture group's text, or empty.
fn capture_or_empty_exec(pattern: &str, text: &str, group: usize) -> (r: String)
    ensures
        r@ == capture_or_empty(pattern@, text@, group as nat),
{
    match regex_capture_group(pattern, text, group) {
        Some(t) => t,
        None => String::new(),
    }
}

/// Whether every character of `s` is a hex digit.
fn all_hex(s: &str) -> (r: bool)
    ensures
        r == (forall|i: int| 0 <= i < s@.len() ==> is_hex_char(#[trigger] s@[i])),
{
    let v = chars_of(s);
    for i in 0..v.len()
        invariant
            v@ == s@,
            forall|j: int| 0 <= j < i ==> is_hex_char(#[trigger] s@[j]),
    {
        let c = v[i];
        if !(('0' <= c && c <= '9') || ('a' <= c && c <= 'f') || ('A' <= c && c <= 'F')) {
            assert(!is_hex_char(s@[i as int]));
            return false;
        }
    }
    true
}

/// The seeded secret of a bundle.
fn find_seeded_secret(bundle: &str) -> (r: Option<String>)
    ensures
        match r {
            Some(s) => seeded_secret(bundle@) == Some(s@),
            None => seeded_secret(bundle@) is None,
        },
{
    if !regex_is_valid(SEED_PATTERN) {
        return None;
    }
    if regex_capture_group(SEED_PATTERN, bundle, 0).is_none() {
        return None;
    }
    let seed = capture_or_empty_exec(SEED_PATTERN, bundle, 1);
    let timezone = capture_or_empty_exec(SEED_PATTERN, bundle, 2);
    let title_case = capitalize_first_letter(timezone.as_str());
    let escaped = regex_escape(title_case.as_str());
    let pattern = concat3("name:\"[^\"]*/", escaped.as_str(), "\"[^}]*");
    assert(pattern@ == info_extras_pattern(timezone@));
    if !regex_is_valid(pattern.as_str()) {
        return None;
    }
    let obj = match regex_capture_group(pattern.as_str(), bundle, 0) {
        Some(o) => o,
        None => {
            return None;
        },
    };
    let info = capture_or_empty_exec(INFO_PATTERN, obj.as_str(), 1);
    let extras = capture_or_empty_exec(EXTRAS_PATTERN, obj.as_str(), 1);
    let mut b64 = seed;
    b64.append(info.as_str());
    b64.append(extras.as_str());
    let bytes = b64.as_str().as_bytes();
    assert(bytes@ == encode_utf8(b64@));
    if bytes.len() <= 44 {
        return None;
    }
    let cut = bytes.len() - 44;
    let mut prefix: Vec<u8> = Vec::new();
    for i in 0..cut
        invariant
            cut <= bytes@.len(),
            prefix@ == bytes@.take(i as int),
    {
        prefix.push(bytes[i]);
        assert(prefix@ =~= bytes@.take(i + 1));
    }
    let decoded = match base64_decode(prefix.as_slice()) {
        Some(d) => d,
        None => {
            return None;
        },
    };
    let secret = match utf8_to_string(decoded) {
        Some(s) => s,
        None => {
            return None;
        },
    };
    if secret.as_str().as_bytes().len() == 32 && all_hex(secret.as_str()) {
        Some(secret)
    } else {
        None
    }
}

/// Whether `s` is in `v`.
fn contains_string(v: &Vec<String>, s: &String) -> (r: bool)
    ensures
        r == strings_view(v@).contains(s@),
{
    let ghost vv = strings_view(v@);
    for i in 0..v.len()
        invariant
            vv == strings_view(v@),
            forall|j: int| 0 <= j < i ==> vv[j] != s@,
    {
        if v[i] == *s {
            assert(vv[i as int] == s@);
            return true;
        }
    }
    false
}

/// Keeps the first occurrence of each text.
fn dedup_strings(v: Vec<String>) -> (r: Vec<String>)
    ensures
        strings_view(r@) == dedup(strings_view(v@)),
{
    let ghost vv = strings_view(v@);
    let mut out: Vec<String> = Vec::new();
    for i in 0..v.len()
        invariant
            vv == strings_view(v@),
            strings_view(out@) == dedup(vv.take(i as int)),
            forall|t: Seq<char>|
                #![trigger strings_view(out@).contains(t)]
                #![trigger vv.take(i as int).contains(t)]
                strings_view(out@).contains(t) <==> vv.take(i as int).contains(t),
    {
        let ghost before = strings_view(out@);
        assert(vv.take(i + 1).drop_last() == vv.take(i as int));
        assert(vv.take(i + 1).last() == vv[i as int]);
        let s = v[i].clone();
        if !contains_string(&out, &s) {
            out.push(s);
            assert(strings_view(out@) == before.push(vv[i as int]));
        }
        assert forall|t: Seq<char>|
            #![trigger strings_view(out@).contains(t)]
            #![trigger vv.take(i + 1).contains(t)]
            strings_view(out@).contains(t) <==> vv.take(i + 1).contains(t) by {
            let now = strings_view(out@);
            if now.contains(t) {
                if before.contains(t) {
                    assert(vv.take(i as int).contains(t));
                    let k = choose|k: int| 0 <= k < i && #[trigger] vv.take(i as int)[k] == t;
                    assert(vv.take(i + 1)[k] == t);
                } else {
                    let k = choose|k: int| 0 <= k < now.len() && #[trigger] now[k] == t;
                    if k < before.len() {
                        assert(before[k] == t);
                    }
                    assert(t == vv[i as int]);
                    assert(vv.take(i + 1)[i as int] == t);
                }
            }
            if vv.take(i + 1).contains(t) {
                let k = choose|k: int| 0 <= k < i + 1 && #[trigger] vv.take(i + 1)[k] == t;
                if k < i {
                    assert(vv.take(i as int)[k] == t);
                    assert(vv.take(i as int).contains(t));
                    assert(before.contains(t));
                    let m = choose|m: int| 0 <= m < before.len() && #[trigger] before[m] == t;
                    assert(now[m] == t);
                } else {
                    assert(t == vv[i as int]);
                    if before.contains(t) {
                        let m = choose|m: int| 0 <= m < before.len() && #[trigger] before[m] == t;
                        assert(now[m] == t);
                    } else {
                        assert(now[before.len() as int] == t);
                    }
                }
            }
        }
    }
    assert(vv.take(v.len() as int) == vv);
    out
}

/// The base64 candidates of a bundle.
fn find_base64_secrets(bundle: &str) -> (r: Vec<String>)
    ensures
        strings_view(r@) == base64_secrets(bundle@),
{
    if !regex_is_valid(BASE64_SECRET_PATTERN) {
        return Vec::new();
    }
    let found = regex_capture_group_all(BASE64_SECRET_PATTERN, bundle, 1);
    let ghost fv = strings_view(found@);
    let ghost f = |t: Seq<char>| hex_of_base64(t);
    let mut hexes: Vec<String> = Vec::new();
    for i in 0..found.len()
        invariant
            fv == strings_view(found@),
            f == (|t: Seq<char>| hex_of_base64(t)),
            strings_view(hexes@) == crate::json::filter_map(fv.take(i as int), f),
    {
        proof {
            crate::json::lemma_filter_map_step(fv, f, i as int);
        }
        let ghost before = strings_view(hexes@);
        if let Some(bytes) = base64_decode(found[i].as_str().as_bytes()) {
            if bytes.len() == 32 {
                let h = hex_encode(bytes.as_slice());
                hexes.push(h);
                assert(strings_view(hexes@) == before.push(h@));
            }
        }
    }
    assert(fv.take(found.len() as int) == fv);
    dedup_strings(hexes)
}

/// The hex candidates of a bundle.
fn find_hex_secrets(bundle: &str) -> (r: Vec<String>)
    ensures
        strings_view(r@) == hex_secrets(bundle@),
{
    if !regex_is_valid(HEX_SECRET_PATTERN) {
        return Vec::new();
    }
    let found = regex_capture_group_all(HEX_SECRET_PATTERN, bundle, 1);
    dedup_strings(found)
}

/// Finds the candidate secrets in a bundle.
pub fn find_app_secrets(bundle: &str) -> (r: Vec<String>)
    ensures
        strings_view(r@) == app_secrets_of(bundle@),
{
    if let Some(s) = find_seeded_secret(bundle) {
        let mut v: Vec<String> = Vec::new();
        v.push(s);
        assert(strings_view(v@) == seq![s@]);
        return v;
    }
    let b = find_base64_secrets(bundle);
    if b.len() > 0 {
        return b;
    }
    find_hex_secrets(bundle)
}

/// The credentials of a bundle, or which part could not be found.
pub fn credentials_from_bundle(bundle: &str) -> (r: Result<QobuzCredentials, AppError>)
    ensures
        match (app_id_of(bundle@), private_key_of(bundle@)) {
            (Some(id), Some(key)) => if app_secrets_of(bundle@).len() > 0 {
                r matches Ok(c) && c.app_id@ == id && c.private_key@ == key
                    && strings_view(c.app_secret@) == app_secrets_of(bundle@)
            } else {
                r matches Err(e) && e matches AppError::Qobuz(m) && m@
                    == "Could not find app_secret candidates in bundle"@
            },
            (None, _) => r matches Err(e) && e matches AppError::Qobuz(m) && m@
                == "Could not find app_id in bundle"@,
            (Some(_), None) => r matches Err(e) && e matches AppError::Qobuz(m) && m@
                == "Could not find private_key in bundle"@,
        },
{
    let app_id = match find_app_id(bundle) {
        Some(id) => id,
        None => {
            return Err(AppError::Qobuz(owned("Could not find app_id in bundle")));
        },
    };
    let private_key = match find_private_key(bundle) {
        Some(k) => k,
        None => {
            return Err(AppError::Qobuz(owned("Could not find private_key in bundle")));
        },
    };
    let app_secret = find_app_secrets(bundle);
    if app_secret.len() == 0 {
        return Err(AppError::Qobuz(owned("Could not find app_secret candidates in bundle")));
    }
    Ok(QobuzCredentials { app_id, private_key, app_secret })
}

/// The bundle path that a login page names, or why it cannot be had.
pub fn bundle_path_from_login_page(page: &str) -> (r: Result<String, AppError>)
    ensures
        !regex_valid(BUNDLE_PATH_PATTERN@) ==> (r matches Err(e) && e matches AppError::Internal(m) && m@
            == "Bundle regex compilation failed"@),
        regex_valid(BUNDLE_PATH_PATTERN@) ==> match (
            regex_capture(BUNDLE_PATH_PATTERN@, page@, 0),
            regex_capture(BUNDLE_PATH_PATTERN@, page@, 1),
        ) {
            (None, _) => r matches Err(e) && e matches AppError::Qobuz(m) && m@
                == "Could not find bundle.js path in login page"@,
            (Some(_), None) => r matches Err(e) && e matches AppError::Qobuz(m) && m@
                == "Could not extract bundle.js path"@,
            (Some(_), Some(p)) => r matches Ok(s) && s@ == p,
        },
{
    if !regex_is_valid(BUNDLE_PATH_PATTERN) {
        return Err(AppError::Internal(owned("Bundle regex compilation failed")));
    }
    if regex_capture_group(BUNDLE_PATH_PATTERN, page, 0).is_none() {
        return Err(AppError::Qobuz(owned("Could not find bundle.js path in login page")));
    }
    match regex_capture_group(BUNDLE_PATH_PATTERN, page, 1) {
        Some(p) => Ok(p),
        None => Err(AppError::Qobuz(owned("Could not extract bundle.js path"))),
    }
}

/// The URL of the bundle at `path` on the web player.
pub fn bundle_url(path: &str) -> (r: String)
    ensures
        r@ == PLAYER_URL@ + path@,
{
    concat2(PLAYER_URL, path)
}

/// The URL of the web player's login page.
pub fn login_page_url() -> (r: String)
    ensures
        r@ == PLAYER_URL@ + "/login"@,
{
    concat2(PLAYER_URL, "/login")
}

} // verus!
