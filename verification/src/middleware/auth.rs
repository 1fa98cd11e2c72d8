//! The password protection of the service: which requests pass, and the key
//! that login tokens are signed with.
use vstd::prelude::*;

use crate::bindings::{jwt_decode, jwt_decoded, lower_hex, sha256_digest, sha256_hex};
use crate::text::{chars_of, concat2, has_prefix, owned, slice_string, str_starts_with};
use vstd::string::StringSliceAdditionalSpecFns;
use vstd::utf8::encode_utf8;

verus! {

/// What happens to a request at the door.
#[derive(Clone, Debug)]
pub enum GateDecision {
    /// The request goes through.
    Allow,
    /// The request is answered 401 with this error text.
    Reject(String),
    /// The request goes through if this bearer token is valid.
    Verify(String),
}

/// The answer to a request without a usable `Authorization` header.
pub open spec fn missing_header_message() -> Seq<char> {
    "Missing or invalid Authorization header"@
}

/// The first look at a request: without a configured password everything
/// passes; otherwise the request needs an `Authorization: Bearer <token>`
/// header, whose token is then checked.
pub fn auth_gate(has_password: bool, authorization: Option<&str>) -> (r: GateDecision)
    ensures
        !has_password ==> r is Allow,
        has_password ==> match authorization {
            Some(h) => if has_prefix(h@, "Bearer "@) {
                r matches GateDecision::Verify(t) && t@ == h@.skip(7)
            } else {
                r matches GateDecision::Reject(m) && m@ == missing_header_message()
            },
            None => r matches GateDecision::Reject(m) && m@ == missing_header_message(),
        },
{
    if !has_password {
        return GateDecision::Allow;
    }
    match authorization {
        Some(h) => {
            if str_starts_with(h, "Bearer ") {
                proof {
                    reveal_strlit("Bearer ");
                }
                let v = chars_of(h);
                let token = slice_string(v.as_slice(), 7, v.len());
                assert(v@.subrange(7, v@.len() as int) == h@.skip(7));
                GateDecision::Verify(token)
            } else {
                GateDecision::Reject(owned("Missing or invalid Authorization header"))
            }
        },
        None => GateDecision::Reject(owned("Missing or invalid Authorization header")),
    }
}

/// A login token carried as `Authorization: Bearer <token>` reaches the
/// token check whole: with a password set, `auth_gate` answers `Verify` with
/// exactly that token (and `token_verdict` lets the request through when the
/// token is found valid).
pub proof fn lemma_bearer_token_reaches_check(token: Seq<char>)
    ensures
        has_prefix("Bearer "@ + token, "Bearer "@),
        ("Bearer "@ + token).skip(7) == token,
{
    reveal_strlit("Bearer ");
    let h = "Bearer "@ + token;
    assert(h.subrange(0, 7) == "Bearer "@);
    assert(h.skip(7) == token);
}

/// The second look: a valid token lets the request through.
pub fn token_verdict(valid: bool) -> (r: GateDecision)
    ensures
        valid ==> r is Allow,
        !valid ==> (r matches GateDecision::Reject(m) && m@ == "Invalid or expired token"@),
{
    if valid {
        GateDecision::Allow
    } else {
        GateDecision::Reject(owned("Invalid or expired token"))
    }
}

/// How long after its `exp` a token is still accepted, in seconds.
pub const TOKEN_LEEWAY_SECS: u64 = 60;

/// Whether a token is valid at `now`: it decodes under `secret` (HS256, with
/// a string `sub` and integer `iat` and `exp`), and `now` is at most its `exp`
/// plus the leeway.
pub open spec fn token_valid_at(token: Seq<char>, secret: Seq<char>, now: u64) -> bool {
    match jwt_decoded(token, secret) {
        Some(c) => now <= c.2 + TOKEN_LEEWAY_SECS,
        None => false,
    }
}

/// Whether a request passes the door: always without a password; else when
/// it carries `Authorization: Bearer <token>` with a token valid at `now`.
pub open spec fn admits(has_password: bool, authorization: Option<Seq<char>>, secret: Seq<char>, now: u64) -> bool {
    !has_password || match authorization {
        Some(h) => has_prefix(h, "Bearer "@) && token_valid_at(h.skip(7), secret, now),
        None => false,
    }
}

/// Checks a bearer token at `now` (seconds since the epoch).
pub fn token_is_valid(token: &str, secret: &str, now: u64) -> (r: bool)
    ensures
        r == token_valid_at(token@, secret@, now),
{
    match jwt_decode(token, secret) {
        Some(c) => (now as u128) <= (c.2 as u128) + (TOKEN_LEEWAY_SECS as u128),
        None => false,
    }
}

/// The decision on a request at `now`: let through (see `admits`), or
/// refused with the missing-header text when it carries no bearer token and
/// `Invalid or expired token` when its token is not valid.
pub fn admit_request(has_password: bool, authorization: Option<&str>, secret: &str, now: u64) -> (r: GateDecision)
    ensures
        (r is Allow) == admits(has_password, match authorization {
            Some(h) => Some(h@),
            None => None,
        }, secret@, now),
        !(r is Verify),
        r matches GateDecision::Reject(m) ==> (m@ == missing_header_message() || m@ == "Invalid or expired token"@),
        r matches GateDecision::Reject(m) ==> (m@ == missing_header_message() <==> !(authorization matches Some(h)
            && has_prefix(h@, "Bearer "@))),
{
    proof {
        reveal_strlit("Invalid or expired token");
        reveal_strlit("Missing or invalid Authorization header");
        assert("Invalid or expired token"@.len() != missing_header_message().len());
    }
    match auth_gate(has_password, authorization) {
        GateDecision::Verify(token) => token_verdict(token_is_valid(token.as_str(), secret, now)),
        other => other,
    }
}

/// The configured password hash: an empty setting counts as none.
pub fn effective_password_hash(setting: Option<String>) -> (r: Option<String>)
    ensures
        match setting {
            Some(h) => if h@.len() > 0 {
                r matches Some(k) && k@ == h@
            } else {
                r is None
            },
            None => r is None,
        },
{
    match setting {
        Some(h) => if h.as_str().is_empty() {
            None
        } else {
            Some(h)
        },
        None => None,
    }
}

/// The key that login tokens are signed with: the hex SHA-256 of
/// `ostinato-jwt:` followed by the password hash, or a fixed text when no
/// password is set (tokens are then never asked for).
pub fn jwt_secret_for(password_hash: &Option<String>) -> (r: String)
    ensures
        match password_hash {
            Some(h) => r@ == lower_hex(sha256_digest(encode_utf8("ostinato-jwt:"@ + h@))),
            None => r@ == "ostinato-radio-default-unused"@,
        },
{
    match password_hash {
        Some(h) => {
            let text = concat2("ostinato-jwt:", h.as_str());
            sha256_hex(text.as_str())
        },
        None => owned("ostinato-radio-default-unused"),
    }
}

} // verus!
