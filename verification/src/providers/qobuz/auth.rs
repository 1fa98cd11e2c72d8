//! The Qobuz OAuth flow and the choice of application credentials.
use vstd::prelude::*;

use crate::bindings::{percent_encoded, url_encode};
use crate::config::QobuzConfig;
use crate::errors::AppError;
use crate::json::{field_of, get_in, opt_deref, str_in, str_in_or_empty, text_of, text_or_empty, JsonValue};
use crate::providers::qobuz::bundle::QobuzCredentials;
use crate::state::{opt_view, strings_view, QobuzAuth};
use crate::text::{concat3, concat4, owned, trim, trim_str};
use vstd::string::StringSliceAdditionalSpecFns;
use vstd::utf8::encode_utf8;

verus! {

/// The profile of the signed-in Qobuz user.
#[derive(Clone, Debug)]
pub struct QobuzUserProfile {
    pub user_id: String,
    pub display_name: String,
    pub email: String,
    pub country_code: String,
    pub subscription: Option<String>,
}

/// The address where the user authorizes the application.
pub open spec fn oauth_url_of(app_id: Seq<char>, redirect_url: Seq<char>) -> Seq<char> {
    "https://www.qobuz.com/signin/oauth?ext_app_id="@ + app_id + "&redirect_url="@ + percent_encoded(
        encode_utf8(redirect_url),
    )
}

/// Builds the Qobuz OAuth authorization URL.
pub fn build_oauth_url(app_id: &str, redirect_url: &str) -> (r: String)
    ensures
        r@ == oauth_url_of(app_id@, redirect_url@),
{
    let encoded = url_encode(redirect_url);
    concat4(
        "https://www.qobuz.com/signin/oauth?ext_app_id=",
        app_id,
        "&redirect_url=",
        encoded.as_str(),
    )
}

/// The address that exchanges an authorization code for a token.
pub fn exchange_code_url(code: &str, private_key: &str) -> (r: String)
    ensures
        r@ == "https://www.qobuz.com/api.json/0.2/oauth/callback?code="@ + percent_encoded(
            encode_utf8(code@),
        ) + "&private_key="@ + percent_encoded(encode_utf8(private_key@)),
{
    let c = url_encode(code);
    let k = url_encode(private_key);
    concat4(
        "https://www.qobuz.com/api.json/0.2/oauth/callback?code=",
        c.as_str(),
        "&private_key=",
        k.as_str(),
    )
}

/// The error message of a failed answer, or `fallback`.
pub open spec fn message_or(body: JsonValue, fallback: Seq<char>) -> Seq<char> {
    match text_of(body.field("message"@)) {
        Some(m) => m,
        None => fallback,
    }
}

/// Reads the answer to a code exchange: the token and the user id.
pub fn exchange_result(success: bool, body: &JsonValue) -> (r: Result<(String, String), AppError>)
    ensures
        !success ==> (r matches Err(e) && e matches AppError::Qobuz(m) && m@ == message_or(
            *body,
            "oauth exchange failed"@,
        )),
        success ==> match (text_of(body.field("token"@)), text_of(body.field("user_id"@))) {
            (Some(t), Some(u)) => r matches Ok(p) && p.0@ == t && p.1@ == u,
            (None, _) => r matches Err(e) && e matches AppError::Qobuz(m) && m@
                == "Missing token in oauth response"@,
            (Some(_), None) => r matches Err(e) && e matches AppError::Qobuz(m) && m@
                == "Missing user_id in oauth response"@,
        },
{
    if !success {
        return match str_in(body.get("message")) {
            Some(m) => Err(AppError::Qobuz(m)),
            None => Err(AppError::Qobuz(owned("oauth exchange failed"))),
        };
    }
    let token = match str_in(body.get("token")) {
        Some(t) => t,
        None => {
            return Err(AppError::Qobuz(owned("Missing token in oauth response")));
        },
    };
    let user_id = match str_in(body.get("user_id")) {
        Some(u) => u,
        None => {
            return Err(AppError::Qobuz(owned("Missing user_id in oauth response")));
        },
    };
    Ok((token, user_id))
}

/// The profile a `user/login` answer describes: the user id from `id` or else
/// `user_id`, the display name as first and last name joined by a space and
/// trimmed, the email and country (empty when missing), and the label of the
/// subscription.
pub open spec fn profile_user_id(body: JsonValue) -> Seq<char> {
    match text_of(body.field("id"@)) {
        Some(i) => i,
        None => text_or_empty(text_of(body.field("user_id"@))),
    }
}

pub open spec fn profile_display_name(body: JsonValue) -> Seq<char> {
    trim(
        text_or_empty(text_of(body.field("firstname"@))) + " "@ + text_or_empty(
            text_of(body.field("lastname"@)),
        ),
    )
}

/// Reads the answer to a session confirmation into the user's profile.
pub fn confirm_session_result(success: bool, body: &JsonValue) -> (r: Result<QobuzUserProfile, AppError>)
    ensures
        !success ==> (r matches Err(e) && e matches AppError::Qobuz(m) && m@ == message_or(
            *body,
            "session confirmation failed"@,
        )),
        success ==> (r matches Ok(p) && p.user_id@ == profile_user_id(*body) && p.display_name@
            == profile_display_name(*body) && p.email@ == text_or_empty(text_of(body.field("email"@)))
            && p.country_code@ == text_or_empty(text_of(body.field("country_code"@))) && opt_view(
            p.subscription,
        ) == text_of(field_of(body.field("credential"@), "label"@))),
{
    if !success {
        return match str_in(body.get("message")) {
            Some(m) => Err(AppError::Qobuz(m)),
            None => Err(AppError::Qobuz(owned("session confirmation failed"))),
        };
    }
    let user_id = match str_in(body.get("id")) {
        Some(i) => i,
        None => str_in_or_empty(body.get("user_id")),
    };
    let first = str_in_or_empty(body.get("firstname"));
    let last = str_in_or_empty(body.get("lastname"));
    let joined = concat3(first.as_str(), " ", last.as_str());
    let display_name = trim_str(joined.as_str());
    let email = str_in_or_empty(body.get("email"));
    let country_code = str_in_or_empty(body.get("country_code"));
    let subscription = str_in(get_in(body.get("credential"), "label"));
    Ok(QobuzUserProfile { user_id, display_name, email, country_code, subscription })
}

/// Credentials from the environment: used when all three are set and none
/// is empty.
pub fn credentials_from_env(app_id: Option<String>, private_key: Option<String>, app_secret: Option<String>) -> (r: Option<QobuzCredentials>)
    ensures
        match (app_id, private_key, app_secret) {
            (Some(i), Some(k), Some(s)) => if i@.len() > 0 && k@.len() > 0 && s@.len() > 0 {
                r matches Some(c) && c.app_id@ == i@ && c.private_key@ == k@ && strings_view(
                    c.app_secret@,
                ) == seq![s@]
            } else {
                r is None
            },
            _ => r is None,
        },
{
    match (app_id, private_key, app_secret) {
        (Some(i), Some(k), Some(s)) => {
            if i.as_str().is_empty() || k.as_str().is_empty() || s.as_str().is_empty() {
                None
            } else {
                let ghost sv = s@;
                let mut secrets: Vec<String> = Vec::new();
                secrets.push(s);
                assert(strings_view(secrets@) == seq![sv]);
                Some(QobuzCredentials { app_id: i, private_key: k, app_secret: secrets })
            }
        },
        _ => None,
    }
}

/// Credentials from the configuration's fallback values: used when none is
/// empty; otherwise no credentials are available at all.
pub fn credentials_from_config(cfg: &QobuzConfig) -> (r: Result<QobuzCredentials, AppError>)
    ensures
        (cfg.fallback_app_id@.len() > 0 && cfg.fallback_private_key@.len() > 0
            && cfg.fallback_app_secret@.len() > 0) ==> (r matches Ok(c) && c.app_id@
            == cfg.fallback_app_id@ && c.private_key@ == cfg.fallback_private_key@ && strings_view(
            c.app_secret@,
        ) == seq![cfg.fallback_app_secret@]),
        !(cfg.fallback_app_id@.len() > 0 && cfg.fallback_private_key@.len() > 0
            && cfg.fallback_app_secret@.len() > 0) ==> (r matches Err(e) && e matches AppError::Qobuz(
            m,
        ) && m@ == "No Qobuz credentials available (scrape failed and no fallback configured)"@),
{
    if !cfg.fallback_app_id.as_str().is_empty() && !cfg.fallback_private_key.as_str().is_empty()
        && !cfg.fallback_app_secret.as_str().is_empty() {
        let mut secrets: Vec<String> = Vec::new();
        secrets.push(cfg.fallback_app_secret.clone());
        assert(strings_view(secrets@) == seq![cfg.fallback_app_secret@]);
        Ok(
            QobuzCredentials {
                app_id: cfg.fallback_app_id.clone(),
                private_key: cfg.fallback_private_key.clone(),
                app_secret: secrets,
            },
        )
    } else {
        Err(
            AppError::Qobuz(
                owned("No Qobuz credentials available (scrape failed and no fallback configured)"),
            ),
        )
    }
}

/// Whether the configuration holds all three fallback credentials.
pub open spec fn fallback_configured(cfg: QobuzConfig) -> bool {
    cfg.fallback_app_id@.len() > 0 && cfg.fallback_private_key@.len() > 0 && cfg.fallback_app_secret@.len() > 0
}

/// The credentials once scraping was tried (after the environment gave
/// none): the scraped ones when scraping worked, else the configuration's.
pub fn credentials_after_scrape(scraped: Result<QobuzCredentials, AppError>, cfg: &QobuzConfig) -> (r: Result<QobuzCredentials, AppError>)
    ensures
        scraped is Ok ==> r == scraped,
        scraped is Err && fallback_configured(*cfg) ==> (r matches Ok(c) && c.app_id@ == cfg.fallback_app_id@
            && c.private_key@ == cfg.fallback_private_key@ && strings_view(c.app_secret@) == seq![cfg.fallback_app_secret@]),
        scraped is Err && !fallback_configured(*cfg) ==> (r matches Err(e) && (e matches AppError::Qobuz(m)
            && m@ == "No Qobuz credentials available (scrape failed and no fallback configured)"@)),
{
    match scraped {
        Ok(c) => Ok(c),
        Err(_) => credentials_from_config(cfg),
    }
}

/// The credentials that a session's application settings amount to.
pub fn credentials_of(auth: &QobuzAuth) -> (r: QobuzCredentials)
    ensures
        r.app_id@ == auth.app_id@,
        r.private_key@ == auth.private_key@,
        strings_view(r.app_secret@) == seq![auth.app_secret@],
{
    let mut secrets: Vec<String> = Vec::new();
    secrets.push(auth.app_secret.clone());
    assert(strings_view(secrets@) == seq![auth.app_secret@]);
    QobuzCredentials {
        app_id: auth.app_id.clone(),
        private_key: auth.private_key.clone(),
        app_secret: secrets,
    }
}

/// Installs credentials: the application id, the private key, and the first
/// candidate secret (empty if there is none).
pub fn install_credentials(auth: &mut QobuzAuth, creds: QobuzCredentials)
    ensures
        final(auth).app_id@ == creds.app_id@,
        final(auth).private_key@ == creds.private_key@,
        creds.app_secret@.len() > 0 ==> final(auth).app_secret@ == creds.app_secret@[0]@,
        creds.app_secret@.len() == 0 ==> final(auth).app_secret@.len() == 0,
        final(auth).user_auth_token == old(auth).user_auth_token,
        final(auth).user_id == old(auth).user_id,
        final(auth).display_name == old(auth).display_name,
        final(auth).email == old(auth).email,
        final(auth).country_code == old(auth).country_code,
        final(auth).subscription == old(auth).subscription,
        final(auth).obtained_at == old(auth).obtained_at,
{
    auth.app_id = creds.app_id;
    auth.private_key = creds.private_key;
    if creds.app_secret.len() > 0 {
        auth.app_secret = creds.app_secret[0].clone();
    } else {
        auth.app_secret = String::new();
    }
}

/// Records a confirmed user session.
pub fn store_session(auth: &mut QobuzAuth, token: String, profile: QobuzUserProfile, now: std::time::Instant)
    ensures
        final(auth).app_id == old(auth).app_id,
        final(auth).app_secret == old(auth).app_secret,
        final(auth).private_key == old(auth).private_key,
        final(auth).user_auth_token@ == token@,
        opt_view(final(auth).user_id) == Some(profile.user_id@),
        opt_view(final(auth).display_name) == Some(profile.display_name@),
        opt_view(final(auth).email) == Some(profile.email@),
        opt_view(final(auth).country_code) == Some(profile.country_code@),
        opt_view(final(auth).subscription) == opt_view(profile.subscription),
        final(auth).obtained_at == Some(now),
{
    auth.user_auth_token = token;
    auth.user_id = Some(profile.user_id);
    auth.display_name = Some(profile.display_name);
    auth.email = Some(profile.email);
    auth.country_code = Some(profile.country_code);
    auth.subscription = profile.subscription;
    auth.obtained_at = Some(now);
}

} // verus!
