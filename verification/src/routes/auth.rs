//! The authentication endpoints: Qobuz session status, the OAuth flow, and
//! the password login of the service itself.
use vstd::prelude::*;

use crate::bindings::{
    argon2_accepts, is_alphanumeric, jwt_decoded, jwt_encode, jwt_encoded, password_hash_error, password_hash_error_text,
    password_matches, unicode_alphanumeric,
};
use crate::middleware::auth::{admits, lemma_bearer_token_reaches_check, TOKEN_LEEWAY_SECS};
use crate::errors::{description_of, AppError};
use crate::providers::qobuz::auth::{build_oauth_url, credentials_of, oauth_url_of};
use crate::providers::qobuz::bundle::{byte_len, QobuzCredentials};
use crate::state::{clone_opt_string, opt_view, strings_view, QobuzAuth};
use crate::text::{chars_of, concat2, concat3, owned};

verus! {

/// The authentication state reported to the web player.
#[derive(Clone, Debug)]
pub struct AuthStatus {
    pub authenticated: bool,
    pub has_password: bool,
    pub message: String,
    pub display_name: Option<String>,
    pub email: Option<String>,
    pub country_code: Option<String>,
    pub subscription: Option<String>,
}

/// A password login.
#[derive(Clone, Debug)]
pub struct LoginRequest {
    pub password: String,
}

/// The token a successful login gives.
#[derive(Clone, Debug)]
pub struct LoginResponse {
    pub token: String,
}

/// Where to send the user to authorize the service on Qobuz.
#[derive(Clone, Debug)]
pub struct OauthStartResponse {
    pub oauth_url: String,
}

/// The query Qobuz calls back with.
#[derive(Clone, Debug)]
pub struct OauthCallbackQuery {
    pub code_autorisation: String,
}

/// The claims of a login token.
#[derive(Clone, Debug)]
pub struct Claims {
    pub sub: String,
    pub iat: u64,
    pub exp: u64,
}

/// The authentication status: whether a Qobuz session is active, whether a
/// password protects the service, and the Qobuz user's profile.
pub fn status(auth: &QobuzAuth, has_password: bool) -> (r: AuthStatus)
    ensures
        r.authenticated == auth.is_authenticated(),
        r.has_password == has_password,
        r.message@ == (if auth.is_authenticated() {
            "Qobuz authenticated"@
        } else {
            "Qobuz not authenticated"@
        }),
        opt_view(r.display_name) == opt_view(auth.display_name),
        opt_view(r.email) == opt_view(auth.email),
        opt_view(r.country_code) == opt_view(auth.country_code),
        opt_view(r.subscription) == opt_view(auth.subscription),
{
    let authenticated = !auth.user_auth_token.as_str().is_empty();
    AuthStatus {
        authenticated,
        has_password,
        message: if authenticated {
            owned("Qobuz authenticated")
        } else {
            owned("Qobuz not authenticated")
        },
        display_name: clone_opt_string(&auth.display_name),
        email: clone_opt_string(&auth.email),
        country_code: clone_opt_string(&auth.country_code),
        subscription: clone_opt_string(&auth.subscription),
    }
}

/// Whether the application credentials needed by the OAuth flow are known.
pub open spec fn has_app_credentials(auth: QobuzAuth) -> bool {
    auth.app_id@.len() > 0 && auth.private_key@.len() > 0
}

/// The OAuth authorization address, with the service's callback as redirect;
/// refused while the application credentials are unknown.
pub fn start_oauth(auth: &QobuzAuth, public_base_url: &str) -> (r: Result<OauthStartResponse, AppError>)
    ensures
        has_app_credentials(*auth) ==> (r matches Ok(resp) && resp.oauth_url@ == oauth_url_of(
            auth.app_id@,
            public_base_url@ + "/auth/callback"@,
        )),
        !has_app_credentials(*auth) ==> (r matches Err(e) && (e matches AppError::Qobuz(m) && m@ == "Qobuz credentials not loaded"@)),
{
    if auth.app_id.as_str().is_empty() || auth.private_key.as_str().is_empty() {
        return Err(AppError::Qobuz(owned("Qobuz credentials not loaded")));
    }
    let redirect_url = concat2(public_base_url, "/auth/callback");
    Ok(OauthStartResponse { oauth_url: build_oauth_url(auth.app_id.as_str(), redirect_url.as_str()) })
}

/// A plausible authorization code: 4 to 16 bytes, all alphanumeric.
pub open spec fn valid_auth_code(code: Seq<char>) -> bool {
    &&& 4 <= byte_len(code) <= 16
    &&& forall|i: int| 0 <= i < code.len() ==> unicode_alphanumeric(#[trigger] code[i])
}

/// Checks an authorization code before it is exchanged.
pub fn auth_code_is_valid(code: &str) -> (r: bool)
    ensures
        r == valid_auth_code(code@),
{
    let n = code.as_bytes().len();
    if n < 4 || n > 16 {
        return false;
    }
    let v = chars_of(code);
    let mut i: usize = 0;
    while i < v.len()
        invariant
            v@ == code@,
            i <= v@.len(),
            forall|j: int| 0 <= j < i ==> unicode_alphanumeric(#[trigger] v@[j]),
        decreases v.len() - i,
    {
        if !is_alphanumeric(v[i]) {
            return false;
        }
        i = i + 1;
    }
    true
}

/// The credentials the OAuth exchange runs with, when they are known.
pub fn callback_credentials(auth: &QobuzAuth) -> (r: Option<QobuzCredentials>)
    ensures
        has_app_credentials(*auth) ==> (r matches Some(c) && c.app_id@ == auth.app_id@ && c.private_key@ == auth.private_key@
            && strings_view(c.app_secret@) == seq![auth.app_secret@]),
        !has_app_credentials(*auth) ==> r is None,
{
    if auth.app_id.as_str().is_empty() || auth.private_key.as_str().is_empty() {
        None
    } else {
        Some(credentials_of(auth))
    }
}

/// The page shown for a malformed authorization code.
pub fn invalid_code_page() -> (r: String)
    ensures
        r@ == "<html><body><h1>Invalid authorization code</h1></body></html>"@,
{
    owned("<html><body><h1>Invalid authorization code</h1></body></html>")
}

/// The page shown when the application credentials are unknown.
pub fn missing_credentials_page() -> (r: String)
    ensures
        r@ == "<html><body><h1>Qobuz credentials not configured</h1></body></html>"@,
{
    owned("<html><body><h1>Qobuz credentials not configured</h1></body></html>")
}

/// The page shown when the OAuth exchange or the session confirmation fails,
/// with the error's description.
pub fn failure_page(e: &AppError) -> (r: String)
    ensures
        !(*e is Other) ==> r@ == "<html><body><h1>Authentication failed</h1><p>"@ + description_of(*e)
            + "</p></body></html>"@,
{
    let d = e.describe();
    concat3("<html><body><h1>Authentication failed</h1><p>", d.as_str(), "</p></body></html>")
}

/// The page shown once the user is signed in.
pub fn success_page() -> (r: String)
    ensures
        r@ == "<html><body style=\"font-family:sans-serif;text-align:center;padding-top:40px\">
            <h1>Authentication successful</h1>
            <p>You can close this tab.</p>
            <script>window.close();</script>
        </body></html>"@,
{
    owned("<html><body style=\"font-family:sans-serif;text-align:center;padding-top:40px\">
            <h1>Authentication successful</h1>
            <p>You can close this tab.</p>
            <script>window.close();</script>
        </body></html>")
}

/// The outcome of a password login: refused (`Unauthorized`) when no
/// password is set or the password does not match, `Internal` with the parse
/// error when the stored hash is malformed.
pub fn check_login(password_hash: &Option<String>, password: &str) -> (r: Result<(), AppError>)
    ensures
        match password_hash {
            None => r matches Err(AppError::Unauthorized),
            Some(h) => match password_hash_error_text(h@) {
                Some(msg) => r matches Err(e) && (e matches AppError::Internal(m) && m@ == msg),
                None => if argon2_accepts(password@, h@) {
                    r is Ok
                } else {
                    r matches Err(AppError::Unauthorized)
                },
            },
        },
{
    match password_hash {
        None => Err(AppError::Unauthorized),
        Some(h) => match password_hash_error(h.as_str()) {
            Some(msg) => Err(AppError::Internal(msg)),
            None => if password_matches(password, h.as_str()) {
                Ok(())
            } else {
                Err(AppError::Unauthorized)
            },
        },
    }
}

/// How long a login token is valid: thirty days, in seconds.
pub const TOKEN_LIFETIME_SECS: u64 = 2592000;

/// The claims of a token issued at `now` (seconds since the epoch).
pub fn login_claims(now: u64) -> (r: Claims)
    requires
        now + 2592000 <= u64::MAX,
    ensures
        r.sub@ == "ostinato"@,
        r.iat == now,
        r.exp == now + 2592000,
{
    Claims { sub: owned("ostinato"), iat: now, exp: now + TOKEN_LIFETIME_SECS }
}

/// The login token of a set of claims, signed with `secret` (HS256): the
/// named token, which decodes with the same key to these claims; `None` when
/// it cannot be made.
pub fn issue_token(claims: &Claims, secret: &str) -> (r: Option<String>)
    ensures
        match r {
            Some(t) => jwt_encoded(claims.sub@, claims.iat, claims.exp, secret@) == Some(t@) && jwt_decoded(
                t@,
                secret@,
            ) == Some((claims.sub@, claims.iat, claims.exp)),
            None => jwt_encoded(claims.sub@, claims.iat, claims.exp, secret@) is None,
        },
{
    jwt_encode(claims.sub.as_str(), claims.iat, claims.exp, secret)
}

/// A token issued at login opens the door until it expires: a request
/// carrying `Authorization: Bearer <token>` is let through at any time up to
/// its expiry (thirty days after the login, plus the leeway), and refused
/// afterwards.
pub proof fn lemma_login_token_admitted(token: Seq<char>, secret: Seq<char>, issued: u64, now: u64)
    requires
        issued + TOKEN_LIFETIME_SECS <= u64::MAX,
        jwt_decoded(token, secret) == Some(("ostinato"@, issued, (issued + TOKEN_LIFETIME_SECS) as u64)),
    ensures
        now <= issued + TOKEN_LIFETIME_SECS ==> admits(true, Some("Bearer "@ + token), secret, now),
        now > issued + TOKEN_LIFETIME_SECS + TOKEN_LEEWAY_SECS ==> !admits(true, Some("Bearer "@ + token), secret, now),
{
    lemma_bearer_token_reaches_check(token);
}

/// Signs the user out of Qobuz, keeping the application credentials.
pub fn logout(auth: &mut QobuzAuth)
    ensures
        !final(auth).is_authenticated(),
        final(auth).app_id == old(auth).app_id,
        final(auth).app_secret == old(auth).app_secret,
        final(auth).private_key == old(auth).private_key,
        final(auth).user_id is None,
        final(auth).display_name is None,
        final(auth).email is None,
        final(auth).country_code is None,
        final(auth).subscription is None,
        final(auth).obtained_at is None,
{
    auth.clear_session();
}

} // verus!
