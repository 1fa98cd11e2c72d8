use argon2::password_hash::SaltString;
use argon2::{Argon2, PasswordHasher};
use sha2::{Digest, Sha256};

use ostinato_radio::errors::AppError;
use ostinato_radio::middleware::auth::{
    admit_request, auth_gate, effective_password_hash, jwt_secret_for, token_is_valid, token_verdict, GateDecision,
};
use ostinato_radio::routes::auth::{
    auth_code_is_valid, callback_credentials, check_login, failure_page, invalid_code_page,
    issue_token, login_claims, logout, missing_credentials_page, start_oauth, status, success_page,
};
use ostinato_radio::state::QobuzAuth;

fn signed_in() -> QobuzAuth {
    let mut a = QobuzAuth::with_credentials("798273057".to_string(), "abcdef123".to_string(), "s3cr3t".to_string());
    a.user_auth_token = "tok".to_string();
    a.user_id = Some("42".to_string());
    a.display_name = Some("Jane".to_string());
    a.email = Some("jane@example.org".to_string());
    a.country_code = Some("FR".to_string());
    a.subscription = Some("Studio".to_string());
    a
}

#[test]
fn status_reports_the_session() {
    let st = status(&signed_in(), true);
    assert!(st.authenticated);
    assert!(st.has_password);
    assert_eq!(st.message, "Qobuz authenticated");
    assert_eq!(st.display_name.as_deref(), Some("Jane"));
    assert_eq!(st.subscription.as_deref(), Some("Studio"));
    let anon = QobuzAuth::default();
    let st = status(&anon, false);
    assert!(!st.authenticated);
    assert!(!st.has_password);
    assert_eq!(st.message, "Qobuz not authenticated");
    assert!(st.email.is_none());
}

#[test]
fn oauth_start_needs_credentials() {
    let r = start_oauth(&signed_in(), "http://192.168.1.10:8080").unwrap();
    assert_eq!(
        r.oauth_url,
        "https://www.qobuz.com/signin/oauth?ext_app_id=798273057&redirect_url=http%3A%2F%2F192.168.1.10%3A8080%2Fauth%2Fcallback"
    );
    match start_oauth(&QobuzAuth::default(), "http://x") {
        Err(AppError::Qobuz(m)) => assert_eq!(m, "Qobuz credentials not loaded"),
        _ => panic!("expected a refusal"),
    }
}

#[test]
fn authorization_codes() {
    assert!(auth_code_is_valid("abcd"));
    assert!(auth_code_is_valid("A1b2C3d4E5f6G7h8"));
    assert!(!auth_code_is_valid("abc"));
    assert!(!auth_code_is_valid("A1b2C3d4E5f6G7h8x"));
    assert!(!auth_code_is_valid("ab-cd"));
    assert!(auth_code_is_valid("été1"));
    assert!(!auth_code_is_valid("éééééééé9"));
}

#[test]
fn callback_credentials_and_pages() {
    let c = callback_credentials(&signed_in()).expect("credentials");
    assert_eq!(c.app_id, "798273057");
    assert_eq!(c.private_key, "abcdef123");
    assert_eq!(c.app_secret, vec!["s3cr3t".to_string()]);
    assert!(callback_credentials(&QobuzAuth::default()).is_none());
    assert_eq!(invalid_code_page(), "<html><body><h1>Invalid authorization code</h1></body></html>");
    assert_eq!(missing_credentials_page(), "<html><body><h1>Qobuz credentials not configured</h1></body></html>");
    assert_eq!(
        failure_page(&AppError::Qobuz("bad code".to_string())),
        "<html><body><h1>Authentication failed</h1><p>Qobuz API error: bad code</p></body></html>"
    );
    assert!(success_page().contains("<h1>Authentication successful</h1>"));
    assert!(success_page().contains("window.close();"));
}

#[test]
fn password_login() {
    let salt = SaltString::from_b64("c29tZXNhbHRzb21lc2FsdA").unwrap();
    let hash = Argon2::default().hash_password(b"hunter2", &salt).unwrap().to_string();
    assert!(check_login(&Some(hash.clone()), "hunter2").is_ok());
    assert!(matches!(check_login(&Some(hash), "wrong"), Err(AppError::Unauthorized)));
    assert!(matches!(check_login(&None, "hunter2"), Err(AppError::Unauthorized)));
    assert!(matches!(check_login(&Some("not a hash".to_string()), "x"), Err(AppError::Internal(_))));
    let claims = login_claims(1_700_000_000);
    assert_eq!(claims.sub, "ostinato");
    assert_eq!(claims.iat, 1_700_000_000);
    assert_eq!(claims.exp, 1_700_000_000 + 30 * 24 * 3600);
}

#[test]
fn logout_keeps_application_credentials() {
    let mut a = signed_in();
    logout(&mut a);
    assert!(a.user_auth_token.is_empty());
    assert!(a.user_id.is_none() && a.display_name.is_none() && a.email.is_none());
    assert!(a.country_code.is_none() && a.subscription.is_none() && a.obtained_at.is_none());
    assert_eq!(a.app_id, "798273057");
    assert_eq!(a.app_secret, "s3cr3t");
    assert_eq!(a.private_key, "abcdef123");
    assert!(!status(&a, false).authenticated);
}

#[test]
fn request_gate() {
    assert!(matches!(auth_gate(false, None), GateDecision::Allow));
    assert!(matches!(auth_gate(false, Some("garbage")), GateDecision::Allow));
    match auth_gate(true, Some("Bearer abc.def")) {
        GateDecision::Verify(t) => assert_eq!(t, "abc.def"),
        _ => panic!("expected a token to verify"),
    }
    match auth_gate(true, Some("Basic xyz")) {
        GateDecision::Reject(m) => assert_eq!(m, "Missing or invalid Authorization header"),
        _ => panic!("expected a refusal"),
    }
    assert!(matches!(auth_gate(true, None), GateDecision::Reject(_)));
    assert!(matches!(token_verdict(true), GateDecision::Allow));
    match token_verdict(false) {
        GateDecision::Reject(m) => assert_eq!(m, "Invalid or expired token"),
        _ => panic!("expected a refusal"),
    }
}

#[test]
fn signing_key_and_password_setting() {
    let expected = format!("{:x}", Sha256::digest(b"ostinato-jwt:$argon2id$abc"));
    assert_eq!(jwt_secret_for(&Some("$argon2id$abc".to_string())), expected);
    assert_eq!(jwt_secret_for(&None), "ostinato-radio-default-unused");
    assert_eq!(effective_password_hash(Some(String::new())), None);
    assert_eq!(effective_password_hash(Some("h".to_string())), Some("h".to_string()));
    assert_eq!(effective_password_hash(None), None);
}

#[test]
fn login_token_opens_the_door_until_it_expires() {
    let issued: u64 = 1_700_000_000;
    let claims = login_claims(issued);
    let token = issue_token(&claims, "key").unwrap();
    assert_eq!(token.split('.').count(), 3);
    let header = format!("Bearer {}", token);
    let exp = issued + 30 * 24 * 3600;
    assert!(token_is_valid(&token, "key", issued));
    assert!(matches!(admit_request(true, Some(&header), "key", issued), GateDecision::Allow));
    assert!(matches!(admit_request(true, Some(&header), "key", exp), GateDecision::Allow));
    assert!(matches!(admit_request(true, Some(&header), "key", exp + 60), GateDecision::Allow));
    match admit_request(true, Some(&header), "key", exp + 61) {
        GateDecision::Reject(m) => assert_eq!(m, "Invalid or expired token"),
        _ => panic!("expected an expired token"),
    }
    assert!(!token_is_valid(&token, "other key", issued));
    assert!(!token_is_valid("not.a.token", "key", issued));
    match admit_request(true, Some(token.as_str()), "key", issued) {
        GateDecision::Reject(m) => assert_eq!(m, "Missing or invalid Authorization header"),
        _ => panic!("expected a missing header"),
    }
    assert!(matches!(admit_request(false, None, "key", issued), GateDecision::Allow));
}
