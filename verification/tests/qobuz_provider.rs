use base64::Engine;

use ostinato_radio::config::{QobuzConfig, ServerConfig};
use ostinato_radio::errors::AppError;
use ostinato_radio::json::{JsonNumber, JsonValue};
use ostinato_radio::providers::qobuz::auth::{
    build_oauth_url, confirm_session_result, credentials_after_scrape, credentials_from_config, credentials_from_env,
    exchange_code_url, exchange_result, install_credentials, store_session, QobuzUserProfile,
};
use ostinato_radio::providers::qobuz::bundle::{
    bundle_url, capitalize_first_letter, credentials_from_bundle, find_app_id, find_app_secrets,
    find_private_key, login_page_url, QobuzCredentials,
};
use ostinato_radio::providers::qobuz::signing::{
    current_timestamp, file_url_signature, signed_get_signature, sort_params,
};
use ostinato_radio::providers::qobuz::{
    bit_depth_from_json, check_answer, search_results_from_json, stream_format_name,
    stream_url_from_json,
};
use ostinato_radio::state::QobuzAuth;

fn s(v: &str) -> JsonValue {
    JsonValue::Str(v.to_string())
}

fn n(v: u64) -> JsonValue {
    JsonValue::Number(JsonNumber::PosInt(v))
}

fn obj(members: Vec<(&str, JsonValue)>) -> JsonValue {
    JsonValue::Object(members.into_iter().map(|(k, v)| (k.to_string(), v)).collect())
}

fn param(k: &str, v: &str) -> (String, String) {
    (k.to_string(), v.to_string())
}

#[test]
fn file_url_signature_is_md5_of_the_payload() {
    let sig = file_url_signature(27, "12345", "1700000000", "secret");
    let expected = format!("{:x}", md5::compute("trackgetFileUrlformat_id27intentstreamtrack_id123451700000000secret"));
    assert_eq!(sig, expected);
    assert_eq!(sig.len(), 32);
}

#[test]
fn signed_get_sorts_parameters_by_name() {
    let params = vec![param("type", "tracks"), param("limit", "500")];
    let sig = signed_get_signature("favorite", "getUserFavorites", &params, "1700000000", "sec");
    let payload = "favoritegetUserFavoriteslimit500typetracks1700000000sec";
    assert_eq!(sig, format!("{:x}", md5::compute(payload)));
    let stream_params = vec![param("track_id", "42"), param("intent", "stream"), param("format_id", "27")];
    assert_eq!(
        signed_get_signature("track", "getFileUrl", &stream_params, "1700000000", "sec"),
        file_url_signature(27, "42", "1700000000", "sec")
    );
    let sorted = sort_params(&vec![param("b", "1"), param("a", "2"), param("b", "0"), param("A", "3")]);
    assert_eq!(sorted, vec![param("A", "3"), param("a", "2"), param("b", "1"), param("b", "0")]);
}

#[test]
fn timestamps_are_decimal_seconds() {
    let ts = current_timestamp();
    assert!(!ts.is_empty());
    assert!(ts.chars().all(|c| c.is_ascii_digit()));
    assert!(ts.parse::<u64>().unwrap() > 1_600_000_000);
}

#[test]
fn oauth_addresses() {
    assert_eq!(
        build_oauth_url("123", "http://h/auth/callback"),
        "https://www.qobuz.com/signin/oauth?ext_app_id=123&redirect_url=http%3A%2F%2Fh%2Fauth%2Fcallback"
    );
    assert_eq!(
        exchange_code_url("ab cd", "key"),
        "https://www.qobuz.com/api.json/0.2/oauth/callback?code=ab%20cd&private_key=key"
    );
    assert_eq!(login_page_url(), "https://play.qobuz.com/login");
    assert_eq!(bundle_url("/resources/8.1.0-b019/bundle.js"), "https://play.qobuz.com/resources/8.1.0-b019/bundle.js");
}

#[test]
fn oauth_answers() {
    let ok = obj(vec![("token", s("T")), ("user_id", s("U"))]);
    assert_eq!(exchange_result(true, &ok).unwrap(), ("T".to_string(), "U".to_string()));
    match exchange_result(false, &obj(vec![("message", s("Invalid code"))])) {
        Err(AppError::Qobuz(m)) => assert_eq!(m, "Invalid code"),
        _ => panic!("expected an error"),
    }
    match exchange_result(false, &JsonValue::Null) {
        Err(AppError::Qobuz(m)) => assert_eq!(m, "oauth exchange failed"),
        _ => panic!("expected an error"),
    }
    match exchange_result(true, &obj(vec![("user_id", s("U"))])) {
        Err(AppError::Qobuz(m)) => assert_eq!(m, "Missing token in oauth response"),
        _ => panic!("expected an error"),
    }
    match exchange_result(true, &obj(vec![("token", s("T"))])) {
        Err(AppError::Qobuz(m)) => assert_eq!(m, "Missing user_id in oauth response"),
        _ => panic!("expected an error"),
    }
    assert!(matches!(confirm_session_result(false, &JsonValue::Null), Err(AppError::Qobuz(_))));
}

#[test]
fn session_storage() {
    let mut auth = QobuzAuth::default();
    install_credentials(
        &mut auth,
        QobuzCredentials { app_id: "1".to_string(), private_key: "k".to_string(), app_secret: vec!["s1".to_string(), "s2".to_string()] },
    );
    assert_eq!(auth.app_secret, "s1");
    let profile = QobuzUserProfile {
        user_id: "42".to_string(),
        display_name: "Jane Doe".to_string(),
        email: "j@d.org".to_string(),
        country_code: "FR".to_string(),
        subscription: None,
    };
    store_session(&mut auth, "tok".to_string(), profile, std::time::Instant::now());
    assert_eq!(auth.user_auth_token, "tok");
    assert_eq!(auth.display_name.as_deref(), Some("Jane Doe"));
    assert!(auth.obtained_at.is_some());
    assert_eq!(auth.app_id, "1");
}

#[test]
fn credential_sources() {
    let c = credentials_from_env(Some("1".into()), Some("k".into()), Some("s".into())).unwrap();
    assert_eq!(c.app_secret, vec!["s".to_string()]);
    assert!(credentials_from_env(Some("1".into()), Some("".into()), Some("s".into())).is_none());
    assert!(credentials_from_env(None, Some("k".into()), Some("s".into())).is_none());
    let cfg = QobuzConfig {
        preferred_format_id: 27,
        fallback_app_id: "1".to_string(),
        fallback_private_key: "k".to_string(),
        fallback_app_secret: "s".to_string(),
    };
    assert_eq!(credentials_from_config(&cfg).unwrap().app_id, "1");
    let scraped = QobuzCredentials { app_id: "9".to_string(), private_key: "p".to_string(), app_secret: vec!["x".to_string()] };
    assert_eq!(credentials_after_scrape(Ok(scraped), &cfg).unwrap().app_id, "9");
    assert_eq!(credentials_after_scrape(Err(AppError::NotFound), &cfg).unwrap().app_id, "1");
    let empty = QobuzConfig { fallback_app_secret: String::new(), ..cfg };
    assert!(matches!(credentials_from_config(&empty), Err(AppError::Qobuz(_))));
    match credentials_after_scrape(Err(AppError::NotFound), &empty) {
        Err(AppError::Qobuz(m)) => assert_eq!(m, "No Qobuz credentials available (scrape failed and no fallback configured)"),
        _ => panic!("expected an error"),
    }
}

fn synthetic_bundle() -> String {
    let secret = "0123456789abcdef0123456789abcdef";
    let b = base64::engine::general_purpose::STANDARD.encode(secret);
    let full = format!("{}{}", b, "A".repeat(44));
    let (seed, rest) = full.split_at(20);
    let (info, extras) = rest.split_at(30);
    format!(
        "var x={{production:{{api:{{appId:\"798273057\",appSecret:\"x\"}}}}}};privateKey:\"ab12CD34ef\";\
         f=function(){{return t.x}}):a.initialSeed(\"{}\",window.utimezone.berlin);\
         z={{name:\"Europe/Berlin\",info:\"{}\",extras:\"{}\"}};",
        seed, info, extras
    )
}

#[test]
fn bundle_credentials_from_a_synthetic_bundle() {
    let bundle = synthetic_bundle();
    assert_eq!(find_app_id(&bundle).as_deref(), Some("798273057"));
    assert_eq!(find_private_key(&bundle).as_deref(), Some("ab12CD34ef"));
    assert_eq!(find_app_secrets(&bundle), vec!["0123456789abcdef0123456789abcdef".to_string()]);
    let creds = credentials_from_bundle(&bundle).unwrap();
    assert_eq!(creds.app_id, "798273057");
    assert_eq!(creds.private_key, "ab12CD34ef");
    match credentials_from_bundle("nothing here") {
        Err(AppError::Qobuz(m)) => assert_eq!(m, "Could not find app_id in bundle"),
        _ => panic!("expected an error"),
    }
    assert_eq!(capitalize_first_letter("berlin"), "Berlin");
    assert_eq!(capitalize_first_letter(""), "");
    assert_eq!(capitalize_first_letter("ßx"), "SSx");
}

#[test]
fn fallback_app_id_needs_seven_to_ten_digits() {
    assert_eq!(find_app_id("\"appId\": \"1234567\"").as_deref(), Some("1234567"));
    assert_eq!(find_app_id("\"appId\": \"123456\""), None);
    assert_eq!(find_private_key("privateKey = 'short'"), None);
}

#[test]
fn stream_answers() {
    assert_eq!(stream_format_name(27), "FLAC 24-bit >96kHz");
    assert_eq!(stream_format_name(5), "MP3 320");
    assert_eq!(stream_format_name(99), "Unknown");
    assert_eq!(stream_url_from_json(&obj(vec![("url", s("https://cdn/a"))]), "1", 27).unwrap(), "https://cdn/a");
    match stream_url_from_json(&obj(vec![("url", s(""))]), "9", 6) {
        Err(AppError::Qobuz(m)) => assert_eq!(m, "Qobuz returned empty stream URL for track 9 (format_id=6)"),
        _ => panic!("expected an error"),
    }
    match stream_url_from_json(&JsonValue::Null, "9", 6) {
        Err(AppError::Qobuz(m)) => assert_eq!(m, "Missing stream URL"),
        _ => panic!("expected an error"),
    }
    assert_eq!(bit_depth_from_json(&obj(vec![("bit_depth", n(24))])), Some(24));
    assert_eq!(bit_depth_from_json(&obj(vec![("bit_depth", s("24"))])), None);
    assert!(check_answer(true, &JsonValue::Null, "x").is_ok());
    match check_answer(false, &obj(vec![("message", s("Invalid"))]), "getFileUrl failed") {
        Err(AppError::Qobuz(m)) => assert_eq!(m, "Invalid"),
        _ => panic!("expected an error"),
    }
    match check_answer(false, &JsonValue::Null, "getFileUrl failed") {
        Err(AppError::Qobuz(m)) => assert_eq!(m, "getFileUrl failed"),
        _ => panic!("expected an error"),
    }
}

#[test]
fn search_results_are_read_in_order() {
    let body = obj(vec![(
        "tracks",
        obj(vec![(
            "items",
            JsonValue::Array(vec![
                obj(vec![
                    ("id", n(1)),
                    ("title", s("Pink Moon")),
                    ("duration", n(124)),
                    ("performer", obj(vec![("name", s("Nick Drake")), ("id", n(77))])),
                    ("album", obj(vec![("title", s("Pink Moon")), ("id", s("alb"))])),
                ]),
                obj(vec![("id", n(2)), ("title", s("No performer"))]),
            ]),
        )]),
    )]);
    let tracks = search_results_from_json(&body);
    assert_eq!(tracks.len(), 1);
    assert_eq!(tracks[0].id, "1");
    assert_eq!(tracks[0].artist, "Nick Drake");
    assert_eq!(tracks[0].album, "Pink Moon");
}

#[test]
fn server_address_text() {
    let c = ServerConfig { host: "0.0.0.0".to_string(), port: 8080, public_base_url: "http://x".to_string() };
    assert_eq!(c.address_text(), "0.0.0.0:8080");
}
