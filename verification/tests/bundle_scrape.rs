use base64::Engine;

use ostinato_radio::providers::qobuz::bundle::{find_app_id, find_app_secrets, find_private_key};

/// An excerpt in the shape of the web player's bundle: the production
/// configuration, the private key, and the seeded time-zone secret.
fn load_fixture() -> String {
    let secret = "4a2d9c1e8b7f6a5d4c3b2a1f0e9d8c7b";
    let b = base64::engine::general_purpose::STANDARD.encode(secret);
    let full = format!("{}{}", b, "QUJDREVGR0hJSktMTU5PUFFSU1RVVldYWVphYmNkZWZn");
    let (seed, rest) = full.split_at(17);
    let (info, extras) = rest.split_at(33);
    format!(
        "(function(){{var n={{production:{{api:{{appId:\"950096963\",appSecret:\"10b251c286cfbf64d6b7105f253d9a2e\"}}}}}},\
         e={{privateKey:\"Xa9kLm3Qz7\"}};return r}}):l.initialSeed(\"{}\",window.utimezone.london);\
         var zones=[{{offset:\"GMT\",name:\"Europe/London\",info:\"{}\",extras:\"{}\"}},\
         {{offset:\"GMT+1\",name:\"Europe/Paris\",info:\"x\",extras:\"y\"}}];",
        seed, info, extras
    )
}

#[test]
fn test_find_app_id() {
    let bundle = load_fixture();
    let id = find_app_id(&bundle).expect("Expected app_id in fixture");
    assert!(!id.is_empty(), "app_id should not be empty");
    assert!(id.parse::<u64>().is_ok(), "app_id should be numeric: got {}", id);
}

#[test]
fn test_find_private_key() {
    let bundle = load_fixture();
    let key = find_private_key(&bundle).expect("Expected private_key in fixture");
    assert!(!key.is_empty(), "private_key should not be empty");
    assert!(key.chars().all(|c| c.is_alphanumeric()), "private_key should be alphanumeric: got {}", key);
}

#[test]
fn test_find_app_secrets() {
    let bundle = load_fixture();
    let secrets = find_app_secrets(&bundle);
    assert!(!secrets.is_empty(), "Expected at least one app_secret candidate");
    for s in &secrets {
        assert_eq!(s.len(), 32, "app_secret should be 32 chars: got {}", s);
        assert!(s.chars().all(|c| c.is_ascii_hexdigit()), "app_secret should be hex: got {}", s);
    }
}

#[test]
fn test_scrape_credentials_from_fixture() {
    let bundle = load_fixture();
    let app_id = find_app_id(&bundle).expect("app_id");
    let private_key = find_private_key(&bundle).expect("private_key");
    let app_secret = find_app_secrets(&bundle);
    assert!(!app_id.is_empty());
    assert!(!private_key.is_empty());
    assert!(!app_secret.is_empty());
    println!("app_id       = {}", app_id);
    println!("private_key  = {}", private_key);
    println!("app_secrets  = {:?}", app_secret);
}

#[test]
fn seeded_secret_is_preferred_over_other_candidates() {
    let bundle = load_fixture();
    assert_eq!(find_app_id(&bundle).as_deref(), Some("950096963"));
    assert_eq!(find_private_key(&bundle).as_deref(), Some("Xa9kLm3Qz7"));
    assert_eq!(find_app_secrets(&bundle), vec!["4a2d9c1e8b7f6a5d4c3b2a1f0e9d8c7b".to_string()]);
}
