use token_gate::config::AppConfig;
use token_gate::errors::{AuthError, FetchError};
use token_gate::keys::{ingest_jwks_response, keyset_from_jwks, KeyEntry, KeySet, SigAlgorithm};
use token_gate::validate::verify_keycloak_jwt;

fn entry(kid: &str, alg: SigAlgorithm) -> KeyEntry {
    KeyEntry {
        kid: String::from(kid),
        algorithm: alg,
        material: String::from("m"),
    }
}

#[test]
fn insert_and_lookup() {
    let mut ks = KeySet::new();
    assert!(ks.insert(entry("k1", SigAlgorithm::Rs256)));
    assert!(ks.insert(entry("k2", SigAlgorithm::Rs384)));
    assert_eq!(ks.key_count(), 2);
    let e = ks.lookup("k1").unwrap();
    assert_eq!(e.kid, "k1");
    assert!(ks.lookup("k3").is_none());
}

#[test]
fn duplicate_key_id_keeps_the_first_entry() {
    let mut ks = KeySet::new();
    assert!(ks.insert(KeyEntry {
        kid: String::from("k1"),
        algorithm: SigAlgorithm::Rs256,
        material: String::from("first"),
    }));
    assert!(!ks.insert(KeyEntry {
        kid: String::from("k1"),
        algorithm: SigAlgorithm::Rs512,
        material: String::from("second"),
    }));
    assert_eq!(ks.key_count(), 1);
    assert_eq!(ks.lookup("k1").unwrap().material, "first");
}

#[test]
fn refresh_replaces_the_whole_set() {
    let mut ks = KeySet::new();
    let _ = ks.insert(entry("old", SigAlgorithm::Rs256));
    let mut fresh = KeySet::new();
    let _ = fresh.insert(entry("new", SigAlgorithm::Rs256));
    ks.refresh(fresh);
    // After the swap only the new set's entries are visible: an entry
    // absent from both sets can never be observed.
    assert!(ks.lookup("old").is_none());
    assert!(ks.lookup("new").is_some());
    assert_eq!(ks.key_count(), 1);
}

#[test]
fn jwks_ingestion_keeps_supported_descriptors_only() {
    let body = br#"{"keys":[
        {"kty":"RSA","kid":"k1","n":"n1","e":"e1"},
        {"kty":"EC","kid":"k2","x":"x","y":"y"},
        {"kty":"RSA","kid":"k3","n":"n3"},
        {"kty":"RSA","kid":"k4","n":"n4","e":"e4","alg":"RS384"},
        {"kty":"RSA","kid":"k5","n":"n5","e":"e5","alg":"ES256"},
        {"kty":"RSA","kid":"k1","n":"nX","e":"eX"}
    ]}"#;
    let ks = keyset_from_jwks(body).unwrap();
    assert_eq!(ks.key_count(), 2);
    let k1 = ks.lookup("k1").unwrap();
    assert_eq!(k1.material, "n1:e1");
    assert_eq!(k1.algorithm, SigAlgorithm::Rs256);
    let k4 = ks.lookup("k4").unwrap();
    assert_eq!(k4.material, "n4:e4");
    assert_eq!(k4.algorithm, SigAlgorithm::Rs384);
    assert!(ks.lookup("k2").is_none());
    assert!(ks.lookup("k3").is_none());
    assert!(ks.lookup("k5").is_none());
}

#[test]
fn jwks_without_a_key_list_is_malformed() {
    assert!(matches!(
        keyset_from_jwks(b"not json"),
        Err(FetchError::MalformedDocument)
    ));
    assert!(matches!(
        keyset_from_jwks(br#"{"nokeys":1}"#),
        Err(FetchError::MalformedDocument)
    ));
}

#[test]
fn jwks_fetch_failure_leaves_an_empty_cache_and_service_unavailable() {
    // The endpoint answers 500 at startup: the failure is distinguishable,
    // the process goes on with an empty cache, and the first validation
    // reports the unknown key rather than crashing.
    let r = ingest_jwks_response(500, b"Internal Server Error");
    assert!(matches!(r, Err(FetchError::HttpStatus(500))));
    let ks = KeySet::new();
    let cfg = AppConfig {
        app_host: String::new(),
        app_port: 0,
        database_url: String::new(),
        keycloak_base_url: String::from("https://idp"),
        keycloak_realm: String::from("demo"),
        keycloak_client_id: String::from("app"),
        keycloak_client_secret: None,
    };
    let token = format!(
        "{}.{}.{}",
        token_gate::base64url::base64url_encode(br#"{"alg":"RS256","kid":"k1"}"#),
        token_gate::base64url::base64url_encode(br#"{"sub":"u1"}"#),
        token_gate::base64url::base64url_encode(b"sig")
    );
    let e = verify_keycloak_jwt(&token, &cfg, &ks, 1, true).unwrap_err();
    assert_eq!(e, AuthError::UnknownKey);
}

#[test]
fn jwks_success_status_range_is_accepted() {
    let ks = ingest_jwks_response(200, br#"{"keys":[]}"#).unwrap();
    assert_eq!(ks.key_count(), 0);
    assert!(matches!(
        ingest_jwks_response(301, br#"{"keys":[]}"#),
        Err(FetchError::HttpStatus(301))
    ));
}

#[test]
fn config_derives_the_three_endpoints() {
    let cfg = AppConfig {
        app_host: String::from("0.0.0.0"),
        app_port: 3000,
        database_url: String::from("postgres://localhost/x"),
        keycloak_base_url: String::from("https://idp"),
        keycloak_realm: String::from("demo"),
        keycloak_client_id: String::from("app"),
        keycloak_client_secret: Some(String::from("secret")),
    };
    assert_eq!(cfg.realm_issuer_url(), "https://idp/realms/demo");
    assert_eq!(
        cfg.jwks_url(),
        "https://idp/realms/demo/protocol/openid-connect/certs"
    );
    assert_eq!(
        cfg.introspect_url(),
        "https://idp/realms/demo/protocol/openid-connect/token/introspect"
    );
}
