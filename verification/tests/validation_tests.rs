use token_gate::base64url::base64url_encode;
use token_gate::claims::validate_claims;
use token_gate::config::AppConfig;
use token_gate::errors::{
    classify_rejection, public_rejection, AppError, AuthError, ClaimError, RejectionClass,
    RequiredClaim,
};
use token_gate::keys::{KeyEntry, KeySet, SigAlgorithm};
use token_gate::validate::{extract_bearer_token, verify_keycloak_jwt, AuthUser};

const NOW: u64 = 1_700_000_000;
const FUTURE: u64 = 4_102_444_800;

fn cfg() -> AppConfig {
    AppConfig {
        app_host: String::from("0.0.0.0"),
        app_port: 3000,
        database_url: String::new(),
        keycloak_base_url: String::from("https://idp"),
        keycloak_realm: String::from("demo"),
        keycloak_client_id: String::from("app"),
        keycloak_client_secret: None,
    }
}

fn keys_with_k1() -> KeySet {
    let mut ks = KeySet::new();
    let _ = ks.insert(KeyEntry {
        kid: String::from("k1"),
        algorithm: SigAlgorithm::Rs256,
        material: String::from("modulus:exponent"),
    });
    ks
}

fn make_token(header: &str, payload: &str) -> String {
    format!(
        "{}.{}.{}",
        base64url_encode(header.as_bytes()),
        base64url_encode(payload.as_bytes()),
        base64url_encode(b"sig")
    )
}

fn good_header() -> &'static str {
    r#"{"alg":"RS256","kid":"k1"}"#
}

#[test]
fn valid_token_yields_the_payload_claims() {
    let payload = format!(
        r#"{{"iss":"https://idp/realms/demo","aud":"app","sub":"u1","exp":{},"iat":5,"preferred_username":"alice","azp":"app","scope":"openid"}}"#,
        FUTURE
    );
    let token = make_token(good_header(), &payload);
    let c = verify_keycloak_jwt(&token, &cfg(), &keys_with_k1(), NOW, true).unwrap();
    assert_eq!(c.sub, "u1");
    assert_eq!(c.iss, "https://idp/realms/demo");
    assert_eq!(c.aud, "app");
    assert_eq!(c.exp, FUTURE);
    assert_eq!(c.iat, 5);
    assert_eq!(c.preferred_username, "alice");
    assert_eq!(c.azp, "app");
    assert_eq!(c.scope, "openid");
}

#[test]
fn optional_claims_default_when_absent() {
    let payload = format!(
        r#"{{"iss":"https://idp/realms/demo","aud":"app","sub":"u1","exp":{}}}"#,
        FUTURE
    );
    let token = make_token(good_header(), &payload);
    let c = verify_keycloak_jwt(&token, &cfg(), &keys_with_k1(), NOW, true).unwrap();
    assert_eq!(c.preferred_username, "");
    assert_eq!(c.azp, "");
    assert_eq!(c.scope, "");
    assert_eq!(c.iat, 0);
}

#[test]
fn expired_token_is_rejected() {
    let payload = r#"{"iss":"https://idp/realms/demo","aud":"app","sub":"u1","exp":1000}"#;
    let token = make_token(good_header(), payload);
    let r = verify_keycloak_jwt(&token, &cfg(), &keys_with_k1(), NOW, true);
    assert_eq!(r.unwrap_err(), AuthError::Claim(ClaimError::Expired));
}

#[test]
fn token_expiring_exactly_now_is_rejected() {
    let payload = format!(
        r#"{{"iss":"https://idp/realms/demo","aud":"app","sub":"u1","exp":{}}}"#,
        NOW
    );
    let token = make_token(good_header(), &payload);
    let r = verify_keycloak_jwt(&token, &cfg(), &keys_with_k1(), NOW, true);
    assert_eq!(r.unwrap_err(), AuthError::Claim(ClaimError::Expired));
}

#[test]
fn wrong_issuer_is_rejected() {
    let payload = format!(
        r#"{{"iss":"https://other/realms/demo","aud":"app","sub":"u1","exp":{}}}"#,
        FUTURE
    );
    let token = make_token(good_header(), &payload);
    let r = verify_keycloak_jwt(&token, &cfg(), &keys_with_k1(), NOW, true);
    assert_eq!(r.unwrap_err(), AuthError::Claim(ClaimError::InvalidIssuer));
}

#[test]
fn wrong_audience_is_rejected() {
    let payload = format!(
        r#"{{"iss":"https://idp/realms/demo","aud":"other","sub":"u1","exp":{}}}"#,
        FUTURE
    );
    let token = make_token(good_header(), &payload);
    let r = verify_keycloak_jwt(&token, &cfg(), &keys_with_k1(), NOW, true);
    assert_eq!(r.unwrap_err(), AuthError::Claim(ClaimError::InvalidAudience));
}

#[test]
fn audience_list_containing_the_client_matches() {
    let payload = format!(
        r#"{{"iss":"https://idp/realms/demo","aud":["account","app"],"sub":"u1","exp":{}}}"#,
        FUTURE
    );
    let token = make_token(good_header(), &payload);
    let c = verify_keycloak_jwt(&token, &cfg(), &keys_with_k1(), NOW, true).unwrap();
    // A matched audience list records the configured audience.
    assert_eq!(c.aud, "app");
}

#[test]
fn audience_list_without_the_client_is_rejected() {
    let payload = format!(
        r#"{{"iss":"https://idp/realms/demo","aud":["account","admin"],"sub":"u1","exp":{}}}"#,
        FUTURE
    );
    let token = make_token(good_header(), &payload);
    let r = verify_keycloak_jwt(&token, &cfg(), &keys_with_k1(), NOW, true);
    assert_eq!(r.unwrap_err(), AuthError::Claim(ClaimError::InvalidAudience));
}

#[test]
fn missing_required_claims_are_reported_in_order() {
    let ks = keys_with_k1();
    let c = cfg();
    let t1 = make_token(good_header(), r#"{"iss":"x","aud":"app","exp":99}"#);
    assert_eq!(
        verify_keycloak_jwt(&t1, &c, &ks, NOW, true).unwrap_err(),
        AuthError::Claim(ClaimError::MissingClaim(RequiredClaim::Sub))
    );
    let t2 = make_token(good_header(), r#"{"sub":"u1","aud":"app","exp":99}"#);
    assert_eq!(
        verify_keycloak_jwt(&t2, &c, &ks, NOW, true).unwrap_err(),
        AuthError::Claim(ClaimError::MissingClaim(RequiredClaim::Iss))
    );
    let t3 = make_token(good_header(), r#"{"sub":"u1","iss":"x","exp":99}"#);
    assert_eq!(
        verify_keycloak_jwt(&t3, &c, &ks, NOW, true).unwrap_err(),
        AuthError::Claim(ClaimError::MissingClaim(RequiredClaim::Aud))
    );
    let t4 = make_token(good_header(), r#"{"sub":"u1","iss":"x","aud":"app"}"#);
    assert_eq!(
        verify_keycloak_jwt(&t4, &c, &ks, NOW, true).unwrap_err(),
        AuthError::Claim(ClaimError::MissingClaim(RequiredClaim::Exp))
    );
}

#[test]
fn not_yet_valid_token_is_rejected() {
    let payload = format!(
        r#"{{"iss":"https://idp/realms/demo","aud":"app","sub":"u1","exp":{},"nbf":{}}}"#,
        FUTURE,
        NOW + 60
    );
    let token = make_token(good_header(), &payload);
    let r = verify_keycloak_jwt(&token, &cfg(), &keys_with_k1(), NOW, true);
    assert_eq!(r.unwrap_err(), AuthError::Claim(ClaimError::NotYetValid));
}

#[test]
fn algorithm_none_is_rejected_even_with_a_cached_key() {
    let header = r#"{"alg":"none","kid":"k1"}"#;
    let payload = format!(
        r#"{{"iss":"https://idp/realms/demo","aud":"app","sub":"u1","exp":{}}}"#,
        FUTURE
    );
    let token = make_token(header, &payload);
    let r = verify_keycloak_jwt(&token, &cfg(), &keys_with_k1(), NOW, true);
    assert_eq!(r.unwrap_err(), AuthError::UnsupportedAlgorithm);
}

#[test]
fn symmetric_algorithm_is_rejected() {
    let header = r#"{"alg":"HS256","kid":"k1"}"#;
    let token = make_token(header, r#"{"sub":"u1"}"#);
    let r = verify_keycloak_jwt(&token, &cfg(), &keys_with_k1(), NOW, true);
    assert_eq!(r.unwrap_err(), AuthError::UnsupportedAlgorithm);
}

#[test]
fn header_key_algorithm_disagreement_is_rejected() {
    let header = r#"{"alg":"RS512","kid":"k1"}"#;
    let token = make_token(header, r#"{"sub":"u1"}"#);
    let r = verify_keycloak_jwt(&token, &cfg(), &keys_with_k1(), NOW, true);
    assert_eq!(r.unwrap_err(), AuthError::AlgorithmMismatch);
}

#[test]
fn unknown_key_id_is_reported_and_classified_unavailable() {
    let header = r#"{"alg":"RS256","kid":"k9"}"#;
    let token = make_token(header, r#"{"sub":"u1"}"#);
    let r = verify_keycloak_jwt(&token, &cfg(), &keys_with_k1(), NOW, true);
    let e = r.unwrap_err();
    assert_eq!(e, AuthError::UnknownKey);
    assert_eq!(classify_rejection(&e), RejectionClass::UpstreamUnavailable);
}

#[test]
fn other_rejections_classify_as_unauthenticated() {
    assert_eq!(
        classify_rejection(&AuthError::MalformedToken),
        RejectionClass::Unauthenticated
    );
    assert_eq!(
        classify_rejection(&AuthError::InvalidSignature),
        RejectionClass::Unauthenticated
    );
    assert_eq!(
        classify_rejection(&AuthError::Claim(ClaimError::Expired)),
        RejectionClass::Unauthenticated
    );
}

#[test]
fn negative_signature_verdict_rejects_before_any_claim_check() {
    // Claims are deliberately expired: with a negative verdict the
    // rejection must still be the signature's, since claim rules run only
    // after the signature gate.
    let payload = r#"{"iss":"https://idp/realms/demo","aud":"app","sub":"u1","exp":1000}"#;
    let token = make_token(good_header(), payload);
    let r = verify_keycloak_jwt(&token, &cfg(), &keys_with_k1(), NOW, false);
    assert_eq!(r.unwrap_err(), AuthError::InvalidSignature);
}

#[test]
fn rejections_surface_only_a_generic_unauthorized() {
    let e = public_rejection(&AuthError::Claim(ClaimError::InvalidIssuer));
    assert!(matches!(e, AppError::Unauthorized));
}

#[test]
fn claim_validator_rejects_malformed_issuer_type() {
    // An `iss` that is a number is not a string claim: reported as missing.
    let r = validate_claims(br#"{"iss":7,"aud":"app","sub":"u1","exp":99}"#, "x", "app", 1);
    assert_eq!(r.unwrap_err(), ClaimError::MissingClaim(RequiredClaim::Iss));
}

#[test]
fn bearer_scheme_is_required() {
    assert_eq!(
        extract_bearer_token("Bearer abc.def.ghi"),
        Some(String::from("abc.def.ghi"))
    );
    assert_eq!(extract_bearer_token("Basic abc"), None);
    assert_eq!(extract_bearer_token("bearer abc"), None);
    assert_eq!(extract_bearer_token("Bearer"), None);
    assert_eq!(extract_bearer_token(""), None);
    assert_eq!(extract_bearer_token("Bearer "), Some(String::new()));
}

#[test]
fn auth_user_carries_the_principal_fields() {
    let payload = format!(
        r#"{{"iss":"https://idp/realms/demo","aud":"app","sub":"u1","exp":{},"preferred_username":"alice","scope":"openid"}}"#,
        FUTURE
    );
    let token = make_token(good_header(), &payload);
    let c = verify_keycloak_jwt(&token, &cfg(), &keys_with_k1(), NOW, true).unwrap();
    let u = AuthUser::from_claims(&c);
    assert_eq!(u.sub, "u1");
    assert_eq!(u.preferred_username, "alice");
    assert_eq!(u.scope, "openid");
}

#[test]
fn app_error_messages_match_the_route_layer_strings() {
    assert_eq!(AppError::Unauthorized.message(), "Unauthorized");
    assert_eq!(AppError::NotFound.message(), "Not found");
    assert_eq!(
        AppError::InternalServerError.message(),
        "Internal server error"
    );
    assert_eq!(
        AppError::DatabaseError(String::from("boom")).message(),
        "Database error: boom"
    );
}
