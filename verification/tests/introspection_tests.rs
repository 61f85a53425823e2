use token_gate::errors::IntrospectionError;
use token_gate::introspect::{build_introspection_form, interpret_introspection};

#[test]
fn inactive_answer_is_a_result_not_an_error() {
    let r = interpret_introspection(200, br#"{"active":false}"#).unwrap();
    assert!(!r.active);
    assert!(r.subject.is_none());
}

#[test]
fn active_answer_passes_the_identity_fields_through() {
    let body = br#"{"active":true,"sub":"u1","username":"alice","exp":4102444800}"#;
    let r = interpret_introspection(200, body).unwrap();
    assert!(r.active);
    assert_eq!(r.subject.as_deref(), Some("u1"));
    assert_eq!(r.username.as_deref(), Some("alice"));
    assert_eq!(r.expires_at, Some(4102444800));
}

#[test]
fn non_success_status_fails_closed_as_inactive() {
    let r = interpret_introspection(403, b"whatever").unwrap();
    assert!(!r.active);
    let r2 = interpret_introspection(500, b"").unwrap();
    assert!(!r2.active);
}

#[test]
fn unreadable_success_body_is_an_error() {
    assert!(matches!(
        interpret_introspection(200, b"not json"),
        Err(IntrospectionError::MalformedResponse)
    ));
    assert!(matches!(
        interpret_introspection(200, br#"{"status":"ok"}"#),
        Err(IntrospectionError::MalformedResponse)
    ));
    assert!(matches!(
        interpret_introspection(200, br#"{"active":"yes"}"#),
        Err(IntrospectionError::MalformedResponse)
    ));
}

#[test]
fn form_carries_token_and_client_id() {
    let form = build_introspection_form("tok123", "app", None);
    assert_eq!(form.len(), 2);
    assert_eq!(form[0], (String::from("token"), String::from("tok123")));
    assert_eq!(form[1], (String::from("client_id"), String::from("app")));
}

#[test]
fn form_adds_the_secret_only_when_configured() {
    let form = build_introspection_form("tok123", "app", Some("s3cr3t"));
    assert_eq!(form.len(), 3);
    assert_eq!(
        form[2],
        (String::from("client_secret"), String::from("s3cr3t"))
    );
}
