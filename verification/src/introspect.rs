//! The introspection fallback: interpretation of a provider introspection
//! exchange, and the form the request carries.
//!
//! This path delegates trust entirely to the provider: it consults neither
//! the key material store nor the signature verifier.  A non-success status
//! is answered as "not active" — fail closed — rather than as an error;
//! only a transport failure (the caller's concern) or an unreadable success
//! body is an error.

use vstd::prelude::*;
use vstd::string::StringExecFns;

use crate::errors::IntrospectionError;
use crate::jsonval::{
    json_bool_field, json_get_bool, json_get_str, json_get_u64, json_str_field, json_u64_field,
};

verus! {

/// What the provider said about a token; produced per call, never cached.
#[derive(Clone, Debug)]
pub struct IntrospectionResult {
    pub active: bool,
    pub subject: Option<String>,
    pub username: Option<String>,
    pub expires_at: Option<u64>,
}

/// View of the optional subject/username fields.
pub open spec fn opt_str_view(o: Option<String>) -> Option<Seq<char>> {
    match o {
        Some(s) => Some(s@),
        None => None,
    }
}

/// Interprets an introspection response: any status but 200 means the
/// token is treated as not active; a 200 body must carry the `active`
/// flag, whose value (with the optional identity fields) is passed
/// through.
pub fn interpret_introspection(status: u16, body: &[u8]) -> (r: Result<
    IntrospectionResult,
    IntrospectionError,
>)
    ensures
        status != 200 ==> (r matches Ok(o) && o.active == false && o.subject is None
            && o.username is None && o.expires_at is None),
        status == 200 ==> match json_bool_field(body@, "active"@) {
            None => (r matches Err(e) && e is MalformedResponse),
            Some(a) => (r matches Ok(o) && o.active == a && opt_str_view(o.subject)
                == json_str_field(body@, "sub"@) && opt_str_view(o.username) == json_str_field(
                body@,
                "username"@,
            ) && o.expires_at == json_u64_field(body@, "exp"@)),
        },
{
    if status != 200 {
        return Ok(
            IntrospectionResult { active: false, subject: None, username: None, expires_at: None },
        );
    }
    let active = match json_get_bool(body, "active") {
        Some(a) => a,
        None => {
            return Err(IntrospectionError::MalformedResponse);
        },
    };
    Ok(
        IntrospectionResult {
            active,
            subject: json_get_str(body, "sub"),
            username: json_get_str(body, "username"),
            expires_at: json_get_u64(body, "exp"),
        },
    )
}

/// The form fields an introspection request posts: the token, the client
/// id, and the client secret exactly when one is configured.
pub fn build_introspection_form(
    token: &str,
    client_id: &str,
    client_secret: Option<&str>,
) -> (r: Vec<(String, String)>)
    ensures
        r@.len() == (if client_secret is Some {
            3int
        } else {
            2int
        }),
        r@[0].0@ == "token"@ && r@[0].1@ == token@,
        r@[1].0@ == "client_id"@ && r@[1].1@ == client_id@,
        client_secret matches Some(s) ==> r@[2].0@ == "client_secret"@ && r@[2].1@ == s@,
{
    let mut form: Vec<(String, String)> = Vec::new();
    form.push((String::from_str("token"), String::from_str(token)));
    form.push((String::from_str("client_id"), String::from_str(client_id)));
    match client_secret {
        Some(s) => {
            form.push((String::from_str("client_secret"), String::from_str(s)));
        },
        None => {},
    }
    form
}

} // verus!
