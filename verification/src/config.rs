//! Process configuration and the three provider endpoint URLs derived from it.
//!
//! The issuer, JWKS and introspection URLs are all derived from the provider
//! base URL and the realm name; their exact shape is pinned down so that the
//! claim validator's issuer comparison speaks about the same string.

use vstd::prelude::*;
use vstd::string::StringExecFns;

verus! {

/// Application configuration as plain values.  Reading it from the
/// environment is the caller's concern; this crate only derives the
/// provider endpoints from it.
#[derive(Clone, Debug)]
pub struct AppConfig {
    pub app_host: String,
    pub app_port: u16,
    pub database_url: String,
    pub keycloak_base_url: String,
    pub keycloak_realm: String,
    pub keycloak_client_id: String,
    pub keycloak_client_secret: Option<String>,
}

/// The issuer URL expected in the `iss` claim: `{base}/realms/{realm}`.
pub open spec fn issuer_url_chars(base: Seq<char>, realm: Seq<char>) -> Seq<char> {
    base + "/realms/"@ + realm
}

/// The JWKS endpoint: `{base}/realms/{realm}/protocol/openid-connect/certs`.
pub open spec fn jwks_url_chars(base: Seq<char>, realm: Seq<char>) -> Seq<char> {
    issuer_url_chars(base, realm) + "/protocol/openid-connect/certs"@
}

/// The introspection endpoint:
/// `{base}/realms/{realm}/protocol/openid-connect/token/introspect`.
pub open spec fn introspect_url_chars(base: Seq<char>, realm: Seq<char>) -> Seq<char> {
    issuer_url_chars(base, realm) + "/protocol/openid-connect/token/introspect"@
}

impl AppConfig {
    /// URL of the realm, which is also the issuer every token must name.
    pub fn realm_issuer_url(&self) -> (r: String)
        ensures
            r@ == issuer_url_chars(self.keycloak_base_url@, self.keycloak_realm@),
    {
        let mut s = self.keycloak_base_url.clone();
        s.append("/realms/");
        s.append(self.keycloak_realm.as_str());
        s
    }

    /// URL of the provider's published key set.
    pub fn jwks_url(&self) -> (r: String)
        ensures
            r@ == jwks_url_chars(self.keycloak_base_url@, self.keycloak_realm@),
    {
        let mut s = self.realm_issuer_url();
        s.append("/protocol/openid-connect/certs");
        s
    }

    /// URL of the provider's token introspection endpoint.
    pub fn introspect_url(&self) -> (r: String)
        ensures
            r@ == introspect_url_chars(self.keycloak_base_url@, self.keycloak_realm@),
    {
        let mut s = self.realm_issuer_url();
        s.append("/protocol/openid-connect/token/introspect");
        s
    }
}

} // verus!
