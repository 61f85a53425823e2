//! The validation pipeline: bearer extraction, header decoding, key
//! selection, the signature gate, and claim validation, in that order.
//!
//! Key selection enforces the algorithm rules of the verifier: the header
//! must declare an algorithm on the allow-list (so `"none"` and symmetric
//! algorithms die here, before any key is consulted), the declared key id
//! must be cached, and the header-claimed algorithm must equal the one
//! registered with the key — a mismatch is a rejection of its own, which
//! closes the algorithm-substitution downgrade.
//!
//! The cryptographic primitive itself is the caller's: it receives the
//! signing input and signature bytes of a parsed token together with the
//! located key's material, and reports a verdict.  The pipeline trusts
//! nothing about that verdict; it only refuses to look at any claim until
//! the verdict is positive.

use vstd::prelude::*;
use vstd::string::StringExecFns;
use vstd::string::StrSliceExecFns;

use crate::claims::{aud_claim, claim_check, str_or_empty, u64_or_zero, validate_claims, Claims};
use crate::config::{issuer_url_chars, AppConfig};
use crate::errors::{AuthError, ClaimError};
use crate::jsonval::{json_get_str, json_str_field, json_u64_field};
use crate::keys::{parse_algorithm, spec_parse_algorithm, KeyEntry, KeySet, SigAlgorithm};
use crate::token::{parse_spec, parse_token};

verus! {

/// The two header members that select a verification key.
pub struct DecodedHeader {
    pub algorithm: String,
    pub key_id: String,
}

/// Decodes the header's `alg` and `kid` members; a header lacking either is
/// malformed.
pub fn decode_header(header: &[u8]) -> (r: Result<DecodedHeader, AuthError>)
    ensures
        match r {
            Ok(h) => json_str_field(header@, "alg"@) == Some(h.algorithm@) && json_str_field(
                header@,
                "kid"@,
            ) == Some(h.key_id@),
            Err(e) => e == AuthError::MalformedToken && (json_str_field(header@, "alg"@) is None
                || json_str_field(header@, "kid"@) is None),
        },
{
    let algorithm = match json_get_str(header, "alg") {
        Some(s) => s,
        None => {
            return Err(AuthError::MalformedToken);
        },
    };
    let key_id = match json_get_str(header, "kid") {
        Some(s) => s,
        None => {
            return Err(AuthError::MalformedToken);
        },
    };
    Ok(DecodedHeader { algorithm, key_id })
}

/// Which key a header selects from the store, or why none: missing
/// members, an algorithm off the allow-list, an uncached key id, or an
/// algorithm disagreeing with the key's registration.
pub open spec fn key_selection(
    hb: Seq<u8>,
    ks: Map<Seq<char>, (SigAlgorithm, Seq<char>)>,
) -> Result<SigAlgorithm, AuthError> {
    if json_str_field(hb, "alg"@) is None || json_str_field(hb, "kid"@) is None {
        Err(AuthError::MalformedToken)
    } else {
        let alg_s = str_or_empty(json_str_field(hb, "alg"@));
        let kid = str_or_empty(json_str_field(hb, "kid"@));
        match spec_parse_algorithm(alg_s) {
            None => Err(AuthError::UnsupportedAlgorithm),
            Some(a) => if !ks.contains_key(kid) {
                Err(AuthError::UnknownKey)
            } else if ks[kid].0 != a {
                Err(AuthError::AlgorithmMismatch)
            } else {
                Ok(a)
            },
        }
    }
}

/// Locates the verification key a token header names, enforcing the
/// allow-list and the header/key algorithm agreement.
pub fn locate_key<'a>(header: &[u8], keys: &'a KeySet) -> (r: Result<&'a KeyEntry, AuthError>)
    requires
        keys.wf(),
    ensures
        match r {
            Ok(e) => key_selection(header@, keys.contents()) == Ok::<SigAlgorithm, AuthError>(
                e.algorithm,
            ) && json_str_field(header@, "kid"@) == Some(e.kid@) && keys.contents().contains_key(
                e.kid@,
            ) && keys.contents()[e.kid@] == (e.algorithm, e.material@),
            Err(e) => key_selection(header@, keys.contents()) == Err::<SigAlgorithm, AuthError>(e),
        },
{
    let h = match decode_header(header) {
        Ok(h) => h,
        Err(e) => {
            return Err(e);
        },
    };
    let alg = match parse_algorithm(h.algorithm.as_str()) {
        Some(a) => a,
        None => {
            return Err(AuthError::UnsupportedAlgorithm);
        },
    };
    let entry = match keys.lookup(h.key_id.as_str()) {
        Some(e) => e,
        None => {
            return Err(AuthError::UnknownKey);
        },
    };
    if entry.algorithm != alg {
        return Err(AuthError::AlgorithmMismatch);
    }
    Ok(entry)
}

/// The whole pipeline's outcome on a raw token: parse, select a key, gate
/// on the signature verdict, then check the claims.
pub open spec fn token_outcome(
    tok: Seq<char>,
    ks: Map<Seq<char>, (SigAlgorithm, Seq<char>)>,
    iss: Seq<char>,
    aud: Seq<char>,
    now: u64,
    signature_valid: bool,
) -> Result<(), AuthError> {
    match parse_spec(tok) {
        None => Err(AuthError::MalformedToken),
        Some((h, p, _g)) => match key_selection(h, ks) {
            Err(e) => Err(e),
            Ok(_) => if !signature_valid {
                Err(AuthError::InvalidSignature)
            } else {
                match claim_check(p, iss, aud, now) {
                    Err(ce) => Err(AuthError::Claim(ce)),
                    Ok(()) => Ok(()),
                }
            },
        },
    }
}

/// Validates a bearer token end to end against the configured issuer and
/// audience at time `now`.
///
/// `signature_valid` is the cryptographic verdict for this token: whether
/// the signature bytes are a valid signature over the token's signing input
/// under the located key.  A caller without that verdict passes `false`,
/// which rejects the token; the claim rules are consulted only behind a
/// positive verdict, never before.
pub fn verify_keycloak_jwt(
    token: &str,
    cfg: &AppConfig,
    keys: &KeySet,
    now: u64,
    signature_valid: bool,
) -> (r: Result<Claims, AuthError>)
    requires
        keys.wf(),
    ensures
        ({
            let iss = issuer_url_chars(cfg.keycloak_base_url@, cfg.keycloak_realm@);
            let aud = cfg.keycloak_client_id@;
            match r {
                Err(e) => token_outcome(token@, keys.contents(), iss, aud, now, signature_valid)
                    == Err::<(), AuthError>(e),
                Ok(c) => token_outcome(token@, keys.contents(), iss, aud, now, signature_valid)
                    is Ok && (parse_spec(token@) matches Some((_h, p, _g)) && c.sub@
                    == str_or_empty(json_str_field(p, "sub"@)) && c.iss@ == iss && c.aud@
                    == aud_claim(p, aud) && c.exp == u64_or_zero(json_u64_field(p, "exp"@))
                    && c.exp > now && c.iat == u64_or_zero(json_u64_field(p, "iat"@))
                    && c.preferred_username@ == str_or_empty(
                    json_str_field(p, "preferred_username"@),
                ) && c.azp@ == str_or_empty(json_str_field(p, "azp"@)) && c.scope@ == str_or_empty(
                    json_str_field(p, "scope"@),
                )),
            }
        }),
{
    let parts = match parse_token(token) {
        Ok(t) => t,
        Err(e) => {
            return Err(e);
        },
    };
    let _key = match locate_key(parts.header.as_slice(), keys) {
        Ok(k) => k,
        Err(e) => {
            return Err(e);
        },
    };
    if !signature_valid {
        return Err(AuthError::InvalidSignature);
    }
    let expected_issuer = cfg.realm_issuer_url();
    match validate_claims(
        parts.payload.as_slice(),
        expected_issuer.as_str(),
        cfg.keycloak_client_id.as_str(),
        now,
    ) {
        Ok(c) => Ok(c),
        Err(ce) => Err(AuthError::Claim(ce)),
    }
}

/// A token whose header declares an algorithm off the allow-list
/// (`"none"` included) is rejected by key selection whatever the store
/// holds — in particular independently of whether its key id is cached.
pub proof fn lemma_unsupported_algorithm_rejected(
    hb: Seq<u8>,
    ks: Map<Seq<char>, (SigAlgorithm, Seq<char>)>,
)
    requires
        json_str_field(hb, "alg"@) matches Some(a) && spec_parse_algorithm(a) is None,
        json_str_field(hb, "kid"@) is Some,
    ensures
        key_selection(hb, ks) == Err::<SigAlgorithm, AuthError>(AuthError::UnsupportedAlgorithm),
{
}

/// A payload whose `exp` is not strictly in the future fails with
/// `Expired`, even when every other claim rule holds.  The claim validator
/// takes no signature input at all, so the rejection is independent of
/// signature validity.
pub proof fn lemma_expired_rejected(b: Seq<u8>, iss: Seq<char>, aud: Seq<char>, now: u64)
    requires
        json_str_field(b, "sub"@) is Some,
        json_str_field(b, "iss"@) == Some(iss),
        crate::claims::aud_matches(b, aud),
        json_u64_field(b, "exp"@) matches Some(e) && e <= now,
    ensures
        claim_check(b, iss, aud, now) == Err::<(), ClaimError>(ClaimError::Expired),
{
}

/// A payload whose `iss` differs from the configured issuer fails with
/// `InvalidIssuer`, whatever the rest of the payload holds.  As with
/// expiry, the claim validator takes no signature input, so the rejection
/// is independent of signature validity.
pub proof fn lemma_wrong_issuer_rejected(b: Seq<u8>, iss: Seq<char>, aud: Seq<char>, now: u64)
    requires
        json_str_field(b, "sub"@) is Some,
        json_str_field(b, "iss"@) matches Some(s) && s != iss,
        crate::claims::aud_present(b),
        json_u64_field(b, "exp"@) is Some,
    ensures
        claim_check(b, iss, aud, now) == Err::<(), ClaimError>(ClaimError::InvalidIssuer),
{
}

/// A well-formed token whose key is cached with an agreeing algorithm,
/// whose signature verdict is positive and whose claims all pass is
/// accepted: no stage of the pipeline rejects it.
pub proof fn lemma_valid_token_accepted(
    tok: Seq<char>,
    ks: Map<Seq<char>, (SigAlgorithm, Seq<char>)>,
    iss: Seq<char>,
    aud: Seq<char>,
    now: u64,
)
    requires
        parse_spec(tok) matches Some((h, p, _g)) && key_selection(h, ks) is Ok && claim_check(
            p,
            iss,
            aud,
            now,
        ) is Ok,
    ensures
        token_outcome(tok, ks, iss, aud, now, true) is Ok,
{
}

/// The authenticated principal handed to request handlers.
#[derive(Clone, Debug)]
pub struct AuthUser {
    pub sub: String,
    pub preferred_username: String,
    pub scope: String,
}

impl AuthUser {
    /// The principal a validated claims object authenticates.
    pub fn from_claims(c: &Claims) -> (r: AuthUser)
        ensures
            r.sub@ == c.sub@,
            r.preferred_username@ == c.preferred_username@,
            r.scope@ == c.scope@,
    {
        AuthUser {
            sub: c.sub.clone(),
            preferred_username: c.preferred_username.clone(),
            scope: c.scope.clone(),
        }
    }
}

/// Extracts the bearer token from an `Authorization` header value: the
/// text after the `Bearer ` scheme prefix, or nothing when the scheme is
/// absent or different.
pub fn extract_bearer_token(header_value: &str) -> (r: Option<String>)
    ensures
        match r {
            Some(t) => header_value@.len() >= 7 && header_value@.take(7) == "Bearer "@ && t@
                == header_value@.skip(7),
            None => header_value@.len() < 7 || header_value@.take(7) != "Bearer "@,
        },
{
    let pat = "Bearer ";
    proof {
        reveal_strlit("Bearer ");
    }
    let n = header_value.unicode_len();
    if n < 7 {
        return None;
    }
    let mut k: usize = 0;
    while k < 7
        invariant
            k <= 7,
            n == header_value@.len(),
            n >= 7,
            pat@ == "Bearer "@,
            pat@.len() == 7,
            forall|j: int| 0 <= j < k ==> header_value@[j] == pat@[j],
        decreases 7 - k,
    {
        if header_value.get_char(k) != pat.get_char(k) {
            proof {
                assert(header_value@.take(7)[k as int] != "Bearer "@[k as int]);
            }
            return None;
        }
        k = k + 1;
    }
    proof {
        assert(header_value@.take(7) =~= "Bearer "@);
    }
    Some(String::from_str(header_value.substring_char(7, n)))
}

} // verus!
