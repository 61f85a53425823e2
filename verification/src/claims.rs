//! The claim validator: enforces the claim rules on a decoded payload and
//! produces the typed, trusted claims object.
//!
//! Checks run in a fixed order, each short-circuiting: presence of `sub`,
//! `iss`, `aud` and `exp`; issuer equality; audience match (a scalar
//! audience equal to, or an audience list containing, the configured one);
//! expiry strictly in the future; and, when present, `nbf` not in the
//! future.  Optional claims are copied through with empty/zero defaults.
//!
//! This stage runs strictly after the signature verifier has succeeded:
//! claim rules are never consulted on an unverified payload.

use vstd::prelude::*;
use vstd::string::StringExecFns;

use crate::errors::{ClaimError, RequiredClaim};
use crate::jsonval::{
    json_get_str, json_get_str_array, json_get_u64, json_str_field, json_str_list_field,
    json_u64_field, opt_view,
};
use crate::strutil::str_eq;

verus! {

/// The trusted result of a successful validation: the authenticated
/// principal's claims.  Created only after every check has passed.
#[derive(Clone, Debug)]
pub struct Claims {
    pub sub: String,
    pub preferred_username: String,
    pub exp: u64,
    pub iat: u64,
    pub aud: String,
    pub iss: String,
    pub azp: String,
    pub scope: String,
}

/// An optional string claim, defaulted to the empty string.
pub open spec fn str_or_empty(o: Option<Seq<char>>) -> Seq<char> {
    match o {
        Some(s) => s,
        None => Seq::empty(),
    }
}

/// An optional numeric claim, defaulted to zero.
pub open spec fn u64_or_zero(o: Option<u64>) -> u64 {
    match o {
        Some(v) => v,
        None => 0,
    }
}

/// The `aud` claim counts as present in either representation.
pub open spec fn aud_present(b: Seq<u8>) -> bool {
    json_str_field(b, "aud"@) is Some || json_str_list_field(b, "aud"@) is Some
}

/// The audience matches when the scalar `aud` equals the configured
/// audience, or the `aud` list contains it.
pub open spec fn aud_matches(b: Seq<u8>, aud: Seq<char>) -> bool {
    json_str_field(b, "aud"@) == Some(aud) || (json_str_list_field(b, "aud"@) matches Some(l)
        && l.contains(Some(aud)))
}

/// The `aud` value recorded in the claims: the scalar claim when the
/// payload carries one, otherwise the configured audience the list
/// matched.
pub open spec fn aud_claim(b: Seq<u8>, aud: Seq<char>) -> Seq<char> {
    match json_str_field(b, "aud"@) {
        Some(s) => s,
        None => aud,
    }
}

/// The outcome of the claim rules on a payload, in checking order.
pub open spec fn claim_check(b: Seq<u8>, iss: Seq<char>, aud: Seq<char>, now: u64) -> Result<
    (),
    ClaimError,
> {
    if json_str_field(b, "sub"@) is None {
        Err(ClaimError::MissingClaim(RequiredClaim::Sub))
    } else if json_str_field(b, "iss"@) is None {
        Err(ClaimError::MissingClaim(RequiredClaim::Iss))
    } else if !aud_present(b) {
        Err(ClaimError::MissingClaim(RequiredClaim::Aud))
    } else if json_u64_field(b, "exp"@) is None {
        Err(ClaimError::MissingClaim(RequiredClaim::Exp))
    } else if json_str_field(b, "iss"@) != Some(iss) {
        Err(ClaimError::InvalidIssuer)
    } else if !aud_matches(b, aud) {
        Err(ClaimError::InvalidAudience)
    } else if u64_or_zero(json_u64_field(b, "exp"@)) <= now {
        Err(ClaimError::Expired)
    } else if json_u64_field(b, "nbf"@) matches Some(nbf) && now < nbf {
        Err(ClaimError::NotYetValid)
    } else {
        Ok(())
    }
}

/// Validates the claim rules on a decoded payload and extracts the typed
/// claims; fails with exactly the first violated rule, and succeeds with
/// the payload's own claim values (optional ones defaulted) otherwise.
pub fn validate_claims(
    payload: &[u8],
    expected_issuer: &str,
    expected_audience: &str,
    now: u64,
) -> (r: Result<Claims, ClaimError>)
    ensures
        match r {
            Err(e) => claim_check(payload@, expected_issuer@, expected_audience@, now) == Err::<
                (),
                ClaimError,
            >(e),
            Ok(c) => claim_check(payload@, expected_issuer@, expected_audience@, now) is Ok
                && c.sub@ == str_or_empty(json_str_field(payload@, "sub"@)) && c.iss@
                == expected_issuer@ && c.aud@ == aud_claim(payload@, expected_audience@) && c.exp
                == u64_or_zero(json_u64_field(payload@, "exp"@)) && c.iat == u64_or_zero(
                json_u64_field(payload@, "iat"@),
            ) && c.preferred_username@ == str_or_empty(
                json_str_field(payload@, "preferred_username"@),
            ) && c.azp@ == str_or_empty(json_str_field(payload@, "azp"@)) && c.scope@
                == str_or_empty(json_str_field(payload@, "scope"@)),
        },
{
    let sub = match json_get_str(payload, "sub") {
        Some(s) => s,
        None => {
            return Err(ClaimError::MissingClaim(RequiredClaim::Sub));
        },
    };
    let iss = match json_get_str(payload, "iss") {
        Some(s) => s,
        None => {
            return Err(ClaimError::MissingClaim(RequiredClaim::Iss));
        },
    };
    let aud_scalar = json_get_str(payload, "aud");
    let aud_list = json_get_str_array(payload, "aud");
    if aud_scalar.is_none() && aud_list.is_none() {
        return Err(ClaimError::MissingClaim(RequiredClaim::Aud));
    }
    let exp = match json_get_u64(payload, "exp") {
        Some(v) => v,
        None => {
            return Err(ClaimError::MissingClaim(RequiredClaim::Exp));
        },
    };
    if !str_eq(iss.as_str(), expected_issuer) {
        return Err(ClaimError::InvalidIssuer);
    }
    let scalar_match = match &aud_scalar {
        Some(s) => str_eq(s.as_str(), expected_audience),
        None => false,
    };
    let list_match = if scalar_match {
        false
    } else {
        match &aud_list {
            Some(l) => list_contains_str(l, expected_audience),
            None => false,
        }
    };
    if !scalar_match && !list_match {
        proof {
            assert(!aud_matches(payload@, expected_audience@));
        }
        return Err(ClaimError::InvalidAudience);
    }
    if exp <= now {
        return Err(ClaimError::Expired);
    }
    match json_get_u64(payload, "nbf") {
        Some(nbf) => {
            if now < nbf {
                return Err(ClaimError::NotYetValid);
            }
        },
        None => {},
    }
    let preferred_username = match json_get_str(payload, "preferred_username") {
        Some(s) => s,
        None => String::new(),
    };
    let iat = match json_get_u64(payload, "iat") {
        Some(v) => v,
        None => 0,
    };
    let azp = match json_get_str(payload, "azp") {
        Some(s) => s,
        None => String::new(),
    };
    let scope = match json_get_str(payload, "scope") {
        Some(s) => s,
        None => String::new(),
    };
    let aud = match aud_scalar {
        Some(s) => s,
        None => String::from_str(expected_audience),
    };
    Ok(Claims { sub, preferred_username, exp, iat, aud, iss, azp, scope })
}

/// Whether the decoded audience list contains `needle` as a string element.
fn list_contains_str(l: &Vec<Option<String>>, needle: &str) -> (r: bool)
    ensures
        r == l@.map_values(|o: Option<String>| opt_view(o)).contains(Some(needle@)),
{
    let ghost mapped = l@.map_values(|o: Option<String>| opt_view(o));
    let n = l.len();
    let mut i: usize = 0;
    while i < n
        invariant
            i <= n,
            n == l@.len(),
            mapped == l@.map_values(|o: Option<String>| opt_view(o)),
            forall|k: int| 0 <= k < i ==> mapped[k] != Some(needle@),
        decreases n - i,
    {
        match &l[i] {
            Some(s) => {
                if str_eq(s.as_str(), needle) {
                    proof {
                        assert(mapped[i as int] == Some(needle@));
                    }
                    return true;
                }
            },
            None => {},
        }
        proof {
            assert(mapped[i as int] != Some(needle@));
        }
        i = i + 1;
    }
    proof {
        if mapped.contains(Some(needle@)) {
            let w = choose|w: int| 0 <= w < mapped.len() && mapped[w] == Some(needle@);
            assert(mapped[w] != Some(needle@));
        }
    }
    false
}

} // verus!
