//! The rejection taxonomy and its outward classification.
//!
//! Internally every stage reports a precise reason; outwardly a caller is
//! shown only a coarse class, so that a rejected request cannot be used as an
//! oracle distinguishing "wrong key" from "expired" from "wrong audience".

use vstd::prelude::*;
use vstd::string::StringExecFns;

verus! {

/// The required claims a payload can lack.
#[derive(Clone, Copy, Debug, PartialEq, Eq, Structural)]
pub enum RequiredClaim {
    Sub,
    Iss,
    Aud,
    Exp,
}

/// Semantic claim rejections; always fatal to the request.
#[derive(Clone, Copy, Debug, PartialEq, Eq, Structural)]
pub enum ClaimError {
    /// A required claim is absent (or not of its required type).
    MissingClaim(RequiredClaim),
    /// `iss` differs from the configured issuer.
    InvalidIssuer,
    /// `aud` neither equals nor contains the configured audience.
    InvalidAudience,
    /// `exp` is not strictly in the future.
    Expired,
    /// `nbf` is present and still in the future.
    NotYetValid,
}

/// Everything that can go wrong while validating a bearer token.
#[derive(Clone, Copy, Debug, PartialEq, Eq, Structural)]
pub enum AuthError {
    /// Structurally invalid input; never trust-related.
    MalformedToken,
    /// The key id named by the header is not cached; potentially
    /// recoverable by a refresh.
    UnknownKey,
    /// The header declares an algorithm outside the allow-list
    /// (`"none"` included).
    UnsupportedAlgorithm,
    /// The header-claimed algorithm differs from the one registered with
    /// the located key.
    AlgorithmMismatch,
    /// The cryptographic check failed; always fatal, never retried.
    InvalidSignature,
    /// The signature is sound but a claim rule is violated.
    Claim(ClaimError),
}

/// Failures while fetching the provider's key set.
#[derive(Clone, Debug)]
pub enum FetchError {
    /// The transport itself failed before a response arrived.
    Network(String),
    /// The endpoint answered with a non-success status.
    HttpStatus(u16),
    /// The body is not a JSON document with a key list.
    MalformedDocument,
}

/// Failures while interpreting an introspection exchange.
#[derive(Clone, Debug)]
pub enum IntrospectionError {
    /// The transport itself failed before a response arrived.
    Transport(String),
    /// A success response whose body lacks the `active` flag.
    MalformedResponse,
}

/// The coarse outcome classes a caller may observe, mapped by the route
/// layer to 401, 400 and 503 respectively.
#[derive(Clone, Copy, Debug, PartialEq, Eq, Structural)]
pub enum RejectionClass {
    Unauthenticated,
    MalformedRequest,
    UpstreamUnavailable,
}

/// Application-level error surface kept for the route layer.
#[derive(Clone, Debug)]
pub enum AppError {
    DatabaseError(String),
    Unauthorized,
    NotFound,
    InternalServerError,
}

impl AppError {
    /// The human-readable description of the error.
    pub fn message(&self) -> (r: String)
        ensures
            match self {
                AppError::DatabaseError(d) => r@ == "Database error: "@ + d@,
                AppError::Unauthorized => r@ == "Unauthorized"@,
                AppError::NotFound => r@ == "Not found"@,
                AppError::InternalServerError => r@ == "Internal server error"@,
            },
    {
        match self {
            AppError::DatabaseError(d) => {
                let mut s = String::from_str("Database error: ");
                s.append(d.as_str());
                s
            },
            AppError::Unauthorized => String::from_str("Unauthorized"),
            AppError::NotFound => String::from_str("Not found"),
            AppError::InternalServerError => String::from_str("Internal server error"),
        }
    }
}

/// How a validation failure is classified outwardly.  A missing key id is
/// the one recoverable case: the keys could not be obtained from upstream,
/// so the request is answered as service-unavailable rather than as a
/// judgement on the token.
pub open spec fn spec_classify_rejection(e: AuthError) -> RejectionClass {
    match e {
        AuthError::UnknownKey => RejectionClass::UpstreamUnavailable,
        _ => RejectionClass::Unauthenticated,
    }
}

/// Classifies a validation failure for the route layer.
pub fn classify_rejection(e: &AuthError) -> (r: RejectionClass)
    ensures
        r == spec_classify_rejection(*e),
{
    match e {
        AuthError::UnknownKey => RejectionClass::UpstreamUnavailable,
        _ => RejectionClass::Unauthenticated,
    }
}

/// The only application error a failed validation may surface: the precise
/// reason stays in internal logs, never in the response.
pub fn public_rejection(e: &AuthError) -> (r: AppError)
    ensures
        r is Unauthorized,
{
    let _ = e;
    AppError::Unauthorized
}

} // verus!
