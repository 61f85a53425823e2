//! Bearer-token authentication gate: key-set acquisition and caching,
//! token parsing, signature-verification gating and claim validation for
//! JSON Web Tokens, plus an introspection fallback.
//!
//! The crate is organised leaf-first:
//! - [`base64url`]: the RFC 4648 base64url codec the token parser rests on;
//! - [`jsonval`]: trusted access to the JSON documents carried by tokens;
//! - [`keys`]: the key material store and JWKS ingestion;
//! - [`token`]: the three-segment token parser;
//! - [`claims`]: the claim validator;
//! - [`validate`]: the validation pipeline tying the stages together;
//! - [`introspect`]: interpretation of provider introspection responses;
//! - [`config`]: provider endpoint derivation;
//! - [`errors`]: the rejection taxonomy and its public classification.

pub mod base64url;
pub mod claims;
pub mod config;
pub mod errors;
pub mod introspect;
pub mod jsonval;
pub mod keys;
pub mod models;
pub mod strutil;
pub mod token;
pub mod validate;
