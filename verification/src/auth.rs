//! Token check in front of the upload endpoints.
//!
//! Tokens are issued and parsed by the caller's JSON Web Token
//! collaborator; the core only needs the yes/no of an access check and,
//! for the multi-tenant merge, the user directory a valid token
//! names.  Key material is read by the caller and handed in as text.

use vstd::prelude::*;

verus! {

/// The claims carried by an access token.
pub struct TokenPayload {
    pub id: String,
    pub username: String,
    /// Directory under the artifact root that merges for this user
    /// land in.
    pub user_directory: String,
    /// Expiry as a Unix timestamp, seconds.
    pub exp: usize,
}

/// Relies on jsonwebtoken::decode (with jsonwebtoken::DecodingKey::
/// from_rsa_pem and jsonwebtoken::Validation): true exactly when the
/// token's RS256 signature checks out against the given public key
/// and its claims pass the default validation, which compares the
/// expiry stamp with the system clock.  The result therefore depends
/// on the clock and on key material, and nothing can be promised of
/// it here; whoever branches on it must treat both outcomes as possible.
#[verifier::external_body]
fn token_decodes(token: &str, public_key_pem: &str) -> bool {
    let key = match jsonwebtoken::DecodingKey::from_rsa_pem(public_key_pem.as_bytes()) {
        Ok(key) => key,
        Err(_) => return false,
    };
    let validation = jsonwebtoken::Validation::new(jsonwebtoken::Algorithm::RS256);
    jsonwebtoken::decode::<serde_json::Value>(token, &key, &validation).is_ok()
}

/// Access check in front of the token-protected endpoints: whether
/// the token decodes, verifies and is unexpired under the given
/// public key.  Both outcomes are possible on any input — validity
/// is the token collaborator's and the clock's business — so callers
/// must handle either.
pub fn verify_token_valid(token: &str, public_key_pem: &str) -> bool {
    token_decodes(token, public_key_pem)
}

} // verus!
