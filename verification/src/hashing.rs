use vstd::prelude::*;

verus! {

/// Whether the Argon2 verifier, run with the parameters and salt embedded
/// in `digest`, accepts `password`. The verifier recomputes the hash from
/// its two arguments alone, so this is a fixed function of them; a digest
/// that is not in the PHC string format is accepted for no password.
pub uninterp spec fn argon_verifies(password: Seq<char>, digest: Seq<char>) -> bool;

/// Relies on argon2::Argon2::hash_password: with a fresh random salt it
/// derives a PHC digest string that the same crate's verify_password
/// accepts for the same password. It can fail only on an over-long
/// password or when the operating system yields no entropy.
#[verifier::external_body]
pub(crate) fn hash_password(password: &str) -> (r: Option<String>)
    ensures
        r matches Some(digest) ==> argon_verifies(password@, digest@),
{
    match argon2::PasswordHasher::hash_password(&argon2::Argon2::default(), password.as_bytes()) {
        Ok(h) => Some(h.to_string()),
        Err(_) => None,
    }
}

/// Relies on argon2::Argon2::verify_password on a digest string: it parses
/// the digest, recomputes the hash of `password` under the digest's
/// parameters and salt, and reports in constant time whether the two
/// match; a malformed digest matches nothing.
#[verifier::external_body]
pub(crate) fn verify_digest(password: &str, digest: &str) -> (r: bool)
    ensures
        r == argon_verifies(password@, digest@),
{
    argon2::PasswordVerifier::<str>::verify_password(
        &argon2::Argon2::default(),
        password.as_bytes(),
        digest,
    ).is_ok()
}

} // verus!
