use vstd::prelude::*;

verus! {

/// Relies on uuid::Uuid::new_v4: a version-4 UUID drawn from the
/// operating system's random source, handed on as its 128-bit value.
/// Nothing is promised of the value: it is random.
#[verifier::external_body]
pub(crate) fn fresh_token() -> (r: u128) {
    uuid::Uuid::new_v4().as_u128()
}

} // verus!
