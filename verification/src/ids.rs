//! Identifiers of model elements.
//!
//! Every concept, class, attribute, node and relation is named by a random
//! 128-bit identifier: the numeric value of a version-4 UUID.
use vstd::prelude::*;

verus! {

/// The identifier of a model element: a UUID as its 128-bit number.
pub type Id = u128;

/// Draws a random version-4 UUID and returns its number
/// (`uuid::Uuid::new_v4().as_u128()`).
///
/// Trusted for its type alone: the number is random and nothing is stated
/// of it.
#[verifier::external_body]
pub(crate) fn random_id() -> (res: Id) {
    uuid::Uuid::new_v4().as_u128()
}

} // verus!
