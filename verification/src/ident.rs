//! Identifiers of runs and items.
//!
//! An identifier is the 128-bit value of a version-4 UUID.

use vstd::prelude::*;

verus! {

/// Draws a new identifier by `uuid::Uuid::new_v4` and returns its 128-bit
/// value (`Uuid::as_u128`).
///
/// The value comes from the operating system's random source, so nothing is
/// claimed of it: in particular not that it differs from any earlier one.
#[verifier::external_body]
pub(crate) fn random_id() -> u128 {
    uuid::Uuid::new_v4().as_u128()
}

} // verus!
