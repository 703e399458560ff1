//! Source of candidate identifiers for the registry.

use vstd::prelude::*;

verus! {

/// Relies on `names::Generator`: `Generator::default().next()` draws one
/// random adjective-noun code (e.g. `swift-otter`) from the crate's built-in
/// word lists. The draw comes from a thread-local random number generator,
/// so nothing is promised of the returned value; the registry checks it for
/// collisions itself and retries.
#[verifier::external_body]
pub(crate) fn generate_code() -> (r: Option<String>) {
    names::Generator::default().next()
}

} // verus!
