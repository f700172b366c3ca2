//! The time.
use vstd::prelude::*;

verus! {

/// `std::time::SystemTime::now`, as whole seconds since the Unix epoch, or zero
/// before it. Nothing is claimed of the time.
#[verifier::external_body]
pub(crate) fn now_epoch() -> (r: u64) {
    std::time::SystemTime::now()
        .duration_since(std::time::UNIX_EPOCH)
        .unwrap_or_default()
        .as_secs()
}

} // verus!
