//! Trusted boundary to the system clock.

use vstd::prelude::*;

verus! {

/// Relies on chrono's `Utc::now`: the current UTC instant as whole seconds
/// since the Unix epoch. The value depends on the machine's clock, so
/// nothing is promised of it.
#[verifier::external_body]
pub(crate) fn now_epoch_seconds() -> u64 {
    chrono::Utc::now().timestamp() as u64
}

} // verus!
