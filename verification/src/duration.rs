//! Durations built from whole seconds or milliseconds.
use vstd::prelude::*;

verus! {

/// Calls `Duration::from_secs`. Verus sees `Duration` as opaque, so the
/// contract states nothing of the value.
#[verifier::external_body]
pub(crate) fn secs(n: u64) -> std::time::Duration {
    std::time::Duration::from_secs(n)
}

/// Calls `Duration::from_millis`. Verus sees `Duration` as opaque, so the
/// contract states nothing of the value.
#[verifier::external_body]
pub(crate) fn millis(n: u64) -> std::time::Duration {
    std::time::Duration::from_millis(n)
}

} // verus!
