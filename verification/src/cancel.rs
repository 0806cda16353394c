//! The cancellation flag: raised by whoever started an operation, polled by
//! the operation at each of its steps.

use vstd::prelude::*;
use std::sync::Arc;
use std::sync::atomic::AtomicBool;

verus! {

/// Whether the flag, if there is one, is raised at this moment. Another
/// thread may raise it at any time, so two polls need not agree. Without a
/// flag nothing is ever cancelled.
pub fn is_cancelled(cancel: Option<&Arc<AtomicBool>>) -> (raised: bool)
    ensures
        cancel is None ==> !raised,
{
    match cancel {
        Some(flag) => flag.load(std::sync::atomic::Ordering::Relaxed),
        None => false,
    }
}

} // verus!
