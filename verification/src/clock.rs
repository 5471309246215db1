//! Arithmetic on UNIX times.
//!
//! The library never reads a clock: every function that needs the present
//! time takes it as an argument, in whole seconds since 1970.

use vstd::prelude::*;

verus! {

/// Seconds elapsed between `earlier` and `later`, or `None` when the
/// difference does not fit in an `i64`.
pub fn elapsed_seconds(later: i64, earlier: i64) -> (gap: Option<i64>)
    ensures
        match gap {
            Some(d) => d == later - earlier,
            None => later - earlier < i64::MIN || later - earlier > i64::MAX,
        },
{
    later.checked_sub(earlier)
}

} // verus!
