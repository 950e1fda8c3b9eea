use vstd::prelude::*;
use crate::trace::Backtrace;

verus! {

/// Access to what an error carries besides its message.
pub trait ErrorCompat {
    /// Returns a `Backtrace` that may be printed; none unless the error
    /// captured one.
    fn backtrace(&self) -> (r: Option<&Backtrace>) {
        None
    }
}

} // verus!
