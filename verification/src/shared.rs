//! State shared between a loaded plugin's threads.
use vstd::prelude::*;

verus! {

/// Wraps a value whose contents must not be printed (raw COM pointers):
/// its debug text is the fixed word `Pointer`.
pub struct NoDebug<T>(pub T);

impl<T> NoDebug<T> {
    /// The text `Debug` shows for the wrapper.
    pub fn debug_text(&self) -> (s: &'static str)
        ensures
            s@ == "Pointer"@,
    {
        "Pointer"
    }
}

impl<T> core::ops::Deref for NoDebug<T> {
    type Target = T;

    fn deref(&self) -> (r: &T)
        ensures
            *r == self.0,
    {
        &self.0
    }
}

} // verus!
