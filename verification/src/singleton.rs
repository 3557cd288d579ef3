//! Whether this launcher is the only one.
use vstd::prelude::*;

verus! {

/// The system's error code for a name that is already taken.
pub const ERROR_ALREADY_EXISTS: u32 = 183;

/// What came of creating the mutex.
#[derive(Debug, Clone, Copy, PartialEq, Eq, Structural)]
pub enum Mutex {
    NotCreated,
    /// Created or opened; the error code that the system noted.
    Created(u32),
}

/// Whether this launcher is the first: the mutex is its own. Otherwise the window of the other
/// launcher is brought to the front.
pub fn acquire(mutex: Mutex) -> (r: bool)
    ensures
        r == (mutex matches Mutex::Created(code) && code != ERROR_ALREADY_EXISTS),
{
    match mutex {
        Mutex::NotCreated => false,
        Mutex::Created(code) => code != ERROR_ALREADY_EXISTS,
    }
}

} // verus!
