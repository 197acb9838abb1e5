//! Whether an asynchronous step has finished.
use vstd::prelude::*;

verus! {

/// The state of a step the server is waiting on: finished with a value,
/// or not yet.
pub enum Poll<T> {
    Ready(T),
    Pending,
}

} // verus!
