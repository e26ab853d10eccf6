//! Answers that may not be there yet.

use vstd::prelude::*;

verus! {

/// What polling gave.
#[derive(Debug, Clone, Copy, PartialEq, Eq)]
pub enum Polled<T> {
    /// The answer.
    Ready(T),
    /// There is no answer yet.
    Pending,
}

} // verus!
