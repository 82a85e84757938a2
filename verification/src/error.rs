//! The errors that reach a caller. Failures of single URLs and of single
//! bodies never do: they are part of a batch's result.

use vstd::prelude::*;

verus! {

/// A configuration step that could not be carried out.
#[derive(Clone, Copy, Debug, PartialEq, Eq, Structural)]
pub enum ConfigError {
    /// Headers were asked for before any bearer token was set.
    MissingToken,
    /// The bearer token holds a character that no header value may carry.
    InvalidToken,
    /// The HTTP transport could not be built on this machine.
    TransportUnavailable,
}

/// A batch whose bookkeeping does not add up. It aborts the whole batch.
#[derive(Clone, Copy, Debug, PartialEq, Eq, Structural)]
pub enum OperationError {
    /// The number of outcomes reported differs from the number of URLs
    /// dispatched.
    OutcomeCount { dispatched: usize, reported: usize },
}

} // verus!
