//! Concurrent fetch-and-deserialize: the rules by which a batch of GET
//! requests is configured, accounted for and turned into typed results.
//!
//! Sending the requests is left to the caller. What is here decides how a
//! client is configured, what each request came to, and how the outcomes of
//! a batch add up.

pub mod arrest;
pub mod batch;
pub mod client;
pub mod error;
pub mod headers;
pub mod laws;
pub mod outcome;
pub mod parse;
pub mod transport;

pub use batch::BatchResult;
pub use client::Client;
pub use error::{ConfigError, OperationError};
pub use outcome::{FetchOutcome, Stage};
pub use parse::Parsed;
pub use transport::Transport;

use vstd::prelude::*;

verus! {

/// Something that can be run and says a line when it is.
pub trait Arrest {
    /// The line that a run reports.
    fn run(&self) -> (line: String)
        ensures
            line@ == "Good morning."@,
    {
        String::from_str("Good morning.")
    }
}

/// The line that a call of this function reports.
pub fn function() -> (line: String)
    ensures
        line@ == "called `my_mod::function()`"@,
{
    String::from_str("called `my_mod::function()`")
}

} // verus!
