//! One batch, from the outcomes that the fetcher funnelled back to the
//! typed result: successes, failed URLs, and the bodies dropped in between.

use crate::client::Client;
use crate::error::OperationError;
use crate::outcome::{bodies_of, failed_urls_of, partition, FetchOutcome, Outcome};
use crate::parse::{dropped_lines, kept};
use vstd::prelude::*;

verus! {

/// How many outcomes the conduit between the requests and their one
/// consumer holds before a sender has to wait.
pub const CONDUIT_CAPACITY: usize = 32;

/// The result of one batch. Every dispatched URL is accounted for in
/// exactly one of the three parts.
#[derive(Debug, PartialEq, Eq)]
pub struct BatchResult<T> {
    /// The values of the bodies that parsed, in the order of arrival.
    pub successes: Vec<T>,
    /// The URLs that failed to connect or whose body could not be read, in
    /// the order of arrival. A URL that failed twice stands twice.
    pub failed_urls: Vec<String>,
    /// One line of diagnostics for each body that did not parse. Such a
    /// body counts neither as a success nor as a failed URL.
    pub dropped: Vec<String>,
}

impl<T> BatchResult<T> {
    /// Whether `self` is what `outcomes` come to when the bodies among them
    /// parse as `results` say.
    pub open spec fn is_from(
        self,
        outcomes: Seq<Outcome>,
        results: Seq<Result<T, Seq<char>>>,
    ) -> bool {
        &&& results.len() == bodies_of(outcomes).len()
        &&& self.successes@ == kept(results)
        &&& self.dropped.deep_view() == dropped_lines(results)
        &&& self.failed_urls.deep_view() == failed_urls_of(outcomes)
    }
}

/// Every outcome is either a body or a failed URL: the two counts add up to
/// the number of outcomes.
pub proof fn lemma_bodies_and_failures(outcomes: Seq<Outcome>)
    ensures
        bodies_of(outcomes).len() + failed_urls_of(outcomes).len() == outcomes.len(),
    decreases outcomes.len(),
{
    if outcomes.len() > 0 {
        lemma_bodies_and_failures(outcomes.drop_last());
    }
}

impl Client {
    /// Turns the outcomes of the requests for `paths` into the result of
    /// the batch. `outcomes` holds what the fetcher funnelled back, in the
    /// order of arrival; `struct_response` only selects `T`.
    ///
    /// The client is only read, so it can serve any number of batches.
    ///
    /// Fails only where the number of outcomes is not the number of URLs:
    /// some request then reported never or twice. No failed URL and no
    /// body that does not parse makes the batch fail.
    pub fn arrest<T: serde::de::DeserializeOwned>(
        &self,
        paths: Vec<String>,
        outcomes: Vec<FetchOutcome>,
        struct_response: T,
    ) -> (batch: Result<BatchResult<T>, OperationError>)
        ensures
            outcomes.len() != paths.len() ==> (batch matches Err(
                OperationError::OutcomeCount { dispatched, reported },
            ) && dispatched == paths.len() && reported == outcomes.len()),
            outcomes.len() == paths.len() ==> batch is Ok && exists|
                results: Seq<Result<T, Seq<char>>>,
            | #[trigger] batch->Ok_0.is_from(outcomes.deep_view(), results),
            batch matches Ok(result) ==> result.successes.len() + result.dropped.len()
                + result.failed_urls.len() == paths.len(),
    {
        let dispatched = paths.len();
        let reported = outcomes.len();
        if reported != dispatched {
            return Err(OperationError::OutcomeCount { dispatched, reported });
        }
        let ghost all = outcomes.deep_view();
        let (bodies, failed_urls) = partition(outcomes);
        proof {
            lemma_bodies_and_failures(all);
            assert(bodies.deep_view().len() == bodies.len());
            assert(failed_urls.deep_view().len() == failed_urls.len());
        }
        match self.deserialize(bodies, struct_response) {
            Ok(parsed) => {
                let ghost results = choose|results: Seq<Result<T, Seq<char>>>|
                    results.len() == bodies.len() && #[trigger] parsed.is_from(results);
                let result = BatchResult {
                    successes: parsed.values,
                    failed_urls,
                    dropped: parsed.dropped,
                };
                let done: Result<BatchResult<T>, OperationError> = Ok(result);
                assert(done->Ok_0.is_from(all, results));
                done
            },
            Err(error) => Err(error),
        }
    }
}

} // verus!
