//! What one dispatched request came to, and how a run of such outcomes
//! splits into response bodies and failed URLs.

use vstd::prelude::*;

verus! {

/// The point of a request at which it failed.
#[derive(Clone, Copy, Debug, PartialEq, Eq, Structural)]
pub enum Stage {
    /// The request never got a response.
    Connect,
    /// A response arrived, but its body could not be read as text.
    ReadBody,
}

/// The result of one request. Every dispatched URL ends in exactly one.
#[derive(Clone, Debug, PartialEq, Eq)]
pub enum FetchOutcome {
    /// The response body, read in full.
    Success { body: String },
    /// The URL that failed, and where.
    Failure { url: String, stage: Stage },
}

/// A `FetchOutcome` as a mathematical value.
pub enum Outcome {
    Success { body: Seq<char> },
    Failure { url: Seq<char>, stage: Stage },
}

impl View for FetchOutcome {
    type V = Outcome;

    open spec fn view(&self) -> Outcome {
        match *self {
            FetchOutcome::Success { body } => Outcome::Success { body: body@ },
            FetchOutcome::Failure { url, stage } => Outcome::Failure { url: url@, stage },
        }
    }
}

impl DeepView for FetchOutcome {
    type V = Outcome;

    open spec fn deep_view(&self) -> Outcome {
        self@
    }
}

/// The outcome of a request for `url`: a connect failure where the request
/// was not `reached`, a body failure where it was but `body` is absent, and
/// the body otherwise.
pub open spec fn settled(url: Seq<char>, reached: bool, body: Option<Seq<char>>) -> Outcome {
    if !reached {
        Outcome::Failure { url, stage: Stage::Connect }
    } else {
        match body {
            Some(text) => Outcome::Success { body: text },
            None => Outcome::Failure { url, stage: Stage::ReadBody },
        }
    }
}

/// The line of diagnostics for a request for `url` that failed at `stage`
/// for `reason`.
pub open spec fn failure_text(stage: Stage, url: Seq<char>, reason: Seq<char>) -> Seq<char> {
    match stage {
        Stage::Connect => "error reaching URL "@ + reason,
        Stage::ReadBody => "Error making api call to "@ + url + ": "@ + reason,
    }
}

/// The bodies of the successes among `outcomes`, in the order of `outcomes`.
pub open spec fn bodies_of(outcomes: Seq<Outcome>) -> Seq<Seq<char>>
    decreases outcomes.len(),
{
    if outcomes.len() == 0 {
        Seq::empty()
    } else {
        let rest = bodies_of(outcomes.drop_last());
        match outcomes.last() {
            Outcome::Success { body } => rest.push(body),
            Outcome::Failure { .. } => rest,
        }
    }
}

/// The URLs of the failures among `outcomes`, at either stage, in the order
/// of `outcomes`. A URL that failed twice stands twice.
pub open spec fn failed_urls_of(outcomes: Seq<Outcome>) -> Seq<Seq<char>>
    decreases outcomes.len(),
{
    if outcomes.len() == 0 {
        Seq::empty()
    } else {
        let rest = failed_urls_of(outcomes.drop_last());
        match outcomes.last() {
            Outcome::Success { .. } => rest,
            Outcome::Failure { url, .. } => rest.push(url),
        }
    }
}

impl FetchOutcome {
    /// Classifies what the transport did with one URL. `reached` says
    /// whether a response arrived; `body` is its text where reading it
    /// succeeded, and is not looked at where no response arrived.
    pub fn settle(url: String, reached: bool, body: Option<String>) -> (outcome: FetchOutcome)
        ensures
            outcome@ == settled(url@, reached, body.deep_view()),
    {
        if !reached {
            FetchOutcome::Failure { url, stage: Stage::Connect }
        } else {
            match body {
                Some(text) => FetchOutcome::Success { body: text },
                None => FetchOutcome::Failure { url, stage: Stage::ReadBody },
            }
        }
    }
}

/// Writes the line of diagnostics for a request for `url` that failed at
/// `stage`; `reason` is the transport's own account of the failure.
pub fn failure_line(stage: Stage, url: &str, reason: &str) -> (line: String)
    ensures
        line@ == failure_text(stage, url@, reason@),
{
    match stage {
        Stage::Connect => {
            let mut line = String::from_str("error reaching URL ");
            line.append(reason);
            line
        },
        Stage::ReadBody => {
            let mut line = String::from_str("Error making api call to ");
            line.append(url);
            line.append(": ");
            line.append(reason);
            line
        },
    }
}

/// Splits `outcomes` into the bodies of the successes and the URLs of the
/// failures, each in the order in which the outcomes arrived.
pub fn partition(outcomes: Vec<FetchOutcome>) -> (parts: (Vec<String>, Vec<String>))
    ensures
        parts.0.deep_view() == bodies_of(outcomes.deep_view()),
        parts.1.deep_view() == failed_urls_of(outcomes.deep_view()),
{
    let ghost all = outcomes.deep_view();
    let mut bodies: Vec<String> = Vec::new();
    let mut failed_urls: Vec<String> = Vec::new();
    for outcome in it: outcomes
        invariant
            all.len() == it.seq().len(),
            forall|k: int| 0 <= k < all.len() ==> all[k] == (#[trigger] it.seq()[k])@,
            bodies.deep_view() == bodies_of(all.take(it.index() as int)),
            failed_urls.deep_view() == failed_urls_of(all.take(it.index() as int)),
    {
        let ghost i = it.index() as int;
        proof {
            assert(all.take(i + 1).drop_last() == all.take(i));
            assert(all.take(i + 1).last() == outcome@);
        }
        let ghost old_bodies = bodies.deep_view();
        let ghost old_failed = failed_urls.deep_view();
        match outcome {
            FetchOutcome::Success { body } => {
                bodies.push(body);
                assert(bodies.deep_view() == old_bodies.push(body@));
            },
            FetchOutcome::Failure { url, stage: _ } => {
                failed_urls.push(url);
                assert(failed_urls.deep_view() == old_failed.push(url@));
            },
        }
    }
    proof {
        assert(all.take(all.len() as int) == all);
    }
    (bodies, failed_urls)
}

} // verus!
