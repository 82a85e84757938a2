//! Turning response bodies into values of the caller's type. A body that
//! does not parse is dropped: it leaves a line of diagnostics behind and
//! nothing else.

use crate::client::Client;
use crate::error::OperationError;
use vstd::prelude::*;

verus! {

#[verifier::external_type_specification]
#[verifier::external_body]
pub struct ExJsonError(serde_json::Error);

/// `serde_json::from_str`: parses `text` as JSON into a `T`. What comes
/// back is decided by `T`'s own deserializer, so nothing is claimed of it.
#[verifier::external_body]
fn from_json<T: serde::de::DeserializeOwned>(text: &str) -> (parsed: Result<T, serde_json::Error>) {
    serde_json::from_str(text)
}

/// The message of a `serde_json::Error`, as its `Display` writes it.
#[verifier::external_body]
fn json_error_text(error: &serde_json::Error) -> (text: String) {
    error.to_string()
}

/// What parsing a run of bodies gave: the values of the bodies that parsed,
/// and one line of diagnostics for each body that did not.
#[derive(Debug, PartialEq, Eq)]
pub struct Parsed<T> {
    pub values: Vec<T>,
    pub dropped: Vec<String>,
}

/// The values among `results`, in order.
pub open spec fn kept<T>(results: Seq<Result<T, Seq<char>>>) -> Seq<T>
    decreases results.len(),
{
    if results.len() == 0 {
        Seq::empty()
    } else {
        let rest = kept(results.drop_last());
        match results.last() {
            Ok(value) => rest.push(value),
            Err(_) => rest,
        }
    }
}

/// The line of diagnostics for a body that failed to parse for `reason`.
pub open spec fn drop_line(reason: Seq<char>) -> Seq<char> {
    "error deserializing for struct "@ + reason
}

/// The lines of diagnostics for the failures among `results`, in order.
pub open spec fn dropped_lines<T>(results: Seq<Result<T, Seq<char>>>) -> Seq<Seq<char>>
    decreases results.len(),
{
    if results.len() == 0 {
        Seq::empty()
    } else {
        let rest = dropped_lines(results.drop_last());
        match results.last() {
            Ok(_) => rest,
            Err(reason) => rest.push(drop_line(reason)),
        }
    }
}

/// A parse result with the text of its error in place of the `String`.
pub open spec fn result_view<T>(result: Result<T, String>) -> Result<T, Seq<char>> {
    match result {
        Ok(value) => Ok(value),
        Err(reason) => Err(reason@),
    }
}

impl<T> Parsed<T> {
    /// Whether `self` is what the parse results `results` come to.
    pub open spec fn is_from(self, results: Seq<Result<T, Seq<char>>>) -> bool {
        &&& self.values@ == kept(results)
        &&& self.dropped.deep_view() == dropped_lines(results)
    }

    /// Nothing parsed yet.
    pub fn new() -> (parsed: Parsed<T>)
        ensures
            parsed.is_from(Seq::empty()),
    {
        let parsed = Parsed { values: Vec::new(), dropped: Vec::new() };
        assert(parsed.dropped.deep_view() == Seq::<Seq<char>>::empty());
        parsed
    }

    /// Takes in the parse result of one more body: a value joins the
    /// values; an error is dropped and leaves its line of diagnostics.
    pub fn record(&mut self, result: Result<T, String>)
        ensures
            forall|results: Seq<Result<T, Seq<char>>>|
                old(self).is_from(results) ==> #[trigger] final(self).is_from(
                    results.push(result_view(result)),
                ),
            result is Ok ==> final(self).values@ == old(self).values@.push(result->Ok_0)
                && final(self).dropped == old(self).dropped,
            result is Err ==> final(self).values == old(self).values
                && final(self).dropped.deep_view() == old(self).dropped.deep_view().push(
                drop_line(result->Err_0@),
            ),
    {
        let ghost before = self.dropped.deep_view();
        match result {
            Ok(value) => {
                self.values.push(value);
            },
            Err(reason) => {
                let mut line = String::from_str("error deserializing for struct ");
                line.append(reason.as_str());
                self.dropped.push(line);
                assert(self.dropped.deep_view() == before.push(drop_line(reason@)));
            },
        }
        assert forall|results: Seq<Result<T, Seq<char>>>| old(self).is_from(results) implies (
        #[trigger] self.is_from(results.push(result_view(result)))) by {
            let longer = results.push(result_view(result));
            assert(longer.drop_last() == results);
            assert(longer.last() == result_view(result));
        }
    }
}

/// However the bodies parsed, each is either among the values or among the
/// dropped: the two counts add up to the number of bodies.
pub proof fn lemma_kept_and_dropped<T>(results: Seq<Result<T, Seq<char>>>)
    ensures
        kept(results).len() + dropped_lines(results).len() == results.len(),
    decreases results.len(),
{
    if results.len() > 0 {
        lemma_kept_and_dropped(results.drop_last());
    }
}

impl Client {
    /// Parses each of `api_responses` as JSON into a `T`; `struct_response`
    /// only selects `T`, and its value is not looked at. Bodies that parse
    /// give the values, in the order of the bodies; every other body is
    /// dropped and leaves a line of diagnostics. Never fails.
    pub fn deserialize<T: serde::de::DeserializeOwned>(
        &self,
        api_responses: Vec<String>,
        struct_response: T,
    ) -> (parsed: Result<Parsed<T>, OperationError>)
        ensures
            parsed is Ok,
            exists|results: Seq<Result<T, Seq<char>>>|
                results.len() == api_responses.len() && #[trigger] parsed->Ok_0.is_from(results),
            parsed->Ok_0.values.len() + parsed->Ok_0.dropped.len() == api_responses.len(),
    {
        let mut parsed: Parsed<T> = Parsed::new();
        let ghost mut results: Seq<Result<T, Seq<char>>> = Seq::empty();
        let mut i: usize = 0;
        while i < api_responses.len()
            invariant
                i <= api_responses.len(),
                results.len() == i,
                parsed.is_from(results),
            decreases api_responses.len() - i,
        {
            let result = match from_json::<T>(api_responses[i].as_str()) {
                Ok(value) => Ok(value),
                Err(error) => Err(json_error_text(&error)),
            };
            proof {
                results = results.push(result_view(result));
            }
            parsed.record(result);
            i = i + 1;
        }
        proof {
            lemma_kept_and_dropped(results);
            assert(parsed.dropped.deep_view().len() == parsed.dropped.len());
        }
        let done: Result<Parsed<T>, OperationError> = Ok(parsed);
        assert(results.len() == api_responses.len() && done->Ok_0.is_from(results));
        done
    }
}

} // verus!
