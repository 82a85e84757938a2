//! What holds of every batch: one outcome for each URL, every outcome
//! counted once, no outcome in the way of another, and no dependence on
//! the order in which the outcomes arrive.

use crate::batch::{lemma_bodies_and_failures, BatchResult};
use crate::headers::{carried_fields, derived_fields, lemma_owed_fields, no_fields, owed_fields};
use crate::outcome::{bodies_of, failed_urls_of, settled, Outcome};
use crate::parse::{drop_line, dropped_lines, kept, lemma_kept_and_dropped};
use crate::transport::{lemma_sent_as_given, sent_fields};
use vstd::prelude::*;

verus! {

/// What the transport did with one request: whether a response arrived,
/// and the text of its body where reading it succeeded.
pub struct Reply {
    pub reached: bool,
    pub body: Option<Seq<char>>,
}

/// The outcomes of the requests for `urls`, where the request for
/// `urls[i]` was answered by `replies[i]`.
pub open spec fn outcomes_of(urls: Seq<Seq<char>>, replies: Seq<Reply>) -> Seq<Outcome> {
    Seq::new(urls.len(), |i: int| settled(urls[i], replies[i].reached, replies[i].body))
}

/// The outcomes of the requests for `urls` against a backend that answers
/// each URL in one way.
pub open spec fn outcomes_from(urls: Seq<Seq<char>>, backend: spec_fn(Seq<char>) -> Reply) -> Seq<
    Outcome,
> {
    Seq::new(urls.len(), |i: int| settled(urls[i], backend(urls[i]).reached, backend(urls[i]).body))
}

/// The parse results of `bodies` under a parser that reads each text in
/// one way.
pub open spec fn parsed_by<T>(
    bodies: Seq<Seq<char>>,
    parser: spec_fn(Seq<char>) -> Result<T, Seq<char>>,
) -> Seq<Result<T, Seq<char>>> {
    Seq::new(bodies.len(), |i: int| parser(bodies[i]))
}

/// The values that `choice` picks from `items`, in order.
spec fn picked<A, B>(items: Seq<A>, choice: spec_fn(A) -> Option<B>) -> Seq<B>
    decreases items.len(),
{
    if items.len() == 0 {
        Seq::empty()
    } else {
        let rest = picked(items.drop_last(), choice);
        match choice(items.last()) {
            Some(value) => rest.push(value),
            None => rest,
        }
    }
}

proof fn lemma_picked_concat<A, B>(left: Seq<A>, right: Seq<A>, choice: spec_fn(A) -> Option<B>)
    ensures
        picked(left + right, choice) == picked(left, choice) + picked(right, choice),
    decreases right.len(),
{
    if right.len() == 0 {
        assert(left + right == left);
        assert(picked(left, choice) + picked(right, choice) == picked(left, choice));
    } else {
        lemma_picked_concat(left, right.drop_last(), choice);
        assert((left + right).drop_last() == left + right.drop_last());
        assert((left + right).last() == right.last());
        let short = picked(left, choice) + picked(right.drop_last(), choice);
        match choice(right.last()) {
            Some(value) => {
                assert(short.push(value) == picked(left, choice) + picked(
                    right.drop_last(),
                    choice,
                ).push(value));
            },
            None => {},
        }
    }
}

proof fn lemma_picked_permutation<A, B>(
    first: Seq<A>,
    second: Seq<A>,
    choice: spec_fn(A) -> Option<B>,
)
    requires
        first.to_multiset() == second.to_multiset(),
    ensures
        picked(first, choice).to_multiset() == picked(second, choice).to_multiset(),
    decreases first.len(),
{
    first.to_multiset_ensures();
    second.to_multiset_ensures();
    if first.len() == 0 {
        assert(second.len() == 0);
    } else {
        let item = first.last();
        assert(first.contains(item)) by {
            assert(first[first.len() - 1] == item);
        }
        assert(first.to_multiset().count(item) > 0);
        assert(second.to_multiset().count(item) > 0);
        assert(second.contains(item));
        let at = second.index_of(item);
        let left = second.subrange(0, at);
        let right = second.subrange(at + 1, second.len() as int);
        let fewer = second.remove(at);
        assert(first.drop_last() == first.remove(first.len() - 1));
        assert(first.drop_last().to_multiset() == fewer.to_multiset());
        lemma_picked_permutation(first.drop_last(), fewer, choice);

        assert(second == left + seq![item] + right);
        assert(fewer == left + right);
        lemma_picked_concat(left, seq![item], choice);
        lemma_picked_concat(left + seq![item], right, choice);
        lemma_picked_concat(left, right, choice);
        let one = picked(seq![item], choice);
        assert(seq![item].drop_last() == Seq::<A>::empty());
        assert(seq![item].last() == item);
        assert(picked(Seq::<A>::empty(), choice) == Seq::<B>::empty());
        vstd::seq_lib::lemma_multiset_commutative(picked(left, choice), one);
        vstd::seq_lib::lemma_multiset_commutative(
            picked(left, choice) + one,
            picked(right, choice),
        );
        vstd::seq_lib::lemma_multiset_commutative(picked(left, choice), picked(right, choice));
        picked(first.drop_last(), choice).to_multiset_ensures();
        let rest = picked(fewer, choice).to_multiset();
        match choice(item) {
            Some(value) => {
                assert(one == Seq::<B>::empty().push(value));
                Seq::<B>::empty().to_multiset_ensures();
                assert(one.to_multiset() =~= vstd::multiset::Multiset::<B>::empty().insert(value));
                assert(picked(second, choice).to_multiset() =~= rest.insert(value));
                assert(picked(first, choice).to_multiset() =~= rest.insert(value));
            },
            None => {
                assert(one == Seq::<B>::empty());
                assert(one.to_multiset() =~= vstd::multiset::Multiset::<B>::empty());
                assert(picked(second, choice).to_multiset() =~= rest);
            },
        }
    }
}

spec fn body_choice() -> spec_fn(Outcome) -> Option<Seq<char>> {
    |outcome: Outcome|
        match outcome {
            Outcome::Success { body } => Some(body),
            Outcome::Failure { .. } => None,
        }
}

spec fn failure_choice() -> spec_fn(Outcome) -> Option<Seq<char>> {
    |outcome: Outcome|
        match outcome {
            Outcome::Success { .. } => None,
            Outcome::Failure { url, .. } => Some(url),
        }
}

spec fn value_choice<T>() -> spec_fn(Result<T, Seq<char>>) -> Option<T> {
    |result: Result<T, Seq<char>>|
        match result {
            Ok(value) => Some(value),
            Err(_) => None,
        }
}

spec fn line_choice<T>() -> spec_fn(Result<T, Seq<char>>) -> Option<Seq<char>> {
    |result: Result<T, Seq<char>>|
        match result {
            Ok(_) => None,
            Err(reason) => Some(drop_line(reason)),
        }
}

proof fn lemma_lines_are_picked<T>(results: Seq<Result<T, Seq<char>>>)
    ensures
        dropped_lines(results) == picked(results, line_choice()),
    decreases results.len(),
{
    if results.len() > 0 {
        lemma_lines_are_picked(results.drop_last());
    }
}

proof fn lemma_bodies_are_picked(outcomes: Seq<Outcome>)
    ensures
        bodies_of(outcomes) == picked(outcomes, body_choice()),
    decreases outcomes.len(),
{
    if outcomes.len() > 0 {
        lemma_bodies_are_picked(outcomes.drop_last());
    }
}

proof fn lemma_failures_are_picked(outcomes: Seq<Outcome>)
    ensures
        failed_urls_of(outcomes) == picked(outcomes, failure_choice()),
    decreases outcomes.len(),
{
    if outcomes.len() > 0 {
        lemma_failures_are_picked(outcomes.drop_last());
    }
}

proof fn lemma_values_are_picked<T>(results: Seq<Result<T, Seq<char>>>)
    ensures
        kept(results) == picked(results, value_choice()),
    decreases results.len(),
{
    if results.len() > 0 {
        lemma_values_are_picked(results.drop_last());
    }
}

proof fn lemma_mapped_are_picked<A, B>(items: Seq<A>, each: spec_fn(A) -> B)
    ensures
        Seq::new(items.len(), |i: int| each(items[i])) == picked(
            items,
            |item: A| Some(each(item)),
        ),
    decreases items.len(),
{
    let choice = |item: A| Some(each(item));
    if items.len() == 0 {
        assert(Seq::new(items.len(), |i: int| each(items[i])) == Seq::<B>::empty());
    } else {
        lemma_mapped_are_picked(items.drop_last(), each);
        let shorter = items.drop_last();
        assert(Seq::new(items.len(), |i: int| each(items[i])) == Seq::new(
            shorter.len(),
            |i: int| each(shorter[i]),
        ).push(each(items.last())));
    }
}

/// What every transport carries, whether or not the headers were derived
/// before it was built: `application/json` under `accept`, and an
/// `authorization` exactly where the client has a token. Where the headers
/// were not derived, the `authorization` is that of the token as it stands.
pub proof fn law_every_transport_carries_what_is_owed(
    fields: Map<Seq<char>, Seq<u8>>,
    derived_from: Seq<char>,
    token: Option<Seq<char>>,
)
    requires
        fields == no_fields() || (fields == derived_fields(derived_from) && token is Some),
    ensures
        carried_fields(fields, token).dom().contains("accept"@),
        carried_fields(fields, token)["accept"@] == vstd::utf8::encode_utf8("application/json"@),
        carried_fields(fields, token).dom().contains("authorization"@) <==> token is Some,
        fields == no_fields() ==> carried_fields(fields, token) == owed_fields(token),
        sent_fields(carried_fields(fields, token)) == carried_fields(fields, token),
{
    lemma_owed_fields(token);
    lemma_owed_fields(Some(derived_from));
    lemma_sent_as_given(carried_fields(fields, token));
}

/// The fetcher produces one outcome for each URL, however many succeed:
/// the request for the i-th URL comes to the i-th outcome, and bodies and
/// failed URLs together are as many as the URLs.
pub proof fn law_one_outcome_per_url(urls: Seq<Seq<char>>, replies: Seq<Reply>)
    ensures
        outcomes_of(urls, replies).len() == urls.len(),
        bodies_of(outcomes_of(urls, replies)).len() + failed_urls_of(
            outcomes_of(urls, replies),
        ).len() == urls.len(),
{
    lemma_bodies_and_failures(outcomes_of(urls, replies));
}

/// The accounting of a batch: successes, dropped bodies and failed URLs
/// together are as many as the outcomes, however the bodies parse.
pub proof fn law_accounting<T>(outcomes: Seq<Outcome>, results: Seq<Result<T, Seq<char>>>)
    requires
        results.len() == bodies_of(outcomes).len(),
    ensures
        kept(results).len() + dropped_lines(results).len() + failed_urls_of(outcomes).len()
            == outcomes.len(),
{
    lemma_bodies_and_failures(outcomes);
    lemma_kept_and_dropped(results);
}

/// An outcome is counted whatever the others are: a body is among the
/// bodies, and a failed URL among the failed URLs.
pub proof fn law_each_outcome_counts(outcomes: Seq<Outcome>, at: int)
    requires
        0 <= at < outcomes.len(),
    ensures
        outcomes[at] matches Outcome::Success { body } ==> bodies_of(outcomes).contains(body),
        outcomes[at] matches Outcome::Failure { url, .. } ==> failed_urls_of(outcomes).contains(
            url,
        ),
    decreases outcomes.len(),
{
    let shorter = outcomes.drop_last();
    if at < outcomes.len() - 1 {
        law_each_outcome_counts(shorter, at);
        match outcomes[at] {
            Outcome::Success { body } => {
                let found = choose|i: int|
                    0 <= i < bodies_of(shorter).len() && bodies_of(shorter)[i] == body;
                assert(bodies_of(outcomes)[found] == body);
            },
            Outcome::Failure { url, .. } => {
                let found = choose|i: int|
                    0 <= i < failed_urls_of(shorter).len() && failed_urls_of(shorter)[i] == url;
                assert(failed_urls_of(outcomes)[found] == url);
            },
        }
    } else {
        match outcomes[at] {
            Outcome::Success { body } => {
                assert(bodies_of(outcomes)[bodies_of(shorter).len() as int] == body);
            },
            Outcome::Failure { url, .. } => {
                assert(failed_urls_of(outcomes)[failed_urls_of(shorter).len() as int] == url);
            },
        }
    }
}

/// Duplicate URLs have outcomes of their own. Where one request for a URL
/// fails and another request for the same URL is answered with a body, the
/// URL is among the failed URLs and the body among the bodies; and what a
/// request comes to does not change with the reply to any other request.
pub proof fn law_duplicates_are_independent(
    urls: Seq<Seq<char>>,
    replies: Seq<Reply>,
    failing: int,
    duplicate: int,
    other: Reply,
)
    requires
        0 <= failing < urls.len(),
        0 <= duplicate < urls.len(),
        failing != duplicate,
        urls[failing] == urls[duplicate],
        replies.len() == urls.len(),
        !replies[failing].reached || replies[failing].body is None,
    ensures
        failed_urls_of(outcomes_of(urls, replies)).contains(urls[failing]),
        replies[duplicate].reached && replies[duplicate].body is Some ==> bodies_of(
            outcomes_of(urls, replies),
        ).contains(replies[duplicate].body->0),
        outcomes_of(urls, replies.update(failing, other))[duplicate] == outcomes_of(
            urls,
            replies,
        )[duplicate],
{
    law_each_outcome_counts(outcomes_of(urls, replies), failing);
    law_each_outcome_counts(outcomes_of(urls, replies), duplicate);
}

/// The order in which the outcomes arrive does not matter to what the
/// batch holds: two runs of the same outcomes, in whatever order, have the
/// same failed URLs and the same bodies, each as often.
pub proof fn law_arrival_order_is_immaterial(first: Seq<Outcome>, second: Seq<Outcome>)
    requires
        first.to_multiset() == second.to_multiset(),
    ensures
        failed_urls_of(first).to_multiset() == failed_urls_of(second).to_multiset(),
        failed_urls_of(first).to_set() == failed_urls_of(second).to_set(),
        bodies_of(first).to_multiset() == bodies_of(second).to_multiset(),
{
    lemma_failures_are_picked(first);
    lemma_failures_are_picked(second);
    lemma_bodies_are_picked(first);
    lemma_bodies_are_picked(second);
    lemma_picked_permutation(first, second, failure_choice());
    lemma_picked_permutation(first, second, body_choice());
    lemma_same_members(failed_urls_of(first), failed_urls_of(second));
}

proof fn lemma_same_members<A>(first: Seq<A>, second: Seq<A>)
    requires
        first.to_multiset() == second.to_multiset(),
    ensures
        first.to_set() == second.to_set(),
{
    first.to_multiset_ensures();
    second.to_multiset_ensures();
    assert forall|item: A| first.to_set().contains(item) == second.to_set().contains(item) by {
        assert(first.contains(item) <==> first.to_multiset().count(item) > 0);
        assert(second.contains(item) <==> second.to_multiset().count(item) > 0);
    }
    assert(first.to_set() =~= second.to_set());
}

/// Running a batch again gives the same result. Against a backend that
/// answers each URL in one way, and with a parser that reads each body in
/// one way, two runs over the same URLs have the same failed URLs and the
/// same successes, each as often, in whatever order the requests complete.
pub proof fn law_rerun_gives_the_same<T>(
    first: Seq<Seq<char>>,
    second: Seq<Seq<char>>,
    backend: spec_fn(Seq<char>) -> Reply,
    parser: spec_fn(Seq<char>) -> Result<T, Seq<char>>,
)
    requires
        first.to_multiset() == second.to_multiset(),
    ensures
        failed_urls_of(outcomes_from(first, backend)).to_set() == failed_urls_of(
            outcomes_from(second, backend),
        ).to_set(),
        kept(parsed_by(bodies_of(outcomes_from(first, backend)), parser)).to_multiset() == kept(
            parsed_by(bodies_of(outcomes_from(second, backend)), parser),
        ).to_multiset(),
{
    let answer = |url: Seq<char>| settled(url, backend(url).reached, backend(url).body);
    lemma_mapped_are_picked(first, answer);
    lemma_mapped_are_picked(second, answer);
    assert(outcomes_from(first, backend) == Seq::new(first.len(), |i: int| answer(first[i])));
    assert(outcomes_from(second, backend) == Seq::new(second.len(), |i: int| answer(second[i])));
    lemma_picked_permutation(first, second, |url: Seq<char>| Some(answer(url)));
    let one = outcomes_from(first, backend);
    let two = outcomes_from(second, backend);
    law_arrival_order_is_immaterial(one, two);
    lemma_same_bodies_parse_the_same(bodies_of(one), bodies_of(two), parser);
}

proof fn lemma_same_bodies_parse_the_same<T>(
    first: Seq<Seq<char>>,
    second: Seq<Seq<char>>,
    parser: spec_fn(Seq<char>) -> Result<T, Seq<char>>,
)
    requires
        first.to_multiset() == second.to_multiset(),
    ensures
        kept(parsed_by(first, parser)).to_multiset() == kept(
            parsed_by(second, parser),
        ).to_multiset(),
        dropped_lines(parsed_by(first, parser)).to_multiset() == dropped_lines(
            parsed_by(second, parser),
        ).to_multiset(),
{
    lemma_mapped_are_picked(first, parser);
    lemma_mapped_are_picked(second, parser);
    lemma_picked_permutation(first, second, |body: Seq<char>| Some(parser(body)));
    let one = parsed_by(first, parser);
    let two = parsed_by(second, parser);
    lemma_values_are_picked(one);
    lemma_values_are_picked(two);
    lemma_picked_permutation(one, two, value_choice());
    lemma_lines_are_picked(one);
    lemma_lines_are_picked(two);
    lemma_picked_permutation(one, two, line_choice());
}

/// Two batches over the same outcomes hold the same. Where the outcomes
/// of two batches are the same but for their order, and one parser that
/// reads each body in one way stands behind both, the batches have the
/// same failed URLs, the same successes and the same dropped bodies, each
/// as often.
pub proof fn law_same_outcomes_give_the_same_batch<T>(
    first: BatchResult<T>,
    second: BatchResult<T>,
    one: Seq<Outcome>,
    two: Seq<Outcome>,
    parser: spec_fn(Seq<char>) -> Result<T, Seq<char>>,
)
    requires
        one.to_multiset() == two.to_multiset(),
        first.is_from(one, parsed_by(bodies_of(one), parser)),
        second.is_from(two, parsed_by(bodies_of(two), parser)),
    ensures
        first.failed_urls.deep_view().to_set() == second.failed_urls.deep_view().to_set(),
        first.failed_urls.deep_view().to_multiset() == second.failed_urls.deep_view().to_multiset(),
        first.successes@.to_multiset() == second.successes@.to_multiset(),
        first.dropped.deep_view().to_multiset() == second.dropped.deep_view().to_multiset(),
{
    law_arrival_order_is_immaterial(one, two);
    lemma_same_bodies_parse_the_same(bodies_of(one), bodies_of(two), parser);
}

} // verus!
