use arrest::batch::CONDUIT_CAPACITY;
use arrest::{BatchResult, Client, FetchOutcome, OperationError};
use std::collections::BTreeMap;

fn urls(names: &[&str]) -> Vec<String> {
    names.iter().map(|name| format!("http://{}.test/anything", name)).collect()
}

fn answered(url: &str, body: &str) -> FetchOutcome {
    FetchOutcome::settle(String::from(url), true, Some(String::from(body)))
}

fn unreachable_host(url: &str) -> FetchOutcome {
    FetchOutcome::settle(String::from(url), false, None)
}

fn unreadable(url: &str) -> FetchOutcome {
    FetchOutcome::settle(String::from(url), true, None)
}

fn anything(method: &str, url: &str) -> BTreeMap<String, String> {
    let mut map = BTreeMap::new();
    map.insert(String::from("method"), String::from(method));
    map.insert(String::from("url"), String::from(url));
    map
}

fn sorted(mut items: Vec<String>) -> Vec<String> {
    items.sort();
    items
}

#[test]
fn two_urls_that_both_parse() {
    let paths = urls(&["a", "b"]);
    let outcomes = vec![
        answered(&paths[0], "{\"method\": \"GET\", \"url\": \"http://a.test/anything\"}"),
        answered(&paths[1], "{\"method\": \"GET\", \"url\": \"http://b.test/anything\"}"),
    ];
    let batch = Client::new().arrest(paths, outcomes, BTreeMap::<String, String>::new()).unwrap();
    assert_eq!(batch.successes.len(), 2);
    assert_eq!(
        batch.successes,
        vec![
            anything("GET", "http://a.test/anything"),
            anything("GET", "http://b.test/anything")
        ]
    );
    assert!(batch.failed_urls.is_empty());
    assert!(batch.dropped.is_empty());
}

#[test]
fn three_urls_with_one_unreachable_host() {
    let paths = urls(&["a", "down", "c"]);
    let outcomes = vec![
        answered(&paths[2], "[3]"),
        unreachable_host(&paths[1]),
        answered(&paths[0], "[1]"),
    ];
    let batch = Client::new().arrest(paths, outcomes, Vec::<u64>::new()).unwrap();
    assert_eq!(batch.failed_urls, vec![String::from("http://down.test/anything")]);
    assert_eq!(batch.successes.len(), 2);
    assert_eq!(batch.successes, vec![vec![3], vec![1]]);
    assert!(batch.dropped.is_empty());
}

#[test]
fn one_url_whose_body_is_not_json_for_the_type() {
    let paths = urls(&["a"]);
    let outcomes = vec![answered(&paths[0], "<html></html>")];
    let batch = Client::new().arrest(paths, outcomes, Vec::<u64>::new()).unwrap();
    assert_eq!(batch.successes.len(), 0);
    assert!(batch.failed_urls.is_empty());
    assert_eq!(batch.dropped.len(), 1);
}

#[test]
fn a_body_of_the_wrong_shape_is_dropped_too() {
    let paths = urls(&["a"]);
    let outcomes = vec![answered(&paths[0], "{\"method\": \"GET\"}")];
    let batch = Client::new().arrest(paths, outcomes, Vec::<u64>::new()).unwrap();
    assert!(batch.successes.is_empty());
    assert!(batch.failed_urls.is_empty());
    assert_eq!(batch.dropped.len(), 1);
}

#[test]
fn empty_url_list() {
    let batch = Client::new().arrest(Vec::new(), Vec::new(), 0u64).unwrap();
    assert_eq!(
        batch,
        BatchResult { successes: Vec::new(), failed_urls: Vec::new(), dropped: Vec::new() }
    );
}

#[test]
fn an_unreadable_body_is_a_failed_url() {
    let paths = urls(&["a", "b"]);
    let outcomes = vec![unreadable(&paths[0]), answered(&paths[1], "2")];
    let batch = Client::new().arrest(paths, outcomes, 0u64).unwrap();
    assert_eq!(batch.failed_urls, vec![String::from("http://a.test/anything")]);
    assert_eq!(batch.successes, vec![2]);
}

#[test]
fn a_missing_outcome_aborts_the_batch() {
    let paths = urls(&["a", "b", "c"]);
    let outcomes = vec![answered(&paths[0], "1"), unreachable_host(&paths[1])];
    assert_eq!(
        Client::new().arrest(paths, outcomes, 0u64),
        Err(OperationError::OutcomeCount { dispatched: 3, reported: 2 })
    );
}

#[test]
fn a_surplus_outcome_aborts_the_batch() {
    let paths = urls(&["a"]);
    let outcomes = vec![answered(&paths[0], "1"), answered(&paths[0], "1")];
    assert_eq!(
        Client::new().arrest(paths, outcomes, 0u64),
        Err(OperationError::OutcomeCount { dispatched: 1, reported: 2 })
    );
}

#[test]
fn outcomes_without_urls_abort_the_batch() {
    let outcomes = vec![unreachable_host("http://a.test/anything")];
    assert_eq!(
        Client::new().arrest(Vec::new(), outcomes, 0u64),
        Err(OperationError::OutcomeCount { dispatched: 0, reported: 1 })
    );
}

#[test]
fn every_url_is_accounted_for_once() {
    let mut paths = Vec::new();
    let mut outcomes = Vec::new();
    for i in 0..60 {
        let url = format!("http://host.test/{}", i);
        outcomes.push(match i % 4 {
            0 => unreachable_host(&url),
            1 => unreadable(&url),
            2 => answered(&url, "not json"),
            _ => answered(&url, &format!("{}", i)),
        });
        paths.push(url);
    }
    let batch = Client::new().arrest(paths, outcomes, 0u64).unwrap();
    assert_eq!(batch.successes.len(), 15);
    assert_eq!(batch.dropped.len(), 15);
    assert_eq!(batch.failed_urls.len(), 30);
    assert_eq!(batch.successes.len() + batch.dropped.len() + batch.failed_urls.len(), 60);
}

#[test]
fn a_failing_url_does_not_suppress_its_duplicate() {
    let paths = urls(&["a", "a", "a"]);
    let outcomes = vec![
        unreachable_host(&paths[0]),
        answered(&paths[1], "11"),
        unreadable(&paths[2]),
    ];
    let batch = Client::new().arrest(paths, outcomes, 0u64).unwrap();
    assert_eq!(batch.successes, vec![11]);
    assert_eq!(
        batch.failed_urls,
        vec![String::from("http://a.test/anything"), String::from("http://a.test/anything")]
    );
}

#[test]
fn duplicates_that_all_succeed_are_all_kept() {
    let paths = urls(&["a", "a"]);
    let outcomes = vec![answered(&paths[0], "5"), answered(&paths[1], "5")];
    let batch = Client::new().arrest(paths, outcomes, 0u64).unwrap();
    assert_eq!(batch.successes, vec![5, 5]);
    assert!(batch.failed_urls.is_empty());
}

#[test]
fn the_order_of_arrival_does_not_change_what_is_held() {
    let paths = urls(&["a", "b", "c", "d"]);
    let in_order = vec![
        unreachable_host(&paths[0]),
        answered(&paths[1], "2"),
        unreadable(&paths[2]),
        answered(&paths[3], "4"),
    ];
    let reversed: Vec<FetchOutcome> = in_order.iter().rev().cloned().collect();
    let first = Client::new().arrest(paths.clone(), in_order, 0u64).unwrap();
    let second = Client::new().arrest(paths, reversed, 0u64).unwrap();
    assert_eq!(first.failed_urls, urls(&["a", "c"]));
    assert_eq!(second.failed_urls, urls(&["c", "a"]));
    assert_eq!(sorted(first.failed_urls), sorted(second.failed_urls));
    assert_eq!(first.successes, vec![2, 4]);
    assert_eq!(second.successes, vec![4, 2]);
}

#[test]
fn running_the_same_batch_again_gives_the_same_result() {
    let paths = urls(&["a", "down", "c", "odd"]);
    let outcomes = vec![
        answered(&paths[0], "[1]"),
        unreachable_host(&paths[1]),
        answered(&paths[2], "[3, 3]"),
        answered(&paths[3], "{}"),
    ];
    let first = Client::new().arrest(paths.clone(), outcomes.clone(), Vec::<u64>::new());
    let second = Client::new().arrest(paths, outcomes, Vec::<u64>::new());
    assert_eq!(first, second);
    let batch = first.unwrap();
    assert_eq!(batch.successes, vec![vec![1], vec![3, 3]]);
    assert_eq!(batch.failed_urls, urls(&["down"]));
    assert_eq!(batch.dropped.len(), 1);
}

#[test]
fn a_configured_client_gives_the_same_batch() {
    let mut client = Client::new();
    client.set_bearer(String::from("abc123"));
    assert_eq!(client.set_headers(), Ok(()));
    let paths = urls(&["a"]);
    let outcomes = vec![answered(&paths[0], "\"text\"")];
    let batch = client.arrest(paths, outcomes, String::new()).unwrap();
    assert_eq!(batch.successes, vec![String::from("text")]);
}

#[test]
fn the_conduit_holds_thirty_two_outcomes() {
    assert_eq!(CONDUIT_CAPACITY, 32);
}

#[test]
fn one_client_serves_more_than_one_batch() {
    let client = Client::new();
    let first = client.arrest(urls(&["a"]), vec![answered("http://a.test/anything", "1")], 0u64);
    let second = client.arrest(
        urls(&["b", "c"]),
        vec![unreachable_host("http://b.test/anything"), answered("http://c.test/anything", "3")],
        0u64,
    );
    assert_eq!(first.unwrap().successes, vec![1]);
    let batch = second.unwrap();
    assert_eq!(batch.successes, vec![3]);
    assert_eq!(batch.failed_urls, urls(&["b"]));
    let parsed = client.deserialize(vec![String::from("5")], 0u64).unwrap();
    assert_eq!(parsed.values, vec![5]);
}

#[test]
fn a_client_and_its_clone_give_the_same_batch() {
    let first = Client::new();
    let second = first.clone();
    let paths = urls(&["a", "down", "odd"]);
    let outcomes = vec![
        answered(&paths[0], "[1]"),
        unreachable_host(&paths[1]),
        answered(&paths[2], "{}"),
    ];
    let reversed: Vec<FetchOutcome> = outcomes.iter().rev().cloned().collect();
    let one = first.arrest(paths.clone(), outcomes, Vec::<u64>::new()).unwrap();
    let two = second.arrest(paths, reversed, vec![7]).unwrap();
    assert_eq!(sorted(one.failed_urls), sorted(two.failed_urls));
    assert_eq!(one.successes, two.successes);
    assert_eq!(sorted(one.dropped), sorted(two.dropped));
}
