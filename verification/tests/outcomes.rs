use arrest::outcome::{failure_line, partition};
use arrest::{FetchOutcome, Stage};

#[test]
fn settle_without_response_is_a_connect_failure() {
    let outcome = FetchOutcome::settle(String::from("http://a.test/"), false, None);
    assert_eq!(
        outcome,
        FetchOutcome::Failure { url: String::from("http://a.test/"), stage: Stage::Connect }
    );
}

#[test]
fn settle_without_response_does_not_look_at_the_body() {
    let outcome =
        FetchOutcome::settle(String::from("http://a.test/"), false, Some(String::from("x")));
    assert_eq!(
        outcome,
        FetchOutcome::Failure { url: String::from("http://a.test/"), stage: Stage::Connect }
    );
}

#[test]
fn settle_with_unreadable_body_is_a_read_body_failure() {
    let outcome = FetchOutcome::settle(String::from("http://a.test/"), true, None);
    assert_eq!(
        outcome,
        FetchOutcome::Failure { url: String::from("http://a.test/"), stage: Stage::ReadBody }
    );
}

#[test]
fn settle_with_body_is_a_success() {
    let outcome =
        FetchOutcome::settle(String::from("http://a.test/"), true, Some(String::from("{}")));
    assert_eq!(outcome, FetchOutcome::Success { body: String::from("{}") });
}

#[test]
fn settle_keeps_an_empty_body() {
    let outcome = FetchOutcome::settle(String::from("http://a.test/"), true, Some(String::new()));
    assert_eq!(outcome, FetchOutcome::Success { body: String::new() });
}

#[test]
fn partition_of_nothing_is_empty() {
    let (bodies, failed_urls) = partition(Vec::new());
    assert!(bodies.is_empty());
    assert!(failed_urls.is_empty());
}

#[test]
fn partition_keeps_order_and_duplicates() {
    let outcomes = vec![
        FetchOutcome::settle(String::from("http://a.test/"), false, None),
        FetchOutcome::settle(String::from("http://b.test/"), true, Some(String::from("b1"))),
        FetchOutcome::settle(String::from("http://a.test/"), true, None),
        FetchOutcome::settle(String::from("http://c.test/"), true, Some(String::from("c1"))),
        FetchOutcome::settle(String::from("http://b.test/"), true, Some(String::from("b1"))),
    ];
    let (bodies, failed_urls) = partition(outcomes);
    assert_eq!(bodies, vec![String::from("b1"), String::from("c1"), String::from("b1")]);
    assert_eq!(failed_urls, vec![String::from("http://a.test/"), String::from("http://a.test/")]);
}

#[test]
fn partition_counts_every_outcome_once() {
    let mut outcomes = Vec::new();
    for i in 0..40 {
        let url = format!("http://host.test/{}", i);
        outcomes.push(FetchOutcome::settle(url, i % 3 != 0, if i % 5 == 0 {
            None
        } else {
            Some(format!("body {}", i))
        }));
    }
    let (bodies, failed_urls) = partition(outcomes);
    assert_eq!(bodies.len() + failed_urls.len(), 40);
    assert_eq!(failed_urls.len(), 19);
    assert_eq!(bodies[0], "body 1");
    assert_eq!(failed_urls[0], "http://host.test/0");
}

#[test]
fn failure_line_of_a_connect_failure() {
    assert_eq!(
        failure_line(Stage::Connect, "http://a.test/", "connection refused"),
        "error reaching URL connection refused"
    );
}

#[test]
fn failure_line_of_a_body_failure() {
    assert_eq!(
        failure_line(Stage::ReadBody, "http://a.test/", "stream closed"),
        "Error making api call to http://a.test/: stream closed"
    );
}
