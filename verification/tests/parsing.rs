use arrest::{Client, Parsed};
use std::collections::BTreeMap;

#[test]
fn new_parsed_is_empty() {
    let parsed: Parsed<u64> = Parsed::new();
    assert!(parsed.values.is_empty());
    assert!(parsed.dropped.is_empty());
}

#[test]
fn record_keeps_a_value() {
    let mut parsed: Parsed<u64> = Parsed::new();
    parsed.record(Ok(7));
    parsed.record(Ok(9));
    assert_eq!(parsed.values, vec![7, 9]);
    assert!(parsed.dropped.is_empty());
}

#[test]
fn record_drops_an_error_and_leaves_a_line() {
    let mut parsed: Parsed<u64> = Parsed::new();
    parsed.record(Ok(7));
    parsed.record(Err(String::from("expected value")));
    parsed.record(Ok(9));
    assert_eq!(parsed.values, vec![7, 9]);
    assert_eq!(parsed.dropped, vec![String::from("error deserializing for struct expected value")]);
}

#[test]
fn deserialize_of_nothing_is_empty() {
    let parsed = Client::new().deserialize(Vec::new(), 0u64).unwrap();
    assert!(parsed.values.is_empty());
    assert!(parsed.dropped.is_empty());
}

#[test]
fn deserialize_reads_each_body_into_the_target_type() {
    let bodies = vec![String::from("[1,2,3]"), String::from("[]"), String::from(" [ 40 ] ")];
    let parsed = Client::new().deserialize(bodies, Vec::<u64>::new()).unwrap();
    assert_eq!(parsed.values, vec![vec![1, 2, 3], vec![], vec![40]]);
    assert!(parsed.dropped.is_empty());
}

#[test]
fn deserialize_ignores_the_value_of_the_prototype() {
    let bodies = vec![String::from("5")];
    let parsed = Client::new().deserialize(bodies, 77u64).unwrap();
    assert_eq!(parsed.values, vec![5]);
}

#[test]
fn deserialize_reads_an_object_into_a_map() {
    let bodies =
        vec![String::from("{\"method\": \"GET\", \"url\": \"http://httpbin.org/anything\"}")];
    let parsed = Client::new().deserialize(bodies, BTreeMap::<String, String>::new()).unwrap();
    let mut expected = BTreeMap::new();
    expected.insert(String::from("method"), String::from("GET"));
    expected.insert(String::from("url"), String::from("http://httpbin.org/anything"));
    assert_eq!(parsed.values, vec![expected]);
}

#[test]
fn deserialize_drops_what_does_not_parse() {
    let bodies = vec![
        String::from("1"),
        String::from(""),
        String::from("2"),
        String::from("{\"a\": 1}"),
        String::from("-3"),
    ];
    let parsed = Client::new().deserialize(bodies, 0u64).unwrap();
    assert_eq!(parsed.values, vec![1, 2]);
    assert_eq!(parsed.dropped.len(), 3);
    assert_eq!(
        parsed.dropped[0],
        "error deserializing for struct EOF while parsing a value at line 1 column 0"
    );
    for line in &parsed.dropped {
        assert!(line.starts_with("error deserializing for struct "));
    }
}

#[test]
fn deserialize_writes_the_parser_s_own_message() {
    let body = "{\"a\": 1}";
    let message = format!("{}", serde_json::from_str::<u64>(body).unwrap_err());
    let parsed = Client::new().deserialize(vec![String::from(body)], 0u64).unwrap();
    assert_eq!(parsed.dropped, vec![format!("error deserializing for struct {}", message)]);
}

#[test]
fn deserialize_accounts_for_every_body() {
    let mut bodies = Vec::new();
    for i in 0..50 {
        bodies.push(if i % 4 == 0 { String::from("not json") } else { format!("{}", i) });
    }
    let parsed = Client::new().deserialize(bodies, 0u64).unwrap();
    assert_eq!(parsed.values.len() + parsed.dropped.len(), 50);
    assert_eq!(parsed.dropped.len(), 13);
    assert_eq!(parsed.values[0], 1);
    assert_eq!(parsed.values[36], 49);
}
