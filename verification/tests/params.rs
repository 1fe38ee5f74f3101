use http_router::params::{split, Params, Query};

fn value(q: &Query, key: &str) -> Option<String> {
    q.get_item(key.to_string()).cloned()
}

#[test]
fn query_with_two_pairs() {
    let q = Query::new(Some("a=1&b=2"));
    assert_eq!(value(&q, "a"), Some("1".to_string()));
    assert_eq!(value(&q, "b"), Some("2".to_string()));
    assert_eq!(value(&q, "c"), None);
}

#[test]
fn query_drops_a_candidate_without_equals() {
    let q = Query::new(Some("a=1&bogus&c=3"));
    assert_eq!(value(&q, "a"), Some("1".to_string()));
    assert_eq!(value(&q, "c"), Some("3".to_string()));
    assert_eq!(value(&q, "bogus"), None);
}

#[test]
fn query_last_pair_of_a_key_wins() {
    let q = Query::new(Some("a=1&a=2"));
    assert_eq!(value(&q, "a"), Some("2".to_string()));
}

#[test]
fn query_drops_a_candidate_with_two_equals() {
    let q = Query::new(Some("a=b=c&d=4"));
    assert_eq!(value(&q, "a"), None);
    assert_eq!(value(&q, "d"), Some("4".to_string()));
}

#[test]
fn query_drops_an_empty_key_or_value() {
    let q = Query::new(Some("a=&=b&c=3&="));
    assert_eq!(value(&q, "a"), None);
    assert_eq!(value(&q, ""), None);
    assert_eq!(value(&q, "c"), Some("3".to_string()));
}

#[test]
fn query_absent_or_empty_has_no_pairs() {
    let none = Query::new(None);
    assert_eq!(value(&none, "a"), None);
    let empty = Query::new(Some(""));
    assert_eq!(value(&empty, "a"), None);
    assert_eq!(value(&empty, ""), None);
    let only_separators = Query::new(Some("&&"));
    assert_eq!(value(&only_separators, ""), None);
}

#[test]
fn query_keeps_text_beyond_ascii() {
    let q = Query::new(Some("städte=köln&x=y"));
    assert_eq!(value(&q, "städte"), Some("köln".to_string()));
    assert_eq!(value(&q, "x"), Some("y".to_string()));
}

#[test]
fn query_parsing_is_repeatable() {
    let a = Query::new(Some("k=v&k=w&z=1"));
    let b = Query::new(Some("k=v&k=w&z=1"));
    assert_eq!(value(&a, "k"), value(&b, "k"));
    assert_eq!(value(&a, "z"), value(&b, "z"));
    assert_eq!(value(&a, "k"), Some("w".to_string()));
}

#[test]
fn split_yields_one_piece_more_than_separators() {
    assert_eq!(split("a&b", '&'), vec!["a".to_string(), "b".to_string()]);
    assert_eq!(split("", '&'), vec!["".to_string()]);
    assert_eq!(split("a&", '&'), vec!["a".to_string(), "".to_string()]);
    assert_eq!(split("&a", '&'), vec!["".to_string(), "a".to_string()]);
    assert_eq!(split("a=b=c", '='), vec!["a".to_string(), "b".to_string(), "c".to_string()]);
    assert_eq!(split("abc", '='), vec!["abc".to_string()]);
}

#[test]
fn split_pieces_join_to_the_text() {
    let text = "x=1&&y=2&";
    let pieces = split(text, '&');
    assert_eq!(pieces.len(), 4);
    assert_eq!(pieces.join("&"), text);
    assert!(pieces.iter().all(|p| !p.contains('&')));
}

#[test]
fn params_insert_and_get() {
    let mut p = Params::new();
    assert_eq!(p.get_item("id".to_string()), None);
    p.insert("id".to_string(), "42".to_string());
    assert_eq!(p.get_item("id".to_string()), Some(&"42".to_string()));
    assert_eq!(p.get_item("other".to_string()), None);
}

#[test]
fn params_insert_overwrites() {
    let mut p = Params::new();
    p.insert("id".to_string(), "1".to_string());
    p.insert("id".to_string(), "2".to_string());
    assert_eq!(p.get_item("id".to_string()), Some(&"2".to_string()));
}

#[test]
fn params_tell_an_empty_value_from_a_missing_key() {
    let mut p = Params::new();
    p.insert("empty".to_string(), String::new());
    assert_eq!(p.get_item("empty".to_string()), Some(&String::new()));
    assert_eq!(p.get_item("missing".to_string()), None);
}
