use http_router::pattern::{bind_groups, RoutePattern};

#[test]
fn numeric_capture_yields_the_id() {
    let p = RoutePattern::new("/users/(?P<id>[0-9]+)").unwrap();
    assert!(p.match_path("/users/42"));
    let params = p.get_params("/users/42");
    assert_eq!(params.get_item("id".to_string()), Some(&"42".to_string()));
}

#[test]
fn numeric_capture_rejects_letters() {
    let p = RoutePattern::new("/users/(?P<id>[0-9]+)").unwrap();
    assert!(!p.match_path("/users/abc"));
    let params = p.get_params("/users/abc");
    assert_eq!(params.get_item("id".to_string()), None);
}

#[test]
fn pattern_matches_the_whole_path_only() {
    let p = RoutePattern::new("/ping").unwrap();
    assert!(p.match_path("/ping"));
    assert!(!p.match_path("/ping/7"));
    assert!(!p.match_path("/api/ping"));
    assert!(!p.match_path("/pin"));
    assert!(!p.match_path(""));
}

#[test]
fn alternation_is_anchored_as_a_whole() {
    let p = RoutePattern::new("/a|/b").unwrap();
    assert!(p.match_path("/a"));
    assert!(p.match_path("/b"));
    assert!(!p.match_path("/a/more"));
    assert!(!p.match_path("/more/b"));
}

#[test]
fn unclosed_group_is_a_compile_error() {
    let e = RoutePattern::new("/users/(?P<id>[0-9]+").unwrap_err();
    assert_eq!(e.template, "/users/(?P<id>[0-9]+");
    assert!(!e.message.is_empty());
    assert_ne!(e.message, e.template);
}

#[test]
fn malformed_capture_name_is_a_compile_error() {
    assert!(RoutePattern::new("/x/(?P<>a)").is_err());
    assert!(RoutePattern::new("/x/(?P<id").is_err());
}

#[test]
fn unbalanced_groups_are_a_compile_error() {
    assert!(RoutePattern::new("/a)(b").is_err());
    assert!(RoutePattern::new("/a)").is_err());
}

#[test]
fn pattern_keeps_its_template() {
    let p = RoutePattern::new("/users/(?P<id>[0-9]+)").unwrap();
    assert_eq!(p.as_str(), "/users/(?P<id>[0-9]+)");
    assert_eq!(p.matcher_source(), "^(?:/users/(?P<id>[0-9]+))$");
}

#[test]
fn several_captures_are_all_extracted() {
    let p = RoutePattern::new("/shops/(?P<shop>[a-z]+)/items/(?P<item>[0-9]+)").unwrap();
    let params = p.get_params("/shops/corner/items/17");
    assert_eq!(params.get_item("shop".to_string()), Some(&"corner".to_string()));
    assert_eq!(params.get_item("item".to_string()), Some(&"17".to_string()));
    assert_eq!(params.get_item("0".to_string()), None);
}

#[test]
fn unnamed_groups_yield_no_parameter() {
    let p = RoutePattern::new("/files/([a-z]+)/(?P<n>[0-9]+)").unwrap();
    let params = p.get_params("/files/docs/3");
    assert_eq!(params.get_item("n".to_string()), Some(&"3".to_string()));
    assert_eq!(params.get_item("docs".to_string()), None);
}

#[test]
fn group_outside_the_match_is_absent() {
    let p = RoutePattern::new("/a(?:/(?P<x>[0-9]+))?").unwrap();
    assert!(p.match_path("/a"));
    let without = p.get_params("/a");
    assert_eq!(without.get_item("x".to_string()), None);
    let with = p.get_params("/a/5");
    assert_eq!(with.get_item("x".to_string()), Some(&"5".to_string()));
}

#[test]
fn capture_may_be_empty_and_is_still_present() {
    let p = RoutePattern::new("/tag/(?P<t>[a-z]*)").unwrap();
    let params = p.get_params("/tag/");
    assert_eq!(params.get_item("t".to_string()), Some(&String::new()));
}

#[test]
fn extraction_without_a_match_is_empty() {
    let p = RoutePattern::new("/users/(?P<id>[0-9]+)").unwrap();
    let params = p.get_params("/elsewhere");
    assert_eq!(params.get_item("id".to_string()), None);
}

#[test]
fn capture_names_are_listed_in_group_order() {
    let p = RoutePattern::new("/(?P<shop>[a-z]+)/([0-9]+)/(?P<item>[0-9]+)").unwrap();
    assert_eq!(p.capture_names(), vec!["shop".to_string(), "item".to_string()]);
    let none = RoutePattern::new("/ping").unwrap();
    assert!(none.capture_names().is_empty());
}

#[test]
fn bind_groups_pairs_names_with_texts_by_position() {
    let names = vec![None, Some("a".to_string()), None, Some("b".to_string()), Some("c".to_string())];
    let groups = vec![
        Some("whole".to_string()),
        Some("1".to_string()),
        Some("unnamed".to_string()),
        None,
        Some("3".to_string()),
    ];
    let p = bind_groups(&names, &groups);
    assert_eq!(p.get_item("a".to_string()), Some(&"1".to_string()));
    assert_eq!(p.get_item("b".to_string()), None);
    assert_eq!(p.get_item("c".to_string()), Some(&"3".to_string()));
    assert_eq!(p.get_item("whole".to_string()), None);
}

#[test]
fn bind_groups_stops_at_the_shorter_list() {
    let names = vec![None, Some("a".to_string()), Some("b".to_string())];
    let groups = vec![Some("w".to_string()), Some("1".to_string())];
    let p = bind_groups(&names, &groups);
    assert_eq!(p.get_item("a".to_string()), Some(&"1".to_string()));
    assert_eq!(p.get_item("b".to_string()), None);
    let none = bind_groups(&Vec::new(), &groups);
    assert_eq!(none.get_item("a".to_string()), None);
}

#[test]
fn bind_groups_lets_a_later_group_of_a_name_win() {
    let names = vec![Some("x".to_string()), Some("x".to_string())];
    let groups = vec![Some("first".to_string()), Some("second".to_string())];
    let p = bind_groups(&names, &groups);
    assert_eq!(p.get_item("x".to_string()), Some(&"second".to_string()));
}
