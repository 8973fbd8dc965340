use media_gateway::url::{parse_query_string, query_get, query_param};

#[test]
fn decodes_query_pairs() {
    let pairs = parse_query_string("a=1&b=hello%20world&c=x%2By");
    assert_eq!(query_get(&pairs, "a").unwrap(), "1");
    assert_eq!(query_get(&pairs, "b").unwrap(), "hello world");
    assert_eq!(query_get(&pairs, "c").unwrap(), "x+y");
    assert!(query_get(&pairs, "d").is_none());
}

#[test]
fn plus_decodes_to_space_and_later_pairs_win() {
    let pairs = parse_query_string("q=a+b&q=second");
    assert_eq!(query_get(&pairs, "q").unwrap(), "second");
}

#[test]
fn one_step_lookup_matches_two_step() {
    assert_eq!(
        query_param("url=https%3A%2F%2Fa.example%2Fx.png&width=100", "url").unwrap(),
        "https://a.example/x.png"
    );
    assert_eq!(
        query_param("url=a&width=100", "width").unwrap(),
        "100"
    );
    assert!(query_param("url=a", "height").is_none());
}

#[test]
fn empty_query_has_no_pairs() {
    let pairs = parse_query_string("");
    assert!(query_get(&pairs, "anything").is_none());
}
