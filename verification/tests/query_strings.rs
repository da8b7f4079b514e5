use yomitan_api::query::{parse_query_string, Param, QueryParams};

fn values(params: &QueryParams, key: &str) -> Option<Vec<String>> {
    params.get(key).cloned()
}

fn strings(items: &[&str]) -> Vec<String> {
    items.iter().map(|item| item.to_string()).collect()
}

fn keys(params: &QueryParams) -> Vec<String> {
    params.entries().iter().map(|entry| entry.key.clone()).collect()
}

#[test]
fn empty_query_has_no_params() {
    let params = parse_query_string("");
    assert_eq!(params.len(), 0);
    assert!(params.entries().is_empty());
    assert_eq!(params.get("a"), None);
}

#[test]
fn single_pair() {
    let params = parse_query_string("text=inu");
    assert_eq!(params.len(), 1);
    assert_eq!(values(&params, "text"), Some(strings(&["inu"])));
}

#[test]
fn repeated_keys_keep_every_value_in_input_order() {
    let params = parse_query_string("a=1&b=2&a=3&c=4&a=2&b=1");
    assert_eq!(values(&params, "a"), Some(strings(&["1", "3", "2"])));
    assert_eq!(values(&params, "b"), Some(strings(&["2", "1"])));
    assert_eq!(values(&params, "c"), Some(strings(&["4"])));
    assert_eq!(values(&params, "d"), None);
    assert_eq!(params.len(), 3);
}

#[test]
fn repeated_equal_values_are_all_kept() {
    let params = parse_query_string("x=1&x=1&x=1");
    assert_eq!(values(&params, "x"), Some(strings(&["1", "1", "1"])));
}

#[test]
fn keys_stand_in_order_of_first_occurrence() {
    let params = parse_query_string("z=1&a=2&m=3&a=4&z=5");
    assert_eq!(keys(&params), strings(&["z", "a", "m"]));
    assert_eq!(
        params.entries(),
        &vec![
            Param { key: "z".to_string(), values: strings(&["1", "5"]) },
            Param { key: "a".to_string(), values: strings(&["2", "4"]) },
            Param { key: "m".to_string(), values: strings(&["3"]) },
        ]
    );
}

#[test]
fn empty_pieces_are_passed_over() {
    let params = parse_query_string("&&a=1&&b=2&");
    assert_eq!(keys(&params), strings(&["a", "b"]));
    assert_eq!(parse_query_string("&").len(), 0);
    assert_eq!(parse_query_string("&&&").len(), 0);
}

#[test]
fn piece_without_equals_is_a_key_with_empty_value() {
    let params = parse_query_string("flag&a=1&flag");
    assert_eq!(values(&params, "flag"), Some(strings(&["", ""])));
    assert_eq!(values(&params, "a"), Some(strings(&["1"])));
}

#[test]
fn piece_is_cut_at_its_first_equals() {
    let params = parse_query_string("a=b=c&=v&k=");
    assert_eq!(values(&params, "a"), Some(strings(&["b=c"])));
    assert_eq!(values(&params, ""), Some(strings(&["v"])));
    assert_eq!(values(&params, "k"), Some(strings(&[""])));
}

#[test]
fn keys_and_values_are_percent_decoded() {
    let params = parse_query_string("text=%E7%8A%AC&a%20b=c%26d&e=f%3Dg");
    assert_eq!(values(&params, "text"), Some(strings(&["犬"])));
    assert_eq!(values(&params, "a b"), Some(strings(&["c&d"])));
    assert_eq!(values(&params, "e"), Some(strings(&["f=g"])));
}

#[test]
fn escaped_separators_do_not_separate() {
    let params = parse_query_string("a%3D1%26b=2");
    assert_eq!(keys(&params), strings(&["a=1&b"]));
    assert_eq!(values(&params, "a=1&b"), Some(strings(&["2"])));
}

#[test]
fn unescaped_text_is_taken_as_it_is() {
    let params = parse_query_string("text=犬&q=a+b");
    assert_eq!(values(&params, "text"), Some(strings(&["犬"])));
    assert_eq!(values(&params, "q"), Some(strings(&["a+b"])));
}

#[test]
fn keys_that_decode_alike_are_one_key() {
    let params = parse_query_string("a%20b=1&a b=2&%61%20%62=3");
    assert_eq!(params.len(), 1);
    assert_eq!(values(&params, "a b"), Some(strings(&["1", "2", "3"])));
}

#[test]
fn what_is_malformed_becomes_empty() {
    let params = parse_query_string("k=%ff&%ff=v&ok=1");
    assert_eq!(values(&params, "k"), Some(strings(&[""])));
    assert_eq!(values(&params, ""), Some(strings(&["v"])));
    assert_eq!(values(&params, "ok"), Some(strings(&["1"])));

    let params = parse_query_string("rate=100%&%zz=1&x=%4&fine=100%25");
    assert_eq!(values(&params, "rate"), Some(strings(&[""])));
    assert_eq!(values(&params, ""), Some(strings(&["1"])));
    assert_eq!(values(&params, "x"), Some(strings(&[""])));
    assert_eq!(values(&params, "fine"), Some(strings(&["100%"])));
}

#[test]
fn malformed_side_does_not_spoil_the_other() {
    let params = parse_query_string("%=kept&kept=%");
    assert_eq!(values(&params, ""), Some(strings(&["kept"])));
    assert_eq!(values(&params, "kept"), Some(strings(&[""])));
}

#[test]
fn standard_encoding_round_trips_through_a_query() {
    let pairs = [("text", "犬"), ("a&b", "c=d"), ("text", "100% & more"), ("sp ace", "")];
    let query: Vec<String> = pairs
        .iter()
        .map(|(key, value)| format!("{}={}", urlencoding::encode(key), urlencoding::encode(value)))
        .collect();
    let params = parse_query_string(&query.join("&"));
    assert_eq!(values(&params, "text"), Some(strings(&["犬", "100% & more"])));
    assert_eq!(values(&params, "a&b"), Some(strings(&["c=d"])));
    assert_eq!(values(&params, "sp ace"), Some(strings(&[""])));
    assert_eq!(keys(&params), strings(&["text", "a&b", "sp ace"]));
}

#[test]
fn append_builds_what_parsing_builds() {
    let mut built = QueryParams::new();
    built.append("a".to_string(), "1".to_string());
    built.append("b".to_string(), "2".to_string());
    built.append("a".to_string(), "3".to_string());
    assert_eq!(built, parse_query_string("a=1&b=2&a=3"));
    assert_eq!(built.len(), 2);
}

#[test]
fn long_query_with_many_keys() {
    let query: Vec<String> = (0..500).map(|i| format!("k{}=v{}", i % 50, i)).collect();
    let params = parse_query_string(&query.join("&"));
    assert_eq!(params.len(), 50);
    let expected: Vec<String> = (0..10).map(|round| format!("v{}", round * 50 + 7)).collect();
    assert_eq!(values(&params, "k7"), Some(expected));
}
