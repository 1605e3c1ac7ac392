use poem_adapters::decode_query_component;
use poem_adapters::pairs::last_value_wins;
use poem_adapters::query::parse_query_pairs;

fn pairs(list: &[(&str, &str)]) -> Vec<(String, String)> {
    list.iter().map(|(k, v)| (k.to_string(), v.to_string())).collect()
}

#[test]
fn plus_and_percent_sequences_are_decoded() {
    assert_eq!(decode_query_component("a%41+b"), "aA b");
    assert_eq!(decode_query_component("%7e%7E"), "~~");
}

#[test]
fn plain_component_is_unchanged() {
    assert_eq!(decode_query_component("hello.world-1_2"), "hello.world-1_2");
    assert_eq!(decode_query_component(""), "");
}

#[test]
fn malformed_percent_sequences_stay_literal() {
    assert_eq!(decode_query_component("%zz"), "%zz");
    assert_eq!(decode_query_component("%4"), "%4");
    assert_eq!(decode_query_component("100%"), "100%");
    assert_eq!(decode_query_component("%4g1"), "%4g1");
}

#[test]
fn percent_sequence_at_the_very_end_is_decoded() {
    assert_eq!(decode_query_component("x%21"), "x!");
}

#[test]
fn decoded_bytes_are_read_one_character_each() {
    // Each decoded byte becomes the character with that code point.
    assert_eq!(decode_query_component("%e2%82%ac"), "\u{e2}\u{82}\u{ac}");
    assert_eq!(decode_query_component("é"), "\u{c3}\u{a9}");
}

#[test]
fn query_pieces_split_on_ampersand_and_first_equals() {
    let got = parse_query_pairs("a=1&&b=two=2&c&=x&d=%20+");
    assert_eq!(got, pairs(&[("a", "1"), ("b", "two=2"), ("c", ""), ("", "x"), ("d", "  ")]));
}

#[test]
fn empty_query_has_no_pairs() {
    assert!(parse_query_pairs("").is_empty());
    assert!(parse_query_pairs("&&").is_empty());
}

#[test]
fn later_pair_replaces_earlier_one() {
    let got = last_value_wins(pairs(&[("a", "1"), ("b", "2"), ("a", "3")]));
    assert_eq!(got.len(), 2);
    let a: Vec<_> = got.iter().filter(|(k, _)| k == "a").collect();
    assert_eq!(a, vec![&("a".to_string(), "3".to_string())]);
    assert!(got.contains(&("b".to_string(), "2".to_string())));
}
