use veryhttp::kv::{parse_kv_pair, KeyValuePair, ParseError};

#[test]
fn splits_at_first_eq() {
    let p = parse_kv_pair("name=ada").unwrap();
    assert_eq!(p.k, "name");
    assert_eq!(p.v, "ada");
}

#[test]
fn value_keeps_later_eq_signs() {
    let p = parse_kv_pair("a=b=c").unwrap();
    assert_eq!(p.k, "a");
    assert_eq!(p.v, "b=c");
}

#[test]
fn missing_delimiter_is_an_error() {
    match parse_kv_pair("nodelimiter") {
        Err(ParseError::MissingDelimiter(t)) => assert_eq!(t, "nodelimiter"),
        _ => panic!("a token with no = must fail with the delimiter error"),
    }
}

#[test]
fn empty_token_is_an_error() {
    assert!(matches!(
        parse_kv_pair(""),
        Err(ParseError::MissingDelimiter(_))
    ));
}

#[test]
fn empty_key_and_empty_value_are_accepted() {
    let p = parse_kv_pair("=v").unwrap();
    assert_eq!(p.k, "");
    assert_eq!(p.v, "v");
    let q = parse_kv_pair("k=").unwrap();
    assert_eq!(q.k, "k");
    assert_eq!(q.v, "");
}

#[test]
fn from_str_matches_parse_kv_pair() {
    let p = KeyValuePair::from_str("lang=rust").unwrap();
    assert_eq!(p.k, "lang");
    assert_eq!(p.v, "rust");
}
