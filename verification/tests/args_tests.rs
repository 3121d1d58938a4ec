use veryhttp::args::{parse_url, ArgError};

#[test]
fn valid_absolute_url_passes_through_unchanged() {
    let u = "https://example.com/status/404";
    assert_eq!(parse_url(u).unwrap(), u);
}

#[test]
fn url_with_query_and_port_is_kept_as_written() {
    let u = "http://localhost:8080/echo?x=1&y=2";
    assert_eq!(parse_url(u).unwrap(), u);
}

#[test]
fn text_that_is_no_url_is_rejected_and_echoed() {
    match parse_url("not a url") {
        Err(ArgError::InvalidUrl(t)) => assert_eq!(t, "not a url"),
        _ => panic!("invalid URL text must be rejected"),
    }
}

#[test]
fn relative_reference_is_rejected() {
    assert!(matches!(
        parse_url("example.com/path"),
        Err(ArgError::InvalidUrl(_))
    ));
}
