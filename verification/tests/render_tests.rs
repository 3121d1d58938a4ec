use veryhttp::render::{
    content_type_of, render_body, render_response, status_code_text, BodyRendering, RenderError,
    ResponseView,
};

fn view(status: u16, headers: Vec<(&str, &str)>, body: &str) -> ResponseView {
    ResponseView {
        version: "HTTP/1.1".to_string(),
        status,
        headers: headers
            .into_iter()
            .map(|(k, v)| (k.to_string(), v.to_string()))
            .collect(),
        body: body.to_string(),
    }
}

#[test]
fn status_codes_render_as_decimal_text() {
    assert_eq!(status_code_text(200), "200");
    assert_eq!(status_code_text(404), "404");
    assert_eq!(status_code_text(0), "0");
}

#[test]
fn content_type_lookup_ignores_ascii_case() {
    let v = view(200, vec![("Content-Type", "text/plain")], "x");
    assert_eq!(content_type_of(&v.headers).unwrap(), "text/plain");
    let w = view(200, vec![("CONTENT-TYPE", "text/html")], "x");
    assert_eq!(content_type_of(&w.headers).unwrap(), "text/html");
}

#[test]
fn content_type_lookup_takes_the_first_hit() {
    let v = view(
        200,
        vec![("server", "a"), ("content-type", "text/css"), ("content-type", "text/html")],
        "x",
    );
    assert_eq!(content_type_of(&v.headers).unwrap(), "text/css");
    let w = view(200, vec![("server", "a")], "x");
    assert!(content_type_of(&w.headers).is_none());
}

#[test]
fn json_body_is_pretty_printed() {
    let ct = "application/json".to_string();
    match render_body(Some(&ct), "{\"a\":1}").unwrap() {
        BodyRendering::Json(p) => {
            assert!(p.contains("\"a\""));
            assert!(p.contains("1"));
            assert_ne!(p, "{\"a\":1}");
            assert!(p.contains('\n'));
        }
        BodyRendering::Raw(_) => panic!("a JSON response must be pretty-printed"),
    }
}

#[test]
fn plain_body_is_kept_verbatim() {
    let ct = "text/plain".to_string();
    match render_body(Some(&ct), "hello").unwrap() {
        BodyRendering::Raw(t) => assert_eq!(t, "hello"),
        BodyRendering::Json(_) => panic!("a plain response must stay raw"),
    }
}

#[test]
fn missing_content_type_is_kept_verbatim() {
    match render_body(None, "{\"a\":1}").unwrap() {
        BodyRendering::Raw(t) => assert_eq!(t, "{\"a\":1}"),
        BodyRendering::Json(_) => panic!("without a content type the body stays raw"),
    }
}

#[test]
fn json_with_parameters_is_not_exactly_json() {
    let ct = "application/json; charset=utf-8".to_string();
    match render_body(Some(&ct), "{\"a\":1}").unwrap() {
        BodyRendering::Raw(t) => assert_eq!(t, "{\"a\":1}"),
        BodyRendering::Json(_) => panic!("a parameterized type is not exactly application/json"),
    }
}

#[test]
fn upper_case_json_type_still_selects_json() {
    let ct = "APPLICATION/JSON".to_string();
    assert!(matches!(
        render_body(Some(&ct), "{}").unwrap(),
        BodyRendering::Json(_)
    ));
}

#[test]
fn malformed_mime_type_falls_back_to_raw() {
    let ct = "not a mime type //".to_string();
    match render_body(Some(&ct), "body").unwrap() {
        BodyRendering::Raw(t) => assert_eq!(t, "body"),
        BodyRendering::Json(_) => panic!("an unreadable content type selects raw output"),
    }
}

#[test]
fn declared_json_that_is_malformed_is_fatal() {
    let ct = "application/json".to_string();
    match render_body(Some(&ct), "{oops") {
        Err(RenderError::InvalidJson(_)) => {}
        _ => panic!("a body declared as JSON but malformed must fail rendering"),
    }
}

#[test]
fn not_found_with_empty_body_renders_without_error() {
    let v = view(404, vec![], "");
    let r = render_response(&v).unwrap();
    assert_eq!(r.version, "HTTP/1.1");
    assert_eq!(r.status_code, "404");
    assert!(r.headers.is_empty());
    match r.body {
        BodyRendering::Raw(t) => assert_eq!(t, ""),
        BodyRendering::Json(_) => panic!("an empty body without a type stays raw"),
    }
}

#[test]
fn whole_response_renders_in_order() {
    let v = view(
        200,
        vec![("Server", "demo"), ("Content-Type", "application/json")],
        "{\"a\":1}",
    );
    let r = render_response(&v).unwrap();
    assert_eq!(r.status_code, "200");
    assert_eq!(r.headers.len(), 2);
    assert_eq!(r.headers[0].0, "Server");
    assert_eq!(r.headers[0].1, "demo");
    assert_eq!(r.headers[1].0, "Content-Type");
    match r.body {
        BodyRendering::Json(p) => {
            assert!(p.contains("\"a\""));
            assert!(p.contains("1"));
        }
        BodyRendering::Raw(_) => panic!("declared JSON must be pretty-printed"),
    }
}

#[test]
fn whole_response_fails_on_declared_but_broken_json() {
    let v = view(200, vec![("content-type", "application/json")], "[1,");
    assert!(render_response(&v).is_err());
}
