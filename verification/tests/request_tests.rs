use veryhttp::args::Subcommand;
use veryhttp::kv::KeyValuePair;
use veryhttp::request::{default_headers, plan_request, Method};

fn pair(k: &str, v: &str) -> KeyValuePair {
    KeyValuePair {
        k: k.to_string(),
        v: v.to_string(),
    }
}

#[test]
fn get_plans_a_bare_get() {
    let cmd = Subcommand::Get {
        url: "https://example.com/status/404".to_string(),
    };
    let plan = plan_request(&cmd);
    assert!(matches!(plan.method, Method::Get));
    assert_eq!(plan.url, "https://example.com/status/404");
    assert!(plan.json_body.is_none());
}

#[test]
fn post_plans_a_json_body_in_argument_order() {
    let cmd = Subcommand::Post {
        url: "https://example.com/echo".to_string(),
        body: vec![pair("name", "ada"), pair("lang", "rust")],
    };
    let plan = plan_request(&cmd);
    assert!(matches!(plan.method, Method::Post));
    assert_eq!(plan.url, "https://example.com/echo");
    assert_eq!(
        plan.json_body.as_deref(),
        Some("{\"name\":\"ada\",\"lang\":\"rust\"}")
    );
}

#[test]
fn post_with_no_pairs_sends_an_empty_object() {
    let cmd = Subcommand::Post {
        url: "https://example.com/echo".to_string(),
        body: vec![],
    };
    let plan = plan_request(&cmd);
    assert_eq!(plan.json_body.as_deref(), Some("{}"));
}

#[test]
fn every_request_carries_the_fixed_headers() {
    let hs = default_headers();
    assert_eq!(hs.len(), 2);
    assert_eq!(hs[0].0, "X-POWERED-BY");
    assert_eq!(hs[0].1, "Rust Http Cli");
    assert_eq!(hs[1].0, "User-Agent");
    assert_eq!(hs[1].1, "Veryhttp by Rust");
}
