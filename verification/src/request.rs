//! Turning a validated subcommand into one concrete request.
//!
//! The dispatcher never performs I/O: it fixes the verb, the URL and, for a
//! POST, the JSON body, and hands the plan to the caller to send.

use vstd::prelude::*;
use crate::args::Subcommand;
use crate::body::body_json;
use crate::body::encode_body;

verus! {

/// The HTTP verb of a request.
pub enum Method {
    Get,
    Post,
}

/// Everything one request needs: verb, target, and the JSON body a POST
/// carries.
pub struct RequestPlan {
    pub method: Method,
    pub url: String,
    pub json_body: Option<String>,
}

/// Map a subcommand to the one request it stands for: `get` issues a bare
/// GET, `post` a POST whose body is the folded pairs as a JSON object.
pub fn plan_request(cmd: &Subcommand) -> (r: RequestPlan)
    ensures
        match cmd {
            Subcommand::Get { url } => r.method is Get && r.url@ == url@ && r.json_body is None,
            Subcommand::Post { url, body } => r.method is Post && r.url@ == url@
                && (r.json_body matches Some(b) && b@ == body_json(body@)),
        },
{
    match cmd {
        Subcommand::Get { url } => RequestPlan {
            method: Method::Get,
            url: url.clone(),
            json_body: None,
        },
        Subcommand::Post { url, body } => RequestPlan {
            method: Method::Post,
            url: url.clone(),
            json_body: Some(encode_body(body)),
        },
    }
}

/// The headers every outgoing request carries: an identifying header and a
/// fixed user agent.
pub fn default_headers() -> (r: Vec<(String, String)>)
    ensures
        r@.len() == 2,
        r@[0].0@ == "X-POWERED-BY"@ && r@[0].1@ == "Rust Http Cli"@,
        r@[1].0@ == "User-Agent"@ && r@[1].1@ == "Veryhttp by Rust"@,
{
    let mut headers: Vec<(String, String)> = Vec::new();
    headers.push(("X-POWERED-BY".to_owned(), "Rust Http Cli".to_owned()));
    headers.push(("User-Agent".to_owned(), "Veryhttp by Rust".to_owned()));
    headers
}

} // verus!
