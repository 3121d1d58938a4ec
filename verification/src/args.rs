//! The argument model: the two subcommands and URL validation.
//!
//! A URL argument must parse as an absolute URL before any request is made;
//! validation keeps the accepted text unchanged. The grammar itself is the
//! `url` crate's, reached through one trusted wrapper.

use vstd::prelude::*;
use crate::kv::KeyValuePair;

verus! {

/// Whether the `url` crate accepts `s` as an absolute URL. The outcome
/// depends on the characters of `s` alone.
pub uninterp spec fn url_accepts(s: Seq<char>) -> bool;

/// Relies on `url::Url::from_str` (through `str::parse`): it accepts or
/// rejects a string on its characters alone, per the URL standard's grammar.
#[verifier::external_body]
fn url_is_valid(s: &str) -> (r: bool)
    ensures
        r == url_accepts(s@),
{
    s.parse::<url::Url>().is_ok()
}

/// Why an argument was rejected.
#[derive(Debug)]
pub enum ArgError {
    /// The token is not a valid absolute URL; it is echoed back.
    InvalidUrl(String),
}

/// Validate a URL argument: accepted text comes back unchanged, rejected
/// text comes back inside the error.
pub fn parse_url(s: &str) -> (r: Result<String, ArgError>)
    ensures
        r is Ok <==> url_accepts(s@),
        r matches Ok(u) ==> u@ == s@,
        r matches Err(e) ==> (e matches ArgError::InvalidUrl(t) && t@ == s@),
{
    if url_is_valid(s) {
        Ok(s.to_owned())
    } else {
        Err(ArgError::InvalidUrl(s.to_owned()))
    }
}

/// A validated invocation: the verb and its arguments.
pub enum Subcommand {
    /// `get <url>`
    Get { url: String },
    /// `post <url> [<key>=<value> ...]`
    Post { url: String, body: Vec<KeyValuePair> },
}

} // verus!
