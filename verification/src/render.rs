//! Rendering a received response for a terminal.
//!
//! Rendering is a pure projection of the response: the status code becomes
//! its decimal text, headers pass through in the order received, and the
//! body is pretty-printed when the response declares itself as
//! `application/json` and is kept verbatim otherwise. A body that claims to
//! be JSON but is not valid JSON is a rendering error, not a fallback.

use vstd::prelude::*;
use vstd::string::StrSliceExecFns;
use crate::body::push_char;

verus! {

/// A read-only view of a received response.
pub struct ResponseView {
    /// Protocol version text, e.g. `HTTP/1.1`.
    pub version: String,
    /// Numeric status code.
    pub status: u16,
    /// Header pairs, in the order received.
    pub headers: Vec<(String, String)>,
    /// The whole body, already read into memory.
    pub body: String,
}

/// An ASCII upper-case letter folded to lower case, as a code point.
pub open spec fn lower_code(c: char) -> u32 {
    if 65 <= c as u32 && c as u32 <= 90 {
        (c as u32 + 32) as u32
    } else {
        c as u32
    }
}

/// ASCII case-insensitive equality of two texts.
pub open spec fn eq_ascii_ci(a: Seq<char>, b: Seq<char>) -> bool {
    a.len() == b.len() && forall|i: int| 0 <= i < a.len() ==> lower_code(a[i]) == lower_code(b[i])
}

/// The headers as pairs of character sequences.
pub open spec fn headers_model(hs: Seq<(String, String)>) -> Seq<(Seq<char>, Seq<char>)> {
    hs.map_values(|h: (String, String)| (h.0@, h.1@))
}

/// The value of the first `Content-Type` header, if any; header names
/// compare without regard to ASCII case.
pub open spec fn content_type_lookup(hs: Seq<(Seq<char>, Seq<char>)>) -> Option<Seq<char>>
    decreases hs.len(),
{
    if hs.len() == 0 {
        None
    } else if eq_ascii_ci(hs.first().0, "content-type"@) {
        Some(hs.first().1)
    } else {
        content_type_lookup(hs.drop_first())
    }
}

/// ASCII case-insensitive comparison of two strings.
fn str_eq_ci(a: &str, b: &str) -> (r: bool)
    ensures
        r == eq_ascii_ci(a@, b@),
{
    let na = a.unicode_len();
    let nb = b.unicode_len();
    if na != nb {
        return false;
    }
    let mut i: usize = 0;
    while i < na
        invariant
            na == a@.len(),
            nb == b@.len(),
            na == nb,
            i <= na,
            forall|j: int| 0 <= j < i ==> lower_code(a@[j]) == lower_code(b@[j]),
        decreases na - i,
    {
        let ca = a.get_char(i) as u32;
        let cb = b.get_char(i) as u32;
        let la: u32 = if 65 <= ca && ca <= 90 {
            ca + 32
        } else {
            ca
        };
        let lb: u32 = if 65 <= cb && cb <= 90 {
            cb + 32
        } else {
            cb
        };
        if la != lb {
            assert(lower_code(a@[i as int]) != lower_code(b@[i as int]));
            return false;
        }
        i = i + 1;
    }
    true
}

/// The value of the first `Content-Type` header, if the response has one.
pub fn content_type_of(headers: &Vec<(String, String)>) -> (r: Option<String>)
    ensures
        r is Some <==> content_type_lookup(headers_model(headers@)) is Some,
        r matches Some(v) ==> content_type_lookup(headers_model(headers@)) == Some(v@),
{
    let ghost hm = headers_model(headers@);
    let mut i: usize = 0;
    proof {
        assert(hm.skip(0) =~= hm);
    }
    while i < headers.len()
        invariant
            i <= headers@.len(),
            hm == headers_model(headers@),
            content_type_lookup(hm) == content_type_lookup(hm.skip(i as int)),
        decreases headers@.len() - i,
    {
        proof {
            assert(hm.skip(i as int).first() == hm[i as int]);
        }
        if str_eq_ci(headers[i].0.as_str(), "content-type") {
            return Some(headers[i].1.clone());
        }
        proof {
            assert(hm.skip(i as int).drop_first() =~= hm.skip(i as int + 1));
        }
        i = i + 1;
    }
    proof {
        assert(hm.skip(headers@.len() as int) =~= Seq::<(Seq<char>, Seq<char>)>::empty());
    }
    None
}

/// Whether the `mime` crate accepts `s` as a MIME type. The outcome depends
/// on the characters of `s` alone.
pub uninterp spec fn mime_parses(s: Seq<char>) -> bool;

/// Whether `s`, read as a MIME type, equals `application/json` exactly (no
/// further parameters). The outcome depends on the characters of `s` alone.
pub uninterp spec fn mime_is_application_json(s: Seq<char>) -> bool;

/// Relies on `mime::Mime::from_str` and on `Mime`'s equality against
/// `mime::APPLICATION_JSON`: both are pure functions of the text.
#[verifier::external_body]
fn content_type_is_json(s: &str) -> (r: Option<bool>)
    ensures
        r is Some <==> mime_parses(s@),
        r matches Some(b) ==> b == mime_is_application_json(s@),
{
    match s.parse::<mime::Mime>() {
        Ok(m) => Some(m == mime::APPLICATION_JSON),
        Err(_) => None,
    }
}

/// Whether `serde_json` accepts `s` as well-formed JSON. The outcome
/// depends on the characters of `s` alone.
pub uninterp spec fn json_valid(s: Seq<char>) -> bool;

/// Relies on `serde_json::from_str::<serde_json::Value>`: it accepts or
/// rejects text as JSON on the characters alone; a rejection carries a
/// message.
#[verifier::external_body]
fn check_json(s: &str) -> (r: Result<(), String>)
    ensures
        r is Ok <==> json_valid(s@),
{
    match serde_json::from_str::<serde_json::Value>(s) {
        Ok(_) => Ok(()),
        Err(e) => Err(e.to_string()),
    }
}

/// What `jsonxf` pretty-printing yields on `s`, when it yields anything:
/// the re-indented text. Depends on `s` alone.
pub uninterp spec fn jsonxf_pretty(s: Seq<char>) -> Option<Seq<char>>;

/// Relies on `jsonxf::pretty_print`: a pure function of the input text. It
/// re-indents and does not validate; validity is checked separately.
#[verifier::external_body]
fn pretty_print_json(s: &str) -> (r: Result<String, String>)
    ensures
        r is Ok <==> jsonxf_pretty(s@) is Some,
        r matches Ok(p) ==> jsonxf_pretty(s@) == Some(p@),
{
    jsonxf::pretty_print(s)
}

/// How the body is to appear: pretty-printed JSON, or the raw text.
pub enum BodyRendering {
    /// The body re-emitted as indented JSON.
    Json(String),
    /// The body verbatim, as received.
    Raw(String),
}

/// Why rendering failed.
#[derive(Debug)]
pub enum RenderError {
    /// The response declared `application/json` but the body is not valid
    /// JSON; the pretty-printer's message is kept.
    InvalidJson(String),
}

/// Whether a declared content type selects JSON rendering: it must parse as
/// a MIME type and equal `application/json` exactly.
pub open spec fn selects_json(ct: Option<Seq<char>>) -> bool {
    match ct {
        Some(s) => mime_parses(s) && mime_is_application_json(s),
        None => false,
    }
}

/// Render the body under the declared content type: pretty-printed when the
/// type is exactly `application/json` (malformed JSON is an error), and
/// verbatim for any other or missing type.
pub fn render_body(content_type: Option<&String>, body: &str) -> (r: Result<
    BodyRendering,
    RenderError,
>)
    ensures
        ({
            let ct = match content_type {
                Some(s) => Some(s@),
                None => None,
            };
            &&& (selects_json(ct) ==> {
                &&& (r is Ok <==> (json_valid(body@) && jsonxf_pretty(body@) is Some))
                &&& (r matches Ok(b) ==> (b matches BodyRendering::Json(p) && jsonxf_pretty(body@)
                    == Some(p@)))
            })
            &&& (!selects_json(ct) ==> (r matches Ok(b) && b matches BodyRendering::Raw(t) && t@
                == body@))
            &&& (r matches Err(e) ==> e matches RenderError::InvalidJson(_))
        }),
{
    let is_json = match content_type {
        Some(ct) => match content_type_is_json(ct.as_str()) {
            Some(b) => b,
            None => false,
        },
        None => false,
    };
    if is_json {
        match check_json(body) {
            Ok(()) => match pretty_print_json(body) {
                Ok(p) => Ok(BodyRendering::Json(p)),
                Err(m) => Err(RenderError::InvalidJson(m)),
            },
            Err(m) => Err(RenderError::InvalidJson(m)),
        }
    } else {
        Ok(BodyRendering::Raw(body.to_owned()))
    }
}

/// The decimal digit for `n`.
pub open spec fn dec_digit(n: int) -> char {
    if n == 0 {
        '0'
    } else if n == 1 {
        '1'
    } else if n == 2 {
        '2'
    } else if n == 3 {
        '3'
    } else if n == 4 {
        '4'
    } else if n == 5 {
        '5'
    } else if n == 6 {
        '6'
    } else if n == 7 {
        '7'
    } else if n == 8 {
        '8'
    } else {
        '9'
    }
}

/// The decimal text of `n`, most significant digit first, no leading zeros
/// (a lone zero for zero).
pub open spec fn dec_rep(n: nat) -> Seq<char>
    decreases n,
{
    if n < 10 {
        seq![dec_digit(n as int)]
    } else {
        dec_rep(n / 10) + seq![dec_digit((n % 10) as int)]
    }
}

fn dec_digit_exec(n: u16) -> (c: char)
    requires
        n < 10,
    ensures
        c == dec_digit(n as int),
{
    if n == 0 {
        '0'
    } else if n == 1 {
        '1'
    } else if n == 2 {
        '2'
    } else if n == 3 {
        '3'
    } else if n == 4 {
        '4'
    } else if n == 5 {
        '5'
    } else if n == 6 {
        '6'
    } else if n == 7 {
        '7'
    } else if n == 8 {
        '8'
    } else {
        '9'
    }
}

/// The status code as decimal text.
pub fn status_code_text(n: u16) -> (r: String)
    ensures
        r@ == dec_rep(n as nat),
    decreases n,
{
    if n < 10 {
        let mut s = String::new();
        push_char(&mut s, dec_digit_exec(n));
        proof {
            assert(s@ =~= dec_rep(n as nat));
        }
        s
    } else {
        let mut s = status_code_text(n / 10);
        push_char(&mut s, dec_digit_exec(n % 10));
        proof {
            assert(s@ =~= dec_rep(n as nat));
        }
        s
    }
}

/// A response turned into text, ready to print: the three sections of the
/// output in order.
pub struct RenderedResponse {
    /// Protocol version text, unchanged.
    pub version: String,
    /// The status code as decimal text.
    pub status_code: String,
    /// The headers, in the order received.
    pub headers: Vec<(String, String)>,
    /// The body, pretty-printed or raw.
    pub body: BodyRendering,
}

/// The declared content type of a response.
pub open spec fn response_ct(v: ResponseView) -> Option<Seq<char>> {
    content_type_lookup(headers_model(v.headers@))
}

/// Render a whole response: status code text, headers in order, and the
/// body under its declared content type. Fails exactly when the response
/// declares JSON and the body is not valid JSON.
pub fn render_response(v: &ResponseView) -> (r: Result<RenderedResponse, RenderError>)
    ensures
        r matches Ok(out) ==> {
            &&& out.version@ == v.version@
            &&& out.status_code@ == dec_rep(v.status as nat)
            &&& out.headers@.len() == v.headers@.len()
            &&& forall|i: int|
                0 <= i < v.headers@.len() ==> (#[trigger] out.headers@[i]).0@ == v.headers@[i].0@
                    && out.headers@[i].1@ == v.headers@[i].1@
            &&& (selects_json(response_ct(*v)) ==> (out.body matches BodyRendering::Json(p)
                && jsonxf_pretty(v.body@) == Some(p@)))
            &&& (!selects_json(response_ct(*v)) ==> (out.body matches BodyRendering::Raw(t) && t@
                == v.body@))
        },
        r is Err <==> (selects_json(response_ct(*v)) && !(json_valid(v.body@) && jsonxf_pretty(
            v.body@,
        ) is Some)),
        r matches Err(e) ==> e matches RenderError::InvalidJson(_),
{
    let mut hs: Vec<(String, String)> = Vec::new();
    let mut i: usize = 0;
    while i < v.headers.len()
        invariant
            i <= v.headers@.len(),
            hs@.len() == i,
            forall|j: int|
                0 <= j < i ==> (#[trigger] hs@[j]).0@ == v.headers@[j].0@ && hs@[j].1@
                    == v.headers@[j].1@,
        decreases v.headers@.len() - i,
    {
        let name = v.headers[i].0.clone();
        let value = v.headers[i].1.clone();
        hs.push((name, value));
        i = i + 1;
    }
    let ct = content_type_of(&v.headers);
    let rendered = match &ct {
        Some(s) => render_body(Some(s), v.body.as_str()),
        None => render_body(None, v.body.as_str()),
    };
    match rendered {
        Ok(b) => Ok(
            RenderedResponse {
                version: v.version.clone(),
                status_code: status_code_text(v.status),
                headers: hs,
                body: b,
            },
        ),
        Err(e) => Err(e),
    }
}

} // verus!
