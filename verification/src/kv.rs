//! Parsing of `key=value` tokens supplied on the command line.
//!
//! A token is split at its first `=`: the key is everything before it, the
//! value everything after it (further `=` characters stay in the value).
//! A token with no `=` is rejected and echoed back to the caller.

use vstd::prelude::*;
use vstd::string::StrSliceExecFns;

verus! {

/// One `key=value` pair of a request body.
#[derive(Debug, Clone)]
pub struct KeyValuePair {
    pub k: String,
    pub v: String,
}

/// Why a `key=value` token was rejected.
#[derive(Debug)]
pub enum ParseError {
    /// The token holds no `=`; the offending token is echoed back.
    MissingDelimiter(String),
}

/// Index of the first `=` in `s`, if any.
pub open spec fn first_eq(s: Seq<char>) -> Option<int>
    decreases s.len(),
{
    if s.len() == 0 {
        None
    } else if s.first() == '=' {
        Some(0int)
    } else {
        match first_eq(s.drop_first()) {
            Some(i) => Some(i + 1),
            None => None,
        }
    }
}

/// What parsing a token yields: the text before the first `=` and the text
/// after it, or nothing when the token holds no `=`.
pub open spec fn kv_spec(s: Seq<char>) -> Option<(Seq<char>, Seq<char>)> {
    match first_eq(s) {
        Some(i) => Some((s.take(i), s.skip(i + 1))),
        None => None,
    }
}

/// A scan that saw no `=` among the first `i` characters pins `first_eq`
/// down: a hit at `i` is the first one, and a scan of the whole string
/// without a hit means there is none.
proof fn lemma_first_eq_scan(s: Seq<char>, i: int)
    requires
        0 <= i <= s.len(),
        forall|j: int| 0 <= j < i ==> s[j] != '=',
    ensures
        i < s.len() && s[i] == '=' ==> first_eq(s) == Some(i),
        i == s.len() ==> first_eq(s) is None,
    decreases s.len(),
{
    if s.len() == 0 {
    } else if s.first() == '=' {
    } else if i > 0 {
        assert(forall|j: int| 0 <= j < i - 1 ==> s.drop_first()[j] == s[j + 1]);
        lemma_first_eq_scan(s.drop_first(), i - 1);
        if i < s.len() && s[i] == '=' {
            assert(s.drop_first()[i - 1] == s[i]);
        }
    }
}

impl KeyValuePair {
    /// Split `s` at its first `=`; fail when `s` holds none.
    pub fn from_str(s: &str) -> (r: Result<KeyValuePair, ParseError>)
        ensures
            r is Ok <==> kv_spec(s@) is Some,
            r matches Ok(p) ==> kv_spec(s@) == Some((p.k@, p.v@)),
            r matches Err(e) ==> (e matches ParseError::MissingDelimiter(t) && t@ == s@),
    {
        let n = s.unicode_len();
        let mut i: usize = 0;
        while i < n
            invariant
                n == s@.len(),
                i <= n,
                forall|j: int| 0 <= j < i ==> s@[j] != '=',
            decreases n - i,
        {
            if s.get_char(i) == '=' {
                proof {
                    lemma_first_eq_scan(s@, i as int);
                }
                let k = s.substring_char(0, i);
                let v = s.substring_char(i + 1, n);
                return Ok(KeyValuePair { k: k.to_owned(), v: v.to_owned() });
            }
            i = i + 1;
        }
        proof {
            lemma_first_eq_scan(s@, n as int);
        }
        Err(ParseError::MissingDelimiter(s.to_owned()))
    }
}

/// Parse one `key=value` token.
pub fn parse_kv_pair(s: &str) -> (r: Result<KeyValuePair, ParseError>)
    ensures
        r is Ok <==> kv_spec(s@) is Some,
        r matches Ok(p) ==> kv_spec(s@) == Some((p.k@, p.v@)),
        r matches Err(e) ==> (e matches ParseError::MissingDelimiter(t) && t@ == s@),
{
    KeyValuePair::from_str(s)
}

/// A token with no `=` anywhere is always rejected.
pub proof fn lemma_no_eq_fails(s: Seq<char>)
    requires
        forall|j: int| 0 <= j < s.len() ==> s[j] != '=',
    ensures
        kv_spec(s) is None,
{
    lemma_first_eq_scan(s, s.len() as int);
}

/// Joining a key and a value with `=`, neither holding `=` itself, parses
/// back to exactly that key and that value.
pub proof fn lemma_kv_round_trip(k: Seq<char>, v: Seq<char>)
    requires
        forall|j: int| 0 <= j < k.len() ==> k[j] != '=',
        forall|j: int| 0 <= j < v.len() ==> v[j] != '=',
    ensures
        kv_spec(k + seq!['='] + v) == Some((k, v)),
{
    let s = k + seq!['='] + v;
    assert(forall|j: int| 0 <= j < k.len() ==> s[j] != '=');
    assert(s[k.len() as int] == '=');
    lemma_first_eq_scan(s, k.len() as int);
    assert(s.take(k.len() as int) =~= k);
    assert(s.skip(k.len() as int + 1) =~= v);
}

} // verus!
