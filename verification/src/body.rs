//! Building a POST body from `key=value` pairs.
//!
//! The pairs are folded into a mapping: a key keeps the place of its first
//! occurrence, and when a key repeats, the last value wins. The mapping is
//! then encoded as a JSON object, keys in mapping order.

use vstd::prelude::*;
use crate::kv::KeyValuePair;

verus! {

/// The mathematical content of a pair: its key and its value.
pub open spec fn kv_model(p: KeyValuePair) -> (Seq<char>, Seq<char>) {
    (p.k@, p.v@)
}

/// The mathematical content of a sequence of pairs.
pub open spec fn pairs_model(s: Seq<KeyValuePair>) -> Seq<(Seq<char>, Seq<char>)> {
    s.map_values(|p: KeyValuePair| kv_model(p))
}

/// Whether some entry of `m` has key `k`.
pub open spec fn has_key(m: Seq<(Seq<char>, Seq<char>)>, k: Seq<char>) -> bool {
    exists|i: int| 0 <= i < m.len() && m[i].0 == k
}

/// Insert or overwrite: every entry with key `k` gets value `v`; an absent
/// key is appended at the end.
pub open spec fn upsert(
    m: Seq<(Seq<char>, Seq<char>)>,
    k: Seq<char>,
    v: Seq<char>,
) -> Seq<(Seq<char>, Seq<char>)> {
    if has_key(m, k) {
        Seq::new(m.len(), |i: int| if m[i].0 == k { (k, v) } else { m[i] })
    } else {
        m.push((k, v))
    }
}

/// Fold a sequence of pairs into a mapping: keys keep the place of their
/// first occurrence, and on a repeated key the last value wins.
pub open spec fn fold_pairs(s: Seq<(Seq<char>, Seq<char>)>) -> Seq<(Seq<char>, Seq<char>)>
    decreases s.len(),
{
    if s.len() == 0 {
        Seq::empty()
    } else {
        upsert(fold_pairs(s.drop_last()), s.last().0, s.last().1)
    }
}

/// No key occurs twice.
pub open spec fn unique_keys(m: Seq<(Seq<char>, Seq<char>)>) -> bool {
    forall|i: int, j: int| 0 <= i < j < m.len() ==> m[i].0 != m[j].0
}

/// The folded mapping never holds a key twice.
pub proof fn lemma_fold_pairs_unique(s: Seq<(Seq<char>, Seq<char>)>)
    ensures
        unique_keys(fold_pairs(s)),
    decreases s.len(),
{
    if s.len() != 0 {
        lemma_fold_pairs_unique(s.drop_last());
        let m = fold_pairs(s.drop_last());
        let k = s.last().0;
        let u = fold_pairs(s);
        if has_key(m, k) {
            assert(forall|i: int| 0 <= i < u.len() ==> u[i].0 == m[i].0);
        }
    }
}

/// The value `m` holds for key `k`.
pub open spec fn value_of(m: Seq<(Seq<char>, Seq<char>)>, k: Seq<char>) -> Seq<char>
    recommends
        has_key(m, k),
{
    m[choose|x: int| 0 <= x < m.len() && m[x].0 == k].1
}

/// Last write wins: when the pair at `i` is the last one that carries its
/// key, the folded mapping holds that key with exactly that pair's value.
pub proof fn lemma_fold_pairs_last_write(s: Seq<(Seq<char>, Seq<char>)>, i: int)
    requires
        0 <= i < s.len(),
        forall|j: int| i < j < s.len() ==> s[j].0 != s[i].0,
    ensures
        has_key(fold_pairs(s), s[i].0),
        value_of(fold_pairs(s), s[i].0) == s[i].1,
    decreases s.len(),
{
    let k = s[i].0;
    let v = s[i].1;
    let m = fold_pairs(s.drop_last());
    let u = fold_pairs(s);
    if i == s.len() - 1 {
        if has_key(m, k) {
            let w = choose|x: int| 0 <= x < m.len() && m[x].0 == k;
            assert(u[w].0 == k);
            assert(has_key(u, k));
            let cu = choose|x: int| 0 <= x < u.len() && u[x].0 == k;
            assert(m[cu].0 == k ==> u[cu].1 == v);
            assert(m[cu].0 != k ==> u[cu] == m[cu] && u[cu].0 != k);
            assert(value_of(u, k) == v);
        } else {
            assert(u[m.len() as int].0 == k);
            assert(has_key(u, k));
            let cu = choose|x: int| 0 <= x < u.len() && u[x].0 == k;
            if cu < m.len() {
                assert(m[cu].0 == k);
                assert(has_key(m, k));
            }
            assert(value_of(u, k) == v);
        }
    } else {
        assert(s[s.len() - 1].0 != k);
        assert(s.drop_last()[i] == s[i]);
        assert(forall|j: int| i < j < s.drop_last().len() ==> s.drop_last()[j].0 != k);
        lemma_fold_pairs_last_write(s.drop_last(), i);
        lemma_fold_pairs_unique(s.drop_last());
        let cm = choose|x: int| 0 <= x < m.len() && m[x].0 == k;
        assert(m[cm].1 == v);
        let kl = s.last().0;
        if has_key(m, kl) {
            assert(u[cm] == m[cm]);
            assert(has_key(u, k));
            let cu = choose|x: int| 0 <= x < u.len() && u[x].0 == k;
            assert(m[cu].0 == kl ==> u[cu].0 == kl);
            assert(u[cu] == m[cu]);
            assert(cu == cm);
            assert(value_of(u, k) == v);
        } else {
            assert(u[cm] == m[cm]);
            assert(has_key(u, k));
            let cu = choose|x: int| 0 <= x < u.len() && u[x].0 == k;
            assert(cu != m.len());
            assert(u[cu] == m[cu]);
            assert(cu == cm);
            assert(value_of(u, k) == v);
        }
    }
}

/// A key that no pair carries never enters the folded mapping.
pub proof fn lemma_fold_pairs_no_key(s: Seq<(Seq<char>, Seq<char>)>, k: Seq<char>)
    requires
        forall|j: int| 0 <= j < s.len() ==> s[j].0 != k,
    ensures
        !has_key(fold_pairs(s), k),
    decreases s.len(),
{
    if s.len() != 0 {
        lemma_fold_pairs_no_key(s.drop_last(), k);
        let m = fold_pairs(s.drop_last());
        let u = fold_pairs(s);
        if has_key(m, s.last().0) {
            assert(forall|x: int| 0 <= x < u.len() ==> u[x].0 == m[x].0);
        }
    }
}

/// Index of the entry that holds `key`, if the body has one.
fn find_key(body: &Vec<KeyValuePair>, key: &String) -> (r: Option<usize>)
    ensures
        r matches Some(i) ==> i < body@.len() && body@[i as int].k@ == key@,
        r is None ==> forall|i: int| 0 <= i < body@.len() ==> body@[i].k@ != key@,
{
    let mut i: usize = 0;
    while i < body.len()
        invariant
            i <= body@.len(),
            forall|j: int| 0 <= j < i ==> body@[j].k@ != key@,
        decreases body@.len() - i,
    {
        if body[i].k == *key {
            return Some(i);
        }
        i = i + 1;
    }
    None
}

/// Fold the pairs into a body mapping, last value winning on a repeated key.
pub fn build_body(pairs: &Vec<KeyValuePair>) -> (r: Vec<KeyValuePair>)
    ensures
        pairs_model(r@) == fold_pairs(pairs_model(pairs@)),
{
    let ghost full = pairs_model(pairs@);
    let mut body: Vec<KeyValuePair> = Vec::new();
    let mut j: usize = 0;
    proof {
        assert(full.take(0) =~= Seq::<(Seq<char>, Seq<char>)>::empty());
    }
    while j < pairs.len()
        invariant
            j <= pairs@.len(),
            full == pairs_model(pairs@),
            pairs_model(body@) == fold_pairs(full.take(j as int)),
        decreases pairs@.len() - j,
    {
        let ghost before = pairs_model(body@);
        proof {
            lemma_fold_pairs_unique(full.take(j as int));
        }
        let key = pairs[j].k.clone();
        let val = pairs[j].v.clone();
        let ghost kk = key@;
        let ghost vv = val@;
        let found = find_key(&body, &key);
        match found {
            Some(i) => {
                proof {
                    assert(before[i as int].0 == kk);
                    assert(has_key(before, kk));
                    assert(forall|x: int|
                        0 <= x < before.len() && x != i ==> before[x].0 != kk);
                }
                body.set(i, KeyValuePair { k: key, v: val });
                proof {
                    assert(pairs_model(body@) =~~= upsert(before, kk, vv));
                }
            },
            None => {
                proof {
                    assert(forall|x: int|
                        0 <= x < before.len() ==> before[x].0 == body@[x].k@);
                    assert(!has_key(before, kk));
                }
                body.push(KeyValuePair { k: key, v: val });
                proof {
                    assert(pairs_model(body@) =~~= upsert(before, kk, vv));
                }
            },
        }
        proof {
            assert(full.take(j as int + 1).drop_last() =~= full.take(j as int));
            assert(full.take(j as int + 1).last() == kv_model(pairs@[j as int]));
            assert(fold_pairs(full.take(j as int + 1)) == upsert(
                fold_pairs(full.take(j as int)),
                kk,
                vv,
            ));
        }
        j = j + 1;
    }
    proof {
        assert(full.take(pairs@.len() as int) =~= full);
    }
    body
}

/// Relies on std's `String::push`: it appends the given character to the
/// end of the string.
#[verifier::external_body]
pub(crate) fn push_char(s: &mut String, c: char)
    ensures
        final(s)@ == old(s)@ + seq![c],
{
    s.push(c);
}

/// The lower-case hexadecimal digit for `n`.
pub open spec fn hex_digit(n: int) -> char {
    if n == 0 {
        '0'
    } else if n == 1 {
        '1'
    } else if n == 2 {
        '2'
    } else if n == 3 {
        '3'
    } else if n == 4 {
        '4'
    } else if n == 5 {
        '5'
    } else if n == 6 {
        '6'
    } else if n == 7 {
        '7'
    } else if n == 8 {
        '8'
    } else if n == 9 {
        '9'
    } else if n == 10 {
        'a'
    } else if n == 11 {
        'b'
    } else if n == 12 {
        'c'
    } else if n == 13 {
        'd'
    } else if n == 14 {
        'e'
    } else {
        'f'
    }
}

fn hex_digit_exec(n: u32) -> (c: char)
    requires
        n < 16,
    ensures
        c == hex_digit(n as int),
{
    if n == 0 {
        '0'
    } else if n == 1 {
        '1'
    } else if n == 2 {
        '2'
    } else if n == 3 {
        '3'
    } else if n == 4 {
        '4'
    } else if n == 5 {
        '5'
    } else if n == 6 {
        '6'
    } else if n == 7 {
        '7'
    } else if n == 8 {
        '8'
    } else if n == 9 {
        '9'
    } else if n == 10 {
        'a'
    } else if n == 11 {
        'b'
    } else if n == 12 {
        'c'
    } else if n == 13 {
        'd'
    } else if n == 14 {
        'e'
    } else {
        'f'
    }
}

/// How one character appears inside a JSON string literal: quote, backslash
/// and the usual control characters get a two-character escape, the other
/// control characters a `\u00XX` escape, everything else stands as it is.
pub open spec fn json_escape_char(c: char) -> Seq<char> {
    if c == '"' {
        seq!['\\', '"']
    } else if c == '\\' {
        seq!['\\', '\\']
    } else if c == '\n' {
        seq!['\\', 'n']
    } else if c == '\r' {
        seq!['\\', 'r']
    } else if c == '\t' {
        seq!['\\', 't']
    } else if (c as u32) < 0x20 {
        seq!['\\', 'u', '0', '0', hex_digit((c as u32) as int / 16), hex_digit((c as u32) as int % 16)]
    } else {
        seq![c]
    }
}

/// A whole text, escaped for a JSON string literal.
pub open spec fn json_escape(s: Seq<char>) -> Seq<char>
    decreases s.len(),
{
    if s.len() == 0 {
        Seq::empty()
    } else {
        json_escape(s.drop_last()) + json_escape_char(s.last())
    }
}

/// A JSON string literal: the escaped text between double quotes.
pub open spec fn json_string(s: Seq<char>) -> Seq<char> {
    seq!['"'] + json_escape(s) + seq!['"']
}

/// One member of a JSON object: `"key":"value"`.
pub open spec fn json_entry(p: (Seq<char>, Seq<char>)) -> Seq<char> {
    json_string(p.0) + seq![':'] + json_string(p.1)
}

/// The members of a JSON object, joined by commas.
pub open spec fn json_entries(ps: Seq<(Seq<char>, Seq<char>)>) -> Seq<char>
    decreases ps.len(),
{
    if ps.len() == 0 {
        Seq::empty()
    } else if ps.len() == 1 {
        json_entry(ps[0])
    } else {
        json_entries(ps.drop_last()) + seq![','] + json_entry(ps.last())
    }
}

/// A JSON object over the given members, in order.
pub open spec fn json_object(ps: Seq<(Seq<char>, Seq<char>)>) -> Seq<char> {
    seq!['{'] + json_entries(ps) + seq!['}']
}

/// Append the JSON escape of `s` to `out`.
fn append_escaped(out: &mut String, s: &str)
    ensures
        final(out)@ == old(out)@ + json_escape(s@),
{
    let n = s.unicode_len();
    let mut i: usize = 0;
    proof {
        assert(s@.take(0) =~= Seq::<char>::empty());
    }
    while i < n
        invariant
            n == s@.len(),
            i <= n,
            out@ == old(out)@ + json_escape(s@.take(i as int)),
        decreases n - i,
    {
        let c = s.get_char(i);
        if c == '"' {
            push_char(out, '\\');
            push_char(out, '"');
        } else if c == '\\' {
            push_char(out, '\\');
            push_char(out, '\\');
        } else if c == '\n' {
            push_char(out, '\\');
            push_char(out, 'n');
        } else if c == '\r' {
            push_char(out, '\\');
            push_char(out, 'r');
        } else if c == '\t' {
            push_char(out, '\\');
            push_char(out, 't');
        } else {
            let u = c as u32;
            if u < 0x20 {
                push_char(out, '\\');
                push_char(out, 'u');
                push_char(out, '0');
                push_char(out, '0');
                push_char(out, hex_digit_exec(u / 16));
                push_char(out, hex_digit_exec(u % 16));
            } else {
                push_char(out, c);
            }
        }
        proof {
            assert(s@.take(i as int + 1).drop_last() =~= s@.take(i as int));
            assert(s@.take(i as int + 1).last() == s@[i as int]);
            assert(out@ =~= old(out)@ + json_escape(s@.take(i as int + 1)));
        }
        i = i + 1;
    }
    proof {
        assert(s@.take(n as int) =~= s@);
    }
}

/// Append the JSON string literal for `s` to `out`.
fn append_json_string(out: &mut String, s: &str)
    ensures
        final(out)@ == old(out)@ + json_string(s@),
{
    push_char(out, '"');
    append_escaped(out, s);
    push_char(out, '"');
    proof {
        assert(out@ =~= old(out)@ + json_string(s@));
    }
}

/// Encode the pairs as a JSON object, members in sequence order.
pub fn encode_json_object(pairs: &Vec<KeyValuePair>) -> (r: String)
    ensures
        r@ == json_object(pairs_model(pairs@)),
{
    let ghost full = pairs_model(pairs@);
    let mut out = String::new();
    push_char(&mut out, '{');
    let mut i: usize = 0;
    proof {
        assert(full.take(0) =~= Seq::<(Seq<char>, Seq<char>)>::empty());
        assert(out@ =~= seq!['{'] + json_entries(full.take(0)));
    }
    while i < pairs.len()
        invariant
            i <= pairs@.len(),
            full == pairs_model(pairs@),
            out@ == seq!['{'] + json_entries(full.take(i as int)),
        decreases pairs@.len() - i,
    {
        if i > 0 {
            push_char(&mut out, ',');
        }
        append_json_string(&mut out, pairs[i].k.as_str());
        push_char(&mut out, ':');
        append_json_string(&mut out, pairs[i].v.as_str());
        proof {
            assert(full.take(i as int + 1).drop_last() =~= full.take(i as int));
            assert(full.take(i as int + 1).last() == kv_model(pairs@[i as int]));
            assert(out@ =~= seq!['{'] + json_entries(full.take(i as int + 1)));
        }
        i = i + 1;
    }
    push_char(&mut out, '}');
    proof {
        assert(full.take(pairs@.len() as int) =~= full);
        assert(out@ =~= json_object(full));
    }
    out
}

/// The JSON body a POST request carries: the pairs folded (last value wins
/// on a repeated key) and encoded as a JSON object.
pub open spec fn body_json(pairs: Seq<KeyValuePair>) -> Seq<char> {
    json_object(fold_pairs(pairs_model(pairs)))
}

/// Fold the pairs and encode the resulting mapping as JSON.
pub fn encode_body(pairs: &Vec<KeyValuePair>) -> (r: String)
    ensures
        r@ == body_json(pairs@),
{
    let folded = build_body(pairs);
    encode_json_object(&folded)
}

} // verus!
