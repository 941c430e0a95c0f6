//! Pieces shared by the HTTP front ends: request methods, query strings,
//! percent-decoded path segments and JSON message bodies.

use vstd::prelude::*;

verus! {

/// The HTTP method of a request, as far as routing tells them apart.
#[derive(Clone, Copy, Debug, PartialEq, Eq, Structural)]
pub enum Method {
    Get,
    Post,
    Put,
    Other,
}

/// The name/value pairs `url::form_urlencoded::parse` reads from the
/// UTF-8 bytes of a query string, in order.
pub uninterp spec fn form_pairs_of(query: Seq<char>) -> Seq<(Seq<char>, Seq<char>)>;

/// The text `percent_decode(..).decode_utf8()` gives for the UTF-8 bytes of
/// a path segment, or `None` when the decoded bytes are not UTF-8.
pub uninterp spec fn percent_decoded(segment: Seq<char>) -> Option<Seq<char>>;

/// The JSON string literal serde_json writes for a text.
pub uninterp spec fn json_quoted(s: Seq<char>) -> Seq<char>;

/// The name/value pairs of a list, as plain sequences.
pub open spec fn pairs_view(v: Seq<(String, String)>) -> Seq<(Seq<char>, Seq<char>)> {
    v.map_values(|p: (String, String)| (p.0@, p.1@))
}

/// Calls `url::form_urlencoded::parse` on a query string and collects the
/// owned pairs; they are named `form_pairs_of` of the query's bytes.
#[verifier::external_body]
pub(crate) fn form_pairs(query: &str) -> (r: Vec<(String, String)>)
    ensures
        pairs_view(r@) == form_pairs_of(query@),
{
    url::form_urlencoded::parse(query.as_bytes()).into_owned().collect()
}

/// Calls `url::percent_encoding::percent_decode(..).decode_utf8()` on a
/// path segment; the result is named `percent_decoded` of its bytes.
#[verifier::external_body]
pub(crate) fn percent_decode_utf8(segment: &str) -> (r: Option<String>)
    ensures
        match r {
            Some(s) => percent_decoded(segment@) == Some(s@),
            None => percent_decoded(segment@) is None,
        },
{
    match url::percent_encoding::percent_decode(segment.as_bytes()).decode_utf8() {
        Ok(s) => Some(s.into_owned()),
        Err(_) => None,
    }
}

/// Calls `serde_json::Value::String(..).to_string()`: the JSON string
/// literal of a text, named `json_quoted` of it.
#[verifier::external_body]
pub(crate) fn json_quote(s: &str) -> (r: String)
    ensures
        r@ == json_quoted(s@),
{
    serde_json::Value::String(s.to_string()).to_string()
}

/// The JSON body `{"message":...}` that error responses carry.
pub open spec fn message_body_spec(message: Seq<char>) -> Seq<char> {
    "{\"message\":"@ + json_quoted(message) + "}"@
}

/// The JSON body `{"message":...}` for a message.
pub fn message_body(message: &str) -> (r: String)
    ensures
        r@ == message_body_spec(message@),
{
    let q = json_quote(message);
    let mut r = String::from_str("{\"message\":");
    r.append(q.as_str());
    r.append("}");
    r
}

/// The value of the last pair named `key`, as a map built from the pairs
/// keeps it.
pub open spec fn lookup_spec(pairs: Seq<(Seq<char>, Seq<char>)>, key: Seq<char>) -> Option<Seq<char>>
    decreases pairs.len(),
{
    if pairs.len() == 0 {
        None
    } else if pairs.last().0 == key {
        Some(pairs.last().1)
    } else {
        lookup_spec(pairs.drop_last(), key)
    }
}

/// The value a map built from the pairs keeps for `key`: that of the last
/// pair with that name.
pub fn lookup(pairs: &Vec<(String, String)>, key: &str) -> (r: Option<String>)
    ensures
        match r {
            Some(v) => lookup_spec(pairs_view(pairs@), key@) == Some(v@),
            None => lookup_spec(pairs_view(pairs@), key@) is None,
        },
{
    let mut i = pairs.len();
    assert(pairs_view(pairs@).take(i as int) =~= pairs_view(pairs@));
    while i > 0
        invariant
            i <= pairs@.len(),
            lookup_spec(pairs_view(pairs@), key@) == lookup_spec(pairs_view(pairs@).take(i as int), key@),
        decreases i,
    {
        let ghost t = pairs_view(pairs@).take(i as int);
        assert(t.last() == (pairs@[i - 1].0@, pairs@[i - 1].1@));
        if crate::text::str_eq(pairs[i - 1].0.as_str(), key) {
            return Some(pairs[i - 1].1.clone());
        }
        assert(t.drop_last() =~= pairs_view(pairs@).take(i - 1));
        i = i - 1;
    }
    None
}

/// The names of the pairs.
pub open spec fn keys_of(pairs: Seq<(Seq<char>, Seq<char>)>) -> Set<Seq<char>> {
    pairs.map_values(|p: (Seq<char>, Seq<char>)| p.0).to_set()
}

/// Whether some pair is named `key`.
fn has_key(pairs: &Vec<(String, String)>, key: &str) -> (r: bool)
    ensures
        r == keys_of(pairs_view(pairs@)).contains(key@),
{
    let ghost ks = pairs_view(pairs@).map_values(|p: (Seq<char>, Seq<char>)| p.0);
    let mut i: usize = 0;
    while i < pairs.len()
        invariant
            i <= pairs@.len(),
            ks == pairs_view(pairs@).map_values(|p: (Seq<char>, Seq<char>)| p.0),
            forall|j: int| 0 <= j < i ==> ks[j] != key@,
        decreases pairs@.len() - i,
    {
        if crate::text::str_eq(pairs[i].0.as_str(), key) {
            assert(ks[i as int] == key@);
            assert(ks.to_set().contains(key@));
            return true;
        }
        i = i + 1;
    }
    proof {
        if ks.to_set().contains(key@) {
            let j = choose|j: int| 0 <= j < ks.len() && ks[j] == key@;
            assert(ks[j] != key@);
        }
    }
    false
}

/// Whether the names of the pairs are exactly the given ones.
pub fn keys_are(pairs: &Vec<(String, String)>, expected: &Vec<&str>) -> (r: bool)
    ensures
        r == (keys_of(pairs_view(pairs@)) == expected@.map_values(|k: &str| k@).to_set()),
{
    let ghost ks = pairs_view(pairs@).map_values(|p: (Seq<char>, Seq<char>)| p.0);
    let ghost es = expected@.map_values(|k: &str| k@);
    let mut i: usize = 0;
    while i < pairs.len()
        invariant
            i <= pairs@.len(),
            ks == pairs_view(pairs@).map_values(|p: (Seq<char>, Seq<char>)| p.0),
            es == expected@.map_values(|k: &str| k@),
            forall|j: int| 0 <= j < i ==> es.contains(#[trigger] ks[j]),
        decreases pairs@.len() - i,
    {
        let mut found = false;
        let mut k: usize = 0;
        while k < expected.len()
            invariant
                i < pairs@.len(),
                k <= expected@.len(),
                es == expected@.map_values(|k: &str| k@),
                found == exists|m: int| 0 <= m < k && #[trigger] es[m] == pairs@[i as int].0@,
            decreases expected@.len() - k,
        {
            let hit = crate::text::str_eq(pairs[i].0.as_str(), expected[k]);
            proof {
                assert(es[k as int] == expected@[k as int]@);
                if !hit {
                    if exists|m: int| 0 <= m < k + 1 && #[trigger] es[m] == pairs@[i as int].0@ {
                        let m = choose|m: int| 0 <= m < k + 1 && #[trigger] es[m] == pairs@[i as int].0@;
                        assert(m != k);
                    }
                }
            }
            if hit {
                found = true;
            }
            k = k + 1;
        }
        if !found {
            proof {
                assert(ks[i as int] == pairs@[i as int].0@);
                assert(!es.contains(ks[i as int]));
                assert(ks.to_set().contains(ks[i as int]));
                assert(!es.to_set().contains(ks[i as int]));
            }
            return false;
        }
        i = i + 1;
    }
    let mut k: usize = 0;
    while k < expected.len()
        invariant
            k <= expected@.len(),
            ks == pairs_view(pairs@).map_values(|p: (Seq<char>, Seq<char>)| p.0),
            es == expected@.map_values(|k: &str| k@),
            forall|j: int| 0 <= j < pairs@.len() ==> es.contains(#[trigger] ks[j]),
            forall|m: int| 0 <= m < k ==> ks.contains(#[trigger] es[m]),
        decreases expected@.len() - k,
    {
        if !has_key(pairs, expected[k]) {
            proof {
                assert(es.to_set().contains(es[k as int]));
                assert(!ks.to_set().contains(es[k as int]));
            }
            return false;
        }
        proof {
            assert(ks.to_set().contains(expected@[k as int]@));
        }
        k = k + 1;
    }
    proof {
        assert forall|x: Seq<char>| ks.to_set().contains(x) == es.to_set().contains(x) by {
            if ks.to_set().contains(x) {
                let j = choose|j: int| 0 <= j < ks.len() && ks[j] == x;
                assert(es.contains(ks[j]));
            }
            if es.to_set().contains(x) {
                let m = choose|m: int| 0 <= m < es.len() && es[m] == x;
                assert(ks.contains(es[m]));
            }
        }
        assert(ks.to_set() =~= es.to_set());
    }
    true
}

} // verus!
