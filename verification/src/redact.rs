//! Credentials kept out of recorded traffic: the headers and body fields
//! that carry an API key are removed before a request is written to a trace.

use vstd::prelude::*;

use crate::numbers::{map_ascii_case, to_ascii_lower};
use crate::str_map::{key_set, StrMap};
use crate::text::str_eq;

verus! {

/// A header carrying a credential: its name, with ASCII letters lower-cased,
/// is `authorization`, or, when `api_key` holds, `x-api-key`.
pub open spec fn auth_header(name: Seq<char>, api_key: bool) -> bool {
    ||| to_ascii_lower(name) == "authorization"@
    ||| api_key && to_ascii_lower(name) == "x-api-key"@
}

/// The names of the credential headers, as a set.
pub open spec fn auth_headers(api_key: bool) -> Set<Seq<char>> {
    Set::new(|k: Seq<char>| auth_header(k, api_key))
}

/// The body fields that carry a credential in an Anthropic request.
pub open spec fn anthropic_auth_fields() -> Set<Seq<char>> {
    set!["authorization"@, "Authorization"@, "x-api-key"@, "X-Api-Key"@]
}

/// The body fields that carry a credential in an OpenAI request.
pub open spec fn openai_auth_fields() -> Set<Seq<char>> {
    set!["authorization"@, "Authorization"@]
}

/// Removes the credential headers from `headers`.
fn strip_headers<V>(headers: &mut StrMap<V>, api_key: bool)
    ensures
        final(headers).map_view() == old(headers).map_view().remove_keys(auth_headers(api_key)),
{
    let keys = headers.keys();
    let mut doomed: Vec<String> = Vec::new();
    let n = keys.len();
    for i in 0..n
        invariant
            n == keys@.len(),
            forall|j: int| 0 <= j < doomed@.len() ==> auth_header((#[trigger] doomed@[j])@, api_key),
            forall|j: int| 0 <= j < i && auth_header((#[trigger] keys@[j])@, api_key) ==> key_set(doomed@).contains(keys@[j]@),
    {
        let lower = map_ascii_case(keys[i].as_str(), false);
        if str_eq(lower.as_str(), "authorization") || (api_key && str_eq(lower.as_str(), "x-api-key")) {
            let ghost before = doomed@;
            doomed.push(keys[i].clone());
            proof {
                assert(doomed@[before.len() as int]@ == keys@[i as int]@);
                assert forall|j: int| 0 <= j <= i && auth_header((#[trigger] keys@[j])@, api_key) implies key_set(
                    doomed@,
                ).contains(keys@[j]@) by {
                    if j < i {
                        let w = choose|w: int| 0 <= w < before.len() && (#[trigger] before[w])@ == keys@[j]@;
                        assert(doomed@[w] == before[w]);
                    } else {
                        assert(doomed@[before.len() as int]@ == keys@[j]@);
                    }
                }
            }
        }
    }
    let ghost old_map = headers.map_view();
    headers.remove_all(&doomed);
    proof {
        assert forall|k: Seq<char>| old_map.dom().contains(k) implies (key_set(doomed@).contains(k)
            == auth_headers(api_key).contains(k)) by {
            if key_set(doomed@).contains(k) {
                let w = choose|w: int| 0 <= w < doomed@.len() && (#[trigger] doomed@[w])@ == k;
                assert(auth_header(doomed@[w]@, api_key));
            }
            if auth_header(k, api_key) {
                assert(key_set(keys@).contains(k));
                let j = choose|j: int| 0 <= j < keys@.len() && (#[trigger] keys@[j])@ == k;
                assert(auth_header(keys@[j]@, api_key));
            }
        }
        assert(old_map.remove_keys(key_set(doomed@)) =~= old_map.remove_keys(auth_headers(api_key)));
    }
}

/// Removes the fields named in `names` from `body`.
fn strip_fields<V>(body: &mut StrMap<V>, names: Vec<String>)
    ensures
        final(body).map_view() == old(body).map_view().remove_keys(key_set(names@)),
{
    body.remove_all(&names);
}

/// Anthropic request headers without `authorization` and `x-api-key`, in
/// any letter case.
pub fn strip_auth_from_headers<V>(headers: StrMap<V>) -> (r: StrMap<V>)
    ensures
        r.map_view() == headers.map_view().remove_keys(auth_headers(true)),
{
    let mut h = headers;
    strip_headers(&mut h, true);
    h
}

/// OpenAI request headers without `authorization`, in any letter case.
pub fn strip_auth_headers<V>(headers: StrMap<V>) -> (r: StrMap<V>)
    ensures
        r.map_view() == headers.map_view().remove_keys(auth_headers(false)),
{
    let mut h = headers;
    strip_headers(&mut h, false);
    h
}

/// An Anthropic request body without its `authorization`,
/// `Authorization`, `x-api-key` and `X-Api-Key` fields.
pub fn strip_auth_from_value<V>(body: StrMap<V>) -> (r: StrMap<V>)
    ensures
        r.map_view() == body.map_view().remove_keys(anthropic_auth_fields()),
{
    let mut b = body;
    let names: Vec<String> = vec![
        String::from_str("authorization"),
        String::from_str("Authorization"),
        String::from_str("x-api-key"),
        String::from_str("X-Api-Key"),
    ];
    proof {
        assert(key_set(names@) =~= anthropic_auth_fields()) by {
            assert(names@[0]@ == "authorization"@);
            assert(names@[1]@ == "Authorization"@);
            assert(names@[2]@ == "x-api-key"@);
            assert(names@[3]@ == "X-Api-Key"@);
        }
    }
    strip_fields(&mut b, names);
    b
}

/// An OpenAI request body without its `authorization` and `Authorization`
/// fields.
pub fn strip_auth_from_body<V>(body: StrMap<V>) -> (r: StrMap<V>)
    ensures
        r.map_view() == body.map_view().remove_keys(openai_auth_fields()),
{
    let mut b = body;
    let names: Vec<String> = vec![String::from_str("authorization"), String::from_str("Authorization")];
    proof {
        assert(key_set(names@) =~= openai_auth_fields()) by {
            assert(names@[0]@ == "authorization"@);
            assert(names@[1]@ == "Authorization"@);
        }
    }
    strip_fields(&mut b, names);
    b
}

} // verus!
