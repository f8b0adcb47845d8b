//! The single local callback request and the authorize URL.
//!
//! The setup flow opens a one-shot local HTTP endpoint, shows the
//! operator an authorize URL, and waits for exactly one redirect
//! request.  Everything the request decides is here: the query string
//! is parsed, the `code` parameter extracted, and the response chosen.
//! Binding the port, waiting and answering stay with the caller.

use vstd::prelude::*;
use vstd::string::*;
use vstd::slice::slice_subrange;

use crate::encoding::{form_decode, form_decode_exec, fragment_encode, append_fragment_encoded};
use crate::errors::SetupError;
use crate::text::{str_to_chars, chars_to_string, find_char, lemma_find_char_bounds, find_char_exec};

verus! {

/// The fixed loopback address the callback listener binds.
pub fn local_server_host() -> (r: &'static str)
    ensures
        r@ == "127.0.0.1:8000"@,
{
    "127.0.0.1:8000"
}

/// One `key=value` piece of a query string, both sides form-decoded; a
/// piece without `=` is a key with an empty value.
pub open spec fn parse_pair(p: Seq<char>) -> (Seq<char>, Seq<char>) {
    let eq = find_char(p, 0, '=');
    if eq == p.len() {
        (form_decode(p), Seq::empty())
    } else {
        (form_decode(p.subrange(0, eq)), form_decode(p.subrange(eq + 1, p.len() as int)))
    }
}

/// The decoded pairs of the query text from position `i` on, split at
/// every `&`.
pub open spec fn query_pairs_from(s: Seq<char>, i: int) -> Seq<(Seq<char>, Seq<char>)>
    decreases s.len() - i,
    when 0 <= i <= s.len()
    via query_pairs_from_decreases
{
    if i >= s.len() {
        Seq::empty()
    } else {
        let amp = find_char(s, i, '&');
        let pair = parse_pair(s.subrange(i, amp));
        if amp == s.len() {
            seq![pair]
        } else {
            seq![pair] + query_pairs_from(s, amp + 1)
        }
    }
}

#[via_fn]
proof fn query_pairs_from_decreases(s: Seq<char>, i: int) {
    if 0 <= i < s.len() {
        lemma_find_char_bounds(s, i, '&');
    }
}

/// The value of the last pair whose key is `k`.
pub open spec fn last_pair_value(ps: Seq<(Seq<char>, Seq<char>)>, k: Seq<char>) -> Option<
    Seq<char>,
>
    decreases ps.len(),
{
    if ps.len() == 0 {
        None
    } else if ps.last().0 == k {
        Some(ps.last().1)
    } else {
        last_pair_value(ps.drop_last(), k)
    }
}

/// The authorization code carried by a request URL: the value of the
/// last `code` parameter after the first `?`, if there is one.
pub open spec fn spec_code_of(url: Seq<char>) -> Option<Seq<char>> {
    let q = find_char(url, 0, '?');
    if q == url.len() {
        None
    } else {
        last_pair_value(query_pairs_from(url, q + 1), "code"@)
    }
}

fn parse_pair_exec(p: &[char]) -> (r: (Vec<char>, Vec<char>))
    ensures
        r.0@ == parse_pair(p@).0,
        r.1@ == parse_pair(p@).1,
{
    let eq = find_char_exec(p, 0, '=');
    if eq == p.len() {
        (form_decode_exec(p, 0), Vec::new())
    } else {
        let key = slice_subrange(p, 0, eq);
        let val = slice_subrange(p, eq + 1, p.len());
        (form_decode_exec(key, 0), form_decode_exec(val, 0))
    }
}

/// The specification-level contents of decoded pairs.
pub open spec fn query_pairs_view(ps: Seq<(Vec<char>, Vec<char>)>) -> Seq<(Seq<char>, Seq<char>)> {
    ps.map(|j: int, p: (Vec<char>, Vec<char>)| (p.0@, p.1@))
}

fn query_pairs_exec(s: &[char], i: usize) -> (r: Vec<(Vec<char>, Vec<char>)>)
    requires
        i <= s@.len(),
    ensures
        query_pairs_view(r@) == query_pairs_from(s@, i as int),
    decreases s@.len() - i,
{
    if i >= s.len() {
        let r: Vec<(Vec<char>, Vec<char>)> = Vec::new();
        assert(query_pairs_view(r@) =~= query_pairs_from(s@, i as int));
        r
    } else {
        let amp = find_char_exec(s, i, '&');
        let piece = slice_subrange(s, i, amp);
        let pair = parse_pair_exec(piece);
        if amp == s.len() {
            let mut r: Vec<(Vec<char>, Vec<char>)> = Vec::new();
            r.push(pair);
            assert(query_pairs_view(r@) =~= query_pairs_from(s@, i as int));
            r
        } else {
            let mut r = query_pairs_exec(s, amp + 1);
            r.insert(0, pair);
            assert(r@ =~= seq![r@[0]] + r@.drop_first());
            assert(query_pairs_view(r@) =~= seq![(r@[0].0@, r@[0].1@)] + query_pairs_view(
                r@.drop_first(),
            ));
            assert(query_pairs_view(r@) =~= query_pairs_from(s@, i as int));
            r
        }
    }
}

/// The authorization code of a request URL, exactly as
/// [`spec_code_of`] describes.
pub fn code_of(url: &str) -> (r: Option<String>)
    ensures
        (match spec_code_of(url@) {
            Some(c) => r matches Some(x) && x@ == c,
            None => r is None,
        }),
{
    let chars = str_to_chars(url);
    let sl = chars.as_slice();
    let q = find_char_exec(sl, 0, '?');
    if q == sl.len() {
        None
    } else {
        let pairs = query_pairs_exec(sl, q + 1);
        let ghost ps = query_pairs_view(pairs@);
        proof {
            assert(ps.take(pairs@.len() as int) =~= ps);
        }
        let mut idx: usize = pairs.len();
        while idx > 0
            invariant
                idx <= pairs@.len(),
                ps == query_pairs_view(pairs@),
                spec_code_of(url@) == last_pair_value(ps, "code"@),
                last_pair_value(ps, "code"@) == last_pair_value(ps.take(idx as int), "code"@),
            decreases idx,
        {
            idx = idx - 1;
            proof {
                assert(ps[idx as int] == (pairs@[idx as int].0@, pairs@[idx as int].1@));
                assert(ps.take(idx as int + 1).last() == ps[idx as int]);
                assert(ps.take(idx as int + 1).drop_last() =~= ps.take(idx as int));
            }
            if crate::text::chars_eq_str(pairs[idx].0.as_slice(), "code") {
                return Some(chars_to_string(pairs[idx].1.as_slice()));
            }
        }
        proof {
            assert(ps.take(0) =~= Seq::<(Seq<char>, Seq<char>)>::empty());
        }
        None
    }
}

/// The page shown when the redirect carried a code.
pub fn success_page() -> (r: String)
    ensures
        r@ == "Halcyon now authenticated to Home Assistant. You can close this page now."@,
{
    String::from_str("Halcyon now authenticated to Home Assistant. You can close this page now.")
}

/// The page shown when the redirect carried no code.
pub fn failure_page() -> (r: String)
    ensures
        r@ == "Something went wrong with authenticating Halcyon with Home Assistant"@,
{
    String::from_str("Something went wrong with authenticating Halcyon with Home Assistant")
}

/// Everything the single callback request decides: the status and body
/// to answer with, and the extracted code or the error to surface.
pub struct CallbackOutcome {
    pub status: u16,
    pub body: String,
    pub code: Result<String, SetupError>,
}

/// Decides the answer to the one callback request.  A request whose
/// query carries a `code` parameter is answered 200 with the success
/// page and yields the code; any other request is answered 500 with the
/// failure page and yields `MissingCode`.
pub fn handle_callback_request(url: &str) -> (r: CallbackOutcome)
    ensures
        (match spec_code_of(url@) {
            Some(c) => {
                &&& r.status == 200
                &&& r.body@ == "Halcyon now authenticated to Home Assistant. You can close this page now."@
                &&& r.code matches Ok(x) && x@ == c
            },
            None => {
                &&& r.status == 500
                &&& r.body@ == "Something went wrong with authenticating Halcyon with Home Assistant"@
                &&& r.code matches Err(e) && e == SetupError::MissingCode
            },
        }),
{
    match code_of(url) {
        Some(c) => CallbackOutcome { status: 200, body: success_page(), code: Ok(c) },
        None => CallbackOutcome {
            status: 500,
            body: failure_page(),
            code: Err(SetupError::MissingCode),
        },
    }
}

/// The query the authorize URL carries, before encoding.
pub open spec fn spec_authorize_query(client_id: Seq<char>) -> Seq<char> {
    "client_id="@ + client_id + "&redirect_uri=http://"@ + "127.0.0.1:8000"@ + "/callback"@
}

/// The browser-facing authorize URL: the hub's authorize endpoint with
/// the client id and the fixed local redirect URI, percent-encoded.
pub open spec fn spec_authorize_url(host: Seq<char>, client_id: Seq<char>) -> Seq<char> {
    "http://"@ + host + "/auth/authorize?"@ + fragment_encode(spec_authorize_query(client_id))
}

/// Builds the authorize URL, exactly as [`spec_authorize_url`] states
/// it.
pub fn build_authorize_url(host: &str, client_id: &str) -> (r: String)
    ensures
        r@ == spec_authorize_url(host@, client_id@),
{
    let mut query = String::from_str("client_id=");
    query.append(client_id);
    query.append("&redirect_uri=http://");
    query.append(local_server_host());
    query.append("/callback");
    let mut r = String::from_str("http://");
    r.append(host);
    r.append("/auth/authorize?");
    append_fragment_encoded(&mut r, query.as_str());
    r
}

} // verus!
