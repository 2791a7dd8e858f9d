//! The captured data: a snapshot of an outgoing request, a snapshot of the
//! response that eventually answered it, and the entry pairing the two under
//! one correlation key. Header and cookie mappings are association lists of
//! name/value pairs. Every snapshot can be rendered as the JSON text its
//! spec function describes.

use vstd::prelude::*;
use vstd::string::*;
use crate::json::{
    append_dec, append_quoted, lemma_join_first, lemma_join_rest_skip, spec_dec, spec_join,
    spec_join_rest, spec_quoted,
};
use crate::text::string_push;

verus! {

/// One request as it left the client: method, full URL, headers, the body
/// when it was a fully buffered byte sequence, the cookies the jar resolved
/// for that URL at send time, and the timestamp of the send.
pub struct RequestData {
    pub method: String,
    pub endpoint: String,
    pub headers: Vec<(String, String)>,
    pub body: Option<String>,
    pub cookies: Vec<(String, String)>,
    pub request_time: String,
}

/// One response as the transport delivered it: status, headers, the body
/// (empty when the policy left it unread), the raw `Set-Cookie` values in
/// arrival order, the timestamp of the arrival, and the elapsed time of the
/// transport call in milliseconds.
pub struct ResponseData {
    pub status: u16,
    pub headers: Vec<(String, String)>,
    pub body: String,
    pub set_cookies: Vec<String>,
    pub response_time: String,
    pub duration_ms: u64,
}

/// One capture entry: the request snapshot, the response snapshot once the
/// call completed, the error message when it failed instead, and a dump of
/// the whole cookie jar taken just after the outcome was recorded.
pub struct RequestResponseData {
    pub request_data: RequestData,
    pub response_data: Option<ResponseData>,
    pub error: Option<String>,
    pub cookies: Option<String>,
}

pub ghost struct RequestDataV {
    pub method: Seq<char>,
    pub endpoint: Seq<char>,
    pub headers: Seq<(Seq<char>, Seq<char>)>,
    pub body: Option<Seq<char>>,
    pub cookies: Seq<(Seq<char>, Seq<char>)>,
    pub request_time: Seq<char>,
}

pub ghost struct ResponseDataV {
    pub status: int,
    pub headers: Seq<(Seq<char>, Seq<char>)>,
    pub body: Seq<char>,
    pub set_cookies: Seq<Seq<char>>,
    pub response_time: Seq<char>,
    pub duration_ms: int,
}

pub ghost struct RequestResponseDataV {
    pub request_data: RequestDataV,
    pub response_data: Option<ResponseDataV>,
    pub error: Option<Seq<char>>,
    pub cookies: Option<Seq<char>>,
}

pub open spec fn pairs_view(v: Seq<(String, String)>) -> Seq<(Seq<char>, Seq<char>)> {
    v.map_values(|p: (String, String)| (p.0@, p.1@))
}

pub open spec fn strs_view(v: Seq<String>) -> Seq<Seq<char>> {
    v.map_values(|s: String| s@)
}

pub open spec fn opt_view(o: Option<String>) -> Option<Seq<char>> {
    match o {
        Option::Some(s) => Option::Some(s@),
        Option::None => Option::None,
    }
}

impl View for RequestData {
    type V = RequestDataV;

    open spec fn view(&self) -> RequestDataV {
        RequestDataV {
            method: self.method@,
            endpoint: self.endpoint@,
            headers: pairs_view(self.headers@),
            body: opt_view(self.body),
            cookies: pairs_view(self.cookies@),
            request_time: self.request_time@,
        }
    }
}

impl View for ResponseData {
    type V = ResponseDataV;

    open spec fn view(&self) -> ResponseDataV {
        ResponseDataV {
            status: self.status as int,
            headers: pairs_view(self.headers@),
            body: self.body@,
            set_cookies: strs_view(self.set_cookies@),
            response_time: self.response_time@,
            duration_ms: self.duration_ms as int,
        }
    }
}

impl View for RequestResponseData {
    type V = RequestResponseDataV;

    open spec fn view(&self) -> RequestResponseDataV {
        RequestResponseDataV {
            request_data: self.request_data@,
            response_data: match self.response_data {
                Option::Some(r) => Option::Some(r@),
                Option::None => Option::None,
            },
            error: opt_view(self.error),
            cookies: opt_view(self.cookies),
        }
    }
}

/// Copy an association list of name/value pairs.
pub fn clone_pairs(v: &Vec<(String, String)>) -> (r: Vec<(String, String)>)
    ensures
        r@ == v@,
{
    let mut r: Vec<(String, String)> = Vec::new();
    let n = v.len();
    for i in 0..n
        invariant
            n == v@.len(),
            r@ =~= v@.take(i as int),
    {
        r.push((v[i].0.clone(), v[i].1.clone()));
        assert(r@ =~= v@.take(i as int + 1));
    }
    assert(v@.take(n as int) =~= v@);
    r
}

/// Copy a list of strings.
pub fn clone_strs(v: &Vec<String>) -> (r: Vec<String>)
    ensures
        r@ == v@,
{
    let mut r: Vec<String> = Vec::new();
    let n = v.len();
    for i in 0..n
        invariant
            n == v@.len(),
            r@ =~= v@.take(i as int),
    {
        r.push(v[i].clone());
        assert(r@ =~= v@.take(i as int + 1));
    }
    assert(v@.take(n as int) =~= v@);
    r
}

/// Copy an optional string.
pub fn clone_opt(o: &Option<String>) -> (r: Option<String>)
    ensures
        r == *o,
{
    match o {
        Option::Some(s) => Option::Some(s.clone()),
        Option::None => Option::None,
    }
}

impl Clone for RequestData {
    fn clone(&self) -> (res: Self)
        ensures
            res@ == self@,
    {
        RequestData {
            method: self.method.clone(),
            endpoint: self.endpoint.clone(),
            headers: clone_pairs(&self.headers),
            body: clone_opt(&self.body),
            cookies: clone_pairs(&self.cookies),
            request_time: self.request_time.clone(),
        }
    }
}

impl Clone for ResponseData {
    fn clone(&self) -> (res: Self)
        ensures
            res@ == self@,
    {
        ResponseData {
            status: self.status,
            headers: clone_pairs(&self.headers),
            body: self.body.clone(),
            set_cookies: clone_strs(&self.set_cookies),
            response_time: self.response_time.clone(),
            duration_ms: self.duration_ms,
        }
    }
}

impl Clone for RequestResponseData {
    fn clone(&self) -> (res: Self)
        ensures
            res@ == self@,
    {
        RequestResponseData {
            request_data: self.request_data.clone(),
            response_data: match &self.response_data {
                Option::Some(r) => Option::Some(r.clone()),
                Option::None => Option::None,
            },
            error: clone_opt(&self.error),
            cookies: clone_opt(&self.cookies),
        }
    }
}

/// One `"name":"value"` member of a JSON object.
pub open spec fn spec_member(p: (Seq<char>, Seq<char>)) -> Seq<char> {
    spec_quoted(p.0) + seq![':'] + spec_quoted(p.1)
}

pub open spec fn members_of(pairs: Seq<(Seq<char>, Seq<char>)>) -> Seq<Seq<char>> {
    pairs.map_values(|p: (Seq<char>, Seq<char>)| spec_member(p))
}

/// A JSON object of string-valued members, in list order.
pub open spec fn spec_pairs_obj(pairs: Seq<(Seq<char>, Seq<char>)>) -> Seq<char> {
    seq!['{'] + spec_join(members_of(pairs)) + seq!['}']
}

pub open spec fn quoted_all(elems: Seq<Seq<char>>) -> Seq<Seq<char>> {
    elems.map_values(|s: Seq<char>| spec_quoted(s))
}

/// A JSON array of string literals, in list order.
pub open spec fn spec_str_arr(elems: Seq<Seq<char>>) -> Seq<char> {
    seq!['['] + spec_join(quoted_all(elems)) + seq![']']
}

/// An optional string: `null` when absent, a string literal when present.
pub open spec fn spec_opt_str(o: Option<Seq<char>>) -> Seq<char> {
    match o {
        Option::Some(s) => spec_quoted(s),
        Option::None => "null"@,
    }
}

/// Append a JSON object holding the name/value pairs of `v` in order.
pub fn append_pairs_obj(out: &mut String, v: &Vec<(String, String)>)
    ensures
        final(out)@ == old(out)@ + spec_pairs_obj(pairs_view(v@)),
{
    let ghost m: Seq<Seq<char>> = members_of(pairs_view(v@));
    string_push(out, '{');
    let n = v.len();
    for i in 0..n
        invariant
            n == v@.len(),
            m == members_of(pairs_view(v@)),
            m.len() == n,
            i == 0 ==> out@ =~= old(out)@ + seq!['{'],
            i > 0 ==> out@ + spec_join_rest(m.skip(i as int)) =~= old(out)@ + seq!['{']
                + spec_join(m),
    {
        if i > 0 {
            string_push(out, ',');
        }
        append_quoted(out, v[i].0.as_str());
        string_push(out, ':');
        append_quoted(out, v[i].1.as_str());
        proof {
            assert(m[i as int] == spec_member((v@[i as int].0@, v@[i as int].1@)));
            if i == 0 {
                lemma_join_first(m);
            } else {
                lemma_join_rest_skip(m, i as int);
            }
            assert(i + 1 < n ==> out@ + spec_join_rest(m.skip(i as int + 1)) =~= old(out)@
                + seq!['{'] + spec_join(m));
            assert(out@ + spec_join_rest(m.skip(i as int + 1)) =~= old(out)@ + seq!['{']
                + spec_join(m));
        }
    }
    proof {
        if n > 0 {
            assert(m.skip(n as int) =~= Seq::<Seq<char>>::empty());
        }
    }
    string_push(out, '}');
    assert(final(out)@ =~= old(out)@ + spec_pairs_obj(pairs_view(v@)));
}

/// Append a JSON array holding the strings of `v` in order.
pub fn append_str_arr(out: &mut String, v: &Vec<String>)
    ensures
        final(out)@ == old(out)@ + spec_str_arr(strs_view(v@)),
{
    let ghost m: Seq<Seq<char>> = quoted_all(strs_view(v@));
    string_push(out, '[');
    let n = v.len();
    for i in 0..n
        invariant
            n == v@.len(),
            m == quoted_all(strs_view(v@)),
            m.len() == n,
            i == 0 ==> out@ =~= old(out)@ + seq!['['],
            i > 0 ==> out@ + spec_join_rest(m.skip(i as int)) =~= old(out)@ + seq!['[']
                + spec_join(m),
    {
        if i > 0 {
            string_push(out, ',');
        }
        append_quoted(out, v[i].as_str());
        proof {
            assert(m[i as int] == spec_quoted(v@[i as int]@));
            if i == 0 {
                lemma_join_first(m);
            } else {
                lemma_join_rest_skip(m, i as int);
            }
            assert(out@ + spec_join_rest(m.skip(i as int + 1)) =~= old(out)@ + seq!['[']
                + spec_join(m));
        }
    }
    proof {
        if n > 0 {
            assert(m.skip(n as int) =~= Seq::<Seq<char>>::empty());
        }
    }
    string_push(out, ']');
    assert(final(out)@ =~= old(out)@ + spec_str_arr(strs_view(v@)));
}

/// Append `null` or a JSON string literal.
pub fn append_opt_quoted(out: &mut String, o: &Option<String>)
    ensures
        final(out)@ == old(out)@ + spec_opt_str(opt_view(*o)),
{
    match o {
        Option::Some(s) => append_quoted(out, s.as_str()),
        Option::None => out.append("null"),
    }
}

/// The JSON text of one request snapshot.
pub open spec fn spec_request_json(r: RequestDataV) -> Seq<char> {
    "{\"method\":"@ + spec_quoted(r.method) + ",\"endpoint\":"@ + spec_quoted(r.endpoint)
        + ",\"headers\":"@ + spec_pairs_obj(r.headers) + ",\"body\":"@ + spec_opt_str(r.body)
        + ",\"cookies\":"@ + spec_pairs_obj(r.cookies) + ",\"request_time\":"@ + spec_quoted(
        r.request_time,
    ) + "}"@
}

/// Append the JSON text of one request snapshot.
pub fn append_request_json(out: &mut String, r: &RequestData)
    ensures
        final(out)@ == old(out)@ + spec_request_json(r@),
{
    out.append("{\"method\":");
    append_quoted(out, r.method.as_str());
    out.append(",\"endpoint\":");
    append_quoted(out, r.endpoint.as_str());
    out.append(",\"headers\":");
    append_pairs_obj(out, &r.headers);
    out.append(",\"body\":");
    append_opt_quoted(out, &r.body);
    out.append(",\"cookies\":");
    append_pairs_obj(out, &r.cookies);
    out.append(",\"request_time\":");
    append_quoted(out, r.request_time.as_str());
    out.append("}");
    assert(final(out)@ =~= old(out)@ + spec_request_json(r@));
}

/// The JSON text of one response snapshot.
pub open spec fn spec_response_json(r: ResponseDataV) -> Seq<char> {
    "{\"status\":"@ + spec_dec(r.status) + ",\"headers\":"@ + spec_pairs_obj(r.headers)
        + ",\"body\":"@ + spec_quoted(r.body) + ",\"set_cookies\":"@ + spec_str_arr(r.set_cookies)
        + ",\"response_time\":"@ + spec_quoted(r.response_time) + ",\"duration_ms\":"@ + spec_dec(
        r.duration_ms,
    ) + "}"@
}

/// Append the JSON text of one response snapshot.
pub fn append_response_json(out: &mut String, r: &ResponseData)
    ensures
        final(out)@ == old(out)@ + spec_response_json(r@),
{
    out.append("{\"status\":");
    append_dec(out, r.status as u64);
    out.append(",\"headers\":");
    append_pairs_obj(out, &r.headers);
    out.append(",\"body\":");
    append_quoted(out, r.body.as_str());
    out.append(",\"set_cookies\":");
    append_str_arr(out, &r.set_cookies);
    out.append(",\"response_time\":");
    append_quoted(out, r.response_time.as_str());
    out.append(",\"duration_ms\":");
    append_dec(out, r.duration_ms);
    out.append("}");
    assert(final(out)@ =~= old(out)@ + spec_response_json(r@));
}

/// The JSON text of one capture entry.
pub open spec fn spec_entry_json(e: RequestResponseDataV) -> Seq<char> {
    "{\"request_data\":"@ + spec_request_json(e.request_data) + ",\"response_data\":"@ + (match e
        .response_data {
        Option::Some(r) => spec_response_json(r),
        Option::None => "null"@,
    }) + ",\"error\":"@ + spec_opt_str(e.error) + ",\"cookies\":"@ + spec_opt_str(e.cookies)
        + "}"@
}

/// Append the JSON text of one capture entry.
#[verifier::rlimit(60)]
pub fn append_entry_json(out: &mut String, e: &RequestResponseData)
    ensures
        final(out)@ == old(out)@ + spec_entry_json(e@),
{
    out.append("{\"request_data\":");
    append_request_json(out, &e.request_data);
    out.append(",\"response_data\":");
    match &e.response_data {
        Option::Some(r) => append_response_json(out, r),
        Option::None => out.append("null"),
    }
    out.append(",\"error\":");
    append_opt_quoted(out, &e.error);
    out.append(",\"cookies\":");
    append_opt_quoted(out, &e.cookies);
    out.append("}");
    assert(final(out)@ =~= old(out)@ + spec_entry_json(e@));
}

} // verus!
