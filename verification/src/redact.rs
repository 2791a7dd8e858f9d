//! The redacted view: a deep copy of captured data whose display-hostile
//! values are shortened — every header value and every raw `Set-Cookie`
//! string to 50 characters, the attached cookie-jar dump to 500 characters.
//! Nothing else changes, and the stored originals are never touched.

use vstd::prelude::*;
use vstd::string::*;
use crate::model::{
    clone_opt, opt_view, pairs_view, strs_view, RequestData, RequestDataV, RequestResponseData,
    RequestResponseDataV, ResponseData, ResponseDataV,
};
use crate::text::{spec_truncate, truncate};

verus! {

/// The number of characters a header value or a `Set-Cookie` string keeps.
pub open spec fn header_limit() -> int {
    50
}

/// The number of characters an attached cookie-jar dump keeps.
pub open spec fn jar_dump_limit() -> int {
    500
}

/// A header mapping with every value truncated; names stay whole.
pub open spec fn redact_pairs(s: Seq<(Seq<char>, Seq<char>)>) -> Seq<(Seq<char>, Seq<char>)> {
    s.map_values(|p: (Seq<char>, Seq<char>)| (p.0, spec_truncate(p.1, header_limit())))
}

/// A list of raw `Set-Cookie` strings, each truncated.
pub open spec fn redact_strs(s: Seq<Seq<char>>) -> Seq<Seq<char>> {
    s.map_values(|x: Seq<char>| spec_truncate(x, header_limit()))
}

/// A request snapshot with its header values truncated.
pub open spec fn redact_request(r: RequestDataV) -> RequestDataV {
    RequestDataV { headers: redact_pairs(r.headers), ..r }
}

/// A response snapshot with its header values and `Set-Cookie` strings
/// truncated.
pub open spec fn redact_response(r: ResponseDataV) -> ResponseDataV {
    ResponseDataV { headers: redact_pairs(r.headers), set_cookies: redact_strs(r.set_cookies), ..r }
}

/// A capture entry with both snapshots redacted and its jar dump truncated;
/// the error message and the bodies pass through whole.
pub open spec fn redact_entry(e: RequestResponseDataV) -> RequestResponseDataV {
    RequestResponseDataV {
        request_data: redact_request(e.request_data),
        response_data: match e.response_data {
            Option::Some(r) => Option::Some(redact_response(r)),
            Option::None => Option::None,
        },
        error: e.error,
        cookies: match e.cookies {
            Option::Some(c) => Option::Some(spec_truncate(c, jar_dump_limit())),
            Option::None => Option::None,
        },
    }
}

/// A whole store redacted entry by entry; keys stay whole.
pub open spec fn redact_store_view(s: Seq<(Seq<char>, RequestResponseDataV)>) -> Seq<
    (Seq<char>, RequestResponseDataV),
> {
    s.map_values(|p: (Seq<char>, RequestResponseDataV)| (p.0, redact_entry(p.1)))
}

/// Copy a header mapping, truncating every value.
pub fn redact_pairs_exec(v: &Vec<(String, String)>) -> (r: Vec<(String, String)>)
    ensures
        pairs_view(r@) == redact_pairs(pairs_view(v@)),
{
    let mut r: Vec<(String, String)> = Vec::new();
    let n = v.len();
    for i in 0..n
        invariant
            n == v@.len(),
            r@.len() == i,
            forall|j: int|
                0 <= j < i ==> (#[trigger] r@[j]).0@ == v@[j].0@ && r@[j].1@ == spec_truncate(
                    v@[j].1@,
                    header_limit(),
                ),
    {
        r.push((v[i].0.clone(), truncate(v[i].1.as_str(), 50)));
    }
    proof {
        assert forall|j: int| 0 <= j < n implies pairs_view(r@)[j] == redact_pairs(
            pairs_view(v@),
        )[j] by {
            assert(pairs_view(r@)[j] == (r@[j].0@, r@[j].1@));
            assert(pairs_view(v@)[j] == (v@[j].0@, v@[j].1@));
            assert(redact_pairs(pairs_view(v@))[j] == (
                pairs_view(v@)[j].0,
                spec_truncate(pairs_view(v@)[j].1, header_limit()),
            ));
        }
        assert(pairs_view(r@) =~= redact_pairs(pairs_view(v@)));
    }
    r
}

/// Copy a list of raw `Set-Cookie` strings, truncating each.
pub fn redact_strs_exec(v: &Vec<String>) -> (r: Vec<String>)
    ensures
        strs_view(r@) == redact_strs(strs_view(v@)),
{
    let mut r: Vec<String> = Vec::new();
    let n = v.len();
    for i in 0..n
        invariant
            n == v@.len(),
            r@.len() == i,
            forall|j: int|
                0 <= j < i ==> (#[trigger] r@[j])@ == spec_truncate(v@[j]@, header_limit()),
    {
        r.push(truncate(v[i].as_str(), 50));
    }
    proof {
        assert forall|j: int| 0 <= j < n implies strs_view(r@)[j] == redact_strs(
            strs_view(v@),
        )[j] by {
            assert(strs_view(r@)[j] == r@[j]@);
            assert(strs_view(v@)[j] == v@[j]@);
            assert(redact_strs(strs_view(v@))[j] == spec_truncate(strs_view(v@)[j], header_limit()));
        }
        assert(strs_view(r@) =~= redact_strs(strs_view(v@)));
    }
    r
}

/// A redacted copy of one request snapshot.
pub fn redact_request_exec(r: &RequestData) -> (out: RequestData)
    ensures
        out@ == redact_request(r@),
{
    RequestData {
        method: r.method.clone(),
        endpoint: r.endpoint.clone(),
        headers: redact_pairs_exec(&r.headers),
        body: clone_opt(&r.body),
        cookies: crate::model::clone_pairs(&r.cookies),
        request_time: r.request_time.clone(),
    }
}

/// A redacted copy of one response snapshot.
pub fn redact_response_exec(r: &ResponseData) -> (out: ResponseData)
    ensures
        out@ == redact_response(r@),
{
    ResponseData {
        status: r.status,
        headers: redact_pairs_exec(&r.headers),
        body: r.body.clone(),
        set_cookies: redact_strs_exec(&r.set_cookies),
        response_time: r.response_time.clone(),
        duration_ms: r.duration_ms,
    }
}

/// A redacted copy of one capture entry.
pub fn redact_entry_exec(e: &RequestResponseData) -> (out: RequestResponseData)
    ensures
        out@ == redact_entry(e@),
{
    RequestResponseData {
        request_data: redact_request_exec(&e.request_data),
        response_data: match &e.response_data {
            Option::Some(r) => Option::Some(redact_response_exec(r)),
            Option::None => Option::None,
        },
        error: clone_opt(&e.error),
        cookies: match &e.cookies {
            Option::Some(c) => Option::Some(truncate(c.as_str(), 500)),
            Option::None => Option::None,
        },
    }
}

} // verus!
