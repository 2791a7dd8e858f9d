//! The tracked-send pipeline's decisions: building the request snapshot as
//! the send is dispatched (headers collapsed last-wins, cookies resolved,
//! timestamp stamped), building the response snapshot the moment the
//! transport answers, recording either outcome in the capture store, and the
//! body-handling policy a caller picks. The transport call itself and its
//! timing happen outside; every value they produce is handed in as a plain
//! argument and every decision on it is verified here.

use vstd::prelude::*;
use vstd::string::*;
use crate::errors::TrackError;
use crate::jar::dump_cookies;
use crate::model::{opt_view, pairs_view, RequestData, ResponseData};
use crate::store::{
    as_map, keys_unique, lemma_as_map_push, lemma_as_map_update, with_error, with_success,
    CaptureStore,
};

verus! {

/// A timestamp in the shape every stamp of this pipeline has: non-empty
/// date-and-time text ending in the fixed three-hour-east offset suffix.
pub open spec fn plus3_suffixed(s: Seq<char>) -> bool {
    s.len() > 6 && s.skip(s.len() - 6) == seq!['+', '0', '3', ':', '0', '0']
}

/// Relies on chrono's Utc::now, FixedOffset::east_opt and
/// DateTime::to_rfc3339: the current instant, shifted to the fixed
/// three-hour-east offset, rendered in RFC 3339 form. The clock decides the
/// value; what holds of every reading is the shape — a non-empty RFC 3339
/// text, which for this fixed offset always ends in its six-character
/// suffix.
#[verifier::external_body]
fn now_rfc3339_plus3() -> (r: String)
    ensures
        plus3_suffixed(r@),
{
    let msk = chrono::FixedOffset::east_opt(3 * 3600).unwrap();
    chrono::Utc::now().with_timezone(&msk).to_rfc3339()
}

/// How a tracked send treats the response body, chosen explicitly by the
/// caller.
///
/// `ReadThenReplay` consumes the body for capture and then executes a
/// freshly rebuilt copy of the request a second time to hand the caller a
/// live response: it double-executes a logically single request, so it is
/// unsuitable for non-idempotent (state-mutating) calls.
#[derive(Clone, Copy, PartialEq, Eq, Structural, Debug)]
pub enum BodyPolicy {
    /// Never read the body; capture it as empty and return the live,
    /// unconsumed response to the caller.
    DoNotRead,
    /// Read the whole body under the pipeline's own deadline and return it
    /// as a value; no further read is possible.
    ReadAndReturnText,
    /// Read the body for capture, then execute a rebuilt request once more
    /// and return that second live response.
    ReadThenReplay,
}

/// Whether the pipeline itself consumes the response body under this policy.
pub fn policy_reads_body(p: BodyPolicy) -> (r: bool)
    ensures
        r == !(p is DoNotRead),
{
    match p {
        BodyPolicy::DoNotRead => false,
        BodyPolicy::ReadAndReturnText => true,
        BodyPolicy::ReadThenReplay => true,
    }
}

/// Whether the caller gets back a live, unconsumed response.
pub fn policy_returns_live_response(p: BodyPolicy) -> (r: bool)
    ensures
        r == (p is DoNotRead || p is ReadThenReplay),
{
    match p {
        BodyPolicy::DoNotRead => true,
        BodyPolicy::ReadAndReturnText => false,
        BodyPolicy::ReadThenReplay => true,
    }
}

/// Whether the policy is safe for requests that must not run twice.
pub fn policy_safe_for_non_idempotent(p: BodyPolicy) -> (r: bool)
    ensures
        r == !(p is ReadThenReplay),
{
    match p {
        BodyPolicy::DoNotRead => true,
        BodyPolicy::ReadAndReturnText => true,
        BodyPolicy::ReadThenReplay => false,
    }
}

/// The mapping a header list denotes: a later pair with the same name wins.
pub open spec fn pair_map(s: Seq<(Seq<char>, Seq<char>)>) -> Map<Seq<char>, Seq<char>> {
    as_map(s)
}

fn find_pair_index(out: &Vec<(String, String)>, key: &String) -> (r: Option<usize>)
    ensures
        match r {
            Option::Some(i) => i < out@.len() && pairs_view(out@)[i as int].0 == key@,
            Option::None => forall|i: int|
                0 <= i < out@.len() ==> pairs_view(out@)[i].0 != key@,
        },
{
    let n = out.len();
    for i in 0..n
        invariant
            n == out@.len(),
            forall|j: int| 0 <= j < i ==> pairs_view(out@)[j].0 != key@,
    {
        if out[i].0 == *key {
            assert(pairs_view(out@)[i as int].0 == key@);
            return Option::Some(i);
        }
    }
    Option::None
}

/// Collapse duplicate names in a header list, last value winning: the result
/// holds every name once and denotes the same mapping.
pub fn collapse_last_wins(v: Vec<(String, String)>) -> (r: Vec<(String, String)>)
    ensures
        keys_unique(pairs_view(r@)),
        pair_map(pairs_view(r@)) == pair_map(pairs_view(v@)),
{
    let mut out: Vec<(String, String)> = Vec::new();
    let n = v.len();
    proof {
        assert(pairs_view(out@) =~= Seq::<(Seq<char>, Seq<char>)>::empty());
        assert(pairs_view(v@).take(0) =~= Seq::<(Seq<char>, Seq<char>)>::empty());
    }
    for i in 0..n
        invariant
            n == v@.len(),
            keys_unique(pairs_view(out@)),
            pair_map(pairs_view(out@)) == pair_map(pairs_view(v@).take(i as int)),
    {
        proof {
            assert(pairs_view(v@)[i as int] == (v@[i as int].0@, v@[i as int].1@));
            assert(pairs_view(v@).take(i as int + 1).drop_last() =~= pairs_view(v@).take(i as int));
            assert(pairs_view(v@).take(i as int + 1).last() == pairs_view(v@)[i as int]);
        }
        let found = find_pair_index(&out, &v[i].0);
        match found {
            Option::Some(j) => {
                let ghost before = pairs_view(out@);
                proof {
                    lemma_as_map_update(before, j as int, v@[i as int].1@);
                }
                let name = out[j].0.clone();
                out[j] = (name, v[i].1.clone());
                assert(pairs_view(out@) =~= before.update(
                    j as int,
                    (before[j as int].0, v@[i as int].1@),
                ));
            },
            Option::None => {
                let ghost before = pairs_view(out@);
                proof {
                    lemma_as_map_push(before, v@[i as int].0@, v@[i as int].1@);
                }
                out.push((v[i].0.clone(), v[i].1.clone()));
                assert(pairs_view(out@) =~= before.push((v@[i as int].0@, v@[i as int].1@)));
                assert(keys_unique(pairs_view(out@)));
            },
        }
    }
    assert(pairs_view(v@).take(n as int) =~= pairs_view(v@));
    out
}

/// Materialize the request snapshot at dispatch time: method, URL and body
/// as given, headers and cookies collapsed last-wins, the send stamped with
/// the current instant in the fixed three-hour-east offset.
pub fn build_request_snapshot(
    method: String,
    endpoint: String,
    headers: Vec<(String, String)>,
    body: Option<String>,
    cookies: Vec<(String, String)>,
) -> (r: RequestData)
    ensures
        r@.method == method@,
        r@.endpoint == endpoint@,
        keys_unique(r@.headers),
        pair_map(r@.headers) == pair_map(pairs_view(headers@)),
        r@.body == opt_view(body),
        keys_unique(r@.cookies),
        pair_map(r@.cookies) == pair_map(pairs_view(cookies@)),
        plus3_suffixed(r@.request_time),
{
    RequestData {
        method,
        endpoint,
        headers: collapse_last_wins(headers),
        body,
        cookies: collapse_last_wins(cookies),
        request_time: now_rfc3339_plus3(),
    }
}

/// Materialize the response snapshot the moment the transport answers:
/// status, body, raw `Set-Cookie` values and measured duration as given,
/// headers collapsed last-wins, the arrival stamped with the current instant
/// in the fixed three-hour-east offset.
pub fn build_response_snapshot(
    status: u16,
    headers: Vec<(String, String)>,
    body: String,
    set_cookies: Vec<String>,
    duration_ms: u64,
) -> (r: ResponseData)
    ensures
        r@.status == status as int,
        keys_unique(r@.headers),
        pair_map(r@.headers) == pair_map(pairs_view(headers@)),
        r@.body == body@,
        r@.set_cookies == crate::model::strs_view(set_cookies@),
        r@.duration_ms == duration_ms as int,
        r@.duration_ms >= 0,
        plus3_suffixed(r@.response_time),
{
    ResponseData {
        status,
        headers: collapse_last_wins(headers),
        body,
        set_cookies,
        response_time: now_rfc3339_plus3(),
        duration_ms,
    }
}

/// Record a successful send under its key: the response snapshot goes in,
/// and a fresh jar dump — a text with the jar-dump shape — is attached so
/// the entry shows the cookie state as of just after this response. When
/// the jar export fails, the response is still recorded — without a dump —
/// and the failure is returned.
pub fn complete_success(
    store: &mut CaptureStore,
    jar: &reqwest_cookie_store::CookieStoreMutex,
    key: &str,
    resp: ResponseData,
) -> (r: Result<(), TrackError>)
    requires
        old(store).wf(),
    ensures
        final(store).wf(),
        !old(store).map_view().contains_key(key@) ==> final(store)@ == old(store)@,
        old(store).map_view().contains_key(key@) ==> exists|d: Option<Seq<char>>|
            final(store).map_view() == old(store).map_view().insert(
                key@,
                with_success(old(store).map_view()[key@], resp@, d),
            ) && (r is Ok ==> (d matches Some(dump) && crate::jar::is_jar_dump(dump))),
{
    match dump_cookies(jar) {
        Result::Ok(dump) => {
            let ghost d = Option::Some(dump@);
            proof {
                assert(crate::jar::is_jar_dump(dump@));
            }
            store.record_success(key, resp, Option::Some(dump));
            proof {
                if old(store).map_view().contains_key(key@) {
                    assert(final(store).map_view() == old(store).map_view().insert(
                        key@,
                        with_success(old(store).map_view()[key@], resp@, d),
                    ) && (d matches Some(dd) && crate::jar::is_jar_dump(dd)));
                }
            }
            Result::Ok(())
        },
        Result::Err(e) => {
            let ghost d = Option::<Seq<char>>::None;
            store.record_success(key, resp, Option::None);
            proof {
                if old(store).map_view().contains_key(key@) {
                    assert(final(store).map_view() == old(store).map_view().insert(
                        key@,
                        with_success(old(store).map_view()[key@], resp@, d),
                    ));
                }
            }
            Result::Err(e)
        },
    }
}

/// Record a failed send under its key and hand back the transport error the
/// caller sees: the message goes into the entry's error field, and no
/// response snapshot is ever written for this key by this call.
pub fn fail_send(store: &mut CaptureStore, key: &str, message: String) -> (r: TrackError)
    requires
        old(store).wf(),
    ensures
        final(store).wf(),
        r == TrackError::RequestFailed(message),
        old(store).map_view().contains_key(key@) ==> final(store).map_view() == old(
            store,
        ).map_view().insert(key@, with_error(old(store).map_view()[key@], message@)),
        !old(store).map_view().contains_key(key@) ==> final(store)@ == old(store)@,
{
    store.record_error(key, message.clone());
    TrackError::RequestFailed(message)
}

/// What a read-through send hands back to its caller once the body has been
/// read: status, headers, the whole body text, the URL the transport ended
/// on after redirect following, and whether that differs from the URL the
/// request was built with.
pub struct LoggedText {
    pub status: u16,
    pub headers: Vec<(String, String)>,
    pub body: String,
    pub final_url: String,
    pub redirected: bool,
}

/// Assemble the read-through result; the redirect flag is exactly "the final
/// URL differs from the original one".
pub fn make_logged_text(
    status: u16,
    headers: Vec<(String, String)>,
    body: String,
    final_url: String,
    orig_url: &String,
) -> (r: LoggedText)
    ensures
        r.status == status,
        r.headers@ == headers@,
        r.body@ == body@,
        r.final_url@ == final_url@,
        r.redirected == (final_url@ != orig_url@),
{
    let redirected = !(final_url == *orig_url);
    LoggedText { status, headers, body, final_url, redirected }
}

/// The two URL-recording headers a read-through send adds to its captured
/// response headers: where the transport ended, and where the request began.
pub fn response_headers_with_urls(
    headers: Vec<(String, String)>,
    final_url: &String,
    orig_url: &String,
) -> (r: Vec<(String, String)>)
    ensures
        pairs_view(r@) == pairs_view(headers@) + seq![
            ("x-final-url"@, final_url@),
            ("x-orig-url"@, orig_url@),
        ],
{
    let ghost before = pairs_view(headers@);
    let mut r = headers;
    r.push(("x-final-url".to_owned(), final_url.clone()));
    assert(pairs_view(r@) =~= before.push(("x-final-url"@, final_url@)));
    let ghost mid = pairs_view(r@);
    r.push(("x-orig-url".to_owned(), orig_url.clone()));
    assert(pairs_view(r@) =~= mid.push(("x-orig-url"@, orig_url@)));
    assert(pairs_view(r@) =~= before + seq![("x-final-url"@, final_url@), ("x-orig-url"@, orig_url@)]);
    r
}

} // verus!
