//! The cookie jar adapter: the single source of truth for the session's
//! cookies, shared between the transport and the capture pipeline. The jar
//! itself is an outside value behind trusted items; the reshaping of its
//! newline-delimited JSON export into one JSON array — the exported jar-dump
//! format — is verified here line by line.

use vstd::prelude::*;
use vstd::string::*;
use crate::errors::TrackError;
use crate::json::{lemma_join_first, lemma_join_rest_skip, spec_join, spec_join_rest};
use crate::model::strs_view;
use crate::text::string_push;

verus! {

#[verifier::external_type_specification]
#[verifier::external_body]
pub struct ExCookieStoreMutex(reqwest_cookie_store::CookieStoreMutex);

#[verifier::external_type_specification]
#[verifier::external_body]
pub struct ExCookieStore(cookie_store::CookieStore);

#[verifier::external_type_specification]
#[verifier::external_body]
pub struct ExUrl(url::Url);

/// What re-encoding one line of text as compact JSON yields: the parsed and
/// re-serialized value when the line is one well-formed JSON value, nothing
/// otherwise. Both depend on the line's characters alone.
pub uninterp spec fn json_reencoded(s: Seq<char>) -> Option<Seq<char>>;

/// Relies on serde_json::from_str and serde_json::to_string: parsing a text
/// as one JSON value and re-serializing it compactly are functions of the
/// text alone.
#[verifier::external_body]
fn reencode_json_line(line: &str) -> (r: Option<String>)
    ensures
        r is Some <==> json_reencoded(line@) is Some,
        r matches Some(s) ==> json_reencoded(line@) == Some(s@),
{
    match serde_json::from_str::<serde_json::Value>(line) {
        Ok(v) => serde_json::to_string(&v).ok(),
        Err(_) => None,
    }
}

/// Relies on reqwest_cookie_store::CookieStoreMutex::lock and on
/// cookie_store::CookieStore::save_incl_expired_and_nonpersistent_json, which
/// writes every cookie record — expired and non-persistent ones included —
/// as one JSON object per line, each produced by serde_json::to_string. The
/// records depend on the jar's current state, so nothing is promised of
/// their content; but every non-blank line of a successful export is one
/// JSON value serde_json printed, which serde_json parses back, so the text
/// always reshapes into the jar-dump array. The failures are the lock and
/// the serialization, nothing else.
#[allow(deprecated)]
#[verifier::external_body]
fn export_jar_lines(jar: &reqwest_cookie_store::CookieStoreMutex) -> (r: Result<String, TrackError>)
    ensures
        r matches Ok(raw) ==> spec_cookie_array(raw@) is Some,
        r matches Err(e) ==> (e matches TrackError::LockError(_) || e matches
            TrackError::SerializationError(_)),
{
    let store = match jar.lock() {
        Ok(s) => s,
        Err(e) => return Err(TrackError::LockError(format!("Cookie store lock error: {}", e))),
    };
    let mut buf: Vec<u8> = Vec::new();
    if let Err(e) = store.save_incl_expired_and_nonpersistent_json(&mut buf) {
        return Err(TrackError::SerializationError(format!("Failed to save cookies to JSON buffer: {}", e)));
    }
    match String::from_utf8(buf) {
        Ok(s) => Ok(s),
        Err(e) => Err(TrackError::SerializationError(format!("Failed to convert cookie buffer to UTF-8 string: {}", e))),
    }
}

/// Whether a newline-delimited text is a loadable jar snapshot: every line
/// deserializes as one cookie record. Loading reads nothing but the text —
/// expired cookies are kept, so not even the clock is consulted — which
/// makes this a function of the characters alone.
pub uninterp spec fn jar_loads(s: Seq<char>) -> bool;

/// Relies on cookie_store::CookieStore::load_json_all: reconstructs a jar
/// from a newline-delimited JSON snapshot, keeping expired cookies too, and
/// fails exactly when some line is a malformed entry.
#[allow(deprecated)]
#[verifier::external_body]
fn load_jar_json(cookie_json: &str) -> (r: Result<cookie_store::CookieStore, String>)
    ensures
        r is Ok <==> jar_loads(cookie_json@),
{
    let reader = std::io::Cursor::new(cookie_json);
    match cookie_store::CookieStore::load_json_all(reader) {
        Ok(s) => Ok(s),
        Err(e) => Err(format!("Failed to load cookies JSON: {}", e)),
    }
}

/// Relies on reqwest_cookie_store::CookieStoreMutex::new: wraps a cookie
/// store in a mutex so the transport and the pipeline can share it.
#[verifier::external_body]
fn jar_mutex_new(store: cookie_store::CookieStore) -> (r: reqwest_cookie_store::CookieStoreMutex) {
    reqwest_cookie_store::CookieStoreMutex::new(store)
}

/// Relies on reqwest_cookie_store::CookieStoreMutex::lock and on
/// cookie_store::CookieStore::get_request_values: the name/value pairs the
/// jar would attach to a request to `url` at this instant. The jar is shared
/// and mutable, so nothing is promised of the pairs.
#[verifier::external_body]
pub fn cookies_for_url(jar: &reqwest_cookie_store::CookieStoreMutex, url: &url::Url) -> (r: Result<
    Vec<(String, String)>,
    TrackError,
>) {
    let store = match jar.lock() {
        Ok(s) => s,
        Err(e) => return Err(TrackError::LockError(format!("Cookie store lock error: {}", e))),
    };
    Ok(store.get_request_values(url).map(|(n, v)| (n.to_string(), v.to_string())).collect())
}

/// What splitting a text as one JSON array yields: the compact
/// re-serialization of each element, in order, when the text is one
/// well-formed JSON array; nothing otherwise. Both depend on the text's
/// characters alone.
pub uninterp spec fn json_array_items(s: Seq<char>) -> Option<Seq<Seq<char>>>;

/// Relies on serde_json::from_str and serde_json::to_string: whether a text
/// is one JSON array and what its elements re-serialize to are functions of
/// the text alone.
#[verifier::external_body]
fn split_json_array(s: &str) -> (r: Option<Vec<String>>)
    ensures
        r is Some <==> json_array_items(s@) is Some,
        r matches Some(v) ==> json_array_items(s@) == Some(strs_view(v@)),
{
    let items = match serde_json::from_str(s) {
        Ok(serde_json::Value::Array(a)) => a,
        _ => return None,
    };
    let mut out: Vec<String> = Vec::new();
    for it in items {
        match serde_json::to_string(&it) {
            Ok(t) => out.push(t),
            Err(_) => return None,
        }
    }
    Some(out)
}

/// The tail of a newline-joined list: a newline before each further line.
pub open spec fn spec_join_nl_rest(elems: Seq<Seq<char>>) -> Seq<char>
    decreases elems.len(),
{
    if elems.len() == 0 {
        seq![]
    } else {
        seq!['\n'] + elems.first() + spec_join_nl_rest(elems.drop_first())
    }
}

/// Lines joined by single newlines, no trailing newline.
pub open spec fn spec_join_nl(elems: Seq<Seq<char>>) -> Seq<char> {
    if elems.len() == 0 {
        seq![]
    } else {
        elems.first() + spec_join_nl_rest(elems.drop_first())
    }
}

proof fn lemma_join_nl_rest_skip(elems: Seq<Seq<char>>, i: int)
    requires
        0 <= i < elems.len(),
    ensures
        spec_join_nl_rest(elems.skip(i)) == seq!['\n'] + elems[i] + spec_join_nl_rest(
            elems.skip(i + 1),
        ),
{
    let t = elems.skip(i);
    assert(t.first() == elems[i]);
    assert(t.drop_first() =~= elems.skip(i + 1));
}

/// Join lines with single newlines.
fn join_lines(elems: &Vec<String>) -> (r: String)
    ensures
        r@ == spec_join_nl(strs_view(elems@)),
{
    let ghost m = strs_view(elems@);
    let mut out = String::new();
    let n = elems.len();
    for i in 0..n
        invariant
            n == elems@.len(),
            m == strs_view(elems@),
            m.len() == n,
            i == 0 ==> out@ =~= Seq::<char>::empty(),
            i > 0 ==> out@ + spec_join_nl_rest(m.skip(i as int)) =~= spec_join_nl(m),
    {
        if i > 0 {
            string_push(&mut out, '\n');
        }
        out.append(elems[i].as_str());
        proof {
            assert(m[i as int] == elems@[i as int]@);
            if i == 0 {
                assert(m.drop_first() =~= m.skip(1));
            } else {
                lemma_join_nl_rest_skip(m, i as int);
            }
            assert(out@ + spec_join_nl_rest(m.skip(i as int + 1)) =~= spec_join_nl(m));
        }
    }
    proof {
        if n > 0 {
            assert(m.skip(n as int) =~= Seq::<Seq<char>>::empty());
        }
    }
    assert(out@ =~= spec_join_nl(m));
    out
}

/// Reconstruct a shared jar from a snapshot produced by a prior export:
/// either the jar-dump JSON array, whose elements are loaded one per line,
/// or a newline-delimited text, one cookie record per line. The import
/// succeeds exactly when the snapshot's records load, and a malformed
/// snapshot gives a parse error.
pub fn import_jar(cookie_json: &str) -> (r: Result<
    reqwest_cookie_store::CookieStoreMutex,
    TrackError,
>)
    ensures
        r is Ok <==> (match json_array_items(cookie_json@) {
            Option::Some(items) => jar_loads(spec_join_nl(items)),
            Option::None => jar_loads(cookie_json@),
        }),
        r matches Err(e) ==> e matches TrackError::ParseError(_),
{
    match split_json_array(cookie_json) {
        Option::Some(items) => {
            let nd = join_lines(&items);
            match load_jar_json(nd.as_str()) {
                Result::Ok(store) => Result::Ok(jar_mutex_new(store)),
                Result::Err(m) => Result::Err(TrackError::ParseError(m)),
            }
        },
        Option::None => {
            match load_jar_json(cookie_json) {
                Result::Ok(store) => Result::Ok(jar_mutex_new(store)),
                Result::Err(m) => Result::Err(TrackError::ParseError(m)),
            }
        },
    }
}

/// A line with nothing but spaces, tabs and carriage returns on it.
pub open spec fn spec_blank(l: Seq<char>) -> bool {
    forall|i: int| 0 <= i < l.len() ==> l[i] == ' ' || l[i] == '\t' || l[i] == '\r'
}

/// The lines of a text, split at every newline character; the text after the
/// last newline is a line too, so a text ending in a newline ends in an
/// empty line.
pub open spec fn spec_lines_acc(s: Seq<char>, cur: Seq<char>, acc: Seq<Seq<char>>) -> Seq<
    Seq<char>,
>
    decreases s.len(),
{
    if s.len() == 0 {
        acc.push(cur)
    } else if s.first() == '\n' {
        spec_lines_acc(s.drop_first(), seq![], acc.push(cur))
    } else {
        spec_lines_acc(s.drop_first(), cur.push(s.first()), acc)
    }
}

pub open spec fn spec_lines(s: Seq<char>) -> Seq<Seq<char>> {
    spec_lines_acc(s, seq![], seq![])
}

/// Every non-blank line re-encoded as compact JSON, in order; nothing when
/// some non-blank line is not one well-formed JSON value.
pub open spec fn spec_reencode_all(ls: Seq<Seq<char>>) -> Option<Seq<Seq<char>>>
    decreases ls.len(),
{
    if ls.len() == 0 {
        Option::Some(seq![])
    } else if spec_blank(ls.first()) {
        spec_reencode_all(ls.drop_first())
    } else {
        match json_reencoded(ls.first()) {
            Option::None => Option::None,
            Option::Some(e) => match spec_reencode_all(ls.drop_first()) {
                Option::None => Option::None,
                Option::Some(rest) => Option::Some(seq![e] + rest),
            },
        }
    }
}

/// The jar-dump format: one JSON array holding the re-encoded record of each
/// non-blank line of a newline-delimited export.
pub open spec fn spec_cookie_array(raw: Seq<char>) -> Option<Seq<char>> {
    match spec_reencode_all(spec_lines(raw)) {
        Option::None => Option::None,
        Option::Some(es) => Option::Some(seq!['['] + spec_join(es) + seq![']']),
    }
}

proof fn lemma_strs_view_push(v: Seq<String>, s: String)
    ensures
        strs_view(v.push(s)) == strs_view(v).push(s@),
{
    assert forall|j: int| 0 <= j < v.len() + 1 implies strs_view(v.push(s))[j] == strs_view(
        v,
    ).push(s@)[j] by {
        assert(strs_view(v.push(s))[j] == v.push(s)[j]@);
    }
    assert(strs_view(v.push(s)) =~= strs_view(v).push(s@));
}

fn is_blank(s: &str) -> (r: bool)
    ensures
        r == spec_blank(s@),
{
    let n = s.unicode_len();
    for i in 0..n
        invariant
            n == s@.len(),
            forall|j: int| 0 <= j < i ==> s@[j] == ' ' || s@[j] == '\t' || s@[j] == '\r',
    {
        let c = s.get_char(i);
        if !(c == ' ' || c == '\t' || c == '\r') {
            return false;
        }
    }
    true
}

/// Split a text into its lines.
pub fn split_lines(raw: &str) -> (r: Vec<String>)
    ensures
        strs_view(r@) == spec_lines(raw@),
{
    let n = raw.unicode_len();
    let mut acc: Vec<String> = Vec::new();
    let mut cur: String = String::new();
    proof {
        assert(raw@.skip(0) == raw@);
        assert(strs_view(acc@) =~= Seq::<Seq<char>>::empty());
        assert(cur@ =~= Seq::<char>::empty());
    }
    for i in 0..n
        invariant
            n == raw@.len(),
            spec_lines_acc(raw@.skip(i as int), cur@, strs_view(acc@)) == spec_lines(raw@),
    {
        let c = raw.get_char(i);
        proof {
            let t = raw@.skip(i as int);
            assert(t.first() == raw@[i as int]);
            assert(t.drop_first() =~= raw@.skip(i as int + 1));
        }
        if c == '\n' {
            proof {
                lemma_strs_view_push(acc@, cur);
            }
            acc.push(cur);
            cur = String::new();
        } else {
            string_push(&mut cur, c);
        }
    }
    assert(raw@.skip(n as int) =~= Seq::<char>::empty());
    proof {
        lemma_strs_view_push(acc@, cur);
    }
    acc.push(cur);
    acc
}

proof fn lemma_reencode_skip(ls: Seq<Seq<char>>, i: int)
    requires
        0 <= i < ls.len(),
    ensures
        spec_reencode_all(ls.skip(i)) == (if spec_blank(ls[i]) {
            spec_reencode_all(ls.skip(i + 1))
        } else {
            match json_reencoded(ls[i]) {
                Option::None => Option::<Seq<Seq<char>>>::None,
                Option::Some(e) => match spec_reencode_all(ls.skip(i + 1)) {
                    Option::None => Option::<Seq<Seq<char>>>::None,
                    Option::Some(rest) => Option::Some(seq![e] + rest),
                },
            }
        }),
{
    let t = ls.skip(i);
    assert(t.first() == ls[i]);
    assert(t.drop_first() =~= ls.skip(i + 1));
}

/// Re-encode every non-blank line, stopping at the first malformed one.
fn reencode_lines(lines: &Vec<String>) -> (r: Result<Vec<String>, TrackError>)
    ensures
        r is Ok <==> spec_reencode_all(strs_view(lines@)) is Some,
        r matches Ok(es) ==> spec_reencode_all(strs_view(lines@)) == Some(strs_view(es@)),
        r matches Err(e) ==> e matches TrackError::SerializationError(_),
{
    let ghost ls = strs_view(lines@);
    let mut out: Vec<String> = Vec::new();
    let n = lines.len();
    proof {
        assert(ls.skip(0) == ls);
        match spec_reencode_all(ls) {
            Option::Some(rest) => {
                assert(strs_view(out@) + rest =~= rest);
            },
            Option::None => {},
        }
    }
    for i in 0..n
        invariant
            n == lines@.len(),
            ls == strs_view(lines@),
            spec_reencode_all(ls) == (match spec_reencode_all(ls.skip(i as int)) {
                Option::None => Option::<Seq<Seq<char>>>::None,
                Option::Some(rest) => Option::Some(strs_view(out@) + rest),
            }),
    {
        proof {
            lemma_reencode_skip(ls, i as int);
            assert(ls[i as int] == lines@[i as int]@);
        }
        if !is_blank(lines[i].as_str()) {
            match reencode_json_line(lines[i].as_str()) {
                Option::Some(e) => {
                    let ghost outv = strs_view(out@);
                    proof {
                        lemma_strs_view_push(out@, e);
                    }
                    out.push(e);
                    proof {
                        assert(strs_view(out@) =~= outv + seq![e@]);
                        match spec_reencode_all(ls.skip(i as int + 1)) {
                            Option::Some(rest) => {
                                assert(outv + (seq![e@] + rest) =~= (outv + seq![e@]) + rest);
                            },
                            Option::None => {},
                        }
                    }
                },
                Option::None => {
                    return Result::Err(
                        TrackError::SerializationError(
                            "Invalid cookie JSON line format".to_owned(),
                        ),
                    );
                },
            }
        }
    }
    assert(ls.skip(n as int) =~= Seq::<Seq<char>>::empty());
    assert(strs_view(out@) + Seq::<Seq<char>>::empty() =~= strs_view(out@));
    Result::Ok(out)
}

/// Join already-rendered JSON values into one array text.
fn join_array(elems: &Vec<String>) -> (r: String)
    ensures
        r@ == seq!['['] + spec_join(strs_view(elems@)) + seq![']'],
{
    let ghost m = strs_view(elems@);
    let mut out = String::new();
    string_push(&mut out, '[');
    let n = elems.len();
    for i in 0..n
        invariant
            n == elems@.len(),
            m == strs_view(elems@),
            m.len() == n,
            i == 0 ==> out@ =~= seq!['['],
            i > 0 ==> out@ + spec_join_rest(m.skip(i as int)) =~= seq!['['] + spec_join(m),
    {
        if i > 0 {
            string_push(&mut out, ',');
        }
        out.append(elems[i].as_str());
        proof {
            assert(m[i as int] == elems@[i as int]@);
            if i == 0 {
                lemma_join_first(m);
            } else {
                lemma_join_rest_skip(m, i as int);
            }
            assert(out@ + spec_join_rest(m.skip(i as int + 1)) =~= seq!['['] + spec_join(m));
        }
    }
    proof {
        if n > 0 {
            assert(m.skip(n as int) =~= Seq::<Seq<char>>::empty());
        }
    }
    string_push(&mut out, ']');
    assert(out@ =~= seq!['['] + spec_join(m) + seq![']']);
    out
}

/// Reshape a newline-delimited JSON export into the jar-dump format: one
/// JSON array of the re-encoded records. Fails exactly when some non-blank
/// line is not one well-formed JSON value.
pub fn ndjson_to_array(raw: &str) -> (r: Result<String, TrackError>)
    ensures
        r is Ok <==> spec_cookie_array(raw@) is Some,
        r matches Ok(s) ==> spec_cookie_array(raw@) == Some(s@),
        r matches Ok(s) ==> s@.len() >= 2 && s@.first() == '[' && s@.last() == ']',
        r matches Err(e) ==> e matches TrackError::SerializationError(_),
{
    let lines = split_lines(raw);
    match reencode_lines(&lines) {
        Result::Ok(elems) => Result::Ok(join_array(&elems)),
        Result::Err(e) => Result::Err(e),
    }
}

/// A text with the jar-dump shape: the reshaping of some newline-delimited
/// export into one JSON array of re-encoded records.
pub open spec fn is_jar_dump(s: Seq<char>) -> bool {
    exists|raw: Seq<char>| spec_cookie_array(raw) == Some(s)
}

/// Export the whole jar — expired and non-persistent cookies included — as
/// one JSON array of cookie records. The record text comes from the jar's
/// current state; whatever the export yielded, the result is the jar-dump
/// reshaping of it, and the only failures are an unusable lock and a failed
/// serialization.
pub fn dump_cookies(jar: &reqwest_cookie_store::CookieStoreMutex) -> (r: Result<String, TrackError>)
    ensures
        r matches Ok(s) ==> is_jar_dump(s@),
        r matches Ok(s) ==> s@.len() >= 2 && s@.first() == '[' && s@.last() == ']',
        r matches Err(e) ==> (e matches TrackError::LockError(_) || e matches
            TrackError::SerializationError(_)),
{
    let raw = match export_jar_lines(jar) {
        Result::Ok(raw) => raw,
        Result::Err(e) => {
            return Result::Err(e);
        },
    };
    match ndjson_to_array(raw.as_str()) {
        Result::Ok(s) => {
            proof {
                assert(spec_cookie_array(raw@) == Some(s@));
                assert(is_jar_dump(s@));
            }
            Result::Ok(s)
        },
        Result::Err(e) => Result::Err(e),
    }
}

} // verus!
