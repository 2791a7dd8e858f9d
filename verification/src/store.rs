//! The capture store: a mapping from caller-supplied correlation key to one
//! capture entry, held as an association list with unique keys. A second
//! insert under the same key replaces the first. Recording a success or an
//! error under a key that has meanwhile disappeared is a no-op: the store is
//! a best-effort capture buffer, not a durable log.

use vstd::prelude::*;
use vstd::string::*;
use crate::json::{
    append_quoted, lemma_join_first, lemma_join_rest_skip, spec_join, spec_join_rest, spec_quoted,
};
use crate::model::{
    append_entry_json, clone_opt, spec_entry_json, RequestData, RequestResponseData,
    RequestResponseDataV, ResponseData, ResponseDataV,
};
use crate::text::string_push;

verus! {

/// No two positions of the association list share a key.
pub open spec fn keys_unique<V>(s: Seq<(Seq<char>, V)>) -> bool {
    forall|i: int, j: int| 0 <= i < j < s.len() ==> s[i].0 != s[j].0
}

/// The mapping an association list denotes; a later pair wins over an
/// earlier one with the same key.
pub open spec fn as_map<V>(s: Seq<(Seq<char>, V)>) -> Map<Seq<char>, V>
    decreases s.len(),
{
    if s.len() == 0 {
        Map::empty()
    } else {
        as_map(s.drop_last()).insert(s.last().0, s.last().1)
    }
}

/// The entry a fresh insert leaves under a key: only the request snapshot is
/// populated; response, error and jar dump are still unset.
pub open spec fn fresh_entry(r: crate::model::RequestDataV) -> RequestResponseDataV {
    RequestResponseDataV {
        request_data: r,
        response_data: Option::None,
        error: Option::None,
        cookies: Option::None,
    }
}

/// An entry after its response arrived: the response snapshot and the jar
/// dump are set; request and error are untouched.
pub open spec fn with_success(
    e: RequestResponseDataV,
    r: ResponseDataV,
    jar_dump: Option<Seq<char>>,
) -> RequestResponseDataV {
    RequestResponseDataV { response_data: Option::Some(r), cookies: jar_dump, ..e }
}

/// An entry after its send failed: the error message is set; any previously
/// recorded response is kept.
pub open spec fn with_error(e: RequestResponseDataV, message: Seq<char>) -> RequestResponseDataV {
    RequestResponseDataV { error: Option::Some(message), ..e }
}

pub proof fn lemma_as_map_contains<V>(s: Seq<(Seq<char>, V)>, k: Seq<char>)
    ensures
        as_map(s).contains_key(k) <==> exists|i: int| 0 <= i < s.len() && s[i].0 == k,
    decreases s.len(),
{
    if s.len() == 0 {
    } else {
        lemma_as_map_contains(s.drop_last(), k);
        if s.last().0 == k {
            assert(s[s.len() - 1].0 == k);
        } else {
            assert(forall|i: int| 0 <= i < s.len() - 1 ==> s.drop_last()[i] == s[i]);
            if as_map(s).contains_key(k) {
                let i = choose|i: int| 0 <= i < s.drop_last().len() && s.drop_last()[i].0 == k;
                assert(s[i].0 == k);
            }
            if exists|i: int| 0 <= i < s.len() && s[i].0 == k {
                let i = choose|i: int| 0 <= i < s.len() && s[i].0 == k;
                assert(i < s.len() - 1);
                assert(s.drop_last()[i].0 == k);
            }
        }
    }
}

pub proof fn lemma_as_map_index<V>(s: Seq<(Seq<char>, V)>, i: int)
    requires
        keys_unique(s),
        0 <= i < s.len(),
    ensures
        as_map(s).contains_key(s[i].0),
        as_map(s)[s[i].0] == s[i].1,
    decreases s.len(),
{
    if i == s.len() - 1 {
    } else {
        assert(keys_unique(s.drop_last())) by {
            assert(forall|x: int| 0 <= x < s.len() - 1 ==> s.drop_last()[x] == s[x]);
        }
        assert(s.drop_last()[i] == s[i]);
        lemma_as_map_index(s.drop_last(), i);
        assert(s.last().0 != s[i].0);
    }
}

pub proof fn lemma_as_map_push<V>(s: Seq<(Seq<char>, V)>, k: Seq<char>, v: V)
    ensures
        as_map(s.push((k, v))) == as_map(s).insert(k, v),
{
    assert(s.push((k, v)).drop_last() =~= s);
    assert(s.push((k, v)).last() == (k, v));
}

pub proof fn lemma_as_map_update<V>(s: Seq<(Seq<char>, V)>, i: int, v: V)
    requires
        keys_unique(s),
        0 <= i < s.len(),
    ensures
        as_map(s.update(i, (s[i].0, v))) == as_map(s).insert(s[i].0, v),
        keys_unique(s.update(i, (s[i].0, v))),
    decreases s.len(),
{
    let k = s[i].0;
    let t = s.update(i, (k, v));
    assert(forall|x: int, y: int| 0 <= x < y < t.len() ==> t[x].0 != t[y].0) by {
        assert(forall|x: int| 0 <= x < s.len() ==> t[x].0 == s[x].0);
    }
    if i == s.len() - 1 {
        assert(t.drop_last() =~= s.drop_last());
        assert(t.last() == (k, v));
        assert(as_map(s.drop_last()).insert(k, s.last().1).insert(k, v) =~= as_map(
            s.drop_last(),
        ).insert(k, v));
        assert(s.last().0 == k && s.last().1 == s[i].1);
    } else {
        assert(keys_unique(s.drop_last())) by {
            assert(forall|x: int| 0 <= x < s.len() - 1 ==> s.drop_last()[x] == s[x]);
        }
        assert(s.drop_last()[i] == s[i]);
        lemma_as_map_update(s.drop_last(), i, v);
        assert(t.drop_last() =~= s.drop_last().update(i, (k, v)));
        assert(t.last() == s.last());
        let l0 = s.last().0;
        let l1 = s.last().1;
        assert(l0 != k) by {
            assert(s[s.len() - 1].0 == l0);
        }
        assert(as_map(s.drop_last()).insert(k, v).insert(l0, l1) =~= as_map(
            s.drop_last(),
        ).insert(l0, l1).insert(k, v));
    }
}

/// The concurrency-safe capture buffer: correlation key to capture entry.
/// The holder is expected to guard it with one exclusive lock; every
/// operation below is one short critical section.
pub struct CaptureStore {
    entries: Vec<(String, RequestResponseData)>,
}

pub open spec fn entry_pairs_view(v: Seq<(String, RequestResponseData)>) -> Seq<
    (Seq<char>, RequestResponseDataV),
> {
    v.map_values(|p: (String, RequestResponseData)| (p.0@, p.1@))
}

proof fn lemma_entry_pairs_pointwise(
    v: Seq<(String, RequestResponseData)>,
    s: Seq<(Seq<char>, RequestResponseDataV)>,
)
    requires
        v.len() == s.len(),
        forall|j: int| 0 <= j < v.len() ==> (#[trigger] v[j]).0@ == s[j].0 && v[j].1@ == s[j].1,
    ensures
        entry_pairs_view(v) == s,
{
    assert forall|j: int| 0 <= j < v.len() implies entry_pairs_view(v)[j] == s[j] by {
        assert(entry_pairs_view(v)[j] == (v[j].0@, v[j].1@));
    }
    assert(entry_pairs_view(v) =~= s);
}

impl View for CaptureStore {
    type V = Seq<(Seq<char>, RequestResponseDataV)>;

    closed spec fn view(&self) -> Seq<(Seq<char>, RequestResponseDataV)> {
        entry_pairs_view(self.entries@)
    }
}

/// One member of the store's JSON object: the key, a colon, the entry.
pub open spec fn store_members(s: Seq<(Seq<char>, RequestResponseDataV)>) -> Seq<Seq<char>> {
    s.map_values(|p: (Seq<char>, RequestResponseDataV)| spec_quoted(p.0) + seq![':']
        + spec_entry_json(p.1))
}

/// The JSON text of a whole store: an object keyed by correlation key.
pub open spec fn spec_store_json(s: Seq<(Seq<char>, RequestResponseDataV)>) -> Seq<char> {
    seq!['{'] + spec_join(store_members(s)) + seq!['}']
}

fn append_store_member(out: &mut String, key: &String, e: &RequestResponseData)
    ensures
        final(out)@ == old(out)@ + (spec_quoted(key@) + seq![':'] + spec_entry_json(e@)),
{
    append_quoted(out, key.as_str());
    string_push(out, ':');
    append_entry_json(out, e);
    assert(final(out)@ =~= old(out)@ + (spec_quoted(key@) + seq![':'] + spec_entry_json(e@)));
}

impl CaptureStore {
    /// Every entry is reachable under exactly one key.
    pub open spec fn wf(&self) -> bool {
        keys_unique(self@)
    }

    /// The mapping the store holds.
    pub open spec fn map_view(&self) -> Map<Seq<char>, RequestResponseDataV> {
        as_map(self@)
    }

    /// A store with no entries.
    pub fn new() -> (s: CaptureStore)
        ensures
            s@ == Seq::<(Seq<char>, RequestResponseDataV)>::empty(),
            s.wf(),
    {
        CaptureStore { entries: Vec::new() }
    }

    pub fn len(&self) -> (n: usize)
        ensures
            n == self@.len(),
    {
        self.entries.len()
    }

    fn find_index(&self, key: &str) -> (r: Option<usize>)
        ensures
            match r {
                Option::Some(i) => i < self@.len() && self@[i as int].0 == key@,
                Option::None => forall|i: int| 0 <= i < self@.len() ==> self@[i].0 != key@,
            },
    {
        let k: String = key.to_owned();
        let n = self.entries.len();
        for i in 0..n
            invariant
                n == self.entries@.len(),
                k@ == key@,
                forall|j: int| 0 <= j < i ==> self@[j].0 != key@,
        {
            if self.entries[i].0 == k {
                assert(self@[i as int].0 == key@);
                return Option::Some(i);
            }
        }
        Option::None
    }

    /// Create or replace the entry for `key` with a fresh one holding only
    /// the request snapshot: the moment a tracked send is dispatched.
    pub fn insert(&mut self, key: String, req: RequestData)
        requires
            old(self).wf(),
        ensures
            final(self).wf(),
            final(self).map_view() == old(self).map_view().insert(key@, fresh_entry(req@)),
    {
        let entry = RequestResponseData {
            request_data: req,
            response_data: Option::None,
            error: Option::None,
            cookies: Option::None,
        };
        let found = self.find_index(key.as_str());
        match found {
            Option::Some(i) => {
                proof {
                    lemma_as_map_update(self@, i as int, entry@);
                }
                self.entries[i] = (key, entry);
                assert(self@ =~= entry_pairs_view(old(self).entries@).update(
                    i as int,
                    (old(self)@[i as int].0, entry@),
                ));
            },
            Option::None => {
                proof {
                    lemma_as_map_push(self@, key@, entry@);
                }
                self.entries.push((key, entry));
                assert(self@ =~= entry_pairs_view(old(self).entries@).push((key@, entry@)));
                assert(forall|x: int, y: int|
                    0 <= x < y < self@.len() ==> self@[x].0 != self@[y].0);
            },
        }
    }

    /// If `key` is present, set its response snapshot and jar dump; if the
    /// key disappeared meanwhile, do nothing.
    pub fn record_success(&mut self, key: &str, resp: ResponseData, jar_dump: Option<String>)
        requires
            old(self).wf(),
        ensures
            final(self).wf(),
            old(self).map_view().contains_key(key@) ==> final(self).map_view() == old(
                self,
            ).map_view().insert(
                key@,
                with_success(
                    old(self).map_view()[key@],
                    resp@,
                    crate::model::opt_view(jar_dump),
                ),
            ),
            !old(self).map_view().contains_key(key@) ==> final(self)@ == old(self)@,
    {
        let found = self.find_index(key);
        match found {
            Option::Some(i) => {
                let k = self.entries[i].0.clone();
                let entry = RequestResponseData {
                    request_data: self.entries[i].1.request_data.clone(),
                    response_data: Option::Some(resp),
                    error: clone_opt(&self.entries[i].1.error),
                    cookies: jar_dump,
                };
                proof {
                    lemma_as_map_index(self@, i as int);
                    lemma_as_map_update(self@, i as int, entry@);
                    lemma_as_map_contains(self@, key@);
                }
                self.entries[i] = (k, entry);
                assert(self@ =~= entry_pairs_view(old(self).entries@).update(
                    i as int,
                    (old(self)@[i as int].0, entry@),
                ));
            },
            Option::None => {
                proof {
                    lemma_as_map_contains(self@, key@);
                }
            },
        }
    }

    /// If `key` is present, set its error message, keeping any previously
    /// recorded response; if the key disappeared meanwhile, do nothing.
    pub fn record_error(&mut self, key: &str, message: String)
        requires
            old(self).wf(),
        ensures
            final(self).wf(),
            old(self).map_view().contains_key(key@) ==> final(self).map_view() == old(
                self,
            ).map_view().insert(key@, with_error(old(self).map_view()[key@], message@)),
            !old(self).map_view().contains_key(key@) ==> final(self)@ == old(self)@,
    {
        let found = self.find_index(key);
        match found {
            Option::Some(i) => {
                let k = self.entries[i].0.clone();
                let entry = RequestResponseData {
                    request_data: self.entries[i].1.request_data.clone(),
                    response_data: match &self.entries[i].1.response_data {
                        Option::Some(r) => Option::Some(r.clone()),
                        Option::None => Option::None,
                    },
                    error: Option::Some(message),
                    cookies: clone_opt(&self.entries[i].1.cookies),
                };
                proof {
                    lemma_as_map_index(self@, i as int);
                    lemma_as_map_update(self@, i as int, entry@);
                    lemma_as_map_contains(self@, key@);
                }
                self.entries[i] = (k, entry);
                assert(self@ =~= entry_pairs_view(old(self).entries@).update(
                    i as int,
                    (old(self)@[i as int].0, entry@),
                ));
            },
            Option::None => {
                proof {
                    lemma_as_map_contains(self@, key@);
                }
            },
        }
    }

    /// Read one entry.
    pub fn get(&self, key: &str) -> (r: Option<&RequestResponseData>)
        requires
            self.wf(),
        ensures
            match r {
                Option::Some(e) => self.map_view().contains_key(key@) && e@
                    == self.map_view()[key@],
                Option::None => !self.map_view().contains_key(key@),
            },
    {
        let found = self.find_index(key);
        proof {
            lemma_as_map_contains(self@, key@);
        }
        match found {
            Option::Some(i) => {
                proof {
                    lemma_as_map_index(self@, i as int);
                }
                Option::Some(&self.entries[i].1)
            },
            Option::None => Option::None,
        }
    }

    /// A consistent point-in-time copy of the whole store; the store itself
    /// is untouched.
    pub fn snapshot_all(&self) -> (r: CaptureStore)
        ensures
            r@ == self@,
    {
        let mut out: Vec<(String, RequestResponseData)> = Vec::new();
        let n = self.entries.len();
        for i in 0..n
            invariant
                n == self.entries@.len(),
                out@.len() == i,
                forall|j: int|
                    0 <= j < i ==> (#[trigger] out@[j]).0@ == self@[j].0 && out@[j].1@
                        == self@[j].1,
        {
            out.push((self.entries[i].0.clone(), self.entries[i].1.clone()));
            proof {
                assert(self@[i as int] == (self.entries@[i as int].0@, self.entries@[i as int].1@));
            }
        }
        proof {
            lemma_entry_pairs_pointwise(out@, self@);
        }
        CaptureStore { entries: out }
    }

    /// Atomically snapshot and clear: one critical section of the holder's
    /// lock, so an insert that starts after the drain returns can never fall
    /// into the drained batch.
    pub fn drain_all(&mut self) -> (r: CaptureStore)
        ensures
            r@ == old(self)@,
            final(self)@ == Seq::<(Seq<char>, RequestResponseDataV)>::empty(),
            final(self).wf(),
            final(self).map_view() == Map::<Seq<char>, RequestResponseDataV>::empty(),
    {
        let r = self.snapshot_all();
        self.entries.clear();
        assert(self@ =~= Seq::<(Seq<char>, RequestResponseDataV)>::empty());
        r
    }

    /// Remove all entries unconditionally.
    pub fn clear(&mut self)
        ensures
            final(self)@ == Seq::<(Seq<char>, RequestResponseDataV)>::empty(),
            final(self).wf(),
            final(self).map_view() == Map::<Seq<char>, RequestResponseDataV>::empty(),
    {
        self.entries.clear();
        assert(self@ =~= Seq::<(Seq<char>, RequestResponseDataV)>::empty());
    }

    /// The JSON text of the whole store: one object keyed by correlation
    /// key, entries in insertion order.
    #[verifier::rlimit(100)]
    pub fn to_json(&self) -> (r: String)
        ensures
            r@ == spec_store_json(self@),
    {
        let ghost m: Seq<Seq<char>> = store_members(self@);
        let mut out = String::new();
        string_push(&mut out, '{');
        let n = self.entries.len();
        for i in 0..n
            invariant
                n == self.entries@.len(),
                m == store_members(self@),
                m.len() == n,
                i == 0 ==> out@ =~= seq!['{'],
                i > 0 ==> out@ + spec_join_rest(m.skip(i as int)) =~= seq!['{'] + spec_join(m),
        {
            if i > 0 {
                string_push(&mut out, ',');
            }
            let ghost mid = out@;
            append_store_member(&mut out, &self.entries[i].0, &self.entries[i].1);
            proof {
                assert(self@[i as int] == (self.entries@[i as int].0@, self.entries@[i as int].1@));
                assert(m[i as int] == spec_quoted(self@[i as int].0) + seq![':'] + spec_entry_json(
                    self@[i as int].1,
                ));
                assert(out@ == mid + m[i as int]);
                if i == 0 {
                    lemma_join_first(m);
                } else {
                    lemma_join_rest_skip(m, i as int);
                }
                assert(out@ + spec_join_rest(m.skip(i as int + 1)) =~= seq!['{'] + spec_join(m));
            }
        }
        proof {
            if n > 0 {
                assert(m.skip(n as int) =~= Seq::<Seq<char>>::empty());
            }
        }
        string_push(&mut out, '}');
        assert(out@ =~= spec_store_json(self@));
        out
    }

    /// A redacted copy of the whole store: every entry transformed by the
    /// truncation policy, the store itself untouched.
    pub fn redacted(&self) -> (r: CaptureStore)
        ensures
            r@ == crate::redact::redact_store_view(self@),
    {
        let mut out: Vec<(String, RequestResponseData)> = Vec::new();
        let n = self.entries.len();
        for i in 0..n
            invariant
                n == self.entries@.len(),
                out@.len() == i,
                forall|j: int|
                    0 <= j < i ==> (#[trigger] out@[j]).0@ == self@[j].0 && out@[j].1@
                        == crate::redact::redact_entry(self@[j].1),
        {
            out.push((
                self.entries[i].0.clone(),
                crate::redact::redact_entry_exec(&self.entries[i].1),
            ));
            proof {
                assert(self@[i as int] == (self.entries@[i as int].0@, self.entries@[i as int].1@));
            }
        }
        proof {
            let rs = crate::redact::redact_store_view(self@);
            assert forall|j: int| 0 <= j < n implies (#[trigger] out@[j]).0@ == rs[j].0
                && out@[j].1@ == rs[j].1 by {
                assert(rs[j] == (self@[j].0, crate::redact::redact_entry(self@[j].1)));
            }
            lemma_entry_pairs_pointwise(out@, rs);
        }
        CaptureStore { entries: out }
    }

    /// The JSON text of the redacted copy of the store: what a human-safe
    /// rendering shows. The store itself is untouched.
    pub fn to_redacted_json(&self) -> (r: String)
        ensures
            r@ == spec_store_json(crate::redact::redact_store_view(self@)),
    {
        let redacted = self.redacted();
        redacted.to_json()
    }

    /// Serialize the whole store and clear it in one step.
    pub fn take_json(&mut self) -> (r: String)
        ensures
            r@ == spec_store_json(old(self)@),
            final(self)@ == Seq::<(Seq<char>, RequestResponseDataV)>::empty(),
            final(self).wf(),
    {
        let r = self.to_json();
        self.entries.clear();
        assert(self@ =~= Seq::<(Seq<char>, RequestResponseDataV)>::empty());
        r
    }
}

} // verus!
