//! The library's general guarantees, stated and proved once over the spec
//! functions the executable contracts use.

use vstd::prelude::*;
use crate::model::{RequestDataV, RequestResponseDataV, ResponseDataV};
use crate::redact::redact_store_view;
use crate::store::{as_map, fresh_entry, spec_store_json, with_error, with_success, CaptureStore};

verus! {

/// A send recorded as successful holds a response and no error; a send
/// recorded as failed holds an error and no response. Both outcomes start
/// from the entry an insert leaves behind, so the two fields are mutually
/// exclusive over a dispatch-then-outcome round.
pub proof fn lemma_outcome_fields_exclusive(
    q: RequestDataV,
    r: ResponseDataV,
    d: Option<Seq<char>>,
    m: Seq<char>,
)
    ensures
        with_success(fresh_entry(q), r, d).response_data == Option::Some(r),
        with_success(fresh_entry(q), r, d).error is None,
        with_error(fresh_entry(q), m).error == Option::Some(m),
        with_error(fresh_entry(q), m).response_data is None,
        with_success(fresh_entry(q), r, d).request_data == q,
        with_error(fresh_entry(q), m).request_data == q,
{
}

/// The same through the store's mapping: dispatching a send under `k` and
/// then recording its outcome leaves the mapping with an entry under `k`
/// whose fields show exactly that outcome, whatever the store held before.
pub proof fn lemma_store_reflects_outcome(
    m0: Map<Seq<char>, RequestResponseDataV>,
    k: Seq<char>,
    q: RequestDataV,
    r: ResponseDataV,
    d: Option<Seq<char>>,
    msg: Seq<char>,
)
    ensures
        ({
            let m1 = m0.insert(k, fresh_entry(q));
            let m2 = m1.insert(k, with_success(m1[k], r, d));
            m2.contains_key(k) && m2[k].response_data == Option::Some(r) && m2[k].error is None
        }),
        ({
            let m1 = m0.insert(k, fresh_entry(q));
            let m2 = m1.insert(k, with_error(m1[k], msg));
            m2.contains_key(k) && m2[k].error == Option::Some(msg) && m2[k].response_data is None
        }),
{
}

/// An insert performed after a drain has returned lands in the emptied
/// store, so it is visible to every later snapshot; nothing is left for it
/// to merge into, the drained batch having been handed out as it stood.
pub proof fn lemma_insert_after_drain_visible(store: CaptureStore, k: Seq<char>, q: RequestDataV)
    requires
        store@ == Seq::<(Seq<char>, RequestResponseDataV)>::empty(),
    ensures
        store.map_view() == Map::<Seq<char>, RequestResponseDataV>::empty(),
        store.map_view().insert(k, fresh_entry(q)).contains_key(k),
        store.map_view().insert(k, fresh_entry(q))[k] == fresh_entry(q),
{
    assert(as_map(store@) =~= Map::<Seq<char>, RequestResponseDataV>::empty());
}

/// Redacted rendering is a pure function of the store's state: two
/// renderings of the same state are character-for-character identical. The
/// rendering reads the store through a shared reference, so the stored
/// snapshot itself is never altered by it.
pub proof fn lemma_render_twice_equal(
    s: Seq<(Seq<char>, RequestResponseDataV)>,
    r1: Seq<char>,
    r2: Seq<char>,
)
    requires
        r1 == spec_store_json(redact_store_view(s)),
        r2 == spec_store_json(redact_store_view(s)),
    ensures
        r1 == r2,
{
}

} // verus!
