//! Laws of the bridge, stated and proved over the same spec functions its
//! operations are specified with.

use vstd::prelude::*;
use crate::errors::ErrV;
use crate::meta::spec_row_count;
use crate::obj::ObjT;
use crate::obj::wf_obj;
use crate::rows::RowV;
use crate::rows::spec_rows_of_value;
use crate::rows::supports_rows;
use crate::worker::ActV;
use crate::worker::CmdV;
use crate::worker::RespV;
use crate::worker::StateV;
use crate::worker::WorkerState;
use crate::worker::spec_cancel;
use crate::worker::spec_get_rows;
use crate::worker::spec_release;
use crate::worker::spec_step;

verus! {

/// Law: handle ids are strictly increasing and never reused for the
/// lifetime of one worker. The worker's allocation history is strictly
/// increasing, every live handle is a past allocation, and the next handle
/// to be issued was never issued before.
pub proof fn lemma_handles_never_reused(s: WorkerState)
    requires
        s.inv(),
    ensures
        forall|i: int, j: int|
            0 <= i < j < s@.allocated.len() ==> #[trigger] s@.allocated[i] < #[trigger] s@
                .allocated[j],
        !s@.allocated.contains(s@.next_handle),
{
    if s@.allocated.contains(s@.next_handle) {
        let i = choose|i: int|
            0 <= i < s@.allocated.len() && (#[trigger] s@.allocated[i]) == s@.next_handle;
        assert(s@.allocated[i] < s@.next_handle);
    }
}

/// Law: a cancel delivered before the matching execute completes makes
/// that execute resolve cancelled, directs no evaluation, and never
/// allocates a handle for it.
pub proof fn lemma_cancel_suppresses_execute(s: StateV, id: Seq<char>, code: Seq<char>)
    ensures
        ({
            let s1 = spec_cancel(s, id);
            let (s2, act) = spec_step(s1, CmdV::Execute { query_id: id, code });
            &&& act == ActV::Reply(RespV::QueryResult(Err(ErrV::Cancelled)))
            &&& s2.handles == s1.handles
            &&& s2.next_handle == s1.next_handle
            &&& s2.allocated == s1.allocated
        }),
{
}

/// Law: after a release, fetching rows for that handle fails with the
/// invalid-handle error; releasing it a second time is a no-op that held
/// nothing, not an error.
pub proof fn lemma_release_then_get_rows(s: StateV, h: u64, start: u64, count: u64)
    ensures
        ({
            let s1 = spec_release(s, h).0;
            &&& spec_get_rows(s1, h, start, count) == Err::<Seq<RowV>, ErrV>(
                ErrV::InvalidHandle(h),
            )
            &&& spec_release(s1, h).0 == s1
            &&& spec_release(s1, h).1 == false
        }),
{
    let s1 = spec_release(s, h).0;
    assert(s1.handles.remove(h) =~= s1.handles);
}

/// Law: a row window whose offset is at or past the value's row count is
/// an empty list, never an error.
pub proof fn lemma_rows_past_end_empty(v: ObjT, start: u64, count: u64)
    requires
        wf_obj(v),
        supports_rows(v),
        start >= spec_row_count(v),
    ensures
        spec_rows_of_value(v, start as int, count as int) == Ok::<Seq<RowV>, ErrV>(
            Seq::empty(),
        ),
{
    match v {
        ObjT::List(elems) => {
            assert(spec_rows_of_value(v, start as int, count as int)->Ok_0 =~= Seq::empty());
        },
        ObjT::Vector { .. } => {
            assert(spec_rows_of_value(v, start as int, count as int)->Ok_0 =~= Seq::empty());
        },
        ObjT::Table { .. } => {
            assert(spec_rows_of_value(v, start as int, count as int)->Ok_0 =~= Seq::empty());
        },
        ObjT::Dict { .. } => {
            assert(spec_rows_of_value(v, start as int, count as int)->Ok_0 =~= Seq::empty());
        },
        _ => {
            assert(spec_rows_of_value(v, start as int, count as int)->Ok_0 =~= Seq::empty());
        },
    }
}

/// Law: a row window that overshoots the end returns exactly the rows from
/// its offset to the end — `row_count - start` of them.
pub proof fn lemma_rows_clamped_to_end(v: ObjT, start: u64, count: u64)
    requires
        wf_obj(v),
        supports_rows(v),
        start < spec_row_count(v),
        start + count > spec_row_count(v),
    ensures
        spec_rows_of_value(v, start as int, count as int) matches Ok(rows) && rows.len()
            == spec_row_count(v) - start,
{
}

/// Law: fetching rows for a stored value at or past its row count returns
/// an empty list, never an error.
pub proof fn lemma_get_rows_past_end_empty(s: StateV, h: u64, start: u64, count: u64)
    requires
        s.handles.contains_key(h),
        wf_obj(s.handles[h]),
        supports_rows(s.handles[h]),
        start >= spec_row_count(s.handles[h]),
    ensures
        spec_get_rows(s, h, start, count) == Ok::<Seq<RowV>, ErrV>(Seq::empty()),
{
    lemma_rows_past_end_empty(s.handles[h], start, count);
}

/// Law: fetching a window that overshoots a stored value's end returns
/// exactly `row_count - start` rows.
pub proof fn lemma_get_rows_clamped_to_end(s: StateV, h: u64, start: u64, count: u64)
    requires
        s.handles.contains_key(h),
        wf_obj(s.handles[h]),
        supports_rows(s.handles[h]),
        start < spec_row_count(s.handles[h]),
        start + count > spec_row_count(s.handles[h]),
    ensures
        spec_get_rows(s, h, start, count) matches Ok(rows) && rows.len() == spec_row_count(
            s.handles[h],
        ) - start,
{
    lemma_rows_clamped_to_end(s.handles[h], start, count);
}

/// Law: shutdown releases exactly the handles present in the table at that
/// moment, and leaves none stored.
pub proof fn lemma_shutdown_releases_all(s: StateV)
    ensures
        ({
            let (s2, act) = spec_step(s, CmdV::Shutdown);
            &&& s2.handles == Map::<u64, ObjT>::empty()
            &&& act == ActV::Stop(s.handles.dom())
        }),
{
}

} // verus!
