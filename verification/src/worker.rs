//! The worker's state and command dispatch: the handle table mapping opaque
//! numeric handles to stored engine values, the set of cancelled query ids,
//! and the monotone handle allocator.
//!
//! Exactly one dedicated worker owns a value of [`WorkerState`]; every other
//! execution context reaches it only through a command channel. The channel,
//! the thread and the engine calls live outside this crate; what they
//! deliver and what must be replied is decided here.

use vstd::prelude::*;
use vstd::seq_lib::*;
use crate::errors::BridgeError;
use crate::errors::ErrV;
use crate::errors::err_view;
use crate::json::Row;
use crate::materialize::extract_error_message;
use crate::materialize::spec_err_msg;
use crate::meta::MetaV;
use crate::meta::QueryMeta;
use crate::meta::extract_query_meta;
use crate::meta::meta_view;
use crate::meta::spec_meta;
use crate::obj::ObjT;
use crate::obj::wf_obj;
use crate::rows::RowV;
use crate::rows::rows_of_value;
use crate::rows::rows_result_view;
use crate::rows::spec_rows_of_value;
use vstd::string::StringExecFns;

verus! {

/// Mathematical view of the worker's state.
pub struct StateV {
    /// The handle table: one stored engine value per live handle.
    pub handles: Map<u64, ObjT>,
    /// The next handle to allocate; handles count up from 1 and are never
    /// reused.
    pub next_handle: u64,
    /// The query ids marked for discard.
    pub cancelled: Set<Seq<char>>,
    /// Every handle ever allocated, in allocation order.
    pub allocated: Seq<u64>,
}

/// The handle table a sorted entry sequence denotes.
pub open spec fn entries_map(s: Seq<(u64, ObjT)>) -> Map<u64, ObjT>
    decreases s.len(),
{
    if s.len() == 0 {
        Map::empty()
    } else {
        entries_map(s.drop_last()).insert(s.last().0, s.last().1)
    }
}

/// Whether the entry keys are strictly increasing.
pub open spec fn keys_sorted(s: Seq<(u64, ObjT)>) -> bool {
    forall|i: int, j: int| 0 <= i < j < s.len() ==> (#[trigger] s[i]).0 < (#[trigger] s[j]).0
}

/// The set of ids a sequence of strings denotes.
pub open spec fn strings_set(s: Seq<String>) -> Set<Seq<char>> {
    Set::new(|x: Seq<char>| exists|i: int| 0 <= i < s.len() && (#[trigger] s[i])@ == x)
}

/// Whether no two strings of the sequence are equal.
pub open spec fn nodup_strings(s: Seq<String>) -> bool {
    forall|i: int, j: int| 0 <= i < j < s.len() ==> (#[trigger] s[i])@ != (#[trigger] s[j])@
}

/// What `entries_map` holds: a key is present exactly when some entry
/// carries it, and with strictly increasing keys each entry's value is the
/// one mapped.
pub proof fn lemma_entries_map(s: Seq<(u64, ObjT)>)
    ensures
        forall|h: u64| #[trigger]
            entries_map(s).contains_key(h) <==> exists|i: int|
                0 <= i < s.len() && (#[trigger] s[i]).0 == h,
        keys_sorted(s) ==> forall|i: int|
            0 <= i < s.len() ==> entries_map(s).contains_key((#[trigger] s[i]).0)
                && entries_map(s)[s[i].0] == s[i].1,
    decreases s.len(),
{
    if s.len() > 0 {
        let pre = s.drop_last();
        lemma_entries_map(pre);
        assert forall|h: u64| #[trigger]
            entries_map(s).contains_key(h) implies exists|i: int|
            0 <= i < s.len() && (#[trigger] s[i]).0 == h by {
            if h == s.last().0 {
                assert((#[trigger] s[s.len() - 1]).0 == h);
            } else {
                assert(entries_map(pre).contains_key(h));
                let i = choose|i: int| 0 <= i < pre.len() && (#[trigger] pre[i]).0 == h;
                assert((#[trigger] s[i]).0 == h);
            }
        }
        assert forall|h: u64|
            (exists|i: int|
                0 <= i < s.len() && (#[trigger] s[i]).0 == h) implies #[trigger] entries_map(
            s,
        ).contains_key(h) by {
            let i = choose|i: int| 0 <= i < s.len() && (#[trigger] s[i]).0 == h;
            if i == s.len() - 1 {
            } else {
                assert((#[trigger] pre[i]).0 == h);
                assert(entries_map(pre).contains_key(h));
            }
        }
        if keys_sorted(s) {
            assert(keys_sorted(pre)) by {
                assert forall|i: int, j: int|
                    0 <= i < j < pre.len() implies (#[trigger] pre[i]).0 < (
                    #[trigger] pre[j]).0 by {
                    assert(s[i] == pre[i] && s[j] == pre[j]);
                }
            }
            assert forall|i: int|
                0 <= i < s.len() implies entries_map(s).contains_key((#[trigger] s[i]).0)
                && entries_map(s)[s[i].0] == s[i].1 by {
                if i == s.len() - 1 {
                } else {
                    assert(pre[i] == s[i]);
                    assert(s[i].0 < s[s.len() - 1].0);
                    assert(entries_map(pre)[pre[i].0] == pre[i].1);
                }
            }
        }
    }
}

/// Appending an entry inserts its key.
pub proof fn lemma_entries_map_push(s: Seq<(u64, ObjT)>, h: u64, v: ObjT)
    ensures
        entries_map(s.push((h, v))) == entries_map(s).insert(h, v),
{
    let s2 = s.push((h, v));
    assert(s2.drop_last() =~= s);
    assert(s2.last() == (h, v));
    assert(entries_map(s2) == entries_map(s).insert(h, v));
}

/// Removing the entry at `i` removes its key.
pub proof fn lemma_entries_map_remove(s: Seq<(u64, ObjT)>, i: int)
    requires
        keys_sorted(s),
        0 <= i < s.len(),
    ensures
        entries_map(s.remove(i)) == entries_map(s).remove(s[i].0),
        keys_sorted(s.remove(i)),
{
    let s2 = s.remove(i);
    s.remove_ensures(i);
    assert(keys_sorted(s2)) by {
        assert forall|a: int, b: int|
            0 <= a < b < s2.len() implies (#[trigger] s2[a]).0 < (#[trigger] s2[b]).0 by {
            let a0 = if a < i {
                a
            } else {
                a + 1
            };
            let b0 = if b < i {
                b
            } else {
                b + 1
            };
            assert(s2[a] == s[a0] && s2[b] == s[b0]);
        }
    }
    lemma_entries_map(s);
    lemma_entries_map(s2);
    let m1 = entries_map(s2);
    let m2 = entries_map(s).remove(s[i].0);
    assert forall|h: u64| m1.contains_key(h) implies m2.contains_key(h) && m1[h] == m2[h] by {
        let j = choose|j: int| 0 <= j < s2.len() && (#[trigger] s2[j]).0 == h;
        let j0 = if j < i {
            j
        } else {
            j + 1
        };
        assert(s2[j] == s[j0]);
        assert(h != s[i].0) by {
            if j0 < i {
                assert(s[j0].0 < s[i].0);
            } else {
                assert(s[i].0 < s[j0].0);
            }
        }
        assert(entries_map(s).contains_key(h) && entries_map(s)[h] == s[j0].1);
        assert(m1[h] == s2[j].1);
    }
    assert forall|h: u64| m2.contains_key(h) implies m1.contains_key(h) by {
        assert(entries_map(s).contains_key(h) && h != s[i].0);
        let j0 = choose|j0: int| 0 <= j0 < s.len() && (#[trigger] s[j0]).0 == h;
        assert(j0 != i);
        let j = if j0 < i {
            j0
        } else {
            j0 - 1
        };
        assert(s2[j] == s[j0]);
        assert((#[trigger] s2[j]).0 == h);
    }
    assert(m1 =~= m2);
}

/// Removing the string at `i` removes its id from the set, when no two
/// strings are equal.
pub proof fn lemma_strings_remove(s: Seq<String>, i: int)
    requires
        nodup_strings(s),
        0 <= i < s.len(),
    ensures
        strings_set(s.remove(i)) == strings_set(s).remove(s[i]@),
        nodup_strings(s.remove(i)),
{
    let s2 = s.remove(i);
    s.remove_ensures(i);
    assert(nodup_strings(s2)) by {
        assert forall|a: int, b: int|
            0 <= a < b < s2.len() implies (#[trigger] s2[a])@ != (#[trigger] s2[b])@ by {
            let a0 = if a < i {
                a
            } else {
                a + 1
            };
            let b0 = if b < i {
                b
            } else {
                b + 1
            };
            assert(s2[a] == s[a0] && s2[b] == s[b0]);
        }
    }
    let t1 = strings_set(s2);
    let t2 = strings_set(s).remove(s[i]@);
    assert forall|x: Seq<char>| t1.contains(x) implies t2.contains(x) by {
        let j = choose|j: int| 0 <= j < s2.len() && (#[trigger] s2[j])@ == x;
        let j0 = if j < i {
            j
        } else {
            j + 1
        };
        assert(s2[j] == s[j0]);
        assert((#[trigger] s[j0])@ == x);
        assert(x != s[i]@) by {
            if j0 < i {
                assert(s[j0]@ != s[i]@);
            } else {
                assert(s[i]@ != s[j0]@);
            }
        }
    }
    assert forall|x: Seq<char>| t2.contains(x) implies t1.contains(x) by {
        let j0 = choose|j0: int| 0 <= j0 < s.len() && (#[trigger] s[j0])@ == x;
        assert(j0 != i);
        let j = if j0 < i {
            j0
        } else {
            j0 - 1
        };
        assert(s2[j] == s[j0]);
        assert((#[trigger] s2[j])@ == x);
    }
    assert(t1 =~= t2);
}

/// The worker's state: the handle table, the next handle to allocate, and
/// the cancelled query ids. All handles and cancellations are volatile:
/// a fresh state is empty.
pub struct WorkerState {
    /// The handle table, as entries with strictly increasing keys.
    pub handles: Vec<(u64, ObjT)>,
    /// The next handle to allocate.
    pub next_handle: u64,
    /// The cancelled query ids, each held once.
    pub cancelled: Vec<String>,
    /// Every handle ever allocated, in allocation order.
    pub allocated: Ghost<Seq<u64>>,
}

impl View for WorkerState {
    type V = StateV;

    open spec fn view(&self) -> StateV {
        StateV {
            handles: entries_map(self.handles@),
            next_handle: self.next_handle,
            cancelled: strings_set(self.cancelled@),
            allocated: self.allocated@,
        }
    }
}

impl WorkerState {
    /// The state invariant: entry keys are strictly increasing, every live
    /// or past handle was allocated below the monotone counter, every
    /// stored value is well-formed, and no cancelled id is held twice.
    pub open spec fn inv(&self) -> bool {
        &&& keys_sorted(self.handles@)
        &&& forall|i: int|
            0 <= i < self.handles@.len() ==> 1 <= (#[trigger] self.handles@[i]).0
                < self.next_handle
        &&& forall|i: int| 0 <= i < self.handles@.len() ==> wf_obj((#[trigger] self.handles@[i]).1)
        &&& self.next_handle >= 1
        &&& nodup_strings(self.cancelled@)
        &&& forall|i: int, j: int|
            0 <= i < j < self.allocated@.len() ==> (#[trigger] self.allocated@[i]) < (
            #[trigger] self.allocated@[j])
        &&& forall|i: int|
            0 <= i < self.allocated@.len() ==> 1 <= (#[trigger] self.allocated@[i])
                < self.next_handle
        &&& forall|i: int|
            0 <= i < self.handles@.len() ==> self.allocated@.contains(
                (#[trigger] self.handles@[i]).0,
            )
    }

    /// A fresh worker state: no handles, no cancellations, handles counting
    /// from 1.
    pub fn new() -> (r: WorkerState)
        ensures
            r.inv(),
            r@.handles == Map::<u64, ObjT>::empty(),
            r@.next_handle == 1,
            r@.cancelled == Set::<Seq<char>>::empty(),
            r@.allocated == Seq::<u64>::empty(),
    {
        let r = WorkerState {
            handles: Vec::new(),
            next_handle: 1,
            cancelled: Vec::new(),
            allocated: Ghost(Seq::empty()),
        };
        proof {
            assert(r@.cancelled =~= Set::<Seq<char>>::empty());
        }
        r
    }

    /// Whether `query_id` is marked cancelled.
    pub fn is_cancelled(&self, query_id: &String) -> (r: bool)
        ensures
            r == self@.cancelled.contains(query_id@),
    {
        let mut k: usize = 0;
        while k < self.cancelled.len()
            invariant
                0 <= k <= self.cancelled@.len(),
                forall|i: int| 0 <= i < k ==> (#[trigger] self.cancelled@[i])@ != query_id@,
            decreases self.cancelled@.len() - k,
        {
            if self.cancelled[k] == *query_id {
                return true;
            }
            k += 1;
        }
        false
    }

    /// Marks `query_id` cancelled: its next matching delivery is discarded.
    pub fn cancel(&mut self, query_id: String)
        requires
            old(self).inv(),
        ensures
            final(self).inv(),
            final(self)@ == spec_cancel(old(self)@, query_id@),
    {
        if !self.is_cancelled(&query_id) {
            let ghost pre = self.cancelled@;
            self.cancelled.push(query_id);
            proof {
                assert forall|x: Seq<char>|
                    strings_set(self.cancelled@).contains(x) implies strings_set(pre).insert(
                    query_id@,
                ).contains(x) by {
                    let i = choose|i: int|
                        0 <= i < self.cancelled@.len() && (#[trigger] self.cancelled@[i])@ == x;
                    if i < pre.len() {
                        assert((#[trigger] pre[i])@ == x);
                    }
                }
                assert forall|x: Seq<char>|
                    strings_set(pre).insert(query_id@).contains(x) implies strings_set(
                    self.cancelled@,
                ).contains(x) by {
                    if x == query_id@ {
                        assert((#[trigger] self.cancelled@[pre.len() as int])@ == x);
                    } else {
                        let i = choose|i: int| 0 <= i < pre.len() && (#[trigger] pre[i])@ == x;
                        assert((#[trigger] self.cancelled@[i])@ == x);
                    }
                }
                assert(strings_set(self.cancelled@) =~= strings_set(pre).insert(query_id@));
            }
        } else {
            proof {
                assert(strings_set(self.cancelled@) =~= strings_set(self.cancelled@).insert(
                    query_id@,
                ));
            }
        }
    }

    /// Removes `query_id` from the cancelled set and reports whether it was
    /// there: a cancellation is consumed, not sticky.
    pub fn take_cancelled(&mut self, query_id: &String) -> (r: bool)
        requires
            old(self).inv(),
        ensures
            final(self).inv(),
            r == old(self)@.cancelled.contains(query_id@),
            final(self)@ == spec_take_cancelled(old(self)@, query_id@),
    {
        let mut k: usize = 0;
        while k < self.cancelled.len()
            invariant
                0 <= k <= self.cancelled@.len(),
                forall|i: int| 0 <= i < k ==> (#[trigger] self.cancelled@[i])@ != query_id@,
                *self == *old(self),
                self.inv(),
            decreases self.cancelled@.len() - k,
        {
            if self.cancelled[k] == *query_id {
                proof {
                    lemma_strings_remove(self.cancelled@, k as int);
                }
                self.cancelled.remove(k);
                return true;
            }
            k += 1;
        }
        proof {
            assert(!strings_set(self.cancelled@).contains(query_id@));
            assert(strings_set(self.cancelled@) =~= strings_set(self.cancelled@).remove(
                query_id@,
            ));
        }
        false
    }

    /// Whether another handle can still be allocated.
    pub fn can_allocate(&self) -> (r: bool)
        ensures
            r == (self@.next_handle < u64::MAX),
    {
        self.next_handle < u64::MAX
    }

    /// Finds the table index holding `handle`.
    fn find_handle(&self, handle: u64) -> (r: Option<usize>)
        requires
            self.inv(),
        ensures
            match r {
                Option::Some(i) => {
                    &&& i < self.handles@.len()
                    &&& self.handles@[i as int].0 == handle
                    &&& self@.handles.contains_key(handle)
                    &&& self@.handles[handle] == self.handles@[i as int].1
                },
                Option::None => !self@.handles.contains_key(handle),
            },
    {
        let mut k: usize = 0;
        while k < self.handles.len()
            invariant
                0 <= k <= self.handles@.len(),
                forall|i: int| 0 <= i < k ==> (#[trigger] self.handles@[i]).0 != handle,
                self.inv(),
            decreases self.handles@.len() - k,
        {
            if self.handles[k].0 == handle {
                proof {
                    lemma_entries_map(self.handles@);
                }
                return Some(k);
            }
            k += 1;
        }
        proof {
            lemma_entries_map(self.handles@);
        }
        None
    }

    /// Serves a row window from the value stored under `handle`: fails with
    /// the invalid-handle error when the handle is unknown or already
    /// released, never for an out-of-range offset.
    pub fn get_rows(&self, handle: u64, start: u64, count: u64) -> (r: Result<
        Vec<Row>,
        BridgeError,
    >)
        requires
            self.inv(),
        ensures
            rows_result_view(r) == spec_get_rows(self@, handle, start, count),
    {
        match self.find_handle(handle) {
            Some(i) => {
                proof {
                    assert(wf_obj(self.handles@[i as int].1));
                }
                rows_of_value(&self.handles[i].1, start, count)
            },
            None => Err(BridgeError::InvalidHandle(handle)),
        }
    }

    /// Releases `handle`: removes and drops its stored value. Reports
    /// whether a value was held, so the owner of the underlying resource
    /// can free it; releasing an absent handle is a no-op, not an error.
    pub fn release(&mut self, handle: u64) -> (r: bool)
        requires
            old(self).inv(),
        ensures
            final(self).inv(),
            final(self)@ == spec_release(old(self)@, handle).0,
            r == spec_release(old(self)@, handle).1,
    {
        match self.find_handle(handle) {
            Some(i) => {
                proof {
                    lemma_entries_map_remove(self.handles@, i as int);
                    self.handles@.remove_ensures(i as int);
                }
                let ghost pre = self.handles@;
                self.handles.remove(i);
                proof {
                    assert forall|j: int|
                        0 <= j < self.handles@.len() implies 1 <= (
                        #[trigger] self.handles@[j]).0 < self.next_handle && wf_obj(
                        self.handles@[j].1,
                    ) && self.allocated@.contains(self.handles@[j].0) by {
                        let j0 = if j < i as int {
                            j
                        } else {
                            j + 1
                        };
                        assert(self.handles@[j] == pre[j0]);
                    }
                }
                true
            },
            None => {
                proof {
                    assert(old(self)@.handles.remove(handle) =~= old(self)@.handles);
                }
                false
            },
        }
    }

    /// Delivers an evaluation outcome: a null outcome and an error value
    /// fail this call only and allocate nothing; any other value is stored
    /// under the next handle (strictly greater than every handle allocated
    /// before) and described by the returned metadata.
    pub fn store_result(&mut self, outcome: Option<ObjT>) -> (r: Result<QueryMeta, BridgeError>)
        requires
            old(self).inv(),
            old(self).next_handle < u64::MAX,
            outcome matches Some(v) ==> wf_obj(v),
        ensures
            final(self).inv(),
            final(self)@ == spec_store(old(self)@, outcome).0,
            store_view(r) == spec_store(old(self)@, outcome).1,
    {
        match outcome {
            None => Err(
                BridgeError::EvaluationError(String::from_str("evaluation returned nothing")),
            ),
            Some(v) => {
                match v {
                    ObjT::ErrObj { names, vals } => Err(
                        BridgeError::EvaluationError(extract_error_message(&names, &vals)),
                    ),
                    _ => {
                        let h = self.next_handle;
                        self.next_handle = self.next_handle + 1;
                        let meta = extract_query_meta(h, &v);
                        proof {
                            lemma_entries_map_push(self.handles@, h, v);
                        }
                        let ghost pre = self.handles@;
                        let ghost pre_alloc = self.allocated@;
                        self.handles.push((h, v));
                        proof {
                            self.allocated@ = pre_alloc.push(h);
                        }
                        proof {
                            assert forall|j: int|
                                0 <= j < self.handles@.len() implies 1 <= (
                                #[trigger] self.handles@[j]).0 < self.next_handle && wf_obj(
                                self.handles@[j].1,
                            ) by {
                                if j < pre.len() {
                                    assert(self.handles@[j] == pre[j]);
                                }
                            }
                            assert(keys_sorted(self.handles@)) by {
                                assert forall|a: int, b: int|
                                    0 <= a < b < self.handles@.len() implies (
                                    #[trigger] self.handles@[a]).0 < (
                                    #[trigger] self.handles@[b]).0 by {
                                    if a < pre.len() {
                                        assert(self.handles@[a] == pre[a]);
                                    }
                                    if b < pre.len() {
                                        assert(self.handles@[b] == pre[b]);
                                    }
                                }
                            }
                            assert forall|j: int|
                                0 <= j < self.handles@.len() implies self.allocated@.contains(
                                (#[trigger] self.handles@[j]).0,
                            ) by {
                                if j < pre.len() {
                                    assert(self.handles@[j] == pre[j]);
                                    let w = choose|w: int|
                                        0 <= w < pre_alloc.len() && pre_alloc[w] == pre[j].0;
                                    assert(self.allocated@[w] == pre[j].0);
                                } else {
                                    assert(self.allocated@[pre_alloc.len() as int] == h);
                                }
                            }
                            assert forall|a: int, b: int|
                                0 <= a < b < self.allocated@.len() implies (
                                #[trigger] self.allocated@[a]) < (
                                #[trigger] self.allocated@[b]) by {
                                if a < pre_alloc.len() {
                                    assert(self.allocated@[a] == pre_alloc[a]);
                                }
                                if b < pre_alloc.len() {
                                    assert(self.allocated@[b] == pre_alloc[b]);
                                }
                            }
                            assert forall|j: int|
                                0 <= j < self.allocated@.len() implies 1 <= (
                                #[trigger] self.allocated@[j]) < self.next_handle by {
                                if j < pre_alloc.len() {
                                    assert(self.allocated@[j] == pre_alloc[j]);
                                }
                            }
                        }
                        Ok(meta)
                    },
                }
            },
        }
    }

    /// Shuts the worker down: every handle still present in the table is
    /// released, and the released handles are returned so the owner of the
    /// underlying resources can free each one. No engine-owned value
    /// outlives the worker.
    pub fn shutdown(&mut self) -> (r: Vec<u64>)
        requires
            old(self).inv(),
        ensures
            final(self).inv(),
            final(self)@ == spec_shutdown(old(self)@),
            r@.len() == old(self).handles@.len(),
            forall|i: int| 0 <= i < r@.len() ==> (#[trigger] r@[i]) == old(self).handles@[i].0,
            forall|h: u64| old(self)@.handles.contains_key(h) <==> r@.contains(h),
    {
        let mut released: Vec<u64> = Vec::new();
        let mut k: usize = 0;
        while k < self.handles.len()
            invariant
                0 <= k <= self.handles@.len(),
                *self == *old(self),
                released@.len() == k,
                forall|i: int|
                    0 <= i < k ==> (#[trigger] released@[i]) == self.handles@[i].0,
            decreases self.handles@.len() - k,
        {
            let h = self.handles[k].0;
            released.push(h);
            k += 1;
        }
        self.handles = Vec::new();
        proof {
            assert(entries_map(self.handles@) =~= Map::<u64, ObjT>::empty());
            lemma_entries_map(old(self).handles@);
            assert forall|h: u64|
                old(self)@.handles.contains_key(h) implies released@.contains(h) by {
                let i = choose|i: int|
                    0 <= i < old(self).handles@.len() && (#[trigger] old(self).handles@[i]).0
                        == h;
                assert(released@[i] == h);
            }
            assert forall|h: u64|
                released@.contains(h) implies old(self)@.handles.contains_key(h) by {
                let i = choose|i: int|
                    0 <= i < released@.len() && (#[trigger] released@[i]) == h;
                assert((old(self).handles@[i]).0 == h);
            }
        }
        released
    }

    /// Gates a delivered execute command: consumes a pending cancellation
    /// (replying cancelled without evaluating), rejects malformed source,
    /// and otherwise directs the caller to evaluate. No branch touches the
    /// handle table or allocates a handle.
    pub fn begin_execute(&mut self, query_id: &String, code: &String) -> (g: ExecuteGate)
        requires
            old(self).inv(),
        ensures
            final(self).inv(),
            final(self)@ == spec_begin(old(self)@, query_id@, code@).0,
            gate_view(g) == spec_begin(old(self)@, query_id@, code@).1,
    {
        if self.take_cancelled(query_id) {
            ExecuteGate::Cancelled
        } else {
            proof {
                assert(old(self)@.cancelled.remove(query_id@) =~= old(self)@.cancelled);
            }
            if !source_ok(code) {
                ExecuteGate::Rejected(BridgeError::InvalidInput)
            } else {
                ExecuteGate::Proceed
            }
        }
    }

    /// Dispatches one delivered command and says what to do next: reply,
    /// evaluate (for an execute that passed its gate), or stop. Commands
    /// from possibly different senders are applied in delivery order by
    /// the single consumer that owns this state.
    pub fn step(&mut self, cmd: RayCommand) -> (a: StepAction)
        requires
            old(self).inv(),
        ensures
            final(self).inv(),
            final(self)@ == spec_step(old(self)@, cmd_view(cmd)).0,
            act_view(a) == spec_step(old(self)@, cmd_view(cmd)).1,
    {
        match cmd {
            RayCommand::Execute { query_id, code } => {
                match self.begin_execute(&query_id, &code) {
                    ExecuteGate::Cancelled => StepAction::Reply(
                        RayResponse::QueryResult(Err(BridgeError::Cancelled)),
                    ),
                    ExecuteGate::Rejected(e) => StepAction::Reply(
                        RayResponse::QueryResult(Err(e)),
                    ),
                    ExecuteGate::Proceed => StepAction::NeedEval { code },
                }
            },
            RayCommand::GetRows { handle, start, count } => StepAction::Reply(
                RayResponse::Rows(self.get_rows(handle, start, count)),
            ),
            RayCommand::Release { handle } => StepAction::Reply(
                RayResponse::Released(self.release(handle)),
            ),
            RayCommand::Cancel { query_id } => {
                self.cancel(query_id);
                StepAction::Reply(RayResponse::Cancelled)
            },
            RayCommand::Shutdown => {
                let released = self.shutdown();
                proof {
                    assert(released@.to_set() =~= old(self)@.handles.dom());
                }
                StepAction::Stop { released }
            },
        }
    }

    /// Delivers the evaluation outcome of an execute that passed its gate,
    /// and wraps the stored-result reply for the response channel.
    pub fn finish_execute(&mut self, outcome: Option<ObjT>) -> (r: RayResponse)
        requires
            old(self).inv(),
            old(self).next_handle < u64::MAX,
            outcome matches Some(v) ==> wf_obj(v),
        ensures
            final(self).inv(),
            final(self)@ == spec_store(old(self)@, outcome).0,
            resp_view(r) == RespV::QueryResult(spec_store(old(self)@, outcome).1),
    {
        RayResponse::QueryResult(self.store_result(outcome))
    }
}

/// The state after marking `id` cancelled.
pub open spec fn spec_cancel(s: StateV, id: Seq<char>) -> StateV {
    StateV { cancelled: s.cancelled.insert(id), ..s }
}

/// The state after consuming a pending cancellation of `id`.
pub open spec fn spec_take_cancelled(s: StateV, id: Seq<char>) -> StateV {
    StateV { cancelled: s.cancelled.remove(id), ..s }
}

/// The state and result of a release: the handle's entry is dropped, and
/// whether a value was actually held is reported (releasing an absent
/// handle is a no-op, not an error).
pub open spec fn spec_release(s: StateV, handle: u64) -> (StateV, bool) {
    (StateV { handles: s.handles.remove(handle), ..s }, s.handles.contains_key(handle))
}

/// The row-window result served for `handle`: the stored value's clamped
/// rows, or the invalid-handle error when the handle is absent.
pub open spec fn spec_get_rows(s: StateV, handle: u64, start: u64, count: u64) -> Result<
    Seq<RowV>,
    ErrV,
> {
    if s.handles.contains_key(handle) {
        spec_rows_of_value(s.handles[handle], start as int, count as int)
    } else {
        Err(ErrV::InvalidHandle(handle))
    }
}

/// The state and reply after an evaluation outcome is delivered: a null
/// outcome and an error value fail the call and leave the state unchanged
/// (no handle is allocated); any other value is stored under the next
/// handle, which is consumed, and its metadata is returned.
pub open spec fn spec_store(s: StateV, outcome: Option<ObjT>) -> (StateV, Result<MetaV, ErrV>) {
    match outcome {
        Option::None => (s, Err(ErrV::EvaluationError("evaluation returned nothing"@))),
        Option::Some(ObjT::ErrObj { names, vals }) => (
            s,
            Err(ErrV::EvaluationError(spec_err_msg(names@, vals@))),
        ),
        Option::Some(v) => (
            StateV {
                handles: s.handles.insert(s.next_handle, v),
                next_handle: (s.next_handle + 1) as u64,
                cancelled: s.cancelled,
                allocated: s.allocated.push(s.next_handle),
            },
            Ok(spec_meta(s.next_handle, v)),
        ),
    }
}

/// The state after shutdown: every handle still present is released.
pub open spec fn spec_shutdown(s: StateV) -> StateV {
    StateV { handles: Map::empty(), ..s }
}

/// Mathematical view of a stored-result reply.
pub open spec fn store_view(r: Result<QueryMeta, BridgeError>) -> Result<MetaV, ErrV> {
    match r {
        Ok(m) => Ok(meta_view(m)),
        Err(e) => Err(err_view(e)),
    }
}

/// Whether source text is acceptable to hand to the engine: it must not
/// embed a null character.
pub open spec fn spec_source_ok(code: Seq<char>) -> bool {
    forall|i: int| 0 <= i < code.len() ==> code[i] != '\0'
}

/// Checks source text for an embedded null character.
pub fn source_ok(code: &String) -> (r: bool)
    ensures
        r == spec_source_ok(code@),
{
    let s = code.as_str();
    let n = s.unicode_len();
    let mut k: usize = 0;
    while k < n
        invariant
            0 <= k <= n,
            n == s@.len(),
            s@ == code@,
            forall|i: int| 0 <= i < k ==> code@[i] != '\0',
        decreases n - k,
    {
        if s.get_char(k) == '\0' {
            return false;
        }
        k += 1;
    }
    true
}

/// How the delivery of an execute command is gated, before any evaluation.
#[derive(Debug, PartialEq, Eq)]
pub enum ExecuteGate {
    /// A pending cancellation was consumed: reply cancelled, evaluate
    /// nothing.
    Cancelled,
    /// The source text was rejected: reply with the error, evaluate
    /// nothing.
    Rejected(BridgeError),
    /// Evaluate the source and deliver the outcome.
    Proceed,
}

/// Mathematical view of an execute gate.
pub enum GateV {
    /// A pending cancellation was consumed.
    Cancelled,
    /// The source text was rejected.
    Rejected(ErrV),
    /// Evaluate the source and deliver the outcome.
    Proceed,
}

/// Mathematical view of an execute gate.
pub open spec fn gate_view(g: ExecuteGate) -> GateV {
    match g {
        ExecuteGate::Cancelled => GateV::Cancelled,
        ExecuteGate::Rejected(e) => GateV::Rejected(err_view(e)),
        ExecuteGate::Proceed => GateV::Proceed,
    }
}

/// The state and gate when an execute command for `id` is delivered: a
/// pending cancellation is consumed and suppresses the call, malformed
/// source is rejected, and anything else proceeds to evaluation. No branch
/// touches the handle table.
pub open spec fn spec_begin(s: StateV, id: Seq<char>, code: Seq<char>) -> (StateV, GateV) {
    if s.cancelled.contains(id) {
        (spec_take_cancelled(s, id), GateV::Cancelled)
    } else if !spec_source_ok(code) {
        (s, GateV::Rejected(ErrV::InvalidInput))
    } else {
        (s, GateV::Proceed)
    }
}

/// A command delivered to the worker. Execute and get-rows carry a reply;
/// release, cancel and shutdown are fire-and-forget.
#[derive(Debug, PartialEq, Eq)]
pub enum RayCommand {
    /// Execute a query, store the result, and reply with its metadata.
    Execute { query_id: String, code: String },
    /// Reply with a row window from a stored result.
    GetRows { handle: u64, start: u64, count: u64 },
    /// Release a stored result.
    Release { handle: u64 },
    /// Mark a pending query cancelled.
    Cancel { query_id: String },
    /// Stop the worker, releasing every stored result.
    Shutdown,
}

/// A reply produced while dispatching commands.
#[derive(Debug, PartialEq, Eq)]
pub enum RayResponse {
    /// The reply to an execute command.
    QueryResult(Result<QueryMeta, BridgeError>),
    /// The reply to a get-rows command.
    Rows(Result<Vec<Row>, BridgeError>),
    /// Whether a release command actually dropped a value.
    Released(bool),
    /// A cancel command was recorded.
    Cancelled,
}

/// What the worker's owner must do after one command is dispatched.
#[derive(Debug, PartialEq, Eq)]
pub enum StepAction {
    /// Send this reply to the command's response channel.
    Reply(RayResponse),
    /// Evaluate the source against the engine and deliver the outcome.
    NeedEval { code: String },
    /// Exit the loop; the returned handles' values were dropped and their
    /// underlying resources must be freed.
    Stop { released: Vec<u64> },
}

/// Mathematical view of a command.
pub enum CmdV {
    /// Execute a query.
    Execute { query_id: Seq<char>, code: Seq<char> },
    /// Fetch a row window.
    GetRows { handle: u64, start: u64, count: u64 },
    /// Release a stored result.
    Release { handle: u64 },
    /// Mark a pending query cancelled.
    Cancel { query_id: Seq<char> },
    /// Stop the worker.
    Shutdown,
}

/// Mathematical view of a command.
pub open spec fn cmd_view(c: RayCommand) -> CmdV {
    match c {
        RayCommand::Execute { query_id, code } => CmdV::Execute {
            query_id: query_id@,
            code: code@,
        },
        RayCommand::GetRows { handle, start, count } => CmdV::GetRows { handle, start, count },
        RayCommand::Release { handle } => CmdV::Release { handle },
        RayCommand::Cancel { query_id } => CmdV::Cancel { query_id: query_id@ },
        RayCommand::Shutdown => CmdV::Shutdown,
    }
}

/// Mathematical view of a reply.
pub enum RespV {
    /// The reply to an execute command.
    QueryResult(Result<MetaV, ErrV>),
    /// The reply to a get-rows command.
    Rows(Result<Seq<RowV>, ErrV>),
    /// Whether a release dropped a value.
    Released(bool),
    /// A cancel was recorded.
    Cancelled,
}

/// Mathematical view of a reply.
pub open spec fn resp_view(r: RayResponse) -> RespV {
    match r {
        RayResponse::QueryResult(res) => RespV::QueryResult(store_view(res)),
        RayResponse::Rows(res) => RespV::Rows(rows_result_view(res)),
        RayResponse::Released(b) => RespV::Released(b),
        RayResponse::Cancelled => RespV::Cancelled,
    }
}

/// Mathematical view of a step action.
pub enum ActV {
    /// Send this reply.
    Reply(RespV),
    /// Evaluate this source and deliver the outcome.
    NeedEval(Seq<char>),
    /// Exit the loop; exactly these handles were released.
    Stop(Set<u64>),
}

/// Mathematical view of a step action.
pub open spec fn act_view(a: StepAction) -> ActV {
    match a {
        StepAction::Reply(r) => ActV::Reply(resp_view(r)),
        StepAction::NeedEval { code } => ActV::NeedEval(code@),
        StepAction::Stop { released } => ActV::Stop(released@.to_set()),
    }
}

/// The state and action after one command is dispatched, by command tag:
/// an execute is admitted or refused before any evaluation, get-rows and
/// release act on the handle table, cancel marks the id, and shutdown
/// releases every handle present and stops the loop.
pub open spec fn spec_step(s: StateV, c: CmdV) -> (StateV, ActV) {
    match c {
        CmdV::Execute { query_id, code } => {
            let (s2, g) = spec_begin(s, query_id, code);
            match g {
                GateV::Cancelled => (s2, ActV::Reply(RespV::QueryResult(Err(ErrV::Cancelled)))),
                GateV::Rejected(e) => (s2, ActV::Reply(RespV::QueryResult(Err(e)))),
                GateV::Proceed => (s2, ActV::NeedEval(code)),
            }
        },
        CmdV::GetRows { handle, start, count } => (
            s,
            ActV::Reply(RespV::Rows(spec_get_rows(s, handle, start, count))),
        ),
        CmdV::Release { handle } => (
            spec_release(s, handle).0,
            ActV::Reply(RespV::Released(spec_release(s, handle).1)),
        ),
        CmdV::Cancel { query_id } => (spec_cancel(s, query_id), ActV::Reply(RespV::Cancelled)),
        CmdV::Shutdown => (spec_shutdown(s), ActV::Stop(s.handles.dom())),
    }
}

} // verus!
