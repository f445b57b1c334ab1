//! Mapping blobs into the host-visible window.
//!
//! A mapping is begun, taken to the host by the caller, and finished. Offsets
//! below the reserve are placed by the caller, the others by the allocator.
use crate::counters::{TableCounters, WindowOverlapTruncated};
use crate::error::VirtioError;
use crate::gpu::{GpuState, VirtioGpu};
use crate::owner::OwnerFilter;
use crate::pci_caps::HostVisibleWindow;
use crate::seqs::{first_index, lemma_first_index, lemma_first_index_exists, lemma_no_first_index,
    position, some, swap_removed};
use crate::tables::{ids_of, ranges_apart, BlobMapBegin, BlobMapFinish, BlobMapPrep, BlobRemapBegin,
    BlobSlot, TableStats, TablesState};
use crate::window::{law_alloc_takes_available, law_free_returns_exactly, round_up_page, WindowState,
    BLOB_PAGE, MAX_BLOB_MAP_BYTES};
use vstd::prelude::*;

verus! {

impl VirtioGpu {
    /// Begin mapping a blob: answer with its mapping, or hold a window range for
    /// the map request that the caller then sends.
    pub fn blob_map_begin(&mut self, owner: OwnerFilter, resource_id: u32) -> (r: BlobMapBegin)
        requires
            old(self)@.tables.wf(),
        ensures
            r == old(self)@.tables.map_begun(owner, resource_id).0,
            final(self)@ == (GpuState {
                tables: old(self)@.tables.map_begun(owner, resource_id).1,
                ..old(self)@
            }),
            final(self)@.tables.wf(),
            r matches BlobMapBegin::Start { offset, len } ==> final(self)@.tables.holds(
                resource_id,
                offset,
                len,
            ),
            final(self)@.follows(old(self)@),
    {
        let ghost before = self@.tables;
        let window = match self.tables.host_visible {
            Some(w) => w,
            None => return BlobMapBegin::Failed(VirtioError::DeviceError),
        };
        let admitted = |s: &BlobSlot| -> (b: bool)
            ensures
                b == BlobSlot::admitted(owner, resource_id)(*s),
            { s.resource_id == resource_id && owner.matches_owner(s.owner) };
        let idx: usize = match position(
            &self.tables.blobs,
            admitted,
            Ghost(BlobSlot::admitted(owner, resource_id)),
        ) {
            Some(i) => i,
            None => return BlobMapBegin::Failed(VirtioError::DeviceError),
        };
        let slot: BlobSlot = self.tables.blobs[idx];
        if slot.mapped {
            return BlobMapBegin::Mapped(
                BlobMapPrep {
                    gpa: window.base.wrapping_add(slot.map_offset),
                    size: slot.map_len,
                    map_cache: slot.map_cache,
                },
            );
        }
        if slot.map_pending {
            return BlobMapBegin::Busy;
        }
        let map_len: u64 = round_up_page(slot.size);
        if map_len == 0 || map_len > MAX_BLOB_MAP_BYTES {
            return BlobMapBegin::Failed(VirtioError::DeviceError);
        }
        let offset: u64 = match self.tables.window.alloc_range(map_len, &mut self.tables.counters) {
            Ok(o) => o,
            Err(e) => return BlobMapBegin::Failed(e),
        };
        self.tables.blobs[idx] = BlobSlot {
            map_pending: true,
            map_offset: offset,
            map_len,
            ..slot
        };
        proof {
            lemma_map_begin_keeps_ranges(before, idx as int, map_len);
            let t = self@.tables;
            lemma_first_index_exists(before.window.free, WindowState::fits(map_len));
            assert(offset + map_len <= u64::MAX);
            assert forall|k: int| 0 <= k < t.blobs.len() implies (#[trigger] t.blobs[k]).wf() by {
                assert(before.blobs[k].wf());
            }
            assert forall|a: int, b: int| 0 <= a < b < t.blobs.len() implies (
            #[trigger] t.blobs[a]).resource_id != (#[trigger] t.blobs[b]).resource_id by {
                assert(before.blobs[a].resource_id != before.blobs[b].resource_id);
            }
            lemma_awaiting(t, idx as int);
        }
        BlobMapBegin::Start { offset, len: map_len }
    }

    /// Record the host's verdict on a map request: its caching mode, or `None` if
    /// it refused. The range is the one that the request was begun with.
    pub fn blob_map_finish(
        &mut self,
        resource_id: u32,
        offset: u64,
        len: u64,
        cache: Option<u32>,
    ) -> (r: BlobMapFinish)
        requires
            old(self)@.tables.wf(),
            old(self)@.tables.holds(resource_id, offset, len),
        ensures
            r == old(self)@.tables.map_finished(resource_id, offset, len, cache).0,
            final(self)@ == (GpuState {
                tables: old(self)@.tables.map_finished(resource_id, offset, len, cache).1,
                ..old(self)@
            }),
            final(self)@.tables.wf(),
            r is SlotGone ==> final(self)@.tables.returnable(offset, len),
            final(self)@.follows(old(self)@),
    {
        proof {
            law_map_finish_keeps_wf(old(self)@.tables, resource_id, offset, len, cache);
        }
        let awaiting = |s: &BlobSlot| -> (b: bool)
            ensures
                b == BlobSlot::awaiting(resource_id, offset)(*s),
            { s.resource_id == resource_id && s.map_pending && s.map_offset == offset };
        let idx: usize = match position(
            &self.tables.blobs,
            awaiting,
            Ghost(BlobSlot::awaiting(resource_id, offset)),
        ) {
            Some(i) => i,
            None => {
                if cache.is_none() {
                    self.tables.window.free(offset, len, &mut self.tables.counters);
                    return BlobMapFinish::HostRejected;
                }
                return BlobMapFinish::SlotGone;
            },
        };
        let window_base: u64 = match self.tables.host_visible {
            Some(w) => w.base,
            None => 0,
        };
        let slot: BlobSlot = self.tables.blobs[idx];
        match cache {
            Some(c) => {
                self.tables.blobs[idx] = BlobSlot {
                    map_pending: false,
                    mapped: true,
                    map_cache: c,
                    ..slot
                };
                BlobMapFinish::Done(
                    BlobMapPrep { gpa: window_base.wrapping_add(offset), size: len, map_cache: c },
                )
            },
            None => {
                self.tables.blobs[idx] = BlobSlot {
                    map_pending: false,
                    map_offset: 0,
                    map_len: 0,
                    ..slot
                };
                self.tables.window.free(offset, len, &mut self.tables.counters);
                BlobMapFinish::HostRejected
            },
        }
    }

    /// Return a window range whose mapping the caller has undone. Nobody else uses it.
    pub fn free_window_range_pub(&mut self, offset: u64, len: u64)
        requires
            old(self)@.tables.wf(),
            old(self)@.tables.returnable(offset, len),
        ensures
            final(self)@ == (GpuState {
                tables: old(self)@.tables.after_window_free(offset, len),
                ..old(self)@
            }),
            final(self)@.tables.wf(),
            final(self)@.follows(old(self)@),
    {
        proof {
            law_free_keeps_wf(old(self)@.tables, offset, len);
        }
        self.tables.window.free(offset, len, &mut self.tables.counters);
    }

    /// Reserve the first `len` bytes of the window for placements by the memory
    /// manager; refused and counted the second time, and once an offset was issued.
    pub fn configure_window_reserve(&mut self, len: u64) -> (r: bool)
        ensures
            r == old(self)@.tables.window_reserved(len).0,
            final(self)@ == (GpuState { tables: old(self)@.tables.window_reserved(len).1, ..old(self)@ }),
            old(self)@.tables.wf() ==> final(self)@.tables.wf(),
            final(self)@.follows(old(self)@),
    {
        proof {
            if old(self)@.tables.wf() && old(self)@.tables.window.may_reserve() {
                let t = old(self)@.tables;
                assert forall|i: int| 0 <= i < t.blobs.len() implies !(
                #[trigger] t.blobs[i]).active() by {
                    if t.blobs[i].active() {
                        assert(t.window.issued(t.blobs[i].map_offset, t.blobs[i].map_len));
                        assert(t.window.available(t.blobs[i].map_offset as int));
                    }
                }
            }
        }
        if self.tables.window.reserve_set || !self.tables.window.is_pristine() {
            self.tables.counters.window_reconfig_refused =
                self.tables.counters.window_reconfig_refused.wrapping_add(1);
            return false;
        }
        self.tables.window.reserve = len;
        self.tables.window.next_offset = len;
        self.tables.window.reserve_set = true;
        true
    }

    /// Begin mapping a blob at a page-aligned `offset` inside the reserve. A
    /// mapping elsewhere is handed back to be undone.
    pub fn blob_remap_begin(&mut self, resource_id: u32, offset: u64) -> (r: BlobRemapBegin)
        ensures
            r == old(self)@.tables.remap_begun(resource_id, offset).0,
            final(self)@ == (GpuState {
                tables: old(self)@.tables.remap_begun(resource_id, offset).1,
                ..old(self)@
            }),
            old(self)@.tables.wf() ==> final(self)@.tables.wf() && (
            r matches BlobRemapBegin::Start { old: prior, len } ==> {
                &&& offset < final(self)@.tables.window.reserve
                &&& final(self)@.tables.holds(resource_id, offset, len)
                &&& prior matches Some(range) ==> final(self)@.tables.returnable(range.0, range.1)
            }),
            final(self)@.follows(old(self)@),
    {
        let window = match self.tables.host_visible {
            Some(w) => w,
            None => return BlobRemapBegin::Failed(VirtioError::DeviceError),
        };
        let named = |s: &BlobSlot| -> (b: bool)
            ensures
                b == BlobSlot::named(resource_id)(*s),
            { s.resource_id == resource_id };
        let idx: usize = match position(
            &self.tables.blobs,
            named,
            Ghost(BlobSlot::named(resource_id)),
        ) {
            Some(i) => i,
            None => return BlobRemapBegin::Failed(VirtioError::DeviceError),
        };
        let slot: BlobSlot = self.tables.blobs[idx];
        if slot.map_pending {
            return BlobRemapBegin::Busy;
        }
        if slot.mapped && slot.map_offset == offset {
            return BlobRemapBegin::Mapped(
                BlobMapPrep {
                    gpa: window.base.wrapping_add(slot.map_offset),
                    size: slot.map_len,
                    map_cache: slot.map_cache,
                },
            );
        }
        let map_len: u64 = round_up_page(slot.size);
        if map_len == 0 || map_len > MAX_BLOB_MAP_BYTES {
            return BlobRemapBegin::Failed(VirtioError::DeviceError);
        }
        if offset % BLOB_PAGE != 0 {
            return BlobRemapBegin::Failed(VirtioError::DeviceError);
        }
        match offset.checked_add(map_len) {
            Some(end) => {
                if end > self.tables.window.reserve {
                    return BlobRemapBegin::Failed(VirtioError::DeviceError);
                }
            },
            None => return BlobRemapBegin::Failed(VirtioError::DeviceError),
        }
        let old_range = if slot.mapped {
            Some((slot.map_offset, slot.map_len))
        } else {
            None
        };
        self.tables.blobs[idx] = BlobSlot {
            map_pending: true,
            mapped: false,
            map_offset: offset,
            map_len,
            ..slot
        };
        proof {
            if old(self)@.tables.wf() {
                lemma_changed_wf(old(self)@.tables, self@.tables, idx as int);
                lemma_awaiting(self@.tables, idx as int);
                if slot.mapped {
                    lemma_left_range(old(self)@.tables, self@.tables, idx as int);
                }
            }
        }
        BlobRemapBegin::Start { old: old_range, len: map_len }
    }

    /// The blobs other than `keep_resource_id` that are mapped over
    /// `[offset, offset + len)` inside the reserve, in table order. `Err` if `out`
    /// is too small for them: it then holds the first ones.
    pub fn blobs_overlapping(
        &mut self,
        offset: u64,
        len: u64,
        keep_resource_id: u32,
        out: &mut [u32],
    ) -> (r: Result<usize, WindowOverlapTruncated>)
        ensures
            ({
                let ids = old(self)@.tables.in_the_way(offset, len, keep_resource_id);
                match r {
                    Ok(n) => {
                        &&& ids.len() <= old(out)@.len()
                        &&& n == ids.len()
                        &&& final(out)@ == ids + old(out)@.skip(n as int)
                        &&& final(self)@ == old(self)@
                    },
                    Err(_) => {
                        &&& ids.len() > old(out)@.len()
                        &&& final(out)@ == ids.take(old(out)@.len() as int)
                        &&& final(self)@ == (GpuState {
                            tables: TablesState {
                                counters: TableCounters {
                                    window_overlap_truncated:
                                        old(
                                        self,
                                    )@.tables.counters.window_overlap_truncated.wrapping_add(1),
                                    ..old(self)@.tables.counters
                                },
                                ..old(self)@.tables
                            },
                            ..old(self)@
                        })
                    },
                }
            }),
            final(self)@.follows(old(self)@),
    {
        let ghost p = BlobSlot::in_the_way(
            offset,
            len,
            keep_resource_id,
            self@.tables.window.reserve,
        );
        let ghost blobs = self@.tables.blobs;
        let end: u64 = offset.saturating_add(len);
        let mut n: usize = 0;
        let mut i: usize = 0;
        proof {
            reveal(Seq::filter);
            assert(blobs.take(0).filter(p) =~= Seq::empty());
        }
        while i < self.tables.blobs.len()
            invariant
                self@ == old(self)@,
                blobs == self@.tables.blobs,
                p == BlobSlot::in_the_way(
                    offset,
                    len,
                    keep_resource_id,
                    self@.tables.window.reserve,
                ),
                end == offset.saturating_add(len),
                i <= blobs.len(),
                n <= out@.len(),
                out@.len() == old(out)@.len(),
                n == blobs.take(i as int).filter(p).len(),
                out@ =~= ids_of(blobs.take(i as int).filter(p)) + old(out)@.skip(n as int),
            decreases blobs.len() - i,
        {
            let s: BlobSlot = self.tables.blobs[i];
            proof {
                reveal(Seq::filter);
                assert(blobs.take(i + 1).drop_last() =~= blobs.take(i as int));
                assert(blobs.take(i + 1).last() == s);
            }
            if s.mapped && s.resource_id != keep_resource_id && s.map_offset
                < self.tables.window.reserve && s.map_offset < end && s.map_offset.saturating_add(
                s.map_len,
            ) > offset {
                if n == out.len() {
                    self.tables.counters.window_overlap_truncated =
                        self.tables.counters.window_overlap_truncated.wrapping_add(1);
                    proof {
                        lemma_filter_prefix(blobs, p, i + 1);
                        let now = blobs.take(i + 1).filter(p);
                        assert(now.take(n as int) =~= blobs.take(i as int).filter(p));
                        assert(blobs.filter(p).take(n as int) =~= now.take(n as int));
                        assert(ids_of(blobs.filter(p)).take(n as int) =~= ids_of(
                            blobs.filter(p).take(n as int),
                        ));
                    }
                    return Err(WindowOverlapTruncated);
                }
                out[n] = s.resource_id;
                n = n + 1;
            }
            i = i + 1;
        }
        proof {
            assert(blobs.take(i as int) =~= blobs);
        }
        Ok(n)
    }

    /// The blob mapped at exactly `offset`, if any.
    pub fn blob_resid_at_offset(&self, offset: u64) -> (r: Option<u32>)
        ensures
            r == self@.tables.resid_at(offset),
    {
        let here = |s: &BlobSlot| -> (b: bool)
            ensures
                b == BlobSlot::mapped_at(offset)(*s),
            { s.mapped && s.map_offset == offset };
        match position(&self.tables.blobs, here, Ghost(BlobSlot::mapped_at(offset))) {
            Some(i) => Some(self.tables.blobs[i].resource_id),
            None => None,
        }
    }

    /// Record that a blob's mapping was undone outside the release path. No
    /// window range is returned.
    pub fn blob_note_unmapped(&mut self, resource_id: u32)
        ensures
            final(self)@ == (GpuState {
                tables: old(self)@.tables.unmapped(resource_id),
                ..old(self)@
            }),
            old(self)@.tables.wf() ==> final(self)@.tables.wf(),
            final(self)@.follows(old(self)@),
    {
        let mapped = |s: &BlobSlot| -> (b: bool)
            ensures
                b == BlobSlot::mapped_as(resource_id)(*s),
            { s.resource_id == resource_id && s.mapped };
        if let Some(i) = position(
            &self.tables.blobs,
            mapped,
            Ghost(BlobSlot::mapped_as(resource_id)),
        ) {
            let slot: BlobSlot = self.tables.blobs[i];
            self.tables.blobs[i] = BlobSlot { mapped: false, map_offset: 0, map_len: 0, ..slot };
            proof {
                if old(self)@.tables.wf() {
                    lemma_changed_wf(old(self)@.tables, self@.tables, i as int);
                }
            }
        }
    }

    /// Move a blob's lifetime from its device to an allocation of the driver;
    /// `false` if the resource is dead, which is counted.
    pub fn adopt_blob_for_allocation(&mut self, resource_id: u32) -> (r: bool)
        ensures
            r == old(self)@.tables.adopted(resource_id).0,
            final(self)@ == (GpuState { tables: old(self)@.tables.adopted(resource_id).1, ..old(self)@ }),
            old(self)@.tables.wf() ==> final(self)@.tables.wf(),
            final(self)@.follows(old(self)@),
    {
        if !self.resource_is_live(resource_id) {
            self.tables.counters.adopt_dead_rejects =
                self.tables.counters.adopt_dead_rejects.wrapping_add(1);
            return false;
        }
        let named = |s: &BlobSlot| -> (b: bool)
            ensures
                b == BlobSlot::named(resource_id)(*s),
            { s.resource_id == resource_id };
        if let Some(i) = position(&self.tables.blobs, named, Ghost(BlobSlot::named(resource_id))) {
            let slot: BlobSlot = self.tables.blobs[i];
            self.tables.blobs[i] = BlobSlot { owner: None, ..slot };
            proof {
                if old(self)@.tables.wf() {
                    lemma_changed_wf(old(self)@.tables, self@.tables, i as int);
                }
            }
        }
        true
    }

    /// Stop tracking a driver-owned blob and return `(mapped, map_offset, map_len)`.
    pub fn forget_allocation_blob(&mut self, resource_id: u32) -> (r: Option<(bool, u64, u64)>)
        ensures
            r == old(self)@.tables.forgotten(resource_id).0,
            final(self)@ == (GpuState { tables: old(self)@.tables.forgotten(resource_id).1, ..old(self)@ }),
            old(self)@.tables.wf() ==> final(self)@.tables.wf() && (r matches Some(taken)
                ==> taken.0 ==> final(self)@.tables.returnable(taken.1, taken.2)),
            final(self)@.follows(old(self)@),
    {
        let ours = |s: &BlobSlot| -> (b: bool)
            ensures
                b == BlobSlot::driver_owned(resource_id)(*s),
            { s.owner.is_none() && s.resource_id == resource_id };
        match position(&self.tables.blobs, ours, Ghost(BlobSlot::driver_owned(resource_id))) {
            Some(i) => {
                let slot: BlobSlot = self.tables.blobs.swap_remove(i);
                proof {
                    if old(self)@.tables.wf() {
                        lemma_untracked_wf(old(self)@.tables, self@.tables, i as int);
                    }
                }
                Some((slot.mapped, slot.map_offset, slot.map_len))
            },
            None => None,
        }
    }

    /// Number of tracked blobs.
    pub fn blob_count(&self) -> (r: usize)
        ensures
            r == self@.tables.blobs.len(),
    {
        self.tables.blobs.len()
    }

    /// Occupancy of the tables and of the window.
    pub fn table_stats(&self) -> (r: TableStats)
        requires
            self@.tables.wf(),
        ensures
            r == self@.tables.stats(),
    {
        TableStats {
            blobs_live: self.tables.blobs.len() as u32,
            resources_live: self.tables.resources.len() as u32,
            contexts_live: self.tables.contexts.len() as u32,
            window_used: self.tables.window.used(),
            window_len: self.tables.window.window_len,
        }
    }

    /// The host-visible window, or `None` if the device exposes none.
    pub fn host_visible(&self) -> (r: Option<HostVisibleWindow>)
        ensures
            r == self@.tables.host_visible,
    {
        self.tables.host_visible
    }
}

/// The filtered prefix is a prefix of the filtered sequence.
proof fn lemma_filter_prefix(s: Seq<BlobSlot>, p: spec_fn(BlobSlot) -> bool, n: int)
    requires
        0 <= n <= s.len(),
    ensures
        s.take(n).filter(p).len() <= s.filter(p).len(),
        s.filter(p).take(s.take(n).filter(p).len() as int) == s.take(n).filter(p),
    decreases s.len(),
{
    reveal(Seq::filter);
    if n == s.len() {
        assert(s.take(n) =~= s);
        assert(s.filter(p).take(s.filter(p).len() as int) =~= s.filter(p));
    } else {
        let t = s.drop_last();
        lemma_filter_prefix(t, p, n);
        assert(t.take(n) =~= s.take(n));
        let k = s.take(n).filter(p).len() as int;
        assert(s.filter(p).take(k) =~= t.filter(p).take(k));
    }
}

/// A pending blob is the one that its map request waits for.
pub(crate) proof fn lemma_awaiting(t: TablesState, i: int)
    requires
        t.ids_distinct(),
        0 <= i < t.blobs.len(),
        t.blobs[i].map_pending,
    ensures
        first_index(t.blobs, BlobSlot::awaiting(t.blobs[i].resource_id, t.blobs[i].map_offset))
            == Some(i),
{
    let p = BlobSlot::awaiting(t.blobs[i].resource_id, t.blobs[i].map_offset);
    assert forall|j: int| 0 <= j < i implies !p(#[trigger] t.blobs[j]) by {
        assert(t.blobs[j].resource_id != t.blobs[i].resource_id);
    }
    lemma_first_index(t.blobs, p, i);
}

/// A new blob that uses no range keeps the tables consistent.
pub(crate) proof fn lemma_tracked_wf(t: TablesState, u: TablesState)
    requires
        t.wf(),
        u.window == t.window,
        u.blobs.len() == t.blobs.len() + 1,
        u.blobs.drop_last() == t.blobs,
        !u.blobs.last().active(),
        u.blobs.last().wf(),
        !some(t.blobs, BlobSlot::named(u.blobs.last().resource_id)),
    ensures
        u.wf(),
{
    let slot = u.blobs.last();
    assert(u.blobs =~= t.blobs.push(slot));
    law_tracking_keeps_ranges(t, slot, -1);
    assert forall|k: int| 0 <= k < u.blobs.len() implies (#[trigger] u.blobs[k]).wf() by {
        if k < t.blobs.len() {
            assert(u.blobs[k] == t.blobs[k]);
        }
    }
    assert forall|a: int, b: int| 0 <= a < b < u.blobs.len() implies (
    #[trigger] u.blobs[a]).resource_id != (#[trigger] u.blobs[b]).resource_id by {
        assert(u.blobs[a] == t.blobs[a]);
        if b < t.blobs.len() {
            assert(u.blobs[b] == t.blobs[b]);
        } else {
            assert(!BlobSlot::named(slot.resource_id)(t.blobs[a]));
        }
    }
}

/// A blob that is taken out keeps the tables consistent, and its range may be
/// returned.
pub(crate) proof fn lemma_untracked_wf(t: TablesState, u: TablesState, i: int)
    requires
        t.wf(),
        0 <= i < t.blobs.len(),
        u.window == t.window,
        u.blobs == swap_removed(t.blobs, i),
    ensures
        u.wf(),
        t.blobs[i].active() ==> u.returnable(t.blobs[i].map_offset, t.blobs[i].map_len),
{
    let last = t.blobs.len() - 1;
    law_tracking_keeps_ranges(t, BlobSlot::fresh(None, 0, 0, 0), i);
    assert forall|k: int| 0 <= k < u.blobs.len() implies (#[trigger] u.blobs[k]).wf() by {
        assert(u.blobs[k] == t.blobs[if k == i {
            last
        } else {
            k
        }]);
    }
    assert forall|a: int, b: int| 0 <= a < b < u.blobs.len() implies (
    #[trigger] u.blobs[a]).resource_id != (#[trigger] u.blobs[b]).resource_id by {
        let x = if a == i {
            last
        } else {
            a
        };
        let y = if b == i {
            last
        } else {
            b
        };
        assert(u.blobs[a] == t.blobs[x] && u.blobs[b] == t.blobs[y]);
        if x < y {
            assert(t.blobs[x].resource_id != t.blobs[y].resource_id);
        } else {
            assert(t.blobs[y].resource_id != t.blobs[x].resource_id);
        }
    }
    let s = t.blobs[i];
    assert(s.wf());
    if s.active() && s.map_offset >= t.window.reserve {
        assert forall|k: int|
            0 <= k < u.blobs.len() && (#[trigger] u.blobs[k]).active() && u.blobs[k].map_offset
                >= u.window.reserve implies u.blobs[k].map_end() <= s.map_offset || s.map_offset
            + s.map_len <= u.blobs[k].map_offset by {
            let src = if k == i {
                last
            } else {
                k
            };
            assert(u.blobs[k] == t.blobs[src]);
            if src < i {
                assert(ranges_apart(t.window.reserve, t.blobs[src], s));
            } else {
                assert(ranges_apart(t.window.reserve, s, t.blobs[src]));
            }
        }
        assert(u.unclaimed(s.map_offset, s.map_len));
    }
}

/// A blob that changes keeps the tables consistent if it keeps its id, and keeps
/// its range or uses none outside the reserve.
proof fn lemma_changed_wf(t: TablesState, u: TablesState, i: int)
    requires
        t.wf(),
        0 <= i < t.blobs.len(),
        u.window == t.window,
        u.blobs == t.blobs.update(i, u.blobs[i]),
        u.blobs[i].wf(),
        u.blobs[i].resource_id == t.blobs[i].resource_id,
        !u.blobs[i].active() || u.blobs[i].map_offset < t.window.reserve || (t.blobs[i].active()
            && u.blobs[i].map_offset == t.blobs[i].map_offset && u.blobs[i].map_len
            == t.blobs[i].map_len),
    ensures
        u.wf(),
{
    let slot = u.blobs[i];
    if !slot.active() || slot.map_offset < t.window.reserve {
        lemma_idle_keeps_ranges(t, i, slot);
    } else {
        lemma_same_range_keeps_ranges(t, i, slot);
    }
    assert(u.blobs =~= t.with_blob(i, slot).blobs);
    assert forall|k: int| 0 <= k < u.blobs.len() implies (#[trigger] u.blobs[k]).wf() by {
        assert(t.blobs[k].wf());
    }
    assert forall|a: int, b: int| 0 <= a < b < u.blobs.len() implies (
    #[trigger] u.blobs[a]).resource_id != (#[trigger] u.blobs[b]).resource_id by {
        assert(t.blobs[a].resource_id != t.blobs[b].resource_id);
    }
}

/// The range that a blob left may be returned.
proof fn lemma_left_range(t: TablesState, u: TablesState, i: int)
    requires
        t.wf(),
        0 <= i < t.blobs.len(),
        t.blobs[i].active(),
        u.window == t.window,
        u.blobs == t.blobs.update(i, u.blobs[i]),
        !u.blobs[i].active() || u.blobs[i].map_offset < t.window.reserve,
    ensures
        u.returnable(t.blobs[i].map_offset, t.blobs[i].map_len),
{
    let s = t.blobs[i];
    assert(s.wf());
    if s.map_offset >= t.window.reserve {
        assert forall|k: int|
            0 <= k < u.blobs.len() && (#[trigger] u.blobs[k]).active() && u.blobs[k].map_offset
                >= u.window.reserve implies u.blobs[k].map_end() <= s.map_offset || s.map_offset
            + s.map_len <= u.blobs[k].map_offset by {
            if k < i {
                assert(ranges_apart(t.window.reserve, t.blobs[k], s));
            } else if k > i {
                assert(ranges_apart(t.window.reserve, s, t.blobs[k]));
            }
        }
        assert(u.unclaimed(s.map_offset, s.map_len));
    }
}

/// Returning a range that nobody uses keeps the tables consistent.
pub proof fn law_free_keeps_wf(t: TablesState, offset: u64, len: u64)
    requires
        t.wf(),
        t.returnable(offset, len),
    ensures
        t.after_window_free(offset, len).wf(),
{
    if len > 0 && offset >= t.window.reserve {
        law_free_keeps_ranges(t, offset, len);
    }
}

/// A finished map request keeps the tables consistent.
pub proof fn law_map_finish_keeps_wf(
    t: TablesState,
    resource_id: u32,
    offset: u64,
    len: u64,
    cache: Option<u32>,
)
    requires
        t.wf(),
        t.holds(resource_id, offset, len),
    ensures
        t.map_finished(resource_id, offset, len, cache).1.wf(),
{
    let p = BlobSlot::awaiting(resource_id, offset);
    lemma_first_index_exists(t.blobs, p);
    match first_index(t.blobs, p) {
        Some(i) => {
            let s = t.blobs[i];
            assert(p(s));
            assert(s.wf());
            match cache {
                Some(c) => {
                    let slot = BlobSlot { map_pending: false, mapped: true, map_cache: c, ..s };
                    lemma_changed_wf(t, t.with_blob(i, slot), i);
                },
                None => {
                    let slot = BlobSlot { map_pending: false, map_offset: 0, map_len: 0, ..s };
                    let u = t.with_blob(i, slot);
                    lemma_changed_wf(t, u, i);
                    lemma_left_range(t, u, i);
                    law_free_keeps_wf(u, offset, len);
                },
            }
        },
        None => {
            if cache is None {
                law_free_keeps_wf(t, offset, len);
            }
        },
    }
}

pub(crate) proof fn lemma_map_begin_keeps_ranges(t: TablesState, i: int, len: u64)
    requires
        t.ranges_wf(),
        0 <= i < t.blobs.len(),
        !t.blobs[i].active(),
        0 < len <= MAX_BLOB_MAP_BYTES,
        t.window.after_alloc(len) is Some,
    ensures
        ({
            let (offset, window) = t.window.after_alloc(len)->0;
            let slot = BlobSlot {
                map_pending: true,
                map_offset: offset,
                map_len: len,
                ..t.blobs[i]
            };
            (TablesState { window, blobs: t.blobs.update(i, slot), ..t }).ranges_wf()
        }),
{
    let (offset, window) = t.window.after_alloc(len)->0;
    let slot = BlobSlot { map_pending: true, map_offset: offset, map_len: len, ..t.blobs[i] };
    let u = TablesState { window, blobs: t.blobs.update(i, slot), ..t };
    law_alloc_takes_available(t.window, len, offset as int);
    crate::window::law_alloc_keeps_wf(t.window, len);
    assert forall|k: int|
        0 <= k < u.blobs.len() && (#[trigger] u.blobs[k]).active() && u.blobs[k].map_offset
            >= u.window.reserve implies u.blobs[k].map_len > 0 && u.window.issued(
        u.blobs[k].map_offset,
        u.blobs[k].map_len,
    ) by {
        if k != i {
            let b = t.blobs[k];
            assert(t.window.issued(b.map_offset, b.map_len));
            assert forall|x: int| b.map_offset <= x < b.map_offset + b.map_len implies !(
            #[trigger] u.window.available(x)) by {
                assert(!t.window.available(x));
                law_alloc_takes_available(t.window, len, x);
            }
        }
    }
    assert forall|a: int, b: int| 0 <= a < b < u.blobs.len() implies ranges_apart(
        u.window.reserve,
        #[trigger] u.blobs[a],
        #[trigger] u.blobs[b],
    ) by {
        if a != i && b != i {
            assert(ranges_apart(t.window.reserve, t.blobs[a], t.blobs[b]));
        } else {
            let k = if a == i {
                b
            } else {
                a
            };
            let o = t.blobs[k];
            if o.active() && o.map_offset >= t.window.reserve {
                assert(t.window.issued(o.map_offset, o.map_len));
                if !(o.map_end() <= offset || offset + len <= o.map_offset) {
                    let x = if o.map_offset >= offset {
                        o.map_offset as int
                    } else {
                        offset as int
                    };
                    assert(!t.window.available(x));
                    law_alloc_takes_available(t.window, len, x);
                }
            }
        }
    }
}

/// Returning a range that no blob uses keeps every blob's range its own.
pub proof fn law_free_keeps_ranges(t: TablesState, offset: u64, len: u64)
    requires
        t.ranges_wf(),
        offset + len <= u64::MAX,
        offset >= t.window.reserve ==> t.unclaimed(offset, len),
    ensures
        t.after_window_free(offset, len).ranges_wf(),
{
    let u = t.after_window_free(offset, len);
    if offset >= t.window.reserve {
        crate::window::law_free_keeps_wf(t.window, offset, len);
        crate::window::law_free_keeps_reserve(t.window, offset, len);
        assert forall|k: int|
            0 <= k < u.blobs.len() && (#[trigger] u.blobs[k]).active() && u.blobs[k].map_offset
                >= u.window.reserve implies u.blobs[k].map_len > 0 && u.window.issued(
            u.blobs[k].map_offset,
            u.blobs[k].map_len,
        ) by {
            let b = t.blobs[k];
            assert(t.window.issued(b.map_offset, b.map_len));
            assert forall|x: int| b.map_offset <= x < b.map_offset + b.map_len implies !(
            #[trigger] u.window.available(x)) by {
                assert(!t.window.available(x));
                law_free_returns_exactly(t.window, offset, len, x);
            }
        }
        assert forall|a: int, b: int| 0 <= a < b < u.blobs.len() implies ranges_apart(
            u.window.reserve,
            #[trigger] u.blobs[a],
            #[trigger] u.blobs[b],
        ) by {
            assert(ranges_apart(t.window.reserve, t.blobs[a], t.blobs[b]));
        }
    }
}

/// Placing a blob inside the reserve keeps every blob's range its own.
pub proof fn law_remap_begin_keeps_ranges(t: TablesState, resource_id: u32, offset: u64)
    requires
        t.ranges_wf(),
    ensures
        t.remap_begun(resource_id, offset).1.ranges_wf(),
{
    lemma_first_index_exists(t.blobs, BlobSlot::named(resource_id));
    if let (BlobRemapBegin::Start { old: o, len }, u) = t.remap_begun(resource_id, offset) {
        let i = first_index(t.blobs, BlobSlot::named(resource_id))->0;
        lemma_idle_keeps_ranges(t, i, u.blobs[i]);
    }
}

/// Tracking another blob and stopping to track one keep every blob's range its
/// own.
pub proof fn law_tracking_keeps_ranges(t: TablesState, slot: BlobSlot, i: int)
    requires
        t.ranges_wf(),
        !slot.active(),
    ensures
        (TablesState { blobs: t.blobs.push(slot), ..t }).ranges_wf(),
        0 <= i < t.blobs.len() ==> t.without_blob(i).ranges_wf(),
{
    let u = TablesState { blobs: t.blobs.push(slot), ..t };
    assert forall|a: int, b: int| 0 <= a < b < u.blobs.len() implies ranges_apart(
        u.window.reserve,
        #[trigger] u.blobs[a],
        #[trigger] u.blobs[b],
    ) by {
        if b < t.blobs.len() {
            assert(ranges_apart(t.window.reserve, t.blobs[a], t.blobs[b]));
        }
    }
    assert forall|k: int|
        0 <= k < u.blobs.len() && (#[trigger] u.blobs[k]).active() && u.blobs[k].map_offset
            >= u.window.reserve implies u.blobs[k].map_len > 0 && u.window.issued(
        u.blobs[k].map_offset,
        u.blobs[k].map_len,
    ) by {
        if k < t.blobs.len() {
            assert(t.window.issued(t.blobs[k].map_offset, t.blobs[k].map_len));
        }
    }
    if 0 <= i < t.blobs.len() {
        let v = t.without_blob(i);
        let last = t.blobs.len() - 1;
        assert forall|k: int|
            0 <= k < v.blobs.len() && (#[trigger] v.blobs[k]).active() && v.blobs[k].map_offset
                >= v.window.reserve implies v.blobs[k].map_len > 0 && v.window.issued(
            v.blobs[k].map_offset,
            v.blobs[k].map_len,
        ) by {
            let src = if k == i {
                last
            } else {
                k
            };
            assert(v.blobs[k] == t.blobs[src]);
        }
        assert forall|a: int, b: int| 0 <= a < b < v.blobs.len() implies ranges_apart(
            v.window.reserve,
            #[trigger] v.blobs[a],
            #[trigger] v.blobs[b],
        ) by {
            let x = if a == i {
                last
            } else {
                a
            };
            let y = if b == i {
                last
            } else {
                b
            };
            assert(v.blobs[a] == t.blobs[x] && v.blobs[b] == t.blobs[y]);
            if x < y {
                assert(ranges_apart(t.window.reserve, t.blobs[x], t.blobs[y]));
            } else {
                assert(ranges_apart(t.window.reserve, t.blobs[y], t.blobs[x]));
            }
        }
    }
}

/// Changing a slot so that it uses no range outside the reserve.
proof fn lemma_idle_keeps_ranges(t: TablesState, i: int, slot: BlobSlot)
    requires
        t.ranges_wf(),
        0 <= i < t.blobs.len(),
        !slot.active() || slot.map_offset < t.window.reserve,
    ensures
        t.with_blob(i, slot).ranges_wf(),
{
    let u = t.with_blob(i, slot);
    assert forall|k: int|
        0 <= k < u.blobs.len() && (#[trigger] u.blobs[k]).active() && u.blobs[k].map_offset
            >= u.window.reserve implies u.blobs[k].map_len > 0 && u.window.issued(
        u.blobs[k].map_offset,
        u.blobs[k].map_len,
    ) by {
        assert(k != i);
        assert(u.blobs[k] == t.blobs[k]);
    }
    assert forall|a: int, b: int| 0 <= a < b < u.blobs.len() implies ranges_apart(
        u.window.reserve,
        #[trigger] u.blobs[a],
        #[trigger] u.blobs[b],
    ) by {
        if a != i && b != i {
            assert(ranges_apart(t.window.reserve, t.blobs[a], t.blobs[b]));
        }
    }
}

/// Changing a slot that keeps its range in use.
proof fn lemma_same_range_keeps_ranges(t: TablesState, i: int, slot: BlobSlot)
    requires
        t.ranges_wf(),
        0 <= i < t.blobs.len(),
        t.blobs[i].active(),
        slot.map_offset == t.blobs[i].map_offset,
        slot.map_len == t.blobs[i].map_len,
    ensures
        t.with_blob(i, slot).ranges_wf(),
{
    let u = t.with_blob(i, slot);
    assert forall|k: int|
        0 <= k < u.blobs.len() && (#[trigger] u.blobs[k]).active() && u.blobs[k].map_offset
            >= u.window.reserve implies u.blobs[k].map_len > 0 && u.window.issued(
        u.blobs[k].map_offset,
        u.blobs[k].map_len,
    ) by {
        assert(t.window.issued(t.blobs[k].map_offset, t.blobs[k].map_len));
    }
    assert forall|a: int, b: int| 0 <= a < b < u.blobs.len() implies ranges_apart(
        u.window.reserve,
        #[trigger] u.blobs[a],
        #[trigger] u.blobs[b],
    ) by {
        assert(ranges_apart(t.window.reserve, t.blobs[a], t.blobs[b]));
    }
}

/// A range that a map request holds stays held, whatever other blobs do: another
/// one begins to be mapped or placed, any one is taken out, even the one that the
/// range is for, or a range elsewhere is returned.
pub proof fn law_held_range_stays_held(
    t: TablesState,
    resource_id: u32,
    offset: u64,
    len: u64,
    owner: OwnerFilter,
    other: u32,
    place: u64,
    i: int,
    free_offset: u64,
    free_len: u64,
)
    requires
        t.wf(),
        t.holds(resource_id, offset, len),
        len > 0,
        other != resource_id,
    ensures
        t.map_begun(owner, other).1.holds(resource_id, offset, len),
        t.remap_begun(other, place).1.holds(resource_id, offset, len),
        0 <= i < t.blobs.len() ==> t.without_blob(i).holds(resource_id, offset, len),
        t.returnable(free_offset, free_len) && (free_offset + free_len <= offset || offset + len
            <= free_offset) ==> t.after_window_free(free_offset, free_len).holds(
            resource_id,
            offset,
            len,
        ),
{
    lemma_first_index_exists(t.blobs, BlobSlot::admitted(owner, other));
    if let BlobMapBegin::Start { offset: taken, len: n } = t.map_begun(owner, other).0 {
        let u = t.map_begun(owner, other).1;
        let k = first_index(t.blobs, BlobSlot::admitted(owner, other))->0;
        law_alloc_takes_available(t.window, n, offset as int);
        lemma_others_awaiting(t, u, k, resource_id, offset);
        if t.unclaimed(offset, len) {
            assert forall|x: int| offset <= x < offset + len implies !#[trigger] u.window.available(
                x,
            ) by {
                assert(!t.window.available(x));
                law_alloc_takes_available(t.window, n, x);
            }
            if !(taken + n <= offset || offset + len <= taken) {
                let x = if taken >= offset {
                    taken as int
                } else {
                    offset as int
                };
                assert(!t.window.available(x));
                law_alloc_takes_available(t.window, n, x);
            }
            assert(u.unclaimed(offset, len));
        }
    }
    lemma_first_index_exists(t.blobs, BlobSlot::named(other));
    if t.remap_begun(other, place).0 is Start {
        let u = t.remap_begun(other, place).1;
        let k = first_index(t.blobs, BlobSlot::named(other))->0;
        lemma_others_awaiting(t, u, k, resource_id, offset);
        if t.unclaimed(offset, len) {
            assert(u.unclaimed(offset, len));
        }
    }
    if 0 <= i < t.blobs.len() {
        lemma_taken_keeps_held(t, resource_id, offset, len, i);
    }
    let v = t.after_window_free(free_offset, free_len);
    if t.returnable(free_offset, free_len) && (free_offset + free_len <= offset || offset + len
        <= free_offset) {
        crate::window::law_free_keeps_reserve(t.window, free_offset, free_len);
        if t.unclaimed(offset, len) {
            assert forall|x: int| offset <= x < offset + len implies !#[trigger] v.window.available(
                x,
            ) by {
                assert(!t.window.available(x));
                law_free_returns_exactly(t.window, free_offset, free_len, x);
            }
            assert(v.unclaimed(offset, len));
        }
    }
}

/// A change to another blob leaves open whether a map request is waited for.
proof fn lemma_others_awaiting(t: TablesState, u: TablesState, k: int, resource_id: u32, offset: u64)
    requires
        0 <= k < t.blobs.len(),
        u.blobs == t.blobs.update(k, u.blobs[k]),
        t.blobs[k].resource_id != resource_id,
        u.blobs[k].resource_id != resource_id,
    ensures
        first_index(u.blobs, BlobSlot::awaiting(resource_id, offset)) == first_index(
            t.blobs,
            BlobSlot::awaiting(resource_id, offset),
        ),
        first_index(t.blobs, BlobSlot::awaiting(resource_id, offset)) matches Some(j)
            ==> u.blobs[j] == t.blobs[j],
{
    let p = BlobSlot::awaiting(resource_id, offset);
    lemma_first_index_exists(t.blobs, p);
    assert forall|j: int| 0 <= j < t.blobs.len() implies p(#[trigger] u.blobs[j]) == p(
        t.blobs[j],
    ) by {}
    match first_index(t.blobs, p) {
        Some(j) => {
            assert(p(t.blobs[j]));
            assert forall|m: int| 0 <= m < j implies !p(#[trigger] u.blobs[m]) by {
                assert(!p(t.blobs[m]));
            }
            lemma_first_index(u.blobs, p, j);
        },
        None => {
            assert forall|m: int| 0 <= m < u.blobs.len() implies !p(#[trigger] u.blobs[m]) by {
                assert(!p(t.blobs[m]));
            }
            lemma_no_first_index(u.blobs, p);
        },
    }
}

proof fn lemma_taken_keeps_held(t: TablesState, resource_id: u32, offset: u64, len: u64, i: int)
    requires
        t.wf(),
        t.holds(resource_id, offset, len),
        0 <= i < t.blobs.len(),
    ensures
        t.without_blob(i).holds(resource_id, offset, len),
{
    let p = BlobSlot::awaiting(resource_id, offset);
    let u = t.without_blob(i);
    let last = t.blobs.len() - 1;
    lemma_untracked_wf(t, u, i);
    lemma_first_index_exists(t.blobs, p);
    lemma_first_index_exists(u.blobs, p);
    match first_index(t.blobs, p) {
        Some(k) => {
            assert(p(t.blobs[k]));
            if k == i {
                assert forall|m: int| 0 <= m < u.blobs.len() implies !p(#[trigger] u.blobs[m]) by {
                    let src = if m == i {
                        last
                    } else {
                        m
                    };
                    assert(u.blobs[m] == t.blobs[src]);
                    if src < i {
                        assert(t.blobs[src].resource_id != t.blobs[i].resource_id);
                    } else {
                        assert(t.blobs[i].resource_id != t.blobs[src].resource_id);
                    }
                }
            } else {
                let dst = if k == last {
                    i
                } else {
                    k
                };
                assert(u.blobs[dst] == t.blobs[k]);
                lemma_awaiting(u, dst);
            }
        },
        None => {
            assert forall|m: int| 0 <= m < u.blobs.len() implies !p(#[trigger] u.blobs[m]) && (
            t.unclaimed(offset, len) && u.blobs[m].active() && u.blobs[m].map_offset
                >= u.window.reserve ==> u.blobs[m].map_end() <= offset || offset + len
                <= u.blobs[m].map_offset) by {
                assert(u.blobs[m] == t.blobs[if m == i {
                    last
                } else {
                    m
                }]);
            }
            if t.unclaimed(offset, len) {
                assert(u.unclaimed(offset, len));
            }
        },
    }
}

} // verus!
