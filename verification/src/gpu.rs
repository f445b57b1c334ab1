//! The transport: every table and queue of one device instance.
use crate::fast_bind::FastBindState;
use crate::fences::{FenceState, FenceTable};
use crate::inflight::{InFlight, WireBoundary};
use crate::queue::{ControlQueue, QueueState};
use crate::scanout::ScanoutRefreshState;
use crate::seqs::some;
use crate::streams::{StreamState, StreamTable};
use crate::tables::{ResourceTables, TablesState};
use crate::wddm::{WddmFifo, WddmPending, WddmState};
use crate::windowed_blt::{BltState, WindowedBltState};
use vstd::prelude::*;

verus! {

/// What a [`VirtioGpu`] holds.
#[verifier::ext_equal]
pub struct GpuState {
    pub tables: TablesState,
    pub queue: QueueState,
    pub fences: FenceState,
    pub streams: StreamState,
    pub blt: BltState,
    pub wddm: WddmState,
    pub fast: FastBindState,
    pub refresh: ScanoutRefreshState,
    pub isr_status_va: usize,
    pub display_mode: Option<(u32, u32)>,
}

/// An initialized virtio-gpu transport.
pub struct VirtioGpu {
    /// Contexts, resources, blobs and the window they are mapped into.
    pub tables: ResourceTables,
    /// Commands that the device has, or had, and recycled buffers.
    pub queue: ControlQueue,
    /// Wire fences and who waits for them.
    pub fences: FenceTable,
    /// Registered present streams.
    pub streams: StreamTable,
    /// Windowed copies.
    pub blt: WindowedBltState,
    /// Submissions whose completion is still owed.
    pub wddm: WddmFifo,
    /// Scan-out publication.
    pub fast: FastBindState,
    /// Dirty scan-out buffers.
    pub refresh: ScanoutRefreshState,
    /// Where the ISR-status register is mapped; 0 if it is not.
    pub isr_status_va: usize,
    /// Scan-out 0's preferred size, if the host reported a usable one.
    pub display_mode: Option<(u32, u32)>,
}

impl View for VirtioGpu {
    type V = GpuState;

    open spec fn view(&self) -> GpuState {
        GpuState {
            tables: self.tables@,
            queue: self.queue@,
            fences: self.fences@,
            streams: self.streams@,
            blt: self.blt@,
            wddm: self.wddm@,
            fast: self.fast,
            refresh: self.refresh,
            isr_status_va: self.isr_status_va,
            display_mode: self.display_mode,
        }
    }
}

impl GpuState {
    /// What every operation keeps.
    pub open spec fn wf(self) -> bool {
        self.parts_wf() && self.fences_wf()
    }

    /// Each part is consistent in itself.
    pub open spec fn parts_wf(self) -> bool {
        &&& self.tables.wf()
        &&& self.queue.wf()
        &&& self.streams.wf()
        &&& self.blt.wf()
        &&& self.wddm.wf()
        &&& self.refresh.wf()
    }

    /// Fences in flight are this instance's own, none is 0, and no two submissions
    /// share one.
    /// Whoever is registered on a fence waits for one in flight, and no pending
    /// submission waits for a fence that was not issued. So a fence that was issued
    /// and is not in flight has retired.
    pub open spec fn fences_wf(self) -> bool {
        &&& 0 < self.fences.wire_fence_base <= self.fences.next_wire_fence
        &&& forall|i: int|
            0 <= i < self.queue.inflight.len() ==> ((#[trigger] self.queue.inflight[i]).fence() matches
                Some(f) ==> self.fences.wire_fence_base <= f < self.fences.next_wire_fence)
        &&& forall|i: int, j: int|
            0 <= i < j < self.queue.inflight.len() ==> distinct_fences(
                #[trigger] self.queue.inflight[i],
                #[trigger] self.queue.inflight[j],
            )
        &&& forall|k: int|
            0 <= k < self.fences.waiters.len() ==> some(
                self.queue.inflight,
                InFlight::fences((#[trigger] self.fences.waiters[k]).fence_id),
            )
        &&& forall|k: int|
            0 <= k < self.fences.events.len() ==> some(
                self.queue.inflight,
                InFlight::fences((#[trigger] self.fences.events[k]).fence_id),
            )
        &&& forall|k: int|
            0 <= k < self.wddm.pending.len() ==> self.waits_within(#[trigger] self.wddm.pending[k])
    }

    /// The submission waits for issued fences only.
    pub open spec fn waits_within(self, p: WddmPending) -> bool {
        &&& p.watermark <= self.fences.next_wire_fence
        &&& p.wire_boundary == WireBoundary::Exact ==> p.watermark < self.fences.next_wire_fence
        &&& p.ordinary_watermark <= self.fences.next_wire_fence
    }
}

/// The two commands are not submissions with the same fence.
pub open spec fn distinct_fences(a: InFlight, b: InFlight) -> bool {
    a.fence() is Some ==> a.fence() != b.fence()
}

impl VirtioGpu {
    /// Scan-out 0's preferred size, if the host reported a usable one.
    pub fn display_mode(&self) -> (r: Option<(u32, u32)>)
        ensures
            r == self@.display_mode,
    {
        self.display_mode
    }

    /// Where the ISR-status register is mapped; 0 if it is not.
    pub fn isr_status_addr(&self) -> (r: usize)
        ensures
            r == self@.isr_status_va,
    {
        self.isr_status_va
    }

    /// Whether the transport has failed for good. A slow host is no failure.
    pub fn transport_failed(&self) -> (r: bool)
        ensures
            r == self@.queue.failed,
    {
        self.queue.failed
    }
}

} // verus!
