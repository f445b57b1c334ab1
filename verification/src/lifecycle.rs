//! The end of streams and of the transport, and scan-out refresh markers.
use crate::drain::{dropped_flush, push_dropped_flush};
use crate::fences::{FenceEventEntry, FenceState};
use crate::gpu::{GpuState, VirtioGpu};
use crate::hal::DmaBuffer;
use crate::inflight::{Action, InFlight, InFlightKind, RetireDomain, ScanoutFlushToken};
use crate::owner::{same_owner, DeviceOwner};
use crate::present_stream::{decode_present_stream_boundary, handle_index, index_of, stream_of,
    MAX_STREAMS};
use crate::progress::{law_follows_is_transitive, lemma_purged_follows, lemma_updated_order};
use crate::queue::{buffers_of, split_entries, QueueState};
use crate::scanout::{RefreshMarker, ScanoutRefreshState};
use crate::seqs::{first_index, position};
use crate::streams::PresentStreamSlot;
use crate::wddm::{WddmPending, WddmState};
use crate::windowed_blt::WindowedBltPending;
use vstd::prelude::*;

verus! {

impl GpuState {
    /// The submission waits for a stream that is dead.
    pub open spec fn waits_for_dead(self, p: WddmPending) -> bool {
        p.stream_boundary matches Some(b) && !self.streams.not_dead(b)
    }

    /// A submission stops waiting for a dead stream. It waits for its wire boundary
    /// and for a copy that is on the GPU; other copies are given up.
    pub open spec fn entry_discharged(self, i: int) -> (GpuState, Seq<Action>) {
        let p = self.wddm.pending[i];
        match (p.blt_token, p.blt_stream_boundary) {
            (Some(t), Some(b)) => if self.blt_sent(t, b) {
                (self.with_pending(i, p.unstreamed()), Seq::empty())
            } else {
                let (blt, a) = match p.prefix() {
                    Some(prefix) => self.blt.abandoned(prefix),
                    None => (self.blt, Seq::empty()),
                };
                (
                    GpuState { blt, ..self }.with_pending(
                        i,
                        WddmPending {
                            blt_token: None,
                            blt_stream_boundary: None,
                            ..p.unstreamed()
                        },
                    ),
                    a,
                )
            },
            _ => (self.with_pending(i, p.unstreamed()), Seq::empty()),
        }
    }

    pub open spec fn with_pending(self, i: int, p: WddmPending) -> GpuState {
        GpuState {
            wddm: WddmState { pending: self.wddm.pending.update(i, p), ..self.wddm },
            ..self
        }
    }

    /// Submissions from index `i` on stop waiting for dead streams. Returns how
    /// many did.
    pub open spec fn discharged_from(self, i: int) -> (nat, GpuState, Seq<Action>)
        decreases self.wddm.pending.len() - i,
    {
        if i < 0 || i >= self.wddm.pending.len() {
            (0, self, Seq::empty())
        } else if self.waits_for_dead(self.wddm.pending[i]) {
            let (g, a) = self.entry_discharged(i);
            if g.wddm.pending.len() == self.wddm.pending.len() {
                let (n, h, b) = g.discharged_from(i + 1);
                (n + 1, h, a + b)
            } else {
                (1, g, a)
            }
        } else {
            self.discharged_from(i + 1)
        }
    }

    pub open spec fn marker_stays(self, marker: Option<RefreshMarker>) -> bool {
        marker matches Some(m) ==> self.streams.not_dead(m.boundary)
    }

    /// Nothing waits for a dead stream any more: no submission, no refresh marker
    /// and no SET.
    pub open spec fn waits_discharged(self) -> (nat, GpuState, Seq<Action>) {
        let (n, g, a) = self.discharged_from(0);
        let h = GpuState {
            refresh: g.refresh.kept(
                g.marker_stays(g.refresh.earliest),
                g.marker_stays(g.refresh.latest),
            ),
            ..g
        };
        (n, GpuState { fast: h.without_invalid().1, ..h }, a)
    }

    /// What follows the death of streams: no wait for one remains, and copies that
    /// were not sent go with their stream.
    pub open spec fn deaths_settled(self) -> (GpuState, Seq<Action>) {
        let (_, g, a) = self.waits_discharged();
        let (blt, b) = g.blt.all_cancelled(WindowedBltPending::orphaned(g.streams));
        (GpuState { blt, ..g }, a + b)
    }

    /// Every stream that `p` picks dies.
    pub open spec fn purged(self, p: spec_fn(PresentStreamSlot) -> bool) -> GpuState {
        GpuState { streams: self.streams.purged(p, MAX_STREAMS as nat), ..self }
    }

    /// Every stream of an owner ends: how many, the transport after it, and what is to
    /// be done.
    pub open spec fn owner_streams_ended(self, owner: Option<DeviceOwner>) -> (
        u32,
        GpuState,
        Seq<Action>,
    ) {
        let dead = self.purged(PresentStreamSlot::owned_by(owner));
        (
            (self.streams.counters.live - dead.streams.counters.live) as u32,
            dead.deaths_settled().0,
            dead.deaths_settled().1,
        )
    }

    /// Every stream of a context ends.
    pub open spec fn context_streams_ended(self, owner: Option<DeviceOwner>, ctx_id: u32) -> (
        u32,
        GpuState,
        Seq<Action>,
    ) {
        let dead = self.purged(PresentStreamSlot::on_context(owner, ctx_id));
        (
            (self.streams.counters.live - dead.streams.counters.live) as u32,
            dead.deaths_settled().0,
            dead.deaths_settled().1,
        )
    }

    /// Every stream ends, and nothing waits for one any more.
    pub open spec fn all_streams_ended(self) -> (GpuState, Seq<Action>) {
        self.streams_purged().deaths_settled()
    }

    /// The answer to a request for a read, and the markers after it.
    pub open spec fn refresh_noted(self, resource_id: u32, watermark: u64) -> (
        bool,
        ScanoutRefreshState,
    ) {
        let ready = self.boundary_ready(watermark);
        (ready, self.refresh.noted(RefreshMarker { resource_id, boundary: watermark }, ready))
    }

    /// The read that is due, and the markers after it.
    pub open spec fn refresh_taken(self) -> (Option<RefreshMarker>, ScanoutRefreshState) {
        self.refresh.taken(
            self.marker_due(self.refresh.earliest),
            self.marker_due(self.refresh.latest),
        )
    }

    /// One stream ends, if owner, context and capability name it.
    pub open spec fn stream_ended(self, owner: DeviceOwner, ctx_id: u32, cookie: u64) -> (
        bool,
        GpuState,
        Seq<Action>,
    ) {
        match first_index(self.streams.slots, PresentStreamSlot::named(owner, ctx_id, cookie)) {
            Some(i) => {
                let dead = GpuState { streams: self.streams.slot_retired(i), ..self };
                (true, dead.deaths_settled().0, dead.deaths_settled().1)
            },
            None => (
                false,
                GpuState { streams: self.streams.rejected(), ..self },
                Seq::empty(),
            ),
        }
    }

    /// The instance ends: every reader ends, every stream dies, registered events
    /// are released without a signal, and flushes in flight give up their claims.
    /// No buffer stays behind.
    pub open spec fn torn_down(self) -> (GpuState, Seq<Action>) {
        let (blt, a) = self.blt.aborted();
        let g = GpuState { blt, ..self }.streams_purged();
        let (f, b) = g.fences.all_released(g.fences.events.len());
        (
            GpuState {
                fences: FenceState { events: Seq::<FenceEventEntry>::empty(), ..f },
                queue: QueueState {
                    inflight: Seq::empty(),
                    parked: Seq::empty(),
                    dma_pool: Seq::empty(),
                    dma_pool_bytes: 0,
                    bind_cmd_pool: Seq::empty(),
                    ..g.queue
                },
                ..g
            },
            a + b + flushes_dropped(self.queue.inflight),
        )
    }
}

/// Every flush of `s` gives up its claim, in order.
pub open spec fn flushes_dropped(s: Seq<InFlight>) -> Seq<Action>
    decreases s.len(),
{
    if s.len() == 0 {
        Seq::empty()
    } else {
        flushes_dropped(s.drop_last()) + dropped_flush(s.last().flush())
    }
}

impl QueueState {
    /// Every buffer that the queue holds.
    pub open spec fn all_buffers(self) -> Seq<DmaBuffer> {
        buffers_of(self.inflight) + buffers_of(self.parked) + self.dma_pool + self.bind_cmd_pool
    }
}

impl VirtioGpu {
    fn discharge_entry(&mut self, i: usize, out: &mut Vec<Action>)
        requires
            old(self)@.wf(),
            i < old(self)@.wddm.pending.len(),
            old(self)@.wddm.pending[i as int].stream_boundary is Some,
        ensures
            final(self)@ == old(self)@.entry_discharged(i as int).0,
            final(out)@ == old(out)@ + old(self)@.entry_discharged(i as int).1,
            final(self)@.wf(),
            final(self)@.wddm.pending.len() == old(self)@.wddm.pending.len(),
            final(self)@.follows(old(self)@),
    {
        let p: WddmPending = self.wddm.pending[i];
        assert(old(self)@.waits_within(old(self)@.wddm.pending[i as int]));
        if let (Some(token), Some(boundary)) = (p.blt_token, p.blt_stream_boundary) {
            let same = |r: &WindowedBltPending| -> (b: bool)
                ensures
                    b == WindowedBltPending::named(token, boundary)(*r),
                { r.token == token && r.stream_boundary == boundary };
            let sent: bool = match position(
                &self.blt.pending,
                same,
                Ghost(WindowedBltPending::named(token, boundary)),
            ) {
                Some(k) => self.blt.pending[k].dispatched,
                None => false,
            };
            if !sent {
                if let Some(prefix) = p.terminal_prefix() {
                    self.blt.abandon(prefix, out);
                }
                self.wddm.pending[i] = WddmPending {
                    blt_token: None,
                    blt_stream_boundary: None,
                    ..p.without_stream()
                };
                proof {
                    lemma_updated_order(
                        old(self)@,
                        self@,
                        i as int,
                        self@.wddm.pending[i as int],
                    );
                }
                return ;
            }
        }
        self.wddm.pending[i] = p.without_stream();
        proof {
            lemma_updated_order(old(self)@, self@, i as int, p.unstreamed());
        }
    }

    fn marker_kept(&self, marker: Option<RefreshMarker>) -> (r: bool)
        requires
            self@.streams.wf(),
        ensures
            r == self@.marker_stays(marker),
    {
        match marker {
            Some(m) => self.streams.not_dead(m.boundary),
            None => true,
        }
    }

    /// Stop every wait for a dead stream. A dead stream never counts as done: a
    /// submission that waited for it still waits for its wire boundary, and for
    /// everything sent before it where only the stream stood for that. Returns how
    /// many submissions were freed.
    pub fn discharge_dead_present_stream_waits(&mut self, out: &mut Vec<Action>) -> (r: u32)
        requires
            old(self)@.wf(),
        ensures
            r == old(self)@.waits_discharged().0 as u32,
            final(self)@ == old(self)@.waits_discharged().1,
            final(out)@ == old(out)@ + old(self)@.waits_discharged().2,
            final(self)@.wf(),
            final(self)@.follows(old(self)@),
    {
        let ghost start = self@;
        let ghost log = out@;
        let mut discharged: usize = 0;
        let mut i: usize = 0;
        while i < self.wddm.pending.len()
            invariant
                start.wf(),
                self@.wf(),
                self@.follows(start),
                i <= self@.wddm.pending.len(),
                discharged <= i,
                discharged + self@.discharged_from(i as int).0 == start.discharged_from(0).0,
                self@.discharged_from(i as int).1 == start.discharged_from(0).1,
                log + start.discharged_from(0).2 =~= out@ + self@.discharged_from(i as int).2,
            decreases self@.wddm.pending.len() - i,
        {
            let p: WddmPending = self.wddm.pending[i];
            if let Some(boundary) = p.stream_boundary {
                if !self.streams.not_dead(boundary) {
                    let ghost prior = self@;
                    self.discharge_entry(i, out);
                    proof {
                        law_follows_is_transitive(start, prior, self@);
                    }
                    discharged += 1;
                }
            }
            i += 1;
        }
        let keep_earliest: bool = self.marker_kept(self.refresh.earliest);
        let keep_latest: bool = self.marker_kept(self.refresh.latest);
        self.refresh.discard(keep_earliest, keep_latest);
        let _ = self.discard_invalid_fast_bind_frontier();
        discharged as u32
    }

    fn settle_deaths(&mut self, out: &mut Vec<Action>)
        requires
            old(self)@.wf(),
        ensures
            final(self)@ == old(self)@.deaths_settled().0,
            final(out)@ == old(out)@ + old(self)@.deaths_settled().1,
            final(self)@.wf(),
            final(self)@.follows(old(self)@),
    {
        let _ = self.discharge_dead_present_stream_waits(out);
        self.cancel_dead_undispatched_windowed_blt(out);
    }

    /// End one stream. Owner, context and capability must all match.
    pub fn unregister_present_stream(
        &mut self,
        owner: DeviceOwner,
        ctx_id: u32,
        cookie: u64,
        out: &mut Vec<Action>,
    ) -> (r: bool)
        requires
            old(self)@.wf(),
        ensures
            ({
                let s = old(self)@.stream_ended(owner, ctx_id, cookie);
                &&& r == s.0
                &&& final(self)@ == s.1
                &&& final(out)@ == old(out)@ + s.2
            }),
            final(self)@.wf(),
            final(self)@.follows(old(self)@),
    {
        let named = |s: &PresentStreamSlot| -> (b: bool)
            ensures
                b == PresentStreamSlot::named(owner, ctx_id, cookie)(*s),
            {
                s.live && same_owner(s.owner, Some(owner)) && s.ctx_id == ctx_id && s.cookie
                    == cookie
            };
        let index: usize = match position(
            &self.streams.slots,
            named,
            Ghost(PresentStreamSlot::named(owner, ctx_id, cookie)),
        ) {
            Some(i) => i,
            None => {
                self.streams.reject();
                return false;
            },
        };
        proof {
            crate::streams::lemma_slot_retired_wf(self@.streams, index as int);
        }
        self.streams.retire_slot(index);
        self.settle_deaths(out);
        true
    }

    /// End every stream of an owner. Returns how many died.
    pub fn purge_present_streams_for_owner(
        &mut self,
        owner: Option<DeviceOwner>,
        out: &mut Vec<Action>,
    ) -> (r: u32)
        requires
            old(self)@.wf(),
        ensures
            r == old(self)@.owner_streams_ended(owner).0,
            final(self)@ == old(self)@.owner_streams_ended(owner).1,
            final(out)@ == old(out)@ + old(self)@.owner_streams_ended(owner).2,
            final(self)@.wf(),
            final(self)@.follows(old(self)@),
    {
        let theirs = |s: &PresentStreamSlot| -> (b: bool)
            ensures
                b == PresentStreamSlot::owned_by(owner)(*s),
            { same_owner(s.owner, owner) };
        let count: u32 = self.streams.purge(theirs, Ghost(PresentStreamSlot::owned_by(owner)));
        let ghost dead = self@;
        proof {
            lemma_purged_follows(
                old(self)@.streams,
                PresentStreamSlot::owned_by(owner),
                MAX_STREAMS as nat,
            );
        }
        self.settle_deaths(out);
        proof {
            law_follows_is_transitive(old(self)@, dead, self@);
        }
        count
    }

    /// End every stream of a context. Returns how many died.
    pub fn purge_present_streams_for_context(
        &mut self,
        owner: Option<DeviceOwner>,
        ctx_id: u32,
        out: &mut Vec<Action>,
    ) -> (r: u32)
        requires
            old(self)@.wf(),
        ensures
            r == old(self)@.context_streams_ended(owner, ctx_id).0,
            final(self)@ == old(self)@.context_streams_ended(owner, ctx_id).1,
            final(out)@ == old(out)@ + old(self)@.context_streams_ended(owner, ctx_id).2,
            final(self)@.wf(),
            final(self)@.follows(old(self)@),
    {
        let theirs = |s: &PresentStreamSlot| -> (b: bool)
            ensures
                b == PresentStreamSlot::on_context(owner, ctx_id)(*s),
            { same_owner(s.owner, owner) && s.ctx_id == ctx_id };
        let count: u32 = self.streams.purge(
            theirs,
            Ghost(PresentStreamSlot::on_context(owner, ctx_id)),
        );
        let ghost dead = self@;
        proof {
            lemma_purged_follows(
                old(self)@.streams,
                PresentStreamSlot::on_context(owner, ctx_id),
                MAX_STREAMS as nat,
            );
        }
        self.settle_deaths(out);
        proof {
            law_follows_is_transitive(old(self)@, dead, self@);
        }
        count
    }

    /// End every stream, and stop every wait for one.
    pub fn purge_all_present_streams_ordered(&mut self, out: &mut Vec<Action>)
        requires
            old(self)@.wf(),
        ensures
            final(self)@ == old(self)@.all_streams_ended().0,
            final(out)@ == old(out)@ + old(self)@.all_streams_ended().1,
            final(self)@.wf(),
            final(self)@.follows(old(self)@),
    {
        self.purge_all_present_streams();
        let ghost dead = self@;
        self.settle_deaths(out);
        proof {
            law_follows_is_transitive(old(self)@, dead, self@);
        }
    }

    /// Note that a resource was drawn to and may be read once `watermark` is
    /// reached; resource 0 means whatever is shown. `true` asks for the read now.
    pub fn note_scanout_refresh_at(&mut self, resource_id: u32, watermark: u64) -> (r: bool)
        requires
            old(self)@.wf(),
        ensures
            r == old(self)@.refresh_noted(resource_id, watermark).0,
            final(self)@ == (GpuState {
                refresh: old(self)@.refresh_noted(resource_id, watermark).1,
                ..old(self)@
            }),
            final(self)@.wf(),
            final(self)@.follows(old(self)@),
    {
        let ready: bool = self.scanout_boundary_ready(watermark);
        self.refresh.note(RefreshMarker { resource_id, boundary: watermark }, ready)
    }

    /// Take the marker of a read that is due.
    pub fn take_ready_scanout_refresh(&mut self) -> (r: Option<RefreshMarker>)
        requires
            old(self)@.wf(),
        ensures
            r == old(self)@.refresh_taken().0,
            final(self)@ == (GpuState { refresh: old(self)@.refresh_taken().1, ..old(self)@ }),
            final(self)@.wf(),
            final(self)@.follows(old(self)@),
    {
        let earliest_ready: bool = match self.refresh.earliest {
            Some(m) => self.scanout_boundary_ready(m.boundary),
            None => false,
        };
        let latest_ready: bool = match self.refresh.latest {
            Some(m) => self.scanout_boundary_ready(m.boundary),
            None => false,
        };
        self.refresh.take_ready(earliest_ready, latest_ready)
    }

    /// How many submissions below `watermark` are in flight, and the ring of the
    /// one with the lowest fence. For a stream: whether it has yet to reach the
    /// value, and its ring.
    pub fn outstanding_below(&self, watermark: u64) -> (r: (u32, u8))
        requires
            self@.wf(),
        ensures
            match stream_of(watermark) {
                Some((handle, _)) => {
                    &&& r.0 == if self@.boundary_ready(watermark) {
                        0u32
                    } else {
                        1u32
                    }
                    &&& r.1 == match index_of(handle) {
                        Some(i) => self@.streams.slots[i].ring_idx,
                        None => 0,
                    }
                },
                None => {
                    let below = InFlight::fences_below(watermark, RetireDomain::IncludingGpu);
                    &&& r.0 == self@.queue.inflight.filter(below).len()
                    &&& r.0 == 0 ==> r.1 == 0
                    &&& r.0 > 0 ==> exists|i: int|
                        #![trigger lowest_below(self@.queue.inflight, watermark, i)]
                        lowest_below(self@.queue.inflight, watermark, i) && r.1 == ring_of(
                            self@.queue.inflight[i],
                        )
                },
            },
    {
        if let Some((handle, _)) = decode_present_stream_boundary(watermark) {
            let ring: u8 = match handle_index(handle) {
                Some(i) => self.streams.slots[i].ring_idx,
                None => 0,
            };
            let left: u32 = if self.scanout_boundary_ready(watermark) {
                0
            } else {
                1
            };
            return (left, ring);
        }
        let ghost all = self@.queue.inflight;
        let ghost below = InFlight::fences_below(watermark, RetireDomain::IncludingGpu);
        let mut count: u32 = 0;
        let mut lowest: u64 = u64::MAX;
        let mut lowest_ring: u8 = 0;
        let mut i: usize = 0;
        proof {
            reveal(Seq::filter);
            assert(all.take(0).filter(below) =~= Seq::empty());
        }
        while i < self.queue.inflight.len()
            invariant
                all == self.queue.inflight@,
                all.len() <= 64,
                below == InFlight::fences_below(watermark, RetireDomain::IncludingGpu),
                i <= all.len(),
                count <= i,
                count == all.take(i as int).filter(below).len(),
                count == 0 ==> lowest == u64::MAX && lowest_ring == 0,
                count == 0 ==> forall|j: int| 0 <= j < i ==> !below(#[trigger] all[j]),
                count > 0 ==> exists|k: int|
                    #![trigger all[k]]
                    0 <= k < i && below(all[k]) && fence_of(all[k]) == lowest && ring_of(all[k])
                        == lowest_ring && forall|j: int|
                        0 <= j < i && below(#[trigger] all[j]) ==> lowest < fence_of(all[j]) || (
                        lowest == fence_of(all[j]) && k <= j),
            decreases all.len() - i,
        {
            proof {
                reveal(Seq::filter);
                assert(all.take(i + 1).drop_last() =~= all.take(i as int));
            }
            if let InFlightKind::AsyncVenus { fence_id, ring_idx, .. } = self.queue.inflight[i].kind {
                if fence_id < watermark {
                    count += 1;
                    if fence_id < lowest {
                        lowest = fence_id;
                        lowest_ring = ring_idx;
                        assert(below(all[i as int]) && fence_of(all[i as int]) == lowest
                            && ring_of(all[i as int]) == lowest_ring);
                    }
                }
            }
            i += 1;
        }
        proof {
            assert(all.take(i as int) =~= all);
            if count > 0 {
                let k = choose|k: int|
                    #![trigger all[k]]
                    0 <= k < i && below(all[k]) && fence_of(all[k]) == lowest && ring_of(all[k])
                        == lowest_ring && forall|j: int|
                        0 <= j < i && below(#[trigger] all[j]) ==> lowest < fence_of(all[j]) || (
                        lowest == fence_of(all[j]) && k <= j);
                assert(lowest_below(all, watermark, k));
            }
        }
        (count, lowest_ring)
    }

    fn drop_flushes(&self, out: &mut Vec<Action>)
        ensures
            final(out)@ == old(out)@ + flushes_dropped(self@.queue.inflight),
    {
        let ghost all = self@.queue.inflight;
        let ghost log = out@;
        let mut i: usize = 0;
        assert(all.take(0) =~= Seq::empty());
        while i < self.queue.inflight.len()
            invariant
                all == self.queue.inflight@,
                i <= all.len(),
                out@ == log + flushes_dropped(all.take(i as int)),
            decreases all.len() - i,
        {
            proof {
                assert(all.take(i + 1).drop_last() =~= all.take(i as int));
            }
            let flush = match self.queue.inflight[i].kind {
                InFlightKind::AsyncControl { scanout_flush, .. } => scanout_flush,
                _ => None,
            };
            push_dropped_flush(flush, out);
            i += 1;
        }
        assert(all.take(i as int) =~= all);
    }

    /// End the instance. The caller has reset the device: it accesses no buffer any
    /// more, and every buffer is handed back to be freed.
    pub fn teardown(&mut self, out: &mut Vec<Action>) -> (r: Vec<DmaBuffer>)
        requires
            old(self)@.wf(),
        ensures
            final(self)@ == old(self)@.torn_down().0,
            final(out)@ == old(out)@ + old(self)@.torn_down().1,
            r@ == old(self)@.queue.all_buffers(),
            final(self)@.parts_wf(),
    {
        self.blt.abort(out);
        self.purge_all_present_streams();
        self.fences.release_all(out);
        self.drop_flushes(out);
        let mut inflight: Vec<InFlight> = Vec::new();
        std::mem::swap(&mut inflight, &mut self.queue.inflight);
        let mut parked: Vec<InFlight> = Vec::new();
        std::mem::swap(&mut parked, &mut self.queue.parked);
        let mut buffers: Vec<DmaBuffer> = Vec::new();
        split_entries(inflight, &mut buffers);
        split_entries(parked, &mut buffers);
        buffers.append(&mut self.queue.dma_pool);
        buffers.append(&mut self.queue.bind_cmd_pool);
        self.queue.dma_pool_bytes = 0;
        buffers
    }
}

impl GpuState {
    pub open spec fn marker_due(self, marker: Option<RefreshMarker>) -> bool {
        marker matches Some(m) && self.boundary_ready(m.boundary)
    }
}

pub open spec fn fence_of(e: InFlight) -> u64 {
    match e.kind {
        InFlightKind::AsyncVenus { fence_id, .. } => fence_id,
        _ => 0,
    }
}

pub open spec fn ring_of(e: InFlight) -> u8 {
    match e.kind {
        InFlightKind::AsyncVenus { ring_idx, .. } => ring_idx,
        _ => 0,
    }
}

/// `i` is the submission below `watermark` with the lowest fence, and the first
/// such.
pub open spec fn lowest_below(s: Seq<InFlight>, watermark: u64, i: int) -> bool {
    let below = InFlight::fences_below(watermark, RetireDomain::IncludingGpu);
    &&& 0 <= i < s.len()
    &&& below(s[i])
    &&& forall|j: int|
        0 <= j < s.len() && below(#[trigger] s[j]) ==> fence_of(s[i]) < fence_of(s[j]) || (
        fence_of(s[i]) == fence_of(s[j]) && i <= j)
}

/// Once waits are discharged, no submission waits for a dead stream. Every
/// submission keeps its fence, its place and its wire boundary, except that one
/// freed of a stream that stood for the boundary takes up the ordinary one.
pub proof fn law_discharge_frees_every_wait(g: GpuState, k: int)
    requires
        0 <= k < g.wddm.pending.len(),
    ensures
        ({
            let h = g.waits_discharged().1;
            &&& h.wddm.pending.len() == g.wddm.pending.len()
            &&& !h.waits_for_dead(h.wddm.pending[k])
            &&& h.wddm.pending[k].fence == g.wddm.pending[k].fence
            &&& h.wddm.pending[k].watermark == if g.waits_for_dead(g.wddm.pending[k]) {
                g.wddm.pending[k].unstreamed().watermark
            } else {
                g.wddm.pending[k].watermark
            }
            &&& h.wddm.pending[k].wire_boundary == g.wddm.pending[k].wire_boundary
            &&& h.wddm.pending[k].domain == g.wddm.pending[k].domain
        }),
{
    lemma_discharged(g, 0, k);
}

/// The death of its stream is not the end of a submission's work: unless it names
/// a fence or moves memory, it then waits for everything sent before it.
pub proof fn law_dead_stream_leaves_the_ordinary_order(
    g: GpuState,
    fence: u32,
    boundary: u64,
    blt_token: Option<u64>,
    d3d12: bool,
    now: u64,
)
    ensures
        ({
            let p = g.submission_of(fence, false, None, Some(boundary), blt_token, d3d12, now).0;
            p.unstreamed().watermark == g.fences.next_wire_fence
        }),
{
}

proof fn lemma_discharged(g: GpuState, i: int, k: int)
    requires
        0 <= i,
        0 <= k < g.wddm.pending.len(),
    ensures
        ({
            let h = g.discharged_from(i).1;
            let p = h.wddm.pending[k];
            let q = g.wddm.pending[k];
            &&& h.wddm.pending.len() == g.wddm.pending.len()
            &&& h.streams == g.streams
            &&& k < i ==> p == q
            &&& k >= i ==> !g.waits_for_dead(p)
            &&& p.fence == q.fence && p.wire_boundary == q.wire_boundary && p.domain == q.domain
            &&& p.watermark == if k >= i && g.waits_for_dead(q) {
                q.unstreamed().watermark
            } else {
                q.watermark
            }
        }),
    decreases g.wddm.pending.len() - i,
{
    if i < g.wddm.pending.len() {
        if g.waits_for_dead(g.wddm.pending[i]) {
            let t = g.entry_discharged(i).0;
            lemma_discharged(t, i + 1, k);
        } else {
            lemma_discharged(g, i + 1, k);
        }
    }
}

/// After the instance has ended nothing is registered, and no event was
/// signalled: the fences never retired.
pub proof fn law_teardown_signals_no_event(g: GpuState, event: u64)
    ensures
        g.torn_down().0.fences.events.len() == 0,
        g.torn_down().0.blt.pending.len() == 0,
        !g.torn_down().1.contains(Action::SignalAndRelease { event }),
{
    lemma_aborted_signals_none(g.blt, event);
    let h = GpuState { blt: g.blt.aborted().0, ..g }.streams_purged();
    lemma_released_signals_none(h.fences, h.fences.events.len(), event);
    lemma_dropped_signals_none(g.queue.inflight, event);
    let a = g.blt.aborted().1;
    let b = h.fences.all_released(h.fences.events.len()).1;
    let c = flushes_dropped(g.queue.inflight);
    let s = Action::SignalAndRelease { event };
    if (a + b + c).contains(s) {
        let i = choose|i: int| 0 <= i < (a + b + c).len() && (a + b + c)[i] == s;
        if i < a.len() {
            assert(a[i] == s);
        } else if i < a.len() + b.len() {
            assert(b[i - a.len()] == s);
        } else {
            assert(c[i - a.len() - b.len()] == s);
        }
    }
}

/// Every flush that is in flight when the instance ends gives up its claim.
pub proof fn law_teardown_gives_up_every_claim(g: GpuState, i: int, flush: ScanoutFlushToken)
    requires
        0 <= i < g.queue.inflight.len(),
        g.queue.inflight[i].flush() == Some(flush),
    ensures
        g.torn_down().1.contains(
            Action::RetireRead { ticket: flush.ledger_ticket, cancelled: true },
        ),
{
    let want = Action::RetireRead { ticket: flush.ledger_ticket, cancelled: true };
    lemma_flush_is_dropped(g.queue.inflight, i, flush);
    let c = flushes_dropped(g.queue.inflight);
    let j = choose|j: int| 0 <= j < c.len() && c[j] == want;
    let all = g.torn_down().1;
    let at = all.len() - c.len() + j;
    assert(all[at] == want);
}

proof fn lemma_flush_is_dropped(s: Seq<InFlight>, i: int, flush: ScanoutFlushToken)
    requires
        0 <= i < s.len(),
        s[i].flush() == Some(flush),
    ensures
        flushes_dropped(s).contains(
            Action::RetireRead { ticket: flush.ledger_ticket, cancelled: true },
        ),
    decreases s.len(),
{
    let want = Action::RetireRead { ticket: flush.ledger_ticket, cancelled: true };
    let a = flushes_dropped(s.drop_last());
    let b = dropped_flush(s.last().flush());
    if i == s.len() - 1 {
        assert((a + b)[a.len() as int] == want);
    } else {
        lemma_flush_is_dropped(s.drop_last(), i, flush);
        let j = choose|j: int| 0 <= j < a.len() && a[j] == want;
        assert((a + b)[j] == want);
    }
}

proof fn lemma_dropped_signals_none(s: Seq<InFlight>, event: u64)
    ensures
        !flushes_dropped(s).contains(Action::SignalAndRelease { event }),
    decreases s.len(),
{
    if s.len() > 0 {
        lemma_dropped_signals_none(s.drop_last(), event);
        let a = flushes_dropped(s.drop_last());
        let b = dropped_flush(s.last().flush());
        let want = Action::SignalAndRelease { event };
        if (a + b).contains(want) {
            let i = choose|i: int| 0 <= i < (a + b).len() && (a + b)[i] == want;
            if i < a.len() {
                assert(a[i] == want);
            } else {
                assert(b[i - a.len()] == want);
            }
        }
    }
}

pub(crate) proof fn lemma_aborted_signals_none(s: crate::windowed_blt::BltState, event: u64)
    ensures
        s.aborted().0.pending.len() == 0,
        !s.aborted().1.contains(Action::SignalAndRelease { event }),
    decreases s.pending.len(),
{
    if s.pending.len() > 0 {
        let t = crate::windowed_blt::BltState { pending: s.pending.drop_first(), ..s };
        lemma_aborted_signals_none(t, event);
        let a = crate::windowed_blt::retire_read(s.pending.first(), true);
        let b = t.aborted().1;
        if (a + b).contains(Action::SignalAndRelease { event }) {
            let i = choose|i: int|
                0 <= i < (a + b).len() && (a + b)[i] == Action::SignalAndRelease { event };
            if i >= a.len() {
                assert(b[i - a.len()] == (Action::SignalAndRelease { event }));
            }
        }
    }
}

proof fn lemma_released_signals_none(f: FenceState, n: nat, event: u64)
    ensures
        !f.all_released(n).1.contains(Action::SignalAndRelease { event }),
    decreases n,
{
    if n > 0 {
        lemma_released_signals_none(f, (n - 1) as nat, event);
        let a = f.all_released((n - 1) as nat).1;
        let last = Action::Release { event: f.events[n - 1].event };
        if a.push(last).contains(Action::SignalAndRelease { event }) {
            let i = choose|i: int|
                0 <= i < a.push(last).len() && a.push(last)[i] == Action::SignalAndRelease { event };
            if i < a.len() {
                assert(a[i] == (Action::SignalAndRelease { event }));
            }
        }
    }
}

} // verus!
