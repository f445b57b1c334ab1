//! New commands for the control queue.
//!
//! A caller asks for a plan, which says whether the command may be queued and
//! with which spans, hands the spans to the device queue, and then calls the
//! matching `enqueue` function with what the device queue answered. The command
//! is recorded before the caller rings the device.
use crate::counters::{bump_high_water, raised, QueueCounters};
use crate::drain::{dropped_flush, lemma_latched_follows, push_dropped_flush};
use crate::error::VirtioError;
use crate::fences::FenceState;
use crate::gpu::{GpuState, VirtioGpu};
use crate::hal::DmaBuffer;
use crate::inflight::{Action, Chain, ChainSpans, ControlCells, InFlight, InFlightKind,
    PresentStreamRetire, ScanoutFlushToken, ScanoutNotify, SyncScanoutBind, WindowedBltRetire,
    SCANOUT_RING_IDX, SYNC_RESP_MAX};
use crate::owner::DeviceOwner;
use crate::present_stream::index_of;
use crate::progress::{law_follows_is_transitive, lemma_published_fences};
use crate::promises::copies::law_submittable_copy_was_taken;
use crate::promises::wire::{field32, has_header, law_submission_on_the_wire};
use crate::protocol::{encode_submit, submit_bytes, wire_ring, CTRL_HDR_BYTES, SUBMIT_BYTES};
use crate::queue::{ControlQueue, QueueState, SyncTicket, MAX_INFLIGHT, PARKED_ENQUEUE_GATE};
use crate::scanout::{PublicationKey, PublicationRefresh, ScanoutBindRequest};
use crate::seqs::{any, first_index, lemma_first_index_exists, some};
use crate::streams::PresentStreamSlot;
use crate::windowed_blt::WindowedBltPending;
use vstd::prelude::*;

verus! {

/// What the device queue answered to a command's spans.
#[derive(Clone, Copy, Debug, PartialEq, Eq, Structural)]
pub enum AddResult {
    /// It took them under this token.
    Token(u16),
    /// It has no descriptors left.
    QueueFull,
    /// It is broken.
    Failed,
}

impl QueueState {
    /// Whether a command may be handed to the device queue, and with which spans. A
    /// command that leaves its buffers is refused for that, however full the queue.
    pub open spec fn gate(
        self,
        chain: Chain,
        meta: DmaBuffer,
        venus: Option<DmaBuffer>,
        resp_len: usize,
    ) -> Result<ChainSpans, VirtioError> {
        if self.failed {
            Err(VirtioError::DeviceError)
        } else {
            match chain.spans_of(meta, venus, resp_len) {
                None => Err(VirtioError::DeviceError),
                Some(s) => if self.has_room() {
                    Ok(s)
                } else {
                    Err(VirtioError::QueueFull)
                },
            }
        }
    }

    pub open spec fn full_counted(self) -> QueueState {
        QueueState {
            counters: QueueCounters {
                queue_full_retries: self.counters.queue_full_retries.wrapping_add(1),
                ..self.counters
            },
            ..self
        }
    }

    /// A command that the device queue took is in flight.
    pub open spec fn published(self, e: InFlight) -> QueueState {
        QueueState {
            inflight: self.inflight.push(e),
            counters: QueueCounters {
                inflight_high_water: raised(
                    self.counters.inflight_high_water,
                    self.inflight.len() + 1,
                ),
                ..self.counters
            },
            ..self
        }
    }
}

impl GpuState {
    /// The outcome of queueing a command: its token, or why it was refused. A
    /// broken device queue fails the transport.
    pub open spec fn handed_over(self, gate: Result<ChainSpans, VirtioError>, added: AddResult) -> (
        Result<u16, VirtioError>,
        GpuState,
        Seq<Action>,
    ) {
        match gate {
            Err(VirtioError::QueueFull) => (
                Err(VirtioError::QueueFull),
                GpuState { queue: self.queue.full_counted(), ..self },
                Seq::empty(),
            ),
            Err(e) => (Err(e), self, Seq::empty()),
            Ok(_) => match added {
                AddResult::Token(t) => (Ok(t), self, Seq::empty()),
                AddResult::QueueFull => (
                    Err(VirtioError::QueueFull),
                    GpuState { queue: self.queue.full_counted(), ..self },
                    Seq::empty(),
                ),
                AddResult::Failed => {
                    let (g, a) = self.latched();
                    (Err(VirtioError::DeviceError), g, a)
                },
            },
        }
    }

    /// Why a command with a waiter is refused before the queue is looked at.
    pub open spec fn sync_refusal(
        self,
        in0_len: usize,
        resp_len: usize,
        bind: Option<(u32, Option<ScanoutBindRequest>)>,
    ) -> Option<VirtioError> {
        if in0_len == 0 || resp_len == 0 || resp_len > SYNC_RESP_MAX {
            Some(VirtioError::DeviceError)
        } else {
            match bind {
                Some((resource_id, request)) => if request matches Some(r)
                    && self.fast.superseded(r) {
                    Some(VirtioError::PresentationSuperseded)
                } else if resource_id != 0 && self.fast.publication is Some {
                    Some(VirtioError::PublicationBusy)
                } else {
                    None
                },
                None => None,
            }
        }
    }

    /// A command with a waiter is in flight. A SET that presents becomes the active
    /// publication, and its epoch the floor.
    pub open spec fn sync_published(
        self,
        token: u16,
        meta: DmaBuffer,
        chain: Chain,
        resp_len: usize,
        waiter: u64,
        bind: Option<(u32, Option<ScanoutBindRequest>)>,
        seq: u64,
    ) -> GpuState {
        GpuState {
            fast: match bind {
                Some((_, Some(request))) => self.fast.claimed(request, seq).1.set_accepted(request),
                _ => self.fast,
            },
            queue: self.queue.published(
                InFlight {
                    token,
                    kind: InFlightKind::Sync {
                        waiter: Some(waiter),
                        scanout_bind: match bind {
                            Some((resource_id, request)) => Some(
                                SyncScanoutBind { seq, resource_id, request },
                            ),
                            None => None,
                        },
                    },
                    meta,
                    chain,
                    resp_len,
                    venus: None,
                },
            ),
            ..self
        }
    }

    pub open spec fn sync_enqueued(
        self,
        meta: DmaBuffer,
        in0_len: usize,
        in1_len: usize,
        resp_len: usize,
        waiter: u64,
        bind: Option<(u32, Option<ScanoutBindRequest>)>,
        seq: u64,
        added: AddResult,
    ) -> (Result<u16, VirtioError>, GpuState, Seq<Action>) {
        match self.sync_refusal(in0_len, resp_len, bind) {
            Some(e) => (Err(e), self, Seq::empty()),
            None => {
                let chain = sync_chain(in0_len, in1_len);
                let (token, g, a) = self.handed_over(
                    self.queue.gate(chain, meta, None, resp_len),
                    added,
                );
                match token {
                    Ok(t) => (
                        token,
                        g.sync_published(t, meta, chain, resp_len, waiter, bind, seq),
                        a,
                    ),
                    Err(_) => (token, g, a),
                }
            },
        }
    }

    /// The publication that a flush belongs to, if it must be armed first. A flush
    /// of anything but the active publication is refused while one is active.
    pub open spec fn flush_of(self, flush: Option<ScanoutFlushToken>) -> Result<
        Option<PublicationKey>,
        VirtioError,
    > {
        match flush {
            None => Ok(None),
            Some(f) => match self.fast.refresh_for(f.resource_id) {
                PublicationRefresh::NoActive => Ok(None),
                PublicationRefresh::ReadyExact(request) => if request.present_epoch
                    == f.covers_epoch {
                    Ok(
                        Some(
                            PublicationKey {
                                resource_id: f.resource_id,
                                present_epoch: f.covers_epoch,
                            },
                        ),
                    )
                } else {
                    Err(VirtioError::QueueFull)
                },
                PublicationRefresh::Blocked => Err(VirtioError::QueueFull),
            },
        }
    }

    pub open spec fn flush_armed_for(self, key: Option<PublicationKey>) -> GpuState {
        match key {
            Some(k) => GpuState { fast: self.fast.armed(k).1, ..self },
            None => self,
        }
    }

    pub open spec fn flush_disarmed_for(self, key: Option<PublicationKey>) -> GpuState {
        match key {
            Some(k) => GpuState { fast: self.fast.rolled_back(k).1, ..self },
            None => self,
        }
    }

    /// The outcome of queueing a command without a waiter. A flush that is refused
    /// gives up its claim.
    pub open spec fn control_enqueued(
        self,
        meta: DmaBuffer,
        in0_len: usize,
        resp_len: usize,
        cells: ControlCells,
        flush: Option<ScanoutFlushToken>,
        added: AddResult,
    ) -> (Result<u16, VirtioError>, GpuState, Seq<Action>) {
        if in0_len == 0 || resp_len == 0 || resp_len > SYNC_RESP_MAX {
            (Err(VirtioError::DeviceError), self, dropped_flush(flush))
        } else {
            match self.flush_of(flush) {
                Err(e) => (Err(e), self, dropped_flush(flush)),
                Ok(key) => {
                    let chain = Chain::Meta1 { in0_len };
                    let (token, g, a) = self.flush_armed_for(key).handed_over(
                        self.queue.gate(chain, meta, None, resp_len),
                        added,
                    );
                    match token {
                        Ok(t) => (
                            token,
                            g.control_published(t, meta, chain, resp_len, cells, flush),
                            a,
                        ),
                        Err(_) => (token, g.flush_disarmed_for(key), a + dropped_flush(flush)),
                    }
                },
            }
        }
    }

    pub open spec fn control_published(
        self,
        token: u16,
        meta: DmaBuffer,
        chain: Chain,
        resp_len: usize,
        cells: ControlCells,
        scanout_flush: Option<ScanoutFlushToken>,
    ) -> GpuState {
        let counted = QueueState {
            counters: QueueCounters {
                async_ctrl: self.queue.counters.async_ctrl.wrapping_add(1),
                ..self.queue.counters
            },
            ..self.queue
        };
        GpuState {
            queue: counted.published(
                InFlight {
                    token,
                    kind: InFlightKind::AsyncControl { cells, scanout_flush },
                    meta,
                    chain,
                    resp_len,
                    venus: None,
                },
            ),
            ..self
        }
    }

    /// A submission is in flight: it has used up a fence, and a tag has advanced
    /// its stream.
    pub open spec fn submit_published(
        self,
        token: u16,
        meta: DmaBuffer,
        venus: DmaBuffer,
        venus_len: usize,
        ring_idx: u32,
        notify: Option<ScanoutNotify>,
        stream: Option<PresentStreamRetire>,
        blt: Option<WindowedBltRetire>,
    ) -> GpuState {
        let ring = wire_ring(ring_idx);
        let counted = QueueState {
            counters: QueueCounters {
                async_submits: self.queue.counters.async_submits.wrapping_add(1),
                ring_submits: if ring != 0 {
                    self.queue.counters.ring_submits.wrapping_add(1)
                } else {
                    self.queue.counters.ring_submits
                },
                ..self.queue.counters
            },
            ..self.queue
        };
        GpuState {
            streams: match stream {
                Some(s) => self.streams.tag_committed(s, ring_idx),
                None => self.streams,
            },
            fences: FenceState {
                next_wire_fence: (self.fences.next_wire_fence + 1) as u64,
                ..self.fences
            },
            queue: counted.published(
                InFlight {
                    token,
                    kind: InFlightKind::AsyncVenus {
                        fence_id: self.fences.next_wire_fence,
                        ring_idx: ring,
                        scanout_notify: notify,
                        present_stream: stream,
                        windowed_blt: blt,
                    },
                    meta,
                    chain: Chain::MetaPlusVenus { hdr_len: SUBMIT_BYTES, venus_len },
                    resp_len: CTRL_HDR_BYTES,
                    venus: Some(venus),
                },
            ),
            ..self
        }
    }

    /// Whether a submission may be handed to the device queue.
    pub open spec fn submit_gate(self, meta: DmaBuffer, venus: DmaBuffer, venus_len: usize) -> Result<
        ChainSpans,
        VirtioError,
    > {
        if self.queue.failed || venus_len == 0 || venus_len > venus.len || SUBMIT_BYTES
            + CTRL_HDR_BYTES > meta.len {
            Err(VirtioError::DeviceError)
        } else {
            self.queue.gate(
                Chain::MetaPlusVenus { hdr_len: SUBMIT_BYTES, venus_len },
                meta,
                Some(venus),
                CTRL_HDR_BYTES,
            )
        }
    }

    pub open spec fn submit_enqueued(
        self,
        ring_idx: u32,
        meta: DmaBuffer,
        venus: DmaBuffer,
        venus_len: usize,
        notify: Option<ScanoutNotify>,
        stream: Option<PresentStreamRetire>,
        blt: Option<WindowedBltRetire>,
        added: AddResult,
    ) -> (Result<u64, VirtioError>, GpuState, Seq<Action>) {
        let (token, g, a) = self.handed_over(self.submit_gate(meta, venus, venus_len), added);
        match token {
            Ok(t) => (
                Ok(self.fences.next_wire_fence),
                g.submit_published(t, meta, venus, venus_len, ring_idx, notify, stream, blt),
                a,
            ),
            Err(e) => (Err(e), g, a),
        }
    }
}

impl GpuState {
    /// What a command with a waiter would hand to the device queue.
    pub open spec fn sync_planned(
        self,
        meta: DmaBuffer,
        in0_len: usize,
        in1_len: usize,
        resp_len: usize,
        bind: Option<(u32, Option<ScanoutBindRequest>)>,
    ) -> Result<ChainSpans, VirtioError> {
        match self.sync_refusal(in0_len, resp_len, bind) {
            Some(e) => Err(e),
            None => self.queue.gate(sync_chain(in0_len, in1_len), meta, None, resp_len),
        }
    }

    /// What a command without a waiter would hand to the device queue.
    pub open spec fn control_planned(
        self,
        meta: DmaBuffer,
        in0_len: usize,
        resp_len: usize,
        flush: Option<ScanoutFlushToken>,
    ) -> Result<ChainSpans, VirtioError> {
        if in0_len == 0 || resp_len == 0 || resp_len > SYNC_RESP_MAX {
            Err(VirtioError::DeviceError)
        } else {
            match self.flush_of(flush) {
                Err(e) => Err(e),
                Ok(_) => self.queue.gate(Chain::Meta1 { in0_len }, meta, None, resp_len),
            }
        }
    }

    /// The outcome of a submission that nothing is tied to.
    pub open spec fn plain_submitted(
        self,
        ring_idx: u32,
        meta: DmaBuffer,
        venus: DmaBuffer,
        venus_len: usize,
        added: AddResult,
    ) -> (Result<u64, VirtioError>, GpuState, Seq<Action>) {
        self.submit_enqueued(ring_idx, meta, venus, venus_len, None, None, None, added)
    }

    /// The outcome of a scan-out copy.
    pub open spec fn scanout_submitted(
        self,
        meta: DmaBuffer,
        venus: DmaBuffer,
        venus_len: usize,
        notify: ScanoutNotify,
        added: AddResult,
    ) -> (Result<u64, VirtioError>, GpuState, Seq<Action>) {
        self.submit_enqueued(
            SCANOUT_RING_IDX,
            meta,
            venus,
            venus_len,
            Some(notify),
            None,
            None,
            added,
        )
    }

    /// The outcome of a windowed copy's submission.
    pub open spec fn copy_submitted(
        self,
        adapter: u64,
        meta: DmaBuffer,
        venus: DmaBuffer,
        venus_len: usize,
        token: u64,
        stream_boundary: u64,
        added: AddResult,
    ) -> (Result<u64, VirtioError>, GpuState, Seq<Action>) {
        if some(self.blt.pending, WindowedBltPending::submittable(token, stream_boundary)) {
            self.submit_enqueued(
                SCANOUT_RING_IDX,
                meta,
                venus,
                venus_len,
                None,
                None,
                Some(WindowedBltRetire { adapter, token, stream_boundary }),
                added,
            )
        } else {
            (Err(VirtioError::DeviceError), self, Seq::empty())
        }
    }

    /// The outcome of a tagged submission.
    pub open spec fn tagged_submitted(
        self,
        owner: DeviceOwner,
        ctx_id: u32,
        ring_idx: u32,
        cookie: u64,
        value: u32,
        meta: DmaBuffer,
        venus: DmaBuffer,
        venus_len: usize,
        added: AddResult,
    ) -> (Result<u64, VirtioError>, GpuState, Seq<Action>) {
        match self.tag_checked(owner, ctx_id, ring_idx, cookie, value) {
            Ok(retire) => self.submit_enqueued(
                ring_idx,
                meta,
                venus,
                venus_len,
                None,
                Some(retire),
                None,
                added,
            ),
            Err(e) => (
                Err(e),
                GpuState { streams: self.streams.rejected(), ..self },
                Seq::empty(),
            ),
        }
    }
}

/// A command with a waiter has one request or two.
pub open spec fn sync_chain(in0_len: usize, in1_len: usize) -> Chain {
    if in1_len > 0 {
        Chain::Meta2 { in0_len, in1_len }
    } else {
        Chain::Meta1 { in0_len }
    }
}

/// What a submission hands to the device queue.
#[derive(Debug)]
pub struct SubmitPlan {
    /// The fence that the submission will get.
    pub fence_id: u64,
    /// To be written at the start of the command buffer.
    pub header: Vec<u8>,
    pub spans: ChainSpans,
}

impl ControlQueue {
    pub(crate) fn check_gate(
        &self,
        chain: Chain,
        meta: &DmaBuffer,
        venus: &Option<DmaBuffer>,
        resp_len: usize,
    ) -> (r: Result<ChainSpans, VirtioError>)
        ensures
            r == self@.gate(chain, *meta, *venus, resp_len),
    {
        if self.failed {
            return Err(VirtioError::DeviceError);
        }
        match chain.spans(meta, venus, resp_len) {
            None => Err(VirtioError::DeviceError),
            Some(s) => {
                if self.inflight.len() >= MAX_INFLIGHT || self.parked.len() >= PARKED_ENQUEUE_GATE {
                    Err(VirtioError::QueueFull)
                } else {
                    Ok(s)
                }
            },
        }
    }

    /// Record a command that the device queue took.
    pub(crate) fn publish(&mut self, entry: InFlight)
        requires
            old(self)@.inflight.len() < MAX_INFLIGHT,
        ensures
            final(self)@ == old(self)@.published(entry),
    {
        self.inflight.push(entry);
        bump_high_water(&mut self.counters.inflight_high_water, self.inflight.len());
    }
}

/// A queue with room stays sound when it gets a sound command.
pub(crate) proof fn lemma_published_wf(q: QueueState, e: InFlight)
    requires
        q.wf(),
        q.has_room(),
        e.wf(),
        !some(q.inflight, InFlight::tokened(e.token)),
    ensures
        q.published(e).wf(),
{
    let t = q.published(e);
    assert forall|i: int| 0 <= i < t.inflight.len() implies (#[trigger] t.inflight[i]).wf() by {
        assert(i < q.inflight.len() ==> t.inflight[i] == q.inflight[i]);
    }
    assert forall|i: int, j: int| 0 <= i < j < t.inflight.len() implies (
    #[trigger] t.inflight[i]).token != (#[trigger] t.inflight[j]).token by {
        assert(t.inflight[i] == q.inflight[i]);
        if j < q.inflight.len() {
            assert(t.inflight[j] == q.inflight[j]);
        } else {
            assert(!InFlight::tokened(e.token)(q.inflight[i]));
        }
    }
}

impl VirtioGpu {
    /// Record what the device queue answered to a command.
    pub(crate) fn enqueue_core(
        &mut self,
        gate: Result<ChainSpans, VirtioError>,
        added: AddResult,
        out: &mut Vec<Action>,
    ) -> (r: Result<u16, VirtioError>)
        requires
            old(self)@.wf(),
        ensures
            r == old(self)@.handed_over(gate, added).0,
            final(self)@ == old(self)@.handed_over(gate, added).1,
            final(out)@ == old(out)@ + old(self)@.handed_over(gate, added).2,
            final(self)@.wf(),
            final(self)@.follows(old(self)@),
    {
        match gate {
            Err(e) => {
                if let VirtioError::QueueFull = e {
                    self.queue.counters.queue_full_retries =
                        self.queue.counters.queue_full_retries.wrapping_add(1);
                }
                Err(e)
            },
            Ok(_) => match added {
                AddResult::Token(t) => Ok(t),
                AddResult::QueueFull => {
                    self.queue.counters.queue_full_retries =
                        self.queue.counters.queue_full_retries.wrapping_add(1);
                    Err(VirtioError::QueueFull)
                },
                AddResult::Failed => {
                    self.latch_failed_and_fail_inflight(out);
                    Err(VirtioError::DeviceError)
                },
            },
        }
    }

    fn refuse_sync(
        &self,
        in0_len: usize,
        resp_len: usize,
        bind: Option<(u32, Option<ScanoutBindRequest>)>,
    ) -> (r: Option<VirtioError>)
        ensures
            r == self@.sync_refusal(in0_len, resp_len, bind),
    {
        if in0_len == 0 || resp_len == 0 || resp_len > SYNC_RESP_MAX {
            return Some(VirtioError::DeviceError);
        }
        if let Some((resource_id, request)) = bind {
            if let Some(r) = request {
                if self.fast.presentation_epoch_is_superseded(r) {
                    return Some(VirtioError::PresentationSuperseded);
                }
            }
            if resource_id != 0 && self.fast.publication.is_some() {
                return Some(VirtioError::PublicationBusy);
            }
        }
        None
    }

    /// Whether a command with a waiter may be queued, and with which spans.
    pub fn plan_sync(
        &self,
        meta: &DmaBuffer,
        in0_len: usize,
        in1_len: usize,
        resp_len: usize,
        scanout_bind: Option<(u32, Option<ScanoutBindRequest>)>,
    ) -> (r: Result<ChainSpans, VirtioError>)
        ensures
            r == self@.sync_planned(*meta, in0_len, in1_len, resp_len, scanout_bind),
    {
        if let Some(e) = self.refuse_sync(in0_len, resp_len, scanout_bind) {
            return Err(e);
        }
        let chain = if in1_len > 0 {
            Chain::Meta2 { in0_len, in1_len }
        } else {
            Chain::Meta1 { in0_len }
        };
        self.queue.check_gate(chain, meta, &None, resp_len)
    }

    /// Queue a command whose end wakes a waiter. `scanout_bind` is the resource
    /// that a SET shows and the presentation it publishes, if any; `seq` is then
    /// its number, and returned. A refused command changes nothing but counters,
    /// and its buffer comes back.
    pub fn enqueue_sync(
        &mut self,
        meta: DmaBuffer,
        in0_len: usize,
        in1_len: usize,
        resp_len: usize,
        waiter: u64,
        scanout_bind: Option<(u32, Option<ScanoutBindRequest>)>,
        seq: u64,
        added: AddResult,
        out: &mut Vec<Action>,
    ) -> (r: Result<(SyncTicket, Option<u64>), (DmaBuffer, VirtioError)>)
        requires
            old(self)@.wf(),
            old(self)@.queue.hands_out(added),
            meta.wf(),
        ensures
            ({
                let s = old(self)@.sync_enqueued(
                    meta,
                    in0_len,
                    in1_len,
                    resp_len,
                    waiter,
                    scanout_bind,
                    seq,
                    added,
                );
                &&& match (r, s.0) {
                    (Ok((ticket, number)), Ok(token)) => {
                        &&& ticket.spec_token() == token
                        &&& number == if scanout_bind is Some {
                            Some(seq)
                        } else {
                            None
                        }
                    },
                    (Err((back, e)), Err(why)) => back == meta && e == why,
                    _ => false,
                }
                &&& final(self)@ == s.1
                &&& final(out)@ == old(out)@ + s.2
            }),
            final(self)@.wf(),
            final(self)@.follows(old(self)@),
    {
        if let Some(e) = self.refuse_sync(in0_len, resp_len, scanout_bind) {
            return Err((meta, e));
        }
        let chain = if in1_len > 0 {
            Chain::Meta2 { in0_len, in1_len }
        } else {
            Chain::Meta1 { in0_len }
        };
        let gate = self.queue.check_gate(chain, &meta, &None, resp_len);
        let token: u16 = match self.enqueue_core(gate, added, out) {
            Ok(t) => t,
            Err(e) => return Err((meta, e)),
        };
        let mut bind: Option<SyncScanoutBind> = None;
        let mut number: Option<u64> = None;
        if let Some((resource_id, request)) = scanout_bind {
            bind = Some(SyncScanoutBind { seq, resource_id, request });
            number = Some(seq);
            if let Some(r) = request {
                let _ = self.fast.claim_publication(r, seq);
                self.fast.note_presentation_set_accepted(r);
            }
        }
        let entry = InFlight {
            token,
            kind: InFlightKind::Sync { waiter: Some(waiter), scanout_bind: bind },
            meta,
            chain,
            resp_len,
            venus: None,
        };
        proof {
            lemma_published_wf(self@.queue, entry);
        }
        self.queue.publish(entry);
        proof {
            lemma_published_fences(old(self)@, self@, entry);
        }
        Ok((SyncTicket::issue(token), number))
    }

    fn check_flush(&self, flush: Option<ScanoutFlushToken>) -> (r: Result<
        Option<PublicationKey>,
        VirtioError,
    >)
        ensures
            r == self@.flush_of(flush),
            r matches Ok(Some(k)) ==> self@.fast.armed(k).0,
    {
        let f = match flush {
            Some(f) => f,
            None => return Ok(None),
        };
        match self.publication_refresh_for(f.resource_id) {
            PublicationRefresh::NoActive => Ok(None),
            PublicationRefresh::ReadyExact(request) => {
                if request.present_epoch == f.covers_epoch {
                    Ok(
                        Some(
                            PublicationKey {
                                resource_id: f.resource_id,
                                present_epoch: f.covers_epoch,
                            },
                        ),
                    )
                } else {
                    Err(VirtioError::QueueFull)
                }
            },
            PublicationRefresh::Blocked => Err(VirtioError::QueueFull),
        }
    }

    /// Whether a command without a waiter may be queued, and with which spans.
    pub fn plan_async_control(
        &self,
        meta: &DmaBuffer,
        in0_len: usize,
        resp_len: usize,
        scanout_flush: Option<ScanoutFlushToken>,
    ) -> (r: Result<ChainSpans, VirtioError>)
        ensures
            r == self@.control_planned(*meta, in0_len, resp_len, scanout_flush),
    {
        if in0_len == 0 || resp_len == 0 || resp_len > SYNC_RESP_MAX {
            return Err(VirtioError::DeviceError);
        }
        match self.check_flush(scanout_flush) {
            Err(e) => Err(e),
            Ok(_) => self.queue.check_gate(Chain::Meta1 { in0_len }, meta, &None, resp_len),
        }
    }

    /// Queue a command whose end clears a gate instead of waking a waiter. A flush
    /// is armed before it is queued, so that its end cannot come too early, and
    /// disarmed again if it is refused.
    pub fn enqueue_async_control(
        &mut self,
        meta: DmaBuffer,
        in0_len: usize,
        resp_len: usize,
        cells: ControlCells,
        scanout_flush: Option<ScanoutFlushToken>,
        added: AddResult,
        out: &mut Vec<Action>,
    ) -> (r: Result<u16, (DmaBuffer, VirtioError)>)
        requires
            old(self)@.wf(),
            old(self)@.queue.hands_out(added),
            meta.wf(),
        ensures
            ({
                let s = old(self)@.control_enqueued(
                    meta,
                    in0_len,
                    resp_len,
                    cells,
                    scanout_flush,
                    added,
                );
                &&& match (r, s.0) {
                    (Ok(t), Ok(token)) => t == token,
                    (Err((back, e)), Err(why)) => back == meta && e == why,
                    _ => false,
                }
                &&& final(self)@ == s.1
                &&& final(out)@ == old(out)@ + s.2
            }),
            final(self)@.wf(),
            final(self)@.follows(old(self)@),
    {
        if in0_len == 0 || resp_len == 0 || resp_len > SYNC_RESP_MAX {
            push_dropped_flush(scanout_flush, out);
            return Err((meta, VirtioError::DeviceError));
        }
        let key = match self.check_flush(scanout_flush) {
            Ok(k) => k,
            Err(e) => {
                push_dropped_flush(scanout_flush, out);
                return Err((meta, e));
            },
        };
        if let Some(k) = key {
            let _ = self.fast.arm_flush(k);
        }
        let chain = Chain::Meta1 { in0_len };
        let ghost armed = self@;
        let gate = self.queue.check_gate(chain, &meta, &None, resp_len);
        let token: u16 = match self.enqueue_core(gate, added, out) {
            Ok(t) => t,
            Err(e) => {
                proof {
                    law_follows_is_transitive(old(self)@, armed, self@);
                }
                if let Some(k) = key {
                    let _ = self.fast.rollback_flush(k);
                }
                push_dropped_flush(scanout_flush, out);
                return Err((meta, e));
            },
        };
        self.queue.counters.async_ctrl = self.queue.counters.async_ctrl.wrapping_add(1);
        let entry = InFlight {
            token,
            kind: InFlightKind::AsyncControl { cells, scanout_flush },
            meta,
            chain,
            resp_len,
            venus: None,
        };
        proof {
            lemma_published_wf(self@.queue, entry);
        }
        self.queue.publish(entry);
        proof {
            lemma_published_fences(old(self)@, self@, entry);
        }
        Ok(token)
    }

    fn check_submit(&self, meta: &DmaBuffer, venus: &Option<DmaBuffer>, venus_len: usize) -> (r: Result<
        ChainSpans,
        VirtioError,
    >)
        requires
            *venus is Some,
        ensures
            r == self@.submit_gate(*meta, (*venus)->0, venus_len),
    {
        let len: usize = match venus {
            Some(v) => v.len,
            None => 0,
        };
        if self.queue.failed || venus_len == 0 || venus_len > len || SUBMIT_BYTES + CTRL_HDR_BYTES
            > meta.len {
            return Err(VirtioError::DeviceError);
        }
        self.queue.check_gate(
            Chain::MetaPlusVenus { hdr_len: SUBMIT_BYTES, venus_len },
            meta,
            venus,
            CTRL_HDR_BYTES,
        )
    }

    /// Whether a submission may be queued; if so, its header and its spans. The
    /// stream's buffer is handed through.
    pub fn plan_submit(
        &self,
        ctx_id: u32,
        ring_idx: u32,
        meta: &DmaBuffer,
        venus: DmaBuffer,
        venus_len: usize,
    ) -> (r: (DmaBuffer, Result<SubmitPlan, VirtioError>))
        ensures
            r.0 == venus,
            match (r.1, self@.submit_gate(*meta, venus, venus_len)) {
                (Ok(plan), Ok(spans)) => {
                    &&& plan.spans == spans
                    &&& plan.fence_id == self@.fences.next_wire_fence
                    &&& plan.header@ == submit_bytes(
                        self@.fences.next_wire_fence,
                        ctx_id,
                        ring_idx,
                        venus_len as u32,
                    )
                    &&& has_header(
                        plan.header@,
                        0x207,
                        if ring_idx == 0 {
                            1
                        } else {
                            3
                        },
                        self@.fences.next_wire_fence as int,
                        ctx_id as int,
                        if ring_idx <= 255 {
                            ring_idx as int
                        } else {
                            255
                        },
                    )
                    &&& field32(plan.header@, 24) == venus_len as u32
                },
                (Err(e), Err(why)) => e == why,
                _ => false,
            },
    {
        proof {
            law_submission_on_the_wire(
                self@.fences.next_wire_fence,
                ctx_id,
                ring_idx,
                venus_len as u32,
            );
        }
        let venus: Option<DmaBuffer> = Some(venus);
        let gate = self.check_submit(meta, &venus, venus_len);
        let plan = match gate {
            Ok(spans) => Ok(
                SubmitPlan {
                    fence_id: self.fences.next_wire_fence,
                    header: encode_submit(
                        self.fences.next_wire_fence,
                        ctx_id,
                        ring_idx,
                        venus_len as u32,
                    ),
                    spans,
                },
            ),
            Err(e) => Err(e),
        };
        (venus.unwrap(), plan)
    }

    fn enqueue_submit_inner(
        &mut self,
        ring_idx: u32,
        meta: DmaBuffer,
        venus: DmaBuffer,
        venus_len: usize,
        scanout_notify: Option<ScanoutNotify>,
        present_stream: Option<PresentStreamRetire>,
        windowed_blt: Option<WindowedBltRetire>,
        added: AddResult,
        out: &mut Vec<Action>,
    ) -> (r: Result<u64, (DmaBuffer, DmaBuffer, VirtioError)>)
        requires
            old(self)@.wf(),
            old(self)@.queue.hands_out(added),
            old(self)@.fences.next_wire_fence < u64::MAX,
            meta.wf(),
            venus.wf(),
        ensures
            ({
                let s = old(self)@.submit_enqueued(
                    ring_idx,
                    meta,
                    venus,
                    venus_len,
                    scanout_notify,
                    present_stream,
                    windowed_blt,
                    added,
                );
                &&& match (r, s.0) {
                    (Ok(f), Ok(fence)) => f == fence,
                    (Err((m, v, e)), Err(why)) => m == meta && v == venus && e == why,
                    _ => false,
                }
                &&& final(self)@ == s.1
                &&& final(out)@ == old(out)@ + s.2
            }),
            final(self)@.wf(),
            final(self)@.follows(old(self)@),
    {
        let venus: Option<DmaBuffer> = Some(venus);
        let gate = self.check_submit(&meta, &venus, venus_len);
        let token: u16 = match self.enqueue_core(gate, added, out) {
            Ok(t) => t,
            Err(e) => return Err((meta, venus.unwrap(), e)),
        };
        if let Some(retire) = present_stream {
            self.streams.commit_tag(retire, ring_idx);
        }
        let fence_id: u64 = self.fences.next_wire_fence;
        self.fences.next_wire_fence = fence_id + 1;
        let ring: u8 = if ring_idx <= 255 {
            ring_idx as u8
        } else {
            255
        };
        self.queue.counters.async_submits = self.queue.counters.async_submits.wrapping_add(1);
        if ring != 0 {
            self.queue.counters.ring_submits = self.queue.counters.ring_submits.wrapping_add(1);
        }
        let entry = InFlight {
            token,
            kind: InFlightKind::AsyncVenus {
                fence_id,
                ring_idx: ring,
                scanout_notify,
                present_stream,
                windowed_blt,
            },
            meta,
            chain: Chain::MetaPlusVenus { hdr_len: SUBMIT_BYTES, venus_len },
            resp_len: CTRL_HDR_BYTES,
            venus,
        };
        proof {
            lemma_published_wf(self@.queue, entry);
        }
        self.queue.publish(entry);
        proof {
            lemma_published_fences(old(self)@, self@, entry);
        }
        Ok(fence_id)
    }

    /// Queue a submission. Returns its wire fence.
    pub fn enqueue_async_submit(
        &mut self,
        ring_idx: u32,
        meta: DmaBuffer,
        venus: DmaBuffer,
        venus_len: usize,
        added: AddResult,
        out: &mut Vec<Action>,
    ) -> (r: Result<u64, (DmaBuffer, DmaBuffer, VirtioError)>)
        requires
            old(self)@.wf(),
            old(self)@.queue.hands_out(added),
            old(self)@.fences.next_wire_fence < u64::MAX,
            meta.wf(),
            venus.wf(),
        ensures
            ({
                let s = old(self)@.plain_submitted(ring_idx, meta, venus, venus_len, added);
                &&& match (r, s.0) {
                    (Ok(f), Ok(fence)) => f == fence,
                    (Err((m, v, e)), Err(why)) => m == meta && v == venus && e == why,
                    _ => false,
                }
                &&& final(self)@ == s.1
                &&& final(out)@ == old(out)@ + s.2
            }),
            final(self)@.wf(),
            final(self)@.follows(old(self)@),
    {
        self.enqueue_submit_inner(ring_idx, meta, venus, venus_len, None, None, None, added, out)
    }

    /// Whether a copy may be submitted: it was admitted and taken.
    pub fn windowed_blt_submittable(&self, token: u64, stream_boundary: u64) -> (r: bool)
        ensures
            r == some(
                self@.blt.pending,
                WindowedBltPending::submittable(token, stream_boundary),
            ),
            r <==> exists|i: int|
                0 <= i < self@.blt.pending.len() && (#[trigger] self@.blt.pending[i]).token == token
                    && self@.blt.pending[i].stream_boundary == stream_boundary
                    && self@.blt.pending[i].admitted && self@.blt.pending[i].dispatched,
    {
        proof {
            law_submittable_copy_was_taken(self@.blt, token, stream_boundary);
        }
        let known = |p: &WindowedBltPending| -> (b: bool)
            ensures
                b == WindowedBltPending::submittable(token, stream_boundary)(*p),
            {
                p.token == token && p.stream_boundary == stream_boundary && p.admitted
                    && p.dispatched
            };
        any(
            &self.blt.pending,
            known,
            Ghost(WindowedBltPending::submittable(token, stream_boundary)),
        )
    }

    /// Queue the submission of a windowed copy, on the scan-out ring. A copy that
    /// was not taken is refused.
    pub fn enqueue_async_submit_windowed_blt(
        &mut self,
        adapter: u64,
        meta: DmaBuffer,
        venus: DmaBuffer,
        venus_len: usize,
        token: u64,
        stream_boundary: u64,
        added: AddResult,
        out: &mut Vec<Action>,
    ) -> (r: Result<u64, (DmaBuffer, DmaBuffer, VirtioError)>)
        requires
            old(self)@.wf(),
            old(self)@.queue.hands_out(added),
            old(self)@.fences.next_wire_fence < u64::MAX,
            meta.wf(),
            venus.wf(),
        ensures
            ({
                let s = old(self)@.copy_submitted(
                    adapter,
                    meta,
                    venus,
                    venus_len,
                    token,
                    stream_boundary,
                    added,
                );
                &&& match (r, s.0) {
                    (Ok(f), Ok(fence)) => f == fence,
                    (Err((m, v, e)), Err(why)) => m == meta && v == venus && e == why,
                    _ => false,
                }
                &&& final(self)@ == s.1
                &&& final(out)@ == old(out)@ + s.2
            }),
            final(self)@.wf(),
            final(self)@.follows(old(self)@),
    {
        if !self.windowed_blt_submittable(token, stream_boundary) {
            return Err((meta, venus, VirtioError::DeviceError));
        }
        self.enqueue_submit_inner(
            SCANOUT_RING_IDX,
            meta,
            venus,
            venus_len,
            None,
            None,
            Some(WindowedBltRetire { adapter, token, stream_boundary }),
            added,
            out,
        )
    }

    /// Queue a tagged submission. The tag is checked first; a refused tag is
    /// counted.
    pub fn enqueue_async_submit_present_stream(
        &mut self,
        owner: DeviceOwner,
        ctx_id: u32,
        ring_idx: u32,
        cookie: u64,
        value: u32,
        meta: DmaBuffer,
        venus: DmaBuffer,
        venus_len: usize,
        added: AddResult,
        out: &mut Vec<Action>,
    ) -> (r: Result<u64, (DmaBuffer, DmaBuffer, VirtioError)>)
        requires
            old(self)@.wf(),
            old(self)@.queue.hands_out(added),
            old(self)@.fences.next_wire_fence < u64::MAX,
            meta.wf(),
            venus.wf(),
        ensures
            ({
                let s = old(self)@.tagged_submitted(
                    owner,
                    ctx_id,
                    ring_idx,
                    cookie,
                    value,
                    meta,
                    venus,
                    venus_len,
                    added,
                );
                &&& match (r, s.0) {
                    (Ok(f), Ok(fence)) => f == fence,
                    (Err((m, v, e)), Err(why)) => m == meta && v == venus && e == why,
                    _ => false,
                }
                &&& final(self)@ == s.1
                &&& final(out)@ == old(out)@ + s.2
            }),
            final(self)@.wf(),
            final(self)@.follows(old(self)@),
    {
        let retire = match self.prepare_present_stream_tag(owner, ctx_id, ring_idx, cookie, value) {
            Ok(x) => x,
            Err(e) => return Err((meta, venus, e)),
        };
        self.enqueue_submit_inner(
            ring_idx,
            meta,
            venus,
            venus_len,
            None,
            Some(retire),
            None,
            added,
            out,
        )
    }

    /// Queue a scan-out copy, on the scan-out ring: the only one whose end
    /// notifies.
    pub fn enqueue_scanout_submit(
        &mut self,
        meta: DmaBuffer,
        venus: DmaBuffer,
        venus_len: usize,
        notify: ScanoutNotify,
        added: AddResult,
        out: &mut Vec<Action>,
    ) -> (r: Result<u64, (DmaBuffer, DmaBuffer, VirtioError)>)
        requires
            old(self)@.wf(),
            old(self)@.queue.hands_out(added),
            old(self)@.fences.next_wire_fence < u64::MAX,
            meta.wf(),
            venus.wf(),
        ensures
            ({
                let s = old(self)@.scanout_submitted(meta, venus, venus_len, notify, added);
                &&& match (r, s.0) {
                    (Ok(f), Ok(fence)) => f == fence,
                    (Err((m, v, e)), Err(why)) => m == meta && v == venus && e == why,
                    _ => false,
                }
                &&& final(self)@ == s.1
                &&& final(out)@ == old(out)@ + s.2
            }),
            final(self)@.wf(),
            final(self)@.follows(old(self)@),
    {
        self.enqueue_submit_inner(
            SCANOUT_RING_IDX,
            meta,
            venus,
            venus_len,
            Some(notify),
            None,
            None,
            added,
            out,
        )
    }
}

impl WindowedBltPending {
    pub open spec fn submittable(token: u64, boundary: u64) -> spec_fn(WindowedBltPending) -> bool {
        |r: WindowedBltPending|
            r.token == token && r.stream_boundary == boundary && r.admitted && r.dispatched
    }
}

/// A command that leaves its buffers is malformed even while the queue is full: it
/// is never told to come back later.
pub proof fn law_malformed_is_not_retried(
    q: QueueState,
    chain: Chain,
    meta: DmaBuffer,
    venus: Option<DmaBuffer>,
    resp_len: usize,
)
    requires
        chain.spans_of(meta, venus, resp_len) is None,
    ensures
        q.gate(chain, meta, venus, resp_len) == Err::<ChainSpans, VirtioError>(
            VirtioError::DeviceError,
        ),
{
}

/// Where a plan refuses a command, the device queue's answer plays no part.
pub proof fn law_refused_plan_ignores_the_queue(
    g: GpuState,
    gate: Result<ChainSpans, VirtioError>,
    a: AddResult,
    b: AddResult,
)
    requires
        gate is Err,
    ensures
        g.handed_over(gate, a) == g.handed_over(gate, b),
        g.handed_over(gate, a).0 is Err,
        g.handed_over(gate, a).1.queue.inflight == g.queue.inflight,
{
}

/// A refused flush leaves the publication as it was, so it can be sent again.
pub proof fn law_refused_flush_is_disarmed(
    g: GpuState,
    flush: Option<ScanoutFlushToken>,
    gate: Result<ChainSpans, VirtioError>,
    added: AddResult,
)
    requires
        g.flush_of(flush) is Ok,
        gate is Err || added is QueueFull,
    ensures
        ({
            let key = g.flush_of(flush)->Ok_0;
            g.flush_armed_for(key).handed_over(gate, added).1.flush_disarmed_for(key).fast == g.fast
        }),
{
}

/// A flush is in flight with its claim, or it has given the claim up: no claim is
/// lost between the two.
pub proof fn law_refused_flush_gives_up_its_claim(
    g: GpuState,
    meta: DmaBuffer,
    in0_len: usize,
    resp_len: usize,
    cells: ControlCells,
    flush: ScanoutFlushToken,
    added: AddResult,
)
    ensures
        ({
            let (r, t, a) = g.control_enqueued(
                meta,
                in0_len,
                resp_len,
                cells,
                Some(flush),
                added,
            );
            &&& r is Ok ==> t.queue.inflight.len() > 0 && t.queue.inflight.last().flush() == Some(
                flush,
            )
            &&& r is Err ==> a.len() > 0 && a.last() == Action::RetireRead {
                ticket: flush.ledger_ticket,
                cancelled: true,
            }
        }),
{
}

/// Every submission that is accepted, whatever it is tagged with, gets the next
/// fence, uses it up and is in flight with it. A refused one uses up no fence and
/// puts nothing in flight; where the device queue fails, nothing at all stays in
/// flight. So two submissions never share a fence.
pub proof fn law_fences_are_issued_once(
    g: GpuState,
    ring_idx: u32,
    meta: DmaBuffer,
    venus: DmaBuffer,
    venus_len: usize,
    notify: Option<ScanoutNotify>,
    stream: Option<PresentStreamRetire>,
    blt: Option<WindowedBltRetire>,
    added: AddResult,
)
    requires
        g.wf(),
        g.fences.next_wire_fence < u64::MAX,
    ensures
        ({
            let (r, t, _) = g.submit_enqueued(
                ring_idx,
                meta,
                venus,
                venus_len,
                notify,
                stream,
                blt,
                added,
            );
            &&& r matches Ok(f) ==> {
                &&& f == g.fences.next_wire_fence
                &&& t.fences == (FenceState { next_wire_fence: (f + 1) as u64, ..g.fences })
                &&& t.queue.inflight.len() == g.queue.inflight.len() + 1
                &&& t.queue.inflight.drop_last() == g.queue.inflight
                &&& t.queue.inflight.last().fence() == Some(f)
                &&& !some(g.queue.inflight, InFlight::fences(f))
            }
            &&& r is Err ==> {
                &&& t.fences.next_wire_fence == g.fences.next_wire_fence
                &&& if t.queue.failed && !g.queue.failed {
                    t.queue.inflight.len() == 0
                } else {
                    t.fences == g.fences && t.queue.inflight == g.queue.inflight
                }
            }
        }),
{
    let (r, t, _) = g.submit_enqueued(
        ring_idx,
        meta,
        venus,
        venus_len,
        notify,
        stream,
        blt,
        added,
    );
    if r is Ok {
        assert(t.queue.inflight.drop_last() =~= g.queue.inflight);
        let f = g.fences.next_wire_fence;
        assert forall|i: int| 0 <= i < g.queue.inflight.len() implies !InFlight::fences(f)(
            #[trigger] g.queue.inflight[i],
        ) by {
            assert(g.queue.inflight[i].fence() matches Some(x) ==> x < f);
        }
    } else if g.submit_gate(meta, venus, venus_len) is Ok && added is Failed {
        lemma_latched_follows(g);
    }
}

/// A submission's fence is above that of every earlier one: `g` is the transport
/// before the earlier submission, which got `f`, `t` the one right after it, and
/// `later` any state that the transport went on to.
pub proof fn law_later_fences_are_higher(
    g: GpuState,
    f: u64,
    t: GpuState,
    later: GpuState,
    ring_idx: u32,
    meta: DmaBuffer,
    venus: DmaBuffer,
    venus_len: usize,
    notify: Option<ScanoutNotify>,
    stream: Option<PresentStreamRetire>,
    blt: Option<WindowedBltRetire>,
    added: AddResult,
)
    requires
        g.wf(),
        g.fences.next_wire_fence < u64::MAX,
        exists|ring: u32,
            m: DmaBuffer,
            v: DmaBuffer,
            len: usize,
            n: Option<ScanoutNotify>,
            p: Option<PresentStreamRetire>,
            b: Option<WindowedBltRetire>,
            answer: AddResult|
            ({
                let s = #[trigger] g.submit_enqueued(ring, m, v, len, n, p, b, answer);
                s.0 == Ok::<u64, VirtioError>(f) && s.1 == t
            }),
        later.advances(t),
    ensures
        ({
            let r = later.submit_enqueued(
                ring_idx,
                meta,
                venus,
                venus_len,
                notify,
                stream,
                blt,
                added,
            ).0;
            r matches Ok(next) ==> f < next
        }),
        f < later.fences.next_wire_fence,
{
}

/// A value that a stream has accepted is never accepted again, nor is a lower one:
/// `g` is the transport before a tagged submission was accepted, `t` the one right
/// after it, and `later` any state that the transport went on to. While the stream
/// lives, such a tag is refused as malformed; afterwards its capability names no
/// stream.
pub proof fn law_stream_values_rise(
    g: GpuState,
    owner: DeviceOwner,
    ctx_id: u32,
    ring_idx: u32,
    cookie: u64,
    accepted: u32,
    meta: DmaBuffer,
    venus: DmaBuffer,
    venus_len: usize,
    added: AddResult,
    later: GpuState,
    ring: u32,
    value: u32,
)
    requires
        g.wf(),
        g.fences.next_wire_fence < u64::MAX,
        later.wf(),
        value <= accepted,
        g.streams.tag_answer(g.queue.failed, owner, ctx_id, ring_idx, cookie, accepted) matches Ok(
            retire,
        ) && {
            let s = g.submit_enqueued(
                ring_idx,
                meta,
                venus,
                venus_len,
                None,
                Some(retire),
                None,
                added,
            );
            s.0 is Ok && later.advances(s.1)
        },
    ensures
        ({
            let handle = g.streams.tag_answer(
                g.queue.failed,
                owner,
                ctx_id,
                ring_idx,
                cookie,
                accepted,
            )->Ok_0.handle;
            let again = later.streams.tag_answer(
                later.queue.failed,
                owner,
                ctx_id,
                ring,
                cookie,
                value,
            );
            &&& again is Err
            &&& later.streams.handle_live(handle) ==> again == Err::<
                PresentStreamRetire,
                VirtioError,
            >(VirtioError::DeviceError)
        }),
{
    let named = PresentStreamSlot::named(owner, ctx_id, cookie);
    let retire = g.streams.tag_answer(
        g.queue.failed,
        owner,
        ctx_id,
        ring_idx,
        cookie,
        accepted,
    )->Ok_0;
    let s = g.submit_enqueued(
        ring_idx,
        meta,
        venus,
        venus_len,
        None,
        Some(retire),
        None,
        added,
    ).1;
    lemma_first_index_exists(g.streams.slots, named);
    let i = first_index(g.streams.slots, named)->0;
    let slot = g.streams.slots[i];
    assert(slot.wf());
    assert(index_of(retire.handle) == Some(i));
    assert(slot.is_stream(i, retire.handle));
    assert(s.streams.slots[i].submitted_value == accepted);
    assert(later.streams.slots[i].follows(s.streams.slots[i]));
    lemma_first_index_exists(later.streams.slots, named);
    if let Some(j) = first_index(later.streams.slots, named) {
        assert(named(later.streams.slots[j]));
        assert(later.streams.slots[j].follows(s.streams.slots[j]));
        if j != i {
            if j < i {
                assert(g.streams.slots[j].live ==> g.streams.slots[j].cookie != cookie);
            } else {
                assert(g.streams.slots[j].live ==> g.streams.slots[j].cookie != cookie);
            }
            assert(s.streams.slots[j] == g.streams.slots[j]);
            assert(false);
        }
        assert(later.streams.slots[i].generation == slot.generation);
    } else if later.streams.handle_live(retire.handle) {
        assert(later.streams.slots[i].live);
        assert(later.streams.slots[i].wf());
        assert(later.streams.slots[i].generation == slot.generation);
        assert(named(later.streams.slots[i]));
    }
}

} // verus!
