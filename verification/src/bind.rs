//! SETs without a waiter, and their rivalry with the synchronous worker.
//!
//! A SET waits for its producer and for the active publication in a frontier of
//! two: the oldest request, which nothing replaces, and the newest behind it.
use crate::enqueue::AddResult;
use crate::fast_bind::FastBindState;
use crate::gpu::{GpuState, VirtioGpu};
use crate::hal::DmaBuffer;
use crate::inflight::{Action, Chain, ChainSpans, InFlight, InFlightKind};
use crate::progress::{law_follows_is_transitive, lemma_published_fences};
use crate::promises::wire::{field32, has_header, law_set_command_on_the_wire};
use crate::protocol::{encode_set_scanout_blob, set_scanout_blob_bytes, CTRL_HDR_BYTES,
    SET_SCANOUT_BLOB_BYTES};
use crate::queue::QueueState;
use crate::scanout::{bind_of, completed_bind, completed_request, request_of, FastBindDispatch,
    FastBindRefusal, ScanoutBindRequest, WorkerBindDispatch};
use crate::seqs::{any, some};
use vstd::prelude::*;

verus! {

/// Bytes of a SET's command buffer: the command and its response.
pub const BIND_CMD_BYTES: usize = 120;

/// What a SET hands to the device queue.
#[derive(Debug)]
pub struct BindPlan {
    pub request: ScanoutBindRequest,
    /// To be written at the start of the command buffer.
    pub command: Vec<u8>,
    pub spans: ChainSpans,
}

/// The command asks the host to show what is requested.
pub open spec fn shows(command: Seq<u8>, request: ScanoutBindRequest) -> bool {
    &&& has_header(command, 0x10d, 0, 0, 0, 0)
    &&& field32(command, 32) == request.width
    &&& field32(command, 36) == request.height
    &&& field32(command, 40) == 0
    &&& field32(command, 44) == request.resource_id
    &&& field32(command, 48) == request.width
    &&& field32(command, 52) == request.height
    &&& field32(command, 56) == request.format
    &&& field32(command, 64) == request.stride
    &&& field32(command, 80) == request.offset
}

/// `slot`, unless `drop` holds.
pub open spec fn unless(slot: Option<ScanoutBindRequest>, drop: bool) -> Option<ScanoutBindRequest> {
    if drop {
        None
    } else {
        slot
    }
}

impl FastBindState {
    /// A superseded request is forgotten wherever it waits.
    pub open spec fn forgotten(self, request: ScanoutBindRequest) -> FastBindState {
        FastBindState {
            sync_worker_owned: crate::fast_bind::other_request(self.sync_worker_owned, request),
            deferred_worker: crate::fast_bind::other_request(self.deferred_worker, request),
            ..self
        }
    }

    /// The request waits: as the oldest if there is none, else as the newest.
    pub open spec fn deferred(self, request: ScanoutBindRequest) -> FastBindState {
        if self.deferred_earliest is None {
            FastBindState { deferred_earliest: Some(request), ..self }
        } else {
            FastBindState { deferred_latest: Some(request), ..self }
        }
    }

    pub open spec fn is_superseded(self, slot: Option<ScanoutBindRequest>) -> bool {
        slot matches Some(r) && self.superseded(r)
    }

    /// The frontier without superseded requests; the survivors keep their order.
    pub open spec fn without_superseded(self) -> (bool, FastBindState) {
        let e = unless(self.deferred_earliest, self.is_superseded(self.deferred_earliest));
        let l = unless(self.deferred_latest, self.is_superseded(self.deferred_latest));
        (
            self.is_superseded(self.deferred_earliest) || self.is_superseded(self.deferred_latest),
            FastBindState {
                deferred_earliest: if e is Some {
                    e
                } else {
                    l
                },
                deferred_latest: if e is Some {
                    l
                } else {
                    None
                },
                ..self
            },
        )
    }

    pub(crate) fn forget(&mut self, request: ScanoutBindRequest)
        ensures
            *final(self) == old(self).forgotten(request),
    {
        if self.sync_worker_owned == Some(request) {
            self.sync_worker_owned = None;
        }
        if self.deferred_worker == Some(request) {
            self.deferred_worker = None;
        }
    }

    fn slot_superseded(&self, slot: Option<ScanoutBindRequest>) -> (r: bool)
        ensures
            r == self.is_superseded(slot),
    {
        match slot {
            Some(r) => self.presentation_epoch_is_superseded(r),
            None => false,
        }
    }

    pub(crate) fn discard_superseded_fast_bind_frontier(&mut self) -> (r: bool)
        ensures
            r == old(self).without_superseded().0,
            *final(self) == old(self).without_superseded().1,
    {
        let drop_earliest: bool = self.slot_superseded(self.deferred_earliest);
        let drop_latest: bool = self.slot_superseded(self.deferred_latest);
        if drop_latest {
            self.deferred_latest = None;
        }
        if drop_earliest || self.deferred_earliest.is_none() {
            self.deferred_earliest = self.deferred_latest;
            self.deferred_latest = None;
        }
        drop_earliest || drop_latest
    }
}

impl GpuState {
    /// A waiting SET may still be sent: its resource is not being retired and its
    /// producer is not dead.
    pub open spec fn bind_valid(self, request: ScanoutBindRequest) -> bool {
        request.resource_id != self.fast.retiring_resource && self.streams.not_dead(
            request.carried_watermark,
        )
    }

    pub open spec fn is_invalid(self, slot: Option<ScanoutBindRequest>) -> bool {
        slot matches Some(r) && !self.bind_valid(r)
    }

    /// The frontier without invalid requests; a surviving newest one takes the
    /// place of a dropped oldest one.
    pub open spec fn without_invalid(self) -> (bool, FastBindState) {
        let l = unless(self.fast.deferred_latest, self.is_invalid(self.fast.deferred_latest));
        (
            self.is_invalid(self.fast.deferred_earliest) || self.is_invalid(
                self.fast.deferred_latest,
            ),
            if self.is_invalid(self.fast.deferred_earliest) {
                FastBindState { deferred_earliest: l, deferred_latest: None, ..self.fast }
            } else {
                FastBindState { deferred_latest: l, ..self.fast }
            },
        )
    }

    /// The very request is published, being published or was published without
    /// the worker.
    pub open spec fn fast_owns(self, request: ScanoutBindRequest) -> bool {
        ||| self.fast.publication_request == Some(request)
        ||| self.fast.completed matches Some(bind) && request_of(bind) == request
        ||| self.fast.host_accepted_fast && self.fast.host_accepted_fast_request == Some(request)
        ||| some(self.queue.inflight, InFlight::binds(request))
    }

    pub open spec fn resource_live(self, resource_id: u32) -> bool {
        self.tables.resources.contains(resource_id)
    }

    /// The outcome of sending a SET with this command buffer. A SET that is not
    /// sent gives its buffer back.
    pub open spec fn bind_enqueued(
        self,
        buf: DmaBuffer,
        request: ScanoutBindRequest,
        seq: u64,
        added: AddResult,
    ) -> (Option<FastBindRefusal>, GpuState, Seq<Action>) {
        if self.fast.superseded(request) {
            (
                Some(FastBindRefusal::Superseded),
                GpuState { queue: self.queue.with_bind_buffer(buf), ..self },
                Seq::empty(),
            )
        } else if self.fast.publication is Some {
            (
                Some(FastBindRefusal::Busy),
                GpuState { queue: self.queue.with_bind_buffer(buf), ..self },
                Seq::empty(),
            )
        } else if buf.bytes() < BIND_CMD_BYTES {
            (
                Some(FastBindRefusal::Failed),
                GpuState { queue: self.queue.with_bind_buffer(buf), ..self },
                Seq::empty(),
            )
        } else {
            let meta = DmaBuffer { len: BIND_CMD_BYTES, ..buf };
            let (token, g, a) = self.handed_over(self.queue.gate_of_bind(meta), added);
            match token {
                Err(_) => (
                    Some(FastBindRefusal::Failed),
                    GpuState { queue: g.queue.with_bind_buffer(meta), ..g },
                    a,
                ),
                Ok(t) => (None, g.bind_published(t, meta, request, seq), a),
            }
        }
    }

    /// A SET without a waiter is in flight and is the active publication.
    pub open spec fn bind_published(
        self,
        token: u16,
        meta: DmaBuffer,
        request: ScanoutBindRequest,
        seq: u64,
    ) -> GpuState {
        GpuState {
            fast: self.fast.claimed(request, seq).1.set_accepted(request),
            queue: self.queue.published(
                InFlight {
                    token,
                    kind: InFlightKind::AsyncScanoutBind { bind: bind_of(seq, request) },
                    meta,
                    chain: Chain::Meta1 { in0_len: SET_SCANOUT_BLOB_BYTES },
                    resp_len: CTRL_HDR_BYTES,
                    venus: None,
                },
            ),
            ..self
        }
    }

    /// Why a ready SET is not sent, if it is not.
    pub open spec fn ready_refusal(self, request: ScanoutBindRequest) -> Option<FastBindDispatch> {
        if self.fast.sync_worker_owned == Some(request) {
            Some(FastBindDispatch::Handled)
        } else if self.fast.superseded(request) {
            Some(FastBindDispatch::Superseded)
        } else if self.fast.publication is Some {
            Some(FastBindDispatch::Deferred)
        } else if self.fast.retire_barrier || request.resource_id == self.fast.retiring_resource
            || !self.resource_live(request.resource_id) {
            Some(FastBindDispatch::Failed)
        } else if self.queue.bind_cmd_pool.len() == 0 {
            Some(FastBindDispatch::Busy)
        } else {
            None
        }
    }

    /// The outcome of sending a SET whose producer is done.
    pub open spec fn ready_enqueued(
        self,
        request: ScanoutBindRequest,
        seq: u64,
        added: AddResult,
    ) -> (FastBindDispatch, GpuState, Seq<Action>) {
        match self.ready_refusal(request) {
            Some(FastBindDispatch::Superseded) => (
                FastBindDispatch::Superseded,
                GpuState { fast: self.fast.forgotten(request), ..self },
                Seq::empty(),
            ),
            Some(d) => (d, self, Seq::empty()),
            None => {
                let taken = GpuState {
                    queue: QueueState {
                        bind_cmd_pool: self.queue.bind_cmd_pool.drop_last(),
                        ..self.queue
                    },
                    ..self
                };
                let (refusal, g, a) = taken.bind_enqueued(
                    self.queue.bind_cmd_pool.last(),
                    request,
                    seq,
                    added,
                );
                (
                    match refusal {
                        None => FastBindDispatch::Queued,
                        Some(FastBindRefusal::Busy) => FastBindDispatch::Busy,
                        Some(FastBindRefusal::Superseded) => FastBindDispatch::Superseded,
                        Some(FastBindRefusal::Failed) => FastBindDispatch::Failed,
                    },
                    g,
                    a,
                )
            },
        }
    }

    /// Why a new SET is not sent at once, and what stays of it.
    pub open spec fn stage_refusal(self, request: ScanoutBindRequest) -> Option<
        (FastBindDispatch, FastBindState),
    > {
        if self.fast.sync_worker_owned == Some(request) {
            Some((FastBindDispatch::Handled, self.fast))
        } else if self.fast.superseded(request) {
            Some((FastBindDispatch::Superseded, self.fast.forgotten(request)))
        } else if self.fast.retire_barrier || !self.bind_valid(request) {
            Some((FastBindDispatch::Failed, self.fast))
        } else if self.fast.publication is Some || !self.boundary_ready(
            request.carried_watermark,
        ) {
            Some((FastBindDispatch::Deferred, self.fast.deferred(request)))
        } else {
            None
        }
    }

    /// The outcome of a new SET.
    pub open spec fn staged(self, request: ScanoutBindRequest, seq: u64, added: AddResult) -> (
        FastBindDispatch,
        GpuState,
        Seq<Action>,
    ) {
        match self.stage_refusal(request) {
            Some((d, f)) => (d, GpuState { fast: f, ..self }, Seq::empty()),
            None => self.ready_enqueued(request, seq, added),
        }
    }

    /// The oldest waiting SET is due, or why not; and the frontier after looking.
    pub open spec fn service_due(self) -> (
        Result<ScanoutBindRequest, Option<FastBindDispatch>>,
        GpuState,
    ) {
        let (superseded, f) = self.fast.without_superseded();
        let g = GpuState { fast: f, ..self };
        let stale = if superseded {
            Some(FastBindDispatch::Superseded)
        } else {
            None
        };
        if f.retire_barrier || f.publication is Some {
            (Err(stale), g)
        } else {
            let (discarded, f2) = g.without_invalid();
            let h = GpuState { fast: f2, ..g };
            match f2.deferred_earliest {
                None => (
                    Err(
                        if superseded {
                            stale
                        } else if discarded {
                            Some(FastBindDispatch::Failed)
                        } else {
                            None
                        },
                    ),
                    h,
                ),
                Some(earliest) => if !h.boundary_ready(earliest.carried_watermark) {
                    (Err(None), h)
                } else {
                    (
                        Ok(earliest),
                        GpuState {
                            fast: FastBindState {
                                deferred_earliest: unless(
                                    f2.deferred_latest,
                                    h.is_invalid(f2.deferred_latest),
                                ),
                                deferred_latest: None,
                                ..f2
                            },
                            ..h
                        },
                    )
                },
            }
        }
    }

    pub open spec fn serviced(self, seq: u64, added: AddResult) -> (
        Option<FastBindDispatch>,
        GpuState,
        Seq<Action>,
    ) {
        match self.service_due() {
            (Err(d), g) => (d, g, Seq::empty()),
            (Ok(request), g) => {
                let (d, h, a) = g.ready_enqueued(request, seq, added);
                (
                    Some(d),
                    if d == FastBindDispatch::Busy || d == FastBindDispatch::Failed {
                        GpuState {
                            fast: FastBindState { deferred_worker: Some(request), ..h.fast },
                            ..h
                        }
                    } else {
                        h
                    },
                    a,
                )
            },
        }
    }

    /// What the worker is told about a request, and what stays of it.
    pub open spec fn worker_staged(self, request: ScanoutBindRequest, reserve: bool) -> (
        WorkerBindDispatch,
        FastBindState,
    ) {
        let dropped = FastBindState {
            deferred_worker: crate::fast_bind::other_request(self.fast.deferred_worker, request),
            ..self.fast
        };
        let waiting = FastBindState { deferred_worker: Some(request), ..self.fast };
        if self.fast.retire_barrier || !self.bind_valid(request) || !self.resource_live(
            request.resource_id,
        ) {
            (WorkerBindDispatch::Abandoned, dropped)
        } else if self.fast.superseded(request) {
            (WorkerBindDispatch::Superseded, self.fast.forgotten(request))
        } else if self.fast.publication is Some || self.fast.sync_worker_owned == Some(request)
            || self.fast_owns(request) || !self.boundary_ready(request.carried_watermark) {
            (WorkerBindDispatch::Waiting, waiting)
        } else {
            (
                WorkerBindDispatch::Ready,
                FastBindState {
                    sync_worker_owned: if reserve {
                        Some(request)
                    } else {
                        self.fast.sync_worker_owned
                    },
                    ..dropped
                },
            )
        }
    }

    /// Whether the worker is to be woken for its waiting request.
    pub open spec fn worker_woken(self) -> (bool, FastBindState) {
        match self.fast.deferred_worker {
            None => (false, self.fast),
            Some(request) => if self.fast.publication is Some || self.fast_owns(request) {
                (false, self.fast)
            } else if self.fast.superseded(request) {
                (true, self.fast.forgotten(request))
            } else if !self.bind_valid(request) || !self.resource_live(request.resource_id) {
                (false, FastBindState { deferred_worker: None, ..self.fast })
            } else if !self.boundary_ready(request.carried_watermark) {
                (false, self.fast)
            } else {
                (true, FastBindState { deferred_worker: None, ..self.fast })
            },
        }
    }
}

impl QueueState {
    pub open spec fn gate_of_bind(self, meta: DmaBuffer) -> Result<
        ChainSpans,
        crate::error::VirtioError,
    > {
        self.gate(Chain::Meta1 { in0_len: SET_SCANOUT_BLOB_BYTES }, meta, None, CTRL_HDR_BYTES)
    }
}

impl VirtioGpu {
    fn slot_valid(&self, slot: Option<ScanoutBindRequest>) -> (r: bool)
        requires
            self@.streams.wf(),
        ensures
            r == !self@.is_invalid(slot),
    {
        match slot {
            Some(r) => r.resource_id != self.fast.retiring_resource && self.streams.not_dead(
                r.carried_watermark,
            ),
            None => true,
        }
    }

    /// Drop the requests of the frontier that can no longer be sent.
    pub(crate) fn discard_invalid_fast_bind_frontier(&mut self) -> (r: bool)
        requires
            old(self)@.streams.wf(),
        ensures
            r == old(self)@.without_invalid().0,
            final(self)@ == (GpuState { fast: old(self)@.without_invalid().1, ..old(self)@ }),
            final(self)@.follows(old(self)@),
    {
        let drop_earliest: bool = !self.slot_valid(self.fast.deferred_earliest);
        let drop_latest: bool = !self.slot_valid(self.fast.deferred_latest);
        if drop_latest {
            self.fast.deferred_latest = None;
        }
        if drop_earliest {
            self.fast.deferred_earliest = self.fast.deferred_latest;
            self.fast.deferred_latest = None;
        }
        drop_earliest || drop_latest
    }

    fn fast_owns_request(&self, request: ScanoutBindRequest) -> (r: bool)
        ensures
            r == self@.fast_owns(request),
    {
        if self.fast.publication_request == Some(request) {
            return true;
        }
        if let Some(bind) = self.fast.completed {
            if completed_request(bind) == request {
                return true;
            }
        }
        if self.fast.host_accepted_fast && self.fast.host_accepted_fast_request == Some(request) {
            return true;
        }
        let same = |e: &InFlight| -> (b: bool)
            ensures
                b == InFlight::binds(request)(*e),
            {
                match e.kind {
                    InFlightKind::AsyncScanoutBind { bind } => completed_request(bind) == request,
                    _ => false,
                }
            };
        any(&self.queue.inflight, same, Ghost(InFlight::binds(request)))
    }

    /// Send a SET with this command buffer. The SET becomes the active publication
    /// under the number `seq`; a refused one changes nothing but counters and
    /// gives its buffer back.
    pub fn enqueue_scanout_bind_async(
        &mut self,
        buf: DmaBuffer,
        request: ScanoutBindRequest,
        seq: u64,
        added: AddResult,
        out: &mut Vec<Action>,
    ) -> (r: Result<(), FastBindRefusal>)
        requires
            old(self)@.wf(),
            old(self)@.queue.hands_out(added),
            buf.wf(),
        ensures
            ({
                let s = old(self)@.bind_enqueued(buf, request, seq, added);
                &&& r == match s.0 {
                    None => Ok::<(), FastBindRefusal>(()),
                    Some(why) => Err(why),
                }
                &&& final(self)@ == s.1
                &&& final(out)@ == old(out)@ + s.2
            }),
            final(self)@.wf(),
            final(self)@.goes_on(old(self)@),
            r is Err ==> final(self)@.keeps_barrier(old(self)@),
    {
        if self.fast.presentation_epoch_is_superseded(request) {
            self.return_bind_cmd_buffer(buf);
            return Err(FastBindRefusal::Superseded);
        }
        if self.fast.publication.is_some() {
            self.return_bind_cmd_buffer(buf);
            return Err(FastBindRefusal::Busy);
        }
        let mut meta: DmaBuffer = buf;
        if !meta.reset(BIND_CMD_BYTES) {
            self.return_bind_cmd_buffer(meta);
            return Err(FastBindRefusal::Failed);
        }
        let chain = Chain::Meta1 { in0_len: SET_SCANOUT_BLOB_BYTES };
        let gate = self.queue.check_gate(chain, &meta, &None, CTRL_HDR_BYTES);
        let token: u16 = match self.enqueue_core(gate, added, out) {
            Ok(t) => t,
            Err(_) => {
                let ghost refused = self@;
                self.return_bind_cmd_buffer(meta);
                proof {
                    law_follows_is_transitive(old(self)@, refused, self@);
                }
                return Err(FastBindRefusal::Failed);
            },
        };
        let _ = self.fast.claim_publication(request, seq);
        self.fast.note_presentation_set_accepted(request);
        let entry = InFlight {
            token,
            kind: InFlightKind::AsyncScanoutBind { bind: completed_bind(seq, request) },
            meta,
            chain,
            resp_len: CTRL_HDR_BYTES,
            venus: None,
        };
        proof {
            crate::enqueue::lemma_published_wf(self@.queue, entry);
        }
        self.queue.publish(entry);
        proof {
            lemma_published_fences(old(self)@, self@, entry);
        }
        Ok(())
    }

    fn refuse_ready(&self, request: ScanoutBindRequest) -> (r: Option<FastBindDispatch>)
        ensures
            r == self@.ready_refusal(request),
    {
        if self.fast.sync_worker_owned == Some(request) {
            return Some(FastBindDispatch::Handled);
        }
        if self.fast.presentation_epoch_is_superseded(request) {
            return Some(FastBindDispatch::Superseded);
        }
        if self.fast.publication.is_some() {
            return Some(FastBindDispatch::Deferred);
        }
        if self.fast.retire_barrier || request.resource_id == self.fast.retiring_resource
            || !self.resource_is_live(request.resource_id) {
            return Some(FastBindDispatch::Failed);
        }
        if self.queue.bind_cmd_pool.len() == 0 {
            return Some(FastBindDispatch::Busy);
        }
        None
    }

    fn enqueue_ready_scanout_bind(
        &mut self,
        request: ScanoutBindRequest,
        seq: u64,
        added: AddResult,
        out: &mut Vec<Action>,
    ) -> (r: FastBindDispatch)
        requires
            old(self)@.wf(),
            old(self)@.queue.hands_out(added),
        ensures
            r == old(self)@.ready_enqueued(request, seq, added).0,
            final(self)@ == old(self)@.ready_enqueued(request, seq, added).1,
            final(out)@ == old(out)@ + old(self)@.ready_enqueued(request, seq, added).2,
            final(self)@.wf(),
            final(self)@.follows(old(self)@),
    {
        if let Some(d) = self.refuse_ready(request) {
            if d == FastBindDispatch::Superseded {
                self.fast.forget(request);
            }
            return d;
        }
        match self.take_bind_cmd_buffer() {
            None => FastBindDispatch::Busy,
            Some(buf) => {
                let ghost taken = self@;
                let r = self.enqueue_scanout_bind_async(buf, request, seq, added, out);
                proof {
                    law_follows_is_transitive(old(self)@, taken, self@);
                }
                match r {
                    Ok(_) => FastBindDispatch::Queued,
                    Err(FastBindRefusal::Busy) => FastBindDispatch::Busy,
                    Err(FastBindRefusal::Superseded) => FastBindDispatch::Superseded,
                    Err(FastBindRefusal::Failed) => FastBindDispatch::Failed,
                }
            },
        }
    }

    fn refuse_stage(&mut self, request: ScanoutBindRequest) -> (r: Option<FastBindDispatch>)
        requires
            old(self)@.streams.wf(),
        ensures
            match old(self)@.stage_refusal(request) {
                Some((d, f)) => r == Some(d) && final(self)@ == (GpuState { fast: f, ..old(self)@ }),
                None => r is None && final(self)@ == old(self)@,
            },
            final(self)@.follows(old(self)@),
    {
        if self.fast.sync_worker_owned == Some(request) {
            return Some(FastBindDispatch::Handled);
        }
        if self.fast.presentation_epoch_is_superseded(request) {
            self.fast.forget(request);
            return Some(FastBindDispatch::Superseded);
        }
        if self.fast.retire_barrier || !self.slot_valid(Some(request)) {
            return Some(FastBindDispatch::Failed);
        }
        if self.fast.publication.is_some() || !self.scanout_boundary_ready(
            request.carried_watermark,
        ) {
            if self.fast.deferred_earliest.is_none() {
                self.fast.deferred_earliest = Some(request);
            } else {
                self.fast.deferred_latest = Some(request);
            }
            return Some(FastBindDispatch::Deferred);
        }
        None
    }

    /// What sending the SET would hand to the device queue; `None` if it would not
    /// be sent now.
    fn plan_ready(&self, request: ScanoutBindRequest) -> (r: Option<BindPlan>)
        requires
            self@.queue.wf(),
        ensures
            ({
                let buf = DmaBuffer { len: BIND_CMD_BYTES, ..self@.queue.bind_cmd_pool.last() };
                match r {
                    Some(plan) => {
                        &&& self@.ready_refusal(request) is None
                        &&& buf.bytes() >= BIND_CMD_BYTES
                        &&& self@.queue.gate_of_bind(buf) == Ok::<
                            ChainSpans,
                            crate::error::VirtioError,
                        >(plan.spans)
                        &&& plan.request == request
                        &&& plan.command@ == set_scanout_blob_bytes(
                            request.resource_id,
                            request.width,
                            request.height,
                            request.format,
                            request.stride,
                            request.offset,
                        )
                        &&& shows(plan.command@, request)
                    },
                    None => self@.ready_refusal(request) is Some || buf.bytes() < BIND_CMD_BYTES
                        || self@.queue.gate_of_bind(buf) is Err,
                }
            }),
    {
        if self.refuse_ready(request).is_some() {
            return None;
        }
        let last: usize = self.queue.bind_cmd_pool.len() - 1;
        let mut meta: DmaBuffer = DmaBuffer {
            pa: self.queue.bind_cmd_pool[last].pa,
            pages: self.queue.bind_cmd_pool[last].pages,
            len: self.queue.bind_cmd_pool[last].len,
        };
        if !meta.reset(BIND_CMD_BYTES) {
            return None;
        }
        let chain = Chain::Meta1 { in0_len: SET_SCANOUT_BLOB_BYTES };
        proof {
            law_set_command_on_the_wire(
                request.resource_id,
                request.width,
                request.height,
                request.format,
                request.stride,
                request.offset,
            );
        }
        match self.queue.check_gate(chain, &meta, &None, CTRL_HDR_BYTES) {
            Ok(spans) => Some(
                BindPlan {
                    request,
                    command: encode_set_scanout_blob(
                        request.resource_id,
                        request.width,
                        request.height,
                        request.format,
                        request.stride,
                        request.offset,
                    ),
                    spans,
                },
            ),
            Err(_) => None,
        }
    }

    /// What [`Self::stage_scanout_bind`] would hand to the device queue; `None` if
    /// it would send nothing.
    pub fn plan_stage(&self, request: ScanoutBindRequest) -> (r: Option<BindPlan>)
        requires
            self@.wf(),
        ensures
            r matches Some(plan) ==> {
                &&& self@.stage_refusal(request) is None
                &&& self@.ready_refusal(request) is None
                &&& plan.request == request
                &&& plan.command@ == set_scanout_blob_bytes(
                    request.resource_id,
                    request.width,
                    request.height,
                    request.format,
                    request.stride,
                    request.offset,
                )
                &&& shows(plan.command@, request)
                &&& self@.queue.gate_of_bind(
                    DmaBuffer { len: BIND_CMD_BYTES, ..self@.queue.bind_cmd_pool.last() },
                ) == Ok::<ChainSpans, crate::error::VirtioError>(plan.spans)
            },
            r is None ==> forall|seq: u64, a: AddResult, b: AddResult|
                #![trigger self@.ready_enqueued(request, seq, a), self@.ready_enqueued(request, seq, b)]
                self@.stage_refusal(request) is Some || self@.ready_enqueued(request, seq, a)
                    == self@.ready_enqueued(request, seq, b),
    {
        if self.fast.sync_worker_owned == Some(request)
            || self.fast.presentation_epoch_is_superseded(request) || self.fast.retire_barrier
            || !self.slot_valid(Some(request)) || self.fast.publication.is_some()
            || !self.scanout_boundary_ready(request.carried_watermark) {
            return None;
        }
        self.plan_ready(request)
    }

    /// Send a SET now if its producer is done and nothing is being published;
    /// otherwise let it wait. A SET whose producer died is never sent.
    pub fn stage_scanout_bind(
        &mut self,
        request: ScanoutBindRequest,
        seq: u64,
        added: AddResult,
        out: &mut Vec<Action>,
    ) -> (r: FastBindDispatch)
        requires
            old(self)@.wf(),
            old(self)@.queue.hands_out(added),
        ensures
            r == old(self)@.staged(request, seq, added).0,
            final(self)@ == old(self)@.staged(request, seq, added).1,
            final(out)@ == old(out)@ + old(self)@.staged(request, seq, added).2,
            final(self)@.wf(),
            final(self)@.follows(old(self)@),
    {
        if let Some(d) = self.refuse_stage(request) {
            return d;
        }
        self.enqueue_ready_scanout_bind(request, seq, added, out)
    }

    fn take_due(&mut self) -> (r: Result<ScanoutBindRequest, Option<FastBindDispatch>>)
        requires
            old(self)@.wf(),
        ensures
            r == old(self)@.service_due().0,
            final(self)@ == old(self)@.service_due().1,
            final(self)@.wf(),
            final(self)@.follows(old(self)@),
    {
        let superseded: bool = self.fast.discard_superseded_fast_bind_frontier();
        let stale: Option<FastBindDispatch> = if superseded {
            Some(FastBindDispatch::Superseded)
        } else {
            None
        };
        if self.fast.retire_barrier || self.fast.publication.is_some() {
            return Err(stale);
        }
        let discarded: bool = self.discard_invalid_fast_bind_frontier();
        let earliest = match self.fast.deferred_earliest {
            Some(r) => r,
            None => {
                if superseded {
                    return Err(stale);
                }
                if discarded {
                    return Err(Some(FastBindDispatch::Failed));
                }
                return Err(None);
            },
        };
        if !self.scanout_boundary_ready(earliest.carried_watermark) {
            return Err(None);
        }
        let latest = self.fast.deferred_latest;
        if self.slot_valid(latest) {
            self.fast.deferred_earliest = latest;
        } else {
            self.fast.deferred_earliest = None;
        }
        self.fast.deferred_latest = None;
        Ok(earliest)
    }

    /// Send the oldest waiting SET if it is due. The one behind it stays. A due SET
    /// that could not be sent becomes the worker's.
    pub fn service_deferred_scanout_bind(
        &mut self,
        seq: u64,
        added: AddResult,
        out: &mut Vec<Action>,
    ) -> (r: Option<FastBindDispatch>)
        requires
            old(self)@.wf(),
            old(self)@.queue.hands_out(added),
        ensures
            r == old(self)@.serviced(seq, added).0,
            final(self)@ == old(self)@.serviced(seq, added).1,
            final(out)@ == old(out)@ + old(self)@.serviced(seq, added).2,
            final(self)@.wf(),
            final(self)@.follows(old(self)@),
    {
        let request = match self.take_due() {
            Ok(r) => r,
            Err(d) => {
                return d;
            },
        };
        let ghost due = self@;
        let d = self.enqueue_ready_scanout_bind(request, seq, added, out);
        proof {
            law_follows_is_transitive(old(self)@, due, self@);
        }
        if d == FastBindDispatch::Busy || d == FastBindDispatch::Failed {
            self.fast.deferred_worker = Some(request);
        }
        Some(d)
    }

    /// What [`Self::service_deferred_scanout_bind`] would hand to the device queue;
    /// `None` if it would send nothing. The frontier is left as it is.
    pub fn plan_service(&mut self) -> (r: Option<BindPlan>)
        requires
            old(self)@.wf(),
        ensures
            final(self)@ == old(self)@,
            ({
                let (due, g) = old(self)@.service_due();
                match r {
                    Some(plan) => {
                        &&& due == Ok::<ScanoutBindRequest, Option<FastBindDispatch>>(plan.request)
                        &&& shows(plan.command@, plan.request)
                        &&& g.ready_refusal(plan.request) is None
                        &&& plan.command@ == set_scanout_blob_bytes(
                            plan.request.resource_id,
                            plan.request.width,
                            plan.request.height,
                            plan.request.format,
                            plan.request.stride,
                            plan.request.offset,
                        )
                        &&& g.queue.gate_of_bind(
                            DmaBuffer { len: BIND_CMD_BYTES, ..g.queue.bind_cmd_pool.last() },
                        ) == Ok::<ChainSpans, crate::error::VirtioError>(plan.spans)
                    },
                    None => due matches Ok(request) ==> {
                        let buf = DmaBuffer {
                            len: BIND_CMD_BYTES,
                            ..g.queue.bind_cmd_pool.last()
                        };
                        g.ready_refusal(request) is Some || buf.bytes() < BIND_CMD_BYTES
                            || g.queue.gate_of_bind(buf) is Err
                    },
                }
            }),
            final(self)@.follows(old(self)@),
    {
        let before: FastBindState = self.fast;
        let plan = match self.take_due() {
            Ok(request) => self.plan_ready(request),
            Err(_) => None,
        };
        self.fast = before;
        plan
    }

    /// Ask whether the worker may send a SET with a waiter for this request. With
    /// `reserve_sync_set` a `Ready` answer claims the request for the worker.
    pub fn stage_worker_scanout_bind(
        &mut self,
        request: ScanoutBindRequest,
        reserve_sync_set: bool,
    ) -> (r: WorkerBindDispatch)
        requires
            old(self)@.wf(),
        ensures
            r == old(self)@.worker_staged(request, reserve_sync_set).0,
            final(self)@ == (GpuState {
                fast: old(self)@.worker_staged(request, reserve_sync_set).1,
                ..old(self)@
            }),
            final(self)@.wf(),
            final(self)@.follows(old(self)@),
    {
        if self.fast.retire_barrier || !self.slot_valid(Some(request)) || !self.resource_is_live(
            request.resource_id,
        ) {
            if self.fast.deferred_worker == Some(request) {
                self.fast.deferred_worker = None;
            }
            return WorkerBindDispatch::Abandoned;
        }
        if self.fast.presentation_epoch_is_superseded(request) {
            self.fast.forget(request);
            return WorkerBindDispatch::Superseded;
        }
        if self.fast.publication.is_some() || self.fast.sync_worker_owned == Some(request)
            || self.fast_owns_request(request) || !self.scanout_boundary_ready(
            request.carried_watermark,
        ) {
            self.fast.deferred_worker = Some(request);
            return WorkerBindDispatch::Waiting;
        }
        if self.fast.deferred_worker == Some(request) {
            self.fast.deferred_worker = None;
        }
        if reserve_sync_set {
            self.fast.sync_worker_owned = Some(request);
        }
        WorkerBindDispatch::Ready
    }

    /// Whether the worker is to be woken for the request it was told to wait with.
    pub fn take_ready_worker_scanout_bind(&mut self) -> (r: bool)
        requires
            old(self)@.wf(),
        ensures
            r == old(self)@.worker_woken().0,
            final(self)@ == (GpuState { fast: old(self)@.worker_woken().1, ..old(self)@ }),
            final(self)@.wf(),
            final(self)@.follows(old(self)@),
    {
        let request = match self.fast.deferred_worker {
            Some(r) => r,
            None => return false,
        };
        if self.fast.publication.is_some() || self.fast_owns_request(request) {
            return false;
        }
        if self.fast.presentation_epoch_is_superseded(request) {
            self.fast.forget(request);
            return true;
        }
        if !self.slot_valid(Some(request)) || !self.resource_is_live(request.resource_id) {
            self.fast.deferred_worker = None;
            return false;
        }
        if !self.scanout_boundary_ready(request.carried_watermark) {
            return false;
        }
        self.fast.deferred_worker = None;
        true
    }
}

/// The oldest waiting SET is not replaced by newer ones, and comes out first.
pub proof fn law_oldest_bind_is_not_replaced(f: FastBindState, request: ScanoutBindRequest)
    requires
        f.deferred_earliest is Some,
    ensures
        f.deferred(request).deferred_earliest == f.deferred_earliest,
        f.deferred(request).deferred_latest == Some(request),
{
}

/// While a publication is active no other SET goes out, and none of these calls
/// touches the publication.
pub proof fn law_active_publication_blocks_sets(
    g: GpuState,
    request: ScanoutBindRequest,
    seq: u64,
    added: AddResult,
)
    requires
        g.fast.publication is Some,
    ensures
        !(g.ready_enqueued(request, seq, added).0 is Queued),
        g.ready_enqueued(request, seq, added).1.queue.inflight == g.queue.inflight,
        g.ready_enqueued(request, seq, added).1.fast.publication == g.fast.publication,
        g.stage_refusal(request) is Some,
        !(g.worker_staged(request, true).0 is Ready),
{
}

/// A SET that went out is the active publication, and its epoch is superseded from
/// then on.
pub proof fn law_sent_bind_is_published(
    g: GpuState,
    request: ScanoutBindRequest,
    seq: u64,
    added: AddResult,
)
    requires
        g.ready_enqueued(request, seq, added).0 is Queued,
        request.resource_id != 0,
        request.present_epoch != 0,
    ensures
        ({
            let f = g.ready_enqueued(request, seq, added).1.fast;
            &&& f.publication_request == Some(request)
            &&& f.publication matches Some(p) && p.seq == seq
            &&& f.superseded(request)
        }),
{
}

/// The worker and the fast path never both own a request: what the worker has
/// claimed is not sent without it, and what was sent without it the worker is told
/// to wait with.
pub proof fn law_one_owner_per_request(
    g: GpuState,
    request: ScanoutBindRequest,
    seq: u64,
    added: AddResult,
)
    ensures
        g.fast.sync_worker_owned == Some(request) ==> g.ready_enqueued(request, seq, added).0
            == FastBindDispatch::Handled && g.stage_refusal(request) == Some(
            (FastBindDispatch::Handled, g.fast),
        ),
        g.fast_owns(request) ==> !(g.worker_staged(request, true).0 is Ready),
{
}

} // verus!
