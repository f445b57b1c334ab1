//! Completions of the control queue, and its failure.
//!
//! The caller pops one used element at a time and hands over its token, whether
//! the pop worked, and the first word of the response. What then has to happen
//! outside is returned as a list of actions.
use crate::counters::{bump_high_water, raised, QueueCounters};
use crate::fast_bind::FastBindState;
use crate::fences::{law_retired_fence_leaves_nobody, law_retired_fence_reaches_each_once,
    lemma_tally_one, FenceEventEntry, FenceState,
    FenceWaitPrep, FenceWaiter};
use crate::gpu::{distinct_fences, GpuState, VirtioGpu};
use crate::inflight::{Action, ChainSpans, ControlCells, InFlight, InFlightKind, PresentStreamRetire,
    ScanoutFlushToken, ScanoutNotify, SyncScanoutBind, WindowedBltRetire, NO_LEASE,
    SCANOUT_RING_IDX, SYNC_RESP_MAX};
use crate::present_stream::{decode_present_stream_boundary, stream_of, MAX_STREAMS};
use crate::progress::{law_follows_is_transitive, lemma_purged_follows, lemma_removed_fences};
use crate::protocol::{is_ok, resp_is_ok};
use crate::queue::{ControlQueue, QueueState, BIND_CMD_POOL, MAX_PARKED};
use crate::scanout::{bind_of, completed_bind, completed_request, request_of, CompletedBind,
    PublicationKey, ScanoutBindRequest, ScanoutRefreshState};
use crate::seqs::{first_index, lemma_first_index_exists, lemma_tally_concat, lemma_tally_none,
    position, some, swap_removed, tally};
use crate::streams::{PresentStreamSlot, StreamState};
use crate::windowed_blt::{retire_read, BltState, WindowedBltPending};
use vstd::prelude::*;

verus! {

impl QueueState {
    /// A command that the device is done with waits to be reaped; a full table
    /// loses it and is counted.
    pub open spec fn with_parked(self, e: InFlight) -> QueueState {
        if self.parked.len() < MAX_PARKED {
            QueueState {
                parked: self.parked.push(e),
                counters: QueueCounters {
                    parked_high_water: raised(
                        self.counters.parked_high_water,
                        self.parked.len() + 1,
                    ),
                    ..self.counters
                },
                ..self
            }
        } else {
            QueueState {
                counters: QueueCounters {
                    parked_leaks: self.counters.parked_leaks.wrapping_add(1),
                    ..self.counters
                },
                ..self
            }
        }
    }
}

impl QueueState {
    /// The spans of the command that has a token.
    pub open spec fn spans_in_flight(self, token: u16) -> Option<ChainSpans> {
        match first_index(self.inflight, InFlight::tokened(token)) {
            Some(i) => {
                let e = self.inflight[i];
                e.chain.spans_of(e.meta, e.venus, e.resp_len)
            },
            None => None,
        }
    }
}

impl InFlight {
    /// The command without its flush token, which its end has used up.
    pub open spec fn spent(self) -> InFlight {
        match self.kind {
            InFlightKind::AsyncControl { cells, .. } => InFlight {
                kind: InFlightKind::AsyncControl { cells, scanout_flush: None },
                ..self
            },
            _ => self,
        }
    }

    pub open spec fn flush(self) -> Option<ScanoutFlushToken> {
        match self.kind {
            InFlightKind::AsyncControl { scanout_flush, .. } => scanout_flush,
            _ => None,
        }
    }

    /// Take the flush token out of the command.
    pub(crate) fn take_scanout_flush_token(&mut self) -> (r: Option<ScanoutFlushToken>)
        ensures
            r == old(self).flush(),
            *final(self) == old(self).spent(),
    {
        match self.kind {
            InFlightKind::AsyncControl { cells, scanout_flush } => {
                self.kind = InFlightKind::AsyncControl { cells, scanout_flush: None };
                scanout_flush
            },
            _ => None,
        }
    }
}

/// What the end of a flush asks for: its claim is retired, whatever the host said,
/// and the leases it covers end.
pub open spec fn end_flush(flush: Option<ScanoutFlushToken>, ok: bool) -> Seq<Action> {
    match flush {
        Some(f) => seq![
            Action::RetireRead { ticket: f.ledger_ticket, cancelled: false },
        ] + if f.covers_epoch != NO_LEASE {
            seq![Action::EndLeases { adapter: f.adapter, through: f.covers_epoch, host_read: ok }]
        } else {
            Seq::empty()
        },
        None => Seq::empty(),
    }
}

/// What a flush asks for that never ran: its claim is retired as cancelled.
pub open spec fn dropped_flush(flush: Option<ScanoutFlushToken>) -> Seq<Action> {
    match flush {
        Some(f) => seq![Action::RetireRead { ticket: f.ledger_ticket, cancelled: true }],
        None => Seq::empty(),
    }
}

/// What the end of a command without a waiter asks for: record the outcome,
/// clear the busy cell, and only then wake.
pub open spec fn control_done(cells: ControlCells, ok: bool) -> Seq<Action> {
    (if !ok {
        seq![Action::Increment { cell: cells.completion_errors }]
    } else {
        (match cells.success_cell {
            Some(cell) => seq![Action::Store { cell, value: cells.success_value as u64 }],
            None => Seq::empty(),
        }) + (match cells.resubmit {
            Some(cell) => seq![Action::Store { cell, value: 1 }],
            None => Seq::empty(),
        })
    }) + seq![
        Action::Store { cell: cells.completion, value: 0 },
        Action::Wake { event: cells.wake_event },
    ]
}

/// What the end of a scan-out copy asks for: only a successful copy is shown,
/// and either way its own programming gate is lowered.
pub open spec fn notify_done(n: ScanoutNotify, ok: bool) -> Seq<Action> {
    (if ok {
        seq![
            Action::Store { cell: n.displayed_primary, value: n.primary_address },
            Action::Store { cell: n.pending, value: 1 },
        ]
    } else {
        Seq::empty()
    }) + seq![
        Action::LowerGate { gate: n.programming, ticket: n.ticket },
        Action::Wake { event: n.event },
    ]
}

/// Only a copy on the scan-out ring notifies.
pub open spec fn copy_notified(notify: Option<ScanoutNotify>, ring_idx: u8, ok: bool) -> Seq<Action> {
    match notify {
        Some(n) => if ring_idx == SCANOUT_RING_IDX {
            notify_done(n, ok)
        } else {
            Seq::empty()
        },
        None => Seq::empty(),
    }
}

impl FastBindState {
    /// After a SET with a waiter ended.
    pub open spec fn sync_set_ended(
        self,
        bind: Option<SyncScanoutBind>,
        abandoned: bool,
        ok: bool,
    ) -> FastBindState {
        match bind {
            None => self,
            Some(b) => if ok {
                let accepted = self.host_accepted(b.seq, b.resource_id);
                match b.request {
                    Some(request) => {
                        let (terminal, f) = accepted.set_done(request, b.seq, true);
                        if abandoned && terminal {
                            FastBindState { completed: Some(bind_of(b.seq, request)), ..f }
                        } else {
                            f
                        }
                    },
                    None => accepted,
                }
            } else {
                match b.request {
                    Some(request) => FastBindState {
                        fast_failure_wake: Some(request),
                        ..self.set_done(request, b.seq, false).1
                    },
                    None => self,
                }
            },
        }
    }

    /// After a SET without a waiter ended.
    pub open spec fn fast_set_ended(self, bind: CompletedBind, ok: bool) -> FastBindState {
        let request = request_of(bind);
        let f = self.set_done(request, bind.seq, ok).1;
        if ok {
            FastBindState { completed: Some(bind), ..f.host_accepted_fast(bind.seq, request) }
        } else {
            FastBindState { fast_failure_wake: Some(request), ..f }
        }
    }

    /// After a flush ended: the publication it covers is over.
    pub open spec fn flush_ended(self, flush: Option<ScanoutFlushToken>, ok: bool) -> FastBindState {
        match flush {
            Some(f) => {
                let key = PublicationKey {
                    resource_id: f.resource_id,
                    present_epoch: f.covers_epoch,
                };
                if self.request_for(f.resource_id) matches Some(r) && r.present_epoch
                    == f.covers_epoch {
                    if ok {
                        self.flush_done(key).1
                    } else {
                        self.released(key).1
                    }
                } else {
                    self
                }
            },
            None => self,
        }
    }

    pub(crate) fn end_sync_set(&mut self, bind: Option<SyncScanoutBind>, abandoned: bool, ok: bool)
        ensures
            *final(self) == old(self).sync_set_ended(bind, abandoned, ok),
    {
        if let Some(b) = bind {
            if ok {
                self.accept(b.seq, b.resource_id);
                if let Some(request) = b.request {
                    let terminal: bool = self.complete_publication_set(request, b.seq, true);
                    if abandoned && terminal {
                        self.completed = Some(completed_bind(b.seq, request));
                    }
                }
            } else if let Some(request) = b.request {
                let _ = self.complete_publication_set(request, b.seq, false);
                self.fast_failure_wake = Some(request);
            }
        }
    }

    pub(crate) fn end_fast_set(&mut self, bind: CompletedBind, ok: bool)
        ensures
            *final(self) == old(self).fast_set_ended(bind, ok),
    {
        let request: ScanoutBindRequest = completed_request(bind);
        let _ = self.complete_publication_set(request, bind.seq, ok);
        if ok {
            self.accept_fast(bind.seq, request);
            self.completed = Some(bind);
        } else {
            self.fast_failure_wake = Some(request);
        }
    }

    pub(crate) fn end_flush(&mut self, flush: Option<ScanoutFlushToken>, ok: bool)
        ensures
            *final(self) == old(self).flush_ended(flush, ok),
    {
        if let Some(f) = flush {
            if let Some(request) = self.publication_for(f.resource_id) {
                if request.present_epoch == f.covers_epoch {
                    let key = PublicationKey {
                        resource_id: f.resource_id,
                        present_epoch: f.covers_epoch,
                    };
                    if ok {
                        let _ = self.complete_flush(key);
                    } else {
                        let _ = self.cancel_exact(key);
                    }
                }
            }
        }
    }
}

impl GpuState {
    /// What the failure of one command changes and asks for. Nothing succeeded,
    /// so nothing is published; but everyone who waits is released.
    pub open spec fn entry_failed(self, e: InFlight) -> (GpuState, Seq<Action>) {
        let parked = GpuState { queue: self.queue.with_parked(e.spent()), ..self };
        match e.kind {
            InFlightKind::Sync { waiter, .. } => (
                parked,
                match waiter {
                    Some(block) => seq![Action::FailBlock { block }],
                    None => Seq::empty(),
                },
            ),
            InFlightKind::AsyncControl { cells, scanout_flush } => (
                parked,
                end_flush(scanout_flush, false) + control_done(cells, false),
            ),
            InFlightKind::AsyncScanoutBind { .. } => (parked, Seq::empty()),
            InFlightKind::AsyncVenus { scanout_notify, windowed_blt, .. } => {
                let released = match scanout_notify {
                    Some(n) => notify_done(n, false),
                    None => Seq::empty(),
                };
                match windowed_blt {
                    Some(w) => {
                        let (blt, a) = self.blt.ended(
                            w.adapter,
                            w.token,
                            w.stream_boundary,
                            false,
                        );
                        (GpuState { blt, ..parked }, released + a)
                    },
                    None => (parked, released),
                }
            },
        }
    }

    /// Every command in flight fails, the last one first.
    pub open spec fn inflight_failed(self) -> (GpuState, Seq<Action>)
        decreases self.queue.inflight.len(),
    {
        if self.queue.inflight.len() == 0 {
            (self, Seq::empty())
        } else {
            let popped = GpuState {
                queue: QueueState {
                    inflight: self.queue.inflight.drop_last(),
                    ..self.queue
                },
                ..self
            };
            let (t, a) = popped.entry_failed(self.queue.inflight.last());
            if t.queue.inflight.len() < self.queue.inflight.len() {
                let (u, b) = t.inflight_failed();
                (u, a + b)
            } else {
                (t, a)
            }
        }
    }

    /// Every stream dies, and what waited for one is dropped.
    pub open spec fn streams_purged(self) -> GpuState {
        GpuState {
            streams: self.streams.purged(PresentStreamSlot::anyone(), MAX_STREAMS as nat),
            refresh: ScanoutRefreshState::idle(),
            fast: FastBindState {
                deferred_earliest: untagged(self.fast.deferred_earliest),
                deferred_latest: untagged(self.fast.deferred_latest),
                ..self.fast
            },
            ..self
        }
    }

    /// The transport fails for good.
    pub open spec fn latched(self) -> (GpuState, Seq<Action>) {
        let start = GpuState {
            queue: QueueState { failed: true, ..self.queue },
            fast: FastBindState::blank(self.fast.presentation_epoch_floor),
            ..self
        };
        let (a, act1) = start.inflight_failed();
        let (woken, act2) = a.fences.all_woken();
        let b = GpuState { fences: woken, ..a }.streams_purged();
        let (blt, act3) = b.blt.aborted();
        let (signalled, act4) = b.fences.all_signalled();
        (GpuState { blt, fences: signalled, ..b }, act1 + act2 + act3 + act4)
    }

    /// A copy that was admitted, not sent, and whose producer is done.
    pub open spec fn blt_waits(self) -> spec_fn(WindowedBltPending) -> bool {
        |r: WindowedBltPending|
            r.admitted && !r.dispatched && self.boundary_ready(r.stream_boundary)
    }

    pub open spec fn blt_wake(self) -> Seq<Action> {
        match first_index(self.blt.pending, self.blt_waits()) {
            Some(i) => seq![Action::WakeDisplay { adapter: self.blt.pending[i].adapter }],
            None => Seq::empty(),
        }
    }

    pub open spec fn venus_counted(self, ring_idx: u8, ok: bool) -> GpuState {
        GpuState {
            queue: QueueState {
                counters: QueueCounters {
                    async_completes: self.queue.counters.async_completes.wrapping_add(1),
                    ring_completes: if ring_idx != 0 {
                        self.queue.counters.ring_completes.wrapping_add(1)
                    } else {
                        self.queue.counters.ring_completes
                    },
                    async_resp_errors: if !ok {
                        self.queue.counters.async_resp_errors.wrapping_add(1)
                    } else {
                        self.queue.counters.async_resp_errors
                    },
                    ..self.queue.counters
                },
                ..self.queue
            },
            ..self
        }
    }

    /// What the answer to a tagged submission does to its stream. A refusal
    /// retires no value: it ends the stream.
    pub open spec fn stream_answered(self, stream: Option<PresentStreamRetire>, ok: bool) -> (
        GpuState,
        Seq<Action>,
    ) {
        match stream {
            Some(s) => {
                let g = GpuState {
                    streams: if ok {
                        self.streams.value_retired(s)
                    } else {
                        self.streams.value_failed(s)
                    },
                    ..self
                };
                (g, g.blt_wake())
            },
            None => (self, Seq::empty()),
        }
    }

    /// What the answer to a copy does to it.
    pub open spec fn blt_answered(self, blt: Option<WindowedBltRetire>, ok: bool) -> (
        GpuState,
        Seq<Action>,
    ) {
        match blt {
            Some(w) => {
                let (b, a) = self.blt.ring_completed(w.adapter, w.token, w.stream_boundary, ok);
                (GpuState { blt: b, ..self }, a)
            },
            None => (self, Seq::empty()),
        }
    }

    /// What the answer to a submission changes and asks for.
    pub open spec fn venus_completed(
        self,
        fence_id: u64,
        ring_idx: u8,
        notify: Option<ScanoutNotify>,
        stream: Option<PresentStreamRetire>,
        blt: Option<WindowedBltRetire>,
        ok: bool,
    ) -> (GpuState, Seq<Action>) {
        let (g1, a1) = self.venus_counted(ring_idx, ok).stream_answered(stream, ok);
        let (g2, a2) = g1.blt_answered(blt, ok);
        let a3 = copy_notified(notify, ring_idx, ok);
        let (f, a4) = g2.fences.fence_retired(fence_id);
        (GpuState { fences: f, ..g2 }, a1 + a2 + a3 + a4)
    }

    /// What the answer to a command changes and asks for, before the command is
    /// put away.
    pub open spec fn entry_completed(self, e: InFlight, ok: bool) -> (GpuState, Seq<Action>) {
        match e.kind {
            InFlightKind::Sync { waiter, scanout_bind } => (
                GpuState {
                    fast: self.fast.sync_set_ended(scanout_bind, waiter is None, ok),
                    ..self
                },
                match waiter {
                    Some(block) => seq![
                        Action::CompleteBlock {
                            block,
                            copy: if e.resp_len <= SYNC_RESP_MAX {
                                e.resp_len
                            } else {
                                SYNC_RESP_MAX
                            },
                        },
                    ],
                    None => Seq::empty(),
                },
            ),
            InFlightKind::AsyncScanoutBind { bind } => (
                GpuState { fast: self.fast.fast_set_ended(bind, ok), ..self },
                Seq::empty(),
            ),
            InFlightKind::AsyncControl { cells, scanout_flush } => (
                GpuState {
                    fast: self.fast.flush_ended(scanout_flush, ok),
                    queue: QueueState {
                        counters: QueueCounters {
                            async_ctrl_completes:
                                self.queue.counters.async_ctrl_completes.wrapping_add(1),
                            async_ctrl_resp_errors: if !ok {
                                self.queue.counters.async_ctrl_resp_errors.wrapping_add(1)
                            } else {
                                self.queue.counters.async_ctrl_resp_errors
                            },
                            ..self.queue.counters
                        },
                        ..self.queue
                    },
                    ..self
                },
                end_flush(scanout_flush, ok) + control_done(cells, ok),
            ),
            InFlightKind::AsyncVenus {
                fence_id,
                ring_idx,
                scanout_notify,
                present_stream,
                windowed_blt,
            } => self.venus_completed(
                fence_id,
                ring_idx,
                scanout_notify,
                present_stream,
                windowed_blt,
                ok,
            ),
        }
    }

    /// A finished command is put away: the buffer of a SET without a waiter goes
    /// back to its pool, everything else waits to be reaped.
    pub open spec fn put_away(self, e: InFlight) -> GpuState {
        GpuState {
            queue: if e.kind is AsyncScanoutBind && e.venus is None
                && self.queue.bind_cmd_pool.len() < BIND_CMD_POOL {
                self.queue.with_bind_buffer(e.meta)
            } else {
                self.queue.with_parked(e.spent())
            },
            ..self
        }
    }

    /// One used element is drained.
    pub open spec fn drained(self, token: u16, popped: bool, resp_type: u32) -> (
        GpuState,
        Seq<Action>,
    ) {
        if self.queue.failed {
            (self, Seq::empty())
        } else {
            match first_index(self.queue.inflight, InFlight::tokened(token)) {
                None => GpuState {
                    queue: QueueState {
                        counters: QueueCounters {
                            drain_bad_token: self.queue.counters.drain_bad_token.wrapping_add(1),
                            ..self.queue.counters
                        },
                        ..self.queue
                    },
                    ..self
                }.latched(),
                Some(i) => if !popped {
                    self.latched()
                } else {
                    let e = self.queue.inflight[i];
                    let (t, a) = GpuState {
                        queue: QueueState {
                            inflight: swap_removed(self.queue.inflight, i),
                            ..self.queue
                        },
                        ..self
                    }.entry_completed(e, is_ok(resp_type));
                    (t.put_away(e), a)
                },
            }
        }
    }
}

/// `slot`, unless it waits for a stream.
pub open spec fn untagged(slot: Option<ScanoutBindRequest>) -> Option<ScanoutBindRequest> {
    match slot {
        Some(r) => if stream_of(r.carried_watermark) is Some {
            None
        } else {
            slot
        },
        None => None,
    }
}

fn keep_untagged(slot: Option<ScanoutBindRequest>) -> (r: Option<ScanoutBindRequest>)
    ensures
        r == untagged(slot),
{
    match slot {
        Some(r) => if decode_present_stream_boundary(r.carried_watermark).is_some() {
            None
        } else {
            slot
        },
        None => None,
    }
}

fn push_control_done(cells: ControlCells, ok: bool, out: &mut Vec<Action>)
    ensures
        final(out)@ == old(out)@ + control_done(cells, ok),
{
    if !ok {
        out.push(Action::Increment { cell: cells.completion_errors });
    } else {
        if let Some(cell) = cells.success_cell {
            out.push(Action::Store { cell, value: cells.success_value as u64 });
        }
        if let Some(cell) = cells.resubmit {
            out.push(Action::Store { cell, value: 1 });
        }
    }
    out.push(Action::Store { cell: cells.completion, value: 0 });
    out.push(Action::Wake { event: cells.wake_event });
}

impl ScanoutFlushToken {
    /// The host answered the flush: its claim is over, and so are the leases that
    /// it covers.
    pub fn complete(self, ok: bool, out: &mut Vec<Action>)
        ensures
            final(out)@ == old(out)@ + end_flush(Some(self), ok),
    {
        out.push(Action::RetireRead { ticket: self.ledger_ticket, cancelled: false });
        if self.covers_epoch != NO_LEASE {
            out.push(
                Action::EndLeases {
                    adapter: self.adapter,
                    through: self.covers_epoch,
                    host_read: ok,
                },
            );
        }
    }
}

fn push_end_flush(flush: Option<ScanoutFlushToken>, ok: bool, out: &mut Vec<Action>)
    ensures
        final(out)@ == old(out)@ + end_flush(flush, ok),
{
    if let Some(f) = flush {
        f.complete(ok, out);
    }
}

pub(crate) fn push_dropped_flush(flush: Option<ScanoutFlushToken>, out: &mut Vec<Action>)
    ensures
        final(out)@ == old(out)@ + dropped_flush(flush),
{
    if let Some(f) = flush {
        out.push(Action::RetireRead { ticket: f.ledger_ticket, cancelled: true });
    }
}

fn push_notify_done(n: ScanoutNotify, ok: bool, out: &mut Vec<Action>)
    ensures
        final(out)@ == old(out)@ + notify_done(n, ok),
{
    if ok {
        out.push(Action::Store { cell: n.displayed_primary, value: n.primary_address });
        out.push(Action::Store { cell: n.pending, value: 1 });
    }
    out.push(Action::LowerGate { gate: n.programming, ticket: n.ticket });
    out.push(Action::Wake { event: n.event });
}

fn push_copy_notified(notify: Option<ScanoutNotify>, ring_idx: u8, ok: bool, out: &mut Vec<Action>)
    ensures
        final(out)@ == old(out)@ + copy_notified(notify, ring_idx, ok),
{
    if let Some(n) = notify {
        if ring_idx as u32 == SCANOUT_RING_IDX {
            push_notify_done(n, ok, out);
        }
    }
}

impl ControlQueue {
    /// Put a finished command where it waits to be reaped.
    pub(crate) fn park(&mut self, entry: InFlight)
        ensures
            final(self)@ == old(self)@.with_parked(entry),
    {
        if self.parked.len() < MAX_PARKED {
            self.parked.push(entry);
            bump_high_water(&mut self.counters.parked_high_water, self.parked.len());
        } else {
            self.counters.parked_leaks = self.counters.parked_leaks.wrapping_add(1);
        }
    }
}

impl VirtioGpu {
    fn fail_entry(&mut self, entry: InFlight, out: &mut Vec<Action>)
        requires
            old(self)@.blt.wf(),
        ensures
            final(self)@ == old(self)@.entry_failed(entry).0,
            final(out)@ == old(out)@ + old(self)@.entry_failed(entry).1,
            final(self)@.blt.wf(),
    {
        let mut e: InFlight = entry;
        let flush = e.take_scanout_flush_token();
        match e.kind {
            InFlightKind::Sync { waiter, .. } => {
                if let Some(block) = waiter {
                    out.push(Action::FailBlock { block });
                }
            },
            InFlightKind::AsyncControl { cells, .. } => {
                push_end_flush(flush, false, out);
                push_control_done(cells, false, out);
            },
            InFlightKind::AsyncScanoutBind { .. } => {},
            InFlightKind::AsyncVenus { scanout_notify, windowed_blt, .. } => {
                if let Some(n) = scanout_notify {
                    push_notify_done(n, false, out);
                }
                if let Some(w) = windowed_blt {
                    self.blt.end(w.adapter, w.token, w.stream_boundary, false, out);
                }
            },
        }
        self.queue.park(e);
    }

    /// Forget every stream and what waited for one.
    pub fn purge_all_present_streams(&mut self)
        requires
            old(self)@.streams.wf(),
        ensures
            final(self)@ == old(self)@.streams_purged(),
            final(self)@.streams.wf(),
            final(self)@.follows(old(self)@),
    {
        proof {
            lemma_purged_follows(
                self@.streams,
                PresentStreamSlot::anyone(),
                MAX_STREAMS as nat,
            );
        }
        self.streams.purge_all();
        self.refresh.clear();
        self.fast.deferred_earliest = keep_untagged(self.fast.deferred_earliest);
        self.fast.deferred_latest = keep_untagged(self.fast.deferred_latest);
    }

    /// Fail the transport for good, and release everyone who waits on it.
    pub(crate) fn latch_failed_and_fail_inflight(&mut self, out: &mut Vec<Action>)
        requires
            old(self)@.wf(),
        ensures
            final(self)@ == old(self)@.latched().0,
            final(out)@ == old(out)@ + old(self)@.latched().1,
            final(self)@.wf(),
            final(self)@.queue.failed,
            final(self)@.queue.inflight.len() == 0,
            final(self)@.follows(old(self)@),
    {
        let ghost log = out@;
        self.queue.failed = true;
        self.fast = FastBindState::reset_to(self.fast.presentation_epoch_floor);
        let ghost start = self@;
        loop
            invariant
                self@.parts_wf(),
                self@.queue.failed,
                start.inflight_failed().0 == self@.inflight_failed().0,
                log + start.inflight_failed().1 =~= out@ + self@.inflight_failed().1,
            ensures
                self@.parts_wf(),
                self@.queue.failed,
                self@.queue.inflight.len() == 0,
                self@ == start.inflight_failed().0,
                out@ =~= log + start.inflight_failed().1,
            decreases self.queue.inflight.len(),
        {
            match self.queue.inflight.pop() {
                Some(entry) => {
                    self.fail_entry(entry, out);
                },
                None => {
                    break ;
                },
            }
        }
        self.fences.wake_all(out);
        self.purge_all_present_streams();
        self.blt.abort(out);
        self.fences.signal_all(out);
        proof {
            lemma_latched_follows(old(self)@);
        }
    }

    fn wake_ready_windowed_blt(&self, out: &mut Vec<Action>)
        requires
            self@.streams.wf(),
        ensures
            final(out)@ == old(out)@ + self@.blt_wake(),
    {
        let ghost p = self@.blt_waits();
        let mut i: usize = 0;
        while i < self.blt.pending.len()
            invariant
                self@.streams.wf(),
                p == self@.blt_waits(),
                i <= self.blt.pending.len(),
                forall|k: int| 0 <= k < i ==> !p(#[trigger] self@.blt.pending[k]),
                out@ == old(out)@,
            decreases self.blt.pending.len() - i,
        {
            let r: WindowedBltPending = self.blt.pending[i];
            if r.admitted && !r.dispatched && self.scanout_boundary_ready(r.stream_boundary) {
                proof {
                    crate::seqs::lemma_first_index(self@.blt.pending, p, i as int);
                }
                out.push(Action::WakeDisplay { adapter: r.adapter });
                return ;
            }
            i += 1;
        }
        proof {
            crate::seqs::lemma_no_first_index(self@.blt.pending, p);
        }
    }

    fn count_venus(&mut self, ring_idx: u8, ok: bool)
        ensures
            final(self)@ == old(self)@.venus_counted(ring_idx, ok),
    {
        self.queue.counters.async_completes = self.queue.counters.async_completes.wrapping_add(1);
        if ring_idx != 0 {
            self.queue.counters.ring_completes = self.queue.counters.ring_completes.wrapping_add(1);
        }
        if !ok {
            self.queue.counters.async_resp_errors =
                self.queue.counters.async_resp_errors.wrapping_add(1);
        }
    }

    fn answer_stream(
        &mut self,
        stream: Option<PresentStreamRetire>,
        ok: bool,
        out: &mut Vec<Action>,
    )
        requires
            old(self)@.streams.wf(),
        ensures
            final(self)@ == old(self)@.stream_answered(stream, ok).0,
            final(out)@ == old(out)@ + old(self)@.stream_answered(stream, ok).1,
            final(self)@.streams.wf(),
    {
        match stream {
            Some(s) => {
                if ok {
                    self.streams.retire_value(s);
                } else {
                    self.streams.fail_value(s);
                }
                self.wake_ready_windowed_blt(out);
            },
            None => {},
        }
    }

    fn answer_blt(&mut self, blt: Option<WindowedBltRetire>, ok: bool, out: &mut Vec<Action>)
        requires
            old(self)@.blt.wf(),
        ensures
            final(self)@ == old(self)@.blt_answered(blt, ok).0,
            final(out)@ == old(out)@ + old(self)@.blt_answered(blt, ok).1,
            final(self)@.blt.wf(),
    {
        match blt {
            Some(w) => {
                self.blt.complete_ring(w.adapter, w.token, w.stream_boundary, ok, out);
            },
            None => {},
        }
    }

    fn complete_venus(
        &mut self,
        fence_id: u64,
        ring_idx: u8,
        notify: Option<ScanoutNotify>,
        stream: Option<PresentStreamRetire>,
        blt: Option<WindowedBltRetire>,
        ok: bool,
        out: &mut Vec<Action>,
    )
        requires
            old(self)@.streams.wf(),
            old(self)@.blt.wf(),
        ensures
            final(self)@ == old(self)@.venus_completed(
                fence_id,
                ring_idx,
                notify,
                stream,
                blt,
                ok,
            ).0,
            final(out)@ == old(out)@ + old(self)@.venus_completed(
                fence_id,
                ring_idx,
                notify,
                stream,
                blt,
                ok,
            ).1,
            final(self)@.streams.wf(),
            final(self)@.blt.wf(),
    {
        let ghost log = out@;
        self.count_venus(ring_idx, ok);
        let ghost g0 = self@;
        self.answer_stream(stream, ok, out);
        let ghost g1 = self@;
        self.answer_blt(blt, ok, out);
        let ghost g2 = self@;
        push_copy_notified(notify, ring_idx, ok, out);
        self.fences.retire(fence_id, out);
        proof {
            let a1 = g0.stream_answered(stream, ok).1;
            let a2 = g1.blt_answered(blt, ok).1;
            let a3 = copy_notified(notify, ring_idx, ok);
            let a4 = g2.fences.fence_retired(fence_id).1;
            assert(log + a1 + a2 + a3 + a4 =~= log + (a1 + a2 + a3 + a4));
        }
    }

    fn complete_entry(&mut self, entry: InFlight, ok: bool, out: &mut Vec<Action>)
        requires
            old(self)@.streams.wf(),
            old(self)@.blt.wf(),
        ensures
            final(self)@ == old(self)@.entry_completed(entry, ok).0.put_away(entry),
            final(out)@ == old(out)@ + old(self)@.entry_completed(entry, ok).1,
            final(self)@.streams.wf(),
            final(self)@.blt.wf(),
    {
        let mut e: InFlight = entry;
        let flush = e.take_scanout_flush_token();
        match e.kind {
            InFlightKind::Sync { waiter, scanout_bind } => {
                self.fast.end_sync_set(scanout_bind, waiter.is_none(), ok);
                if let Some(block) = waiter {
                    let copy: usize = if e.resp_len <= SYNC_RESP_MAX {
                        e.resp_len
                    } else {
                        SYNC_RESP_MAX
                    };
                    out.push(Action::CompleteBlock { block, copy });
                }
            },
            InFlightKind::AsyncScanoutBind { bind } => {
                self.fast.end_fast_set(bind, ok);
            },
            InFlightKind::AsyncControl { cells, .. } => {
                self.queue.counters.async_ctrl_completes =
                    self.queue.counters.async_ctrl_completes.wrapping_add(1);
                if !ok {
                    self.queue.counters.async_ctrl_resp_errors =
                        self.queue.counters.async_ctrl_resp_errors.wrapping_add(1);
                }
                push_end_flush(flush, ok, out);
                self.fast.end_flush(flush, ok);
                push_control_done(cells, ok, out);
            },
            InFlightKind::AsyncVenus {
                fence_id,
                ring_idx,
                scanout_notify,
                present_stream,
                windowed_blt,
            } => {
                self.complete_venus(
                    fence_id,
                    ring_idx,
                    scanout_notify,
                    present_stream,
                    windowed_blt,
                    ok,
                    out,
                );
            },
        }
        let pooled: bool = match e.kind {
            InFlightKind::AsyncScanoutBind { .. } => e.venus.is_none()
                && self.queue.bind_cmd_pool.len() < BIND_CMD_POOL,
            _ => false,
        };
        if pooled {
            let (meta, _) = e.into_dma_buffers();
            self.queue.bind_cmd_pool.push(meta);
        } else {
            self.queue.park(e);
        }
    }

    /// The spans with which the used element `token` is to be popped: those with
    /// which it was queued. `None` if no command has that token.
    pub fn drain_spans(&self, token: u16) -> (r: Option<ChainSpans>)
        ensures
            r == self@.queue.spans_in_flight(token),
            self@.wf() ==> (r is None <==> !some(self@.queue.inflight, InFlight::tokened(token))),
    {
        proof {
            lemma_first_index_exists(self@.queue.inflight, InFlight::tokened(token));
        }
        let same = |e: &InFlight| -> (b: bool)
            ensures
                b == InFlight::tokened(token)(*e),
            { e.token == token };
        match position(&self.queue.inflight, same, Ghost(InFlight::tokened(token))) {
            Some(i) => {
                let e: &InFlight = &self.queue.inflight[i];
                e.chain.spans(&e.meta, &e.venus, e.resp_len)
            },
            None => None,
        }
    }

    /// Drain one used element: `token` names it, `popped` tells whether the queue
    /// released it, and `resp_type` is the first word of the response. A token
    /// that no command has, or a failed pop, fails the transport.
    pub fn drain_used(&mut self, token: u16, popped: bool, resp_type: u32) -> (r: Vec<Action>)
        requires
            old(self)@.wf(),
        ensures
            final(self)@ == old(self)@.drained(token, popped, resp_type).0,
            r@ == old(self)@.drained(token, popped, resp_type).1,
            final(self)@.wf(),
            final(self)@.follows(old(self)@),
    {
        let mut out: Vec<Action> = Vec::new();
        if self.queue.failed {
            return out;
        }
        let same = |e: &InFlight| -> (b: bool)
            ensures
                b == InFlight::tokened(token)(*e),
            { e.token == token };
        let idx: usize = match position(
            &self.queue.inflight,
            same,
            Ghost(InFlight::tokened(token)),
        ) {
            Some(i) => i,
            None => {
                self.queue.counters.drain_bad_token =
                    self.queue.counters.drain_bad_token.wrapping_add(1);
                let ghost counted = self@;
                self.latch_failed_and_fail_inflight(&mut out);
                proof {
                    law_follows_is_transitive(old(self)@, counted, self@);
                }
                return out;
            },
        };
        if !popped {
            self.latch_failed_and_fail_inflight(&mut out);
            return out;
        }
        let ghost before = self@;
        let entry: InFlight = self.queue.inflight.swap_remove(idx);
        let ghost mid = self@;
        let ok: bool = resp_is_ok(resp_type);
        self.complete_entry(entry, ok, &mut out);
        proof {
            lemma_completed_keeps_queue(mid, entry, ok);
            lemma_put_away_wf(before, idx as int, self@, entry, ok);
        }
        out
    }
}

proof fn lemma_completed_keeps_queue(g: GpuState, e: InFlight, ok: bool)
    ensures
        ({
            let t = g.entry_completed(e, ok).0;
            &&& t.queue == (QueueState { counters: t.queue.counters, ..g.queue })
            &&& t.tables == g.tables
            &&& t.wddm == g.wddm
            &&& t.refresh == g.refresh
        }),
{
}

/// The answer to a tagged submission raises its stream's retired value or ends the
/// stream.
proof fn lemma_answered_follows(s: StreamState, retire: PresentStreamRetire)
    requires
        s.wf(),
    ensures
        s.value_retired(retire).follows(s),
        s.value_failed(retire).follows(s),
{
    assert(forall|i: int| 0 <= i < s.slots.len() ==> (#[trigger] s.slots[i]).follows(s.slots[i]));
}

/// The answer to a command retires its fence and no other, and lets its stream
/// go on.
proof fn lemma_completed_fences(g: GpuState, e: InFlight, ok: bool)
    requires
        g.streams.wf(),
    ensures
        ({
            let t = g.entry_completed(e, ok).0;
            &&& t.fences == match e.fence() {
                Some(f) => g.fences.fence_retired(f).0,
                None => g.fences,
            }
            &&& t.fences.next_wire_fence == g.fences.next_wire_fence
            &&& t.fences.wire_fence_base == g.fences.wire_fence_base
            &&& t.streams.follows(g.streams)
            &&& forall|w: FenceWaiter| #[trigger]
                t.fences.waiters.contains(w) ==> g.fences.waiters.contains(w) && Some(w.fence_id)
                    != e.fence()
            &&& forall|x: FenceEventEntry| #[trigger]
                t.fences.events.contains(x) ==> g.fences.events.contains(x) && Some(x.fence_id)
                    != e.fence()
            &&& forall|w: FenceWaiter| #[trigger]
                g.fences.waiters.contains(w) && Some(w.fence_id) != e.fence()
                    ==> t.fences.waiters.contains(w)
        }),
{
    if let InFlightKind::AsyncVenus { present_stream: Some(s), .. } = e.kind {
        lemma_answered_follows(g.streams, s);
    }
    if let Some(f) = e.fence() {
        law_retired_fence_leaves_nobody(g.fences, f);
        let t = g.fences.fence_retired(f).0;
        assert forall|w: FenceWaiter| #[trigger]
            t.waiters.contains(w) implies w.fence_id != f by {
            let k = choose|k: int| 0 <= k < t.waiters.len() && t.waiters[k] == w;
            assert(!FenceWaiter::on(f)(t.waiters[k]));
        }
        assert forall|x: FenceEventEntry| #[trigger]
            t.events.contains(x) implies x.fence_id != f by {
            let k = choose|k: int| 0 <= k < t.events.len() && t.events[k] == x;
            assert(!FenceEventEntry::on(f)(t.events[k]));
        }
    }
}

#[verifier::spinoff_prover]
#[verifier::rlimit(40)]
proof fn lemma_put_away_wf(before: GpuState, i: int, after: GpuState, e: InFlight, ok: bool)
    requires
        before.wf(),
        0 <= i < before.queue.inflight.len(),
        e == before.queue.inflight[i],
        after.streams.wf(),
        after.blt.wf(),
        before.queue.failed == false,
        after == ({
            let mid = GpuState {
                queue: QueueState {
                    inflight: swap_removed(before.queue.inflight, i),
                    ..before.queue
                },
                ..before
            };
            mid.entry_completed(e, ok).0.put_away(e)
        }),
    ensures
        after.wf(),
        after.follows(before),
{
    let mid = GpuState {
        queue: QueueState { inflight: swap_removed(before.queue.inflight, i), ..before.queue },
        ..before
    };
    lemma_completed_keeps_queue(mid, e, ok);
    lemma_completed_fences(mid, e, ok);
    assert forall|k: int| 0 <= k < after.fences.waiters.len() implies
        before.fences.waiters.contains(#[trigger] after.fences.waiters[k]) && Some(
        after.fences.waiters[k].fence_id,
    ) != e.fence() by {
        assert(after.fences.waiters.contains(after.fences.waiters[k]));
    }
    assert forall|k: int| 0 <= k < after.fences.events.len() implies
        before.fences.events.contains(#[trigger] after.fences.events[k]) && Some(
        after.fences.events[k].fence_id,
    ) != e.fence() by {
        assert(after.fences.events.contains(after.fences.events[k]));
    }
    lemma_removed_fences(before, after, i);
    assert forall|k: int| 0 <= k < after.queue.inflight.len() implies (
    #[trigger] after.queue.inflight[k]).wf() by {
        let src = if k == i {
            before.queue.inflight.len() - 1
        } else {
            k
        };
        assert(after.queue.inflight[k] == before.queue.inflight[src]);
    }
    assert forall|a: int, b: int| 0 <= a < b < after.queue.inflight.len() implies (
    #[trigger] after.queue.inflight[a]).token != (#[trigger] after.queue.inflight[b]).token by {
        let s = before.queue.inflight;
        let x = if a == i {
            s.len() - 1
        } else {
            a
        };
        let y = if b == i {
            s.len() - 1
        } else {
            b
        };
        assert(after.queue.inflight[a] == s[x] && after.queue.inflight[b] == s[y]);
        if x < y {
            assert(s[x].token != s[y].token);
        } else {
            assert(s[y].token != s[x].token);
        }
    }
}

/// A failed transport takes no command and drains none: it stays as it is.
pub proof fn law_failure_is_final(g: GpuState, token: u16, popped: bool, resp_type: u32)
    requires
        g.queue.failed,
    ensures
        g.drained(token, popped, resp_type).0 == g,
        g.drained(token, popped, resp_type).1.len() == 0,
{
}

/// A finished command always finds room to wait for its reaping.
pub proof fn law_finished_commands_find_room(g: GpuState, e: InFlight)
    requires
        g.wf(),
        g.queue.inflight.len() > 0,
    ensures
        g.queue.with_parked(e).parked == g.queue.parked.push(e),
        g.queue.with_parked(e).counters.parked_leaks == g.queue.counters.parked_leaks,
{
}

/// The end of a flush retires its claim exactly once, whatever the host answered,
/// and only a real answer counts as a read.
pub proof fn law_ended_flush_retires_its_claim(flush: ScanoutFlushToken, ok: bool)
    ensures
        ({
            let a = end_flush(Some(flush), ok);
            &&& a[0] == Action::RetireRead { ticket: flush.ledger_ticket, cancelled: false }
            &&& forall|i: int| 0 < i < a.len() ==> !(a[i] is RetireRead)
            &&& forall|i: int|
                0 <= i < a.len() && (a[i] is EndLeases) ==> a[i] == (Action::EndLeases {
                    adapter: flush.adapter,
                    through: flush.covers_epoch,
                    host_read: ok,
                })
        }),
{
}

/// The waker comes last: whoever wakes finds the busy cell cleared and the
/// outcome recorded.
pub proof fn law_busy_is_cleared_before_the_wake(cells: ControlCells, ok: bool)
    ensures
        ({
            let a = control_done(cells, ok);
            &&& a.last() == Action::Wake { event: cells.wake_event }
            &&& a[a.len() - 2] == (Action::Store { cell: cells.completion, value: 0 })
        }),
{
}

/// A failed copy is never shown: it stores nothing, but still lowers its gate.
pub proof fn law_failed_copy_is_not_shown(n: ScanoutNotify)
    ensures
        notify_done(n, false) == seq![
            Action::LowerGate { gate: n.programming, ticket: n.ticket },
            Action::Wake { event: n.event },
        ],
{
    assert(notify_done(n, false) =~= seq![
        Action::LowerGate { gate: n.programming, ticket: n.ticket },
        Action::Wake { event: n.event },
    ]);
}

/// A failing transport follows what it was, and its fences are consistent.
pub(crate) proof fn lemma_latched_follows(g: GpuState)
    requires
        g.wf(),
    ensures
        g.latched().0.follows(g),
        g.latched().0.fences_wf(),
        g.latched().0.queue.inflight.len() == 0,
        g.latched().0.queue.failed,
        g.latched().0.fences.next_wire_fence == g.fences.next_wire_fence,
{
    let start = GpuState {
        queue: QueueState { failed: true, ..g.queue },
        fast: FastBindState::blank(g.fast.presentation_epoch_floor),
        ..g
    };
    let a = start.inflight_failed().0;
    let woken = a.fences.all_woken().0;
    let b = GpuState { fences: woken, ..a }.streams_purged();
    lemma_failed_keeps(start);
    lemma_all_woken_empties(a.fences);
    lemma_all_signalled_empties(b.fences);
    lemma_purged_follows(a.streams, PresentStreamSlot::anyone(), MAX_STREAMS as nat);
}

proof fn lemma_all_woken_empties(f: FenceState)
    ensures
        f.all_woken().0.waiters.len() == 0,
        f.all_woken().0.events == f.events,
        f.all_woken().0.next_wire_fence == f.next_wire_fence,
        f.all_woken().0.wire_fence_base == f.wire_fence_base,
    decreases f.waiters.len(),
{
    if f.waiters.len() > 0 {
        lemma_all_woken_empties(FenceState { waiters: f.waiters.drop_last(), ..f });
    }
}

proof fn lemma_all_signalled_empties(f: FenceState)
    ensures
        f.all_signalled().0.events.len() == 0,
        f.all_signalled().0.waiters == f.waiters,
        f.all_signalled().0.next_wire_fence == f.next_wire_fence,
        f.all_signalled().0.wire_fence_base == f.wire_fence_base,
    decreases f.events.len(),
{
    if f.events.len() > 0 {
        lemma_all_signalled_empties(
            FenceState {
                events: f.events.drop_last(),
                counters: crate::counters::FenceCounters {
                    event_signals: f.counters.event_signals.wrapping_add(1),
                    ..f.counters
                },
                ..f
            },
        );
    }
}

proof fn lemma_aborted_empties(s: BltState)
    ensures
        s.aborted().0.pending.len() == 0,
    decreases s.pending.len(),
{
    if s.pending.len() > 0 {
        lemma_aborted_empties(BltState { pending: s.pending.drop_first(), ..s });
    }
}

proof fn lemma_purged_kills(s: crate::streams::StreamState, n: nat, j: int)
    requires
        s.slots.len() == MAX_STREAMS,
        n <= MAX_STREAMS,
        0 <= j < n,
    ensures
        !s.purged(PresentStreamSlot::anyone(), n).slots[j].live,
        s.purged(PresentStreamSlot::anyone(), n).slots.len() == MAX_STREAMS,
    decreases n,
{
    let p = PresentStreamSlot::anyone();
    if j < n - 1 {
        lemma_purged_kills(s, (n - 1) as nat, j);
    } else if n > 1 {
        lemma_purged_kills(s, (n - 1) as nat, 0);
    }
    let t = s.purged(p, (n - 1) as nat);
    assert(p(t.slots[n - 1]));
}

/// If the failure of one command asks for what `p` picks exactly where `q` picks
/// the command, then the failure of all asks for it once for each of those.
proof fn lemma_failed_tally(
    g: GpuState,
    p: spec_fn(Action) -> bool,
    q: spec_fn(InFlight) -> bool,
)
    requires
        forall|s: GpuState, e: InFlight|
            tally((#[trigger] s.entry_failed(e)).1, p) == if q(e) {
                1nat
            } else {
                0nat
            },
    ensures
        tally(g.inflight_failed().1, p) == tally(g.queue.inflight, q),
    decreases g.queue.inflight.len(),
{
    if g.queue.inflight.len() > 0 {
        let popped = GpuState {
            queue: QueueState { inflight: g.queue.inflight.drop_last(), ..g.queue },
            ..g
        };
        let (t, a) = popped.entry_failed(g.queue.inflight.last());
        lemma_failed_tally(t, p, q);
        lemma_tally_concat(a, t.inflight_failed().1, p);
    }
}

/// What `p` says of each action that the failure of a command asks for.
proof fn lemma_entry_tally(s: GpuState, e: InFlight, p: spec_fn(Action) -> bool)
    requires
        forall|a: Action|
            #[trigger] p(a) ==> a is CompleteBlock || a is FailBlock || a is SignalAndRelease
                || a is Store || a is Increment,
    ensures
        tally(s.entry_failed(e).1, p) == match e.kind {
            InFlightKind::Sync { waiter: Some(block), .. } => if p(
                Action::FailBlock { block },
            ) {
                1nat
            } else {
                0nat
            },
            InFlightKind::AsyncControl { cells, .. } => (if p(
                Action::Increment { cell: cells.completion_errors },
            ) {
                1nat
            } else {
                0nat
            }) + (if p(Action::Store { cell: cells.completion, value: 0 }) {
                1nat
            } else {
                0nat
            }),
            _ => 0nat,
        },
{
    let acts = s.entry_failed(e).1;
    match e.kind {
        InFlightKind::Sync { waiter, .. } => {
            if let Some(block) = waiter {
                lemma_tally_one(Action::FailBlock { block }, p);
            }
        },
        InFlightKind::AsyncControl { cells, scanout_flush } => {
            let front = end_flush(scanout_flush, false);
            let inc = seq![Action::Increment { cell: cells.completion_errors }];
            let store = seq![Action::Store { cell: cells.completion, value: 0 }];
            let wake = seq![Action::Wake { event: cells.wake_event }];
            lemma_tally_none(front, p);
            lemma_tally_none(wake, p);
            lemma_tally_one(inc[0], p);
            lemma_tally_one(store[0], p);
            lemma_tally_concat(store, wake, p);
            lemma_tally_concat(inc, store + wake, p);
            lemma_tally_concat(front, inc + (store + wake), p);
            assert(acts =~= front + (inc + (store + wake)));
        },
        _ => {
            assert forall|k: int| 0 <= k < acts.len() implies !p(#[trigger] acts[k]) by {
                assert(acts[k] is LowerGate || acts[k] is Wake || acts[k] is RetireRead
                    || acts[k] is RetireWanted || acts[k] is WakeDisplay);
            }
            lemma_tally_none(acts, p);
        },
    }
}

proof fn lemma_all_woken_tally(f: FenceState, p: spec_fn(Action) -> bool, block: u64)
    requires
        forall|b: u64| #[trigger]
            p(Action::FailBlock { block: b }) <==> b == block,
    ensures
        tally(f.all_woken().1, p) == tally(f.waiters, FenceWaiter::of_block(block)),
    decreases f.waiters.len(),
{
    if f.waiters.len() > 0 {
        let g = FenceState { waiters: f.waiters.drop_last(), ..f };
        let first = Action::FailBlock { block: f.waiters.last().block };
        lemma_all_woken_tally(g, p, block);
        lemma_tally_one(first, p);
        lemma_tally_concat(seq![first], g.all_woken().1, p);
    }
}

proof fn lemma_all_woken_only(f: FenceState, p: spec_fn(Action) -> bool)
    requires
        forall|a: Action| #[trigger] p(a) ==> !(a is FailBlock),
    ensures
        tally(f.all_woken().1, p) == 0,
    decreases f.waiters.len(),
{
    if f.waiters.len() > 0 {
        let g = FenceState { waiters: f.waiters.drop_last(), ..f };
        let first = Action::FailBlock { block: f.waiters.last().block };
        lemma_all_woken_only(g, p);
        lemma_tally_one(first, p);
        lemma_tally_concat(seq![first], g.all_woken().1, p);
    }
}

proof fn lemma_all_signalled_tally(f: FenceState, event: u64)
    ensures
        tally(f.all_signalled().1, Action::signals(event)) == tally(
            f.events,
            FenceEventEntry::of_event(event),
        ),
    decreases f.events.len(),
{
    if f.events.len() > 0 {
        let g = FenceState {
            events: f.events.drop_last(),
            counters: crate::counters::FenceCounters {
                event_signals: f.counters.event_signals.wrapping_add(1),
                ..f.counters
            },
            ..f
        };
        let first = Action::SignalAndRelease { event: f.events.last().event };
        lemma_all_signalled_tally(g, event);
        lemma_tally_one(first, Action::signals(event));
        lemma_tally_concat(seq![first], g.all_signalled().1, Action::signals(event));
    }
}

proof fn lemma_all_signalled_only(f: FenceState, p: spec_fn(Action) -> bool)
    requires
        forall|a: Action| #[trigger] p(a) ==> !(a is SignalAndRelease),
    ensures
        tally(f.all_signalled().1, p) == 0,
    decreases f.events.len(),
{
    if f.events.len() > 0 {
        let g = FenceState {
            events: f.events.drop_last(),
            counters: crate::counters::FenceCounters {
                event_signals: f.counters.event_signals.wrapping_add(1),
                ..f.counters
            },
            ..f
        };
        let first = Action::SignalAndRelease { event: f.events.last().event };
        lemma_all_signalled_only(g, p);
        lemma_tally_one(first, p);
        lemma_tally_concat(seq![first], g.all_signalled().1, p);
    }
}

proof fn lemma_aborted_tally(s: BltState, p: spec_fn(Action) -> bool)
    requires
        forall|a: Action| #[trigger] p(a) ==> !(a is RetireRead),
    ensures
        tally(s.aborted().1, p) == 0,
    decreases s.pending.len(),
{
    if s.pending.len() > 0 {
        let t = BltState { pending: s.pending.drop_first(), ..s };
        let first = retire_read(s.pending.first(), true);
        lemma_aborted_tally(t, p);
        lemma_tally_none(first, p);
        lemma_tally_concat(first, t.aborted().1, p);
    }
}

/// A failing transport strands nobody: nothing stays in flight, and no waiter,
/// event, copy or stream is left. Every waiter of a command or of a fence is woken
/// exactly once and told of the failure, every event signalled exactly once, and
/// every busy cell cleared exactly once, with the failure counted. Nobody is told
/// that what it waits for is done.
pub proof fn law_failure_strands_nobody(g: GpuState)
    requires
        g.wf(),
    ensures
        ({
            let (t, actions) = g.latched();
            &&& t.queue.failed
            &&& t.queue.inflight.len() == 0
            &&& t.fences.waiters.len() == 0
            &&& t.fences.events.len() == 0
            &&& t.blt.pending.len() == 0
            &&& forall|j: int| 0 <= j < MAX_STREAMS ==> !(#[trigger] t.streams.slots[j]).live
            &&& forall|block: u64| #[trigger]
                tally(actions, Action::fails(block)) == tally(
                    g.queue.inflight,
                    InFlight::waited_by(block),
                ) + tally(g.fences.waiters, FenceWaiter::of_block(block))
            &&& forall|block: u64| #[trigger] tally(actions, Action::completes(block)) == 0
            &&& forall|event: u64| #[trigger]
                tally(actions, Action::signals(event)) == tally(
                    g.fences.events,
                    FenceEventEntry::of_event(event),
                )
            &&& forall|cell: u64| #[trigger]
                tally(actions, Action::same_as(Action::Store { cell, value: 0 })) == tally(
                    g.queue.inflight,
                    InFlight::keeps_busy(cell),
                )
            &&& forall|cell: u64| #[trigger]
                tally(actions, Action::same_as(Action::Increment { cell })) == tally(
                    g.queue.inflight,
                    InFlight::counts_errors_in(cell),
                )
        }),
{
    let start = GpuState {
        queue: QueueState { failed: true, ..g.queue },
        fast: FastBindState::blank(g.fast.presentation_epoch_floor),
        ..g
    };
    let (a, act1) = start.inflight_failed();
    let (woken, act2) = a.fences.all_woken();
    let b = GpuState { fences: woken, ..a }.streams_purged();
    let act3 = b.blt.aborted().1;
    let act4 = b.fences.all_signalled().1;
    lemma_all_woken_empties(a.fences);
    lemma_all_signalled_empties(b.fences);
    lemma_aborted_empties(b.blt);
    lemma_failed_keeps(start);
    assert forall|j: int| 0 <= j < MAX_STREAMS implies !(
    #[trigger] g.latched().0.streams.slots[j]).live by {
        lemma_purged_kills(a.streams, MAX_STREAMS as nat, j);
    }
    let actions = g.latched().1;
    assert(actions == act1 + act2 + act3 + act4);
    assert forall|p: spec_fn(Action) -> bool| true implies #[trigger] tally(actions, p) == tally(
        act1,
        p,
    ) + tally(act2, p) + tally(act3, p) + tally(act4, p) by {
        lemma_tally_concat(act1, act2, p);
        lemma_tally_concat(act1 + act2, act3, p);
        lemma_tally_concat(act1 + act2 + act3, act4, p);
    }
    assert forall|block: u64| #[trigger]
        tally(actions, Action::fails(block)) == tally(
            g.queue.inflight,
            InFlight::waited_by(block),
        ) + tally(g.fences.waiters, FenceWaiter::of_block(block)) by {
        let p = Action::fails(block);
        assert forall|s: GpuState, e: InFlight|
            tally((#[trigger] s.entry_failed(e)).1, p) == if InFlight::waited_by(block)(e) {
                1nat
            } else {
                0nat
            } by {
            lemma_entry_tally(s, e, p);
        }
        lemma_failed_tally(start, p, InFlight::waited_by(block));
        lemma_all_woken_tally(a.fences, p, block);
        lemma_aborted_tally(b.blt, p);
        lemma_all_signalled_only(b.fences, p);
    }
    assert forall|block: u64| #[trigger] tally(actions, Action::completes(block)) == 0 by {
        let p = Action::completes(block);
        let nobody = |e: InFlight| false;
        assert forall|s: GpuState, e: InFlight|
            tally((#[trigger] s.entry_failed(e)).1, p) == if nobody(e) {
                1nat
            } else {
                0nat
            } by {
            lemma_entry_tally(s, e, p);
        }
        lemma_failed_tally(start, p, nobody);
        lemma_tally_none(g.queue.inflight, nobody);
        lemma_all_woken_only(a.fences, p);
        lemma_aborted_tally(b.blt, p);
        lemma_all_signalled_only(b.fences, p);
    }
    assert forall|event: u64| #[trigger]
        tally(actions, Action::signals(event)) == tally(
            g.fences.events,
            FenceEventEntry::of_event(event),
        ) by {
        let p = Action::signals(event);
        let nobody = |e: InFlight| false;
        assert forall|s: GpuState, e: InFlight|
            tally((#[trigger] s.entry_failed(e)).1, p) == if nobody(e) {
                1nat
            } else {
                0nat
            } by {
            lemma_entry_tally(s, e, p);
        }
        lemma_failed_tally(start, p, nobody);
        lemma_tally_none(g.queue.inflight, nobody);
        lemma_all_woken_only(a.fences, p);
        lemma_aborted_tally(b.blt, p);
        lemma_all_signalled_tally(b.fences, event);
    }
    assert forall|cell: u64| #[trigger]
        tally(actions, Action::same_as(Action::Store { cell, value: 0 })) == tally(
            g.queue.inflight,
            InFlight::keeps_busy(cell),
        ) by {
        let p = Action::same_as(Action::Store { cell, value: 0 });
        assert forall|s: GpuState, e: InFlight|
            tally((#[trigger] s.entry_failed(e)).1, p) == if InFlight::keeps_busy(cell)(e) {
                1nat
            } else {
                0nat
            } by {
            lemma_entry_tally(s, e, p);
        }
        lemma_failed_tally(start, p, InFlight::keeps_busy(cell));
        lemma_all_woken_only(a.fences, p);
        lemma_aborted_tally(b.blt, p);
        lemma_all_signalled_only(b.fences, p);
    }
    assert forall|cell: u64| #[trigger]
        tally(actions, Action::same_as(Action::Increment { cell })) == tally(
            g.queue.inflight,
            InFlight::counts_errors_in(cell),
        ) by {
        let p = Action::same_as(Action::Increment { cell });
        assert forall|s: GpuState, e: InFlight|
            tally((#[trigger] s.entry_failed(e)).1, p) == if InFlight::counts_errors_in(cell)(e) {
                1nat
            } else {
                0nat
            } by {
            lemma_entry_tally(s, e, p);
        }
        lemma_failed_tally(start, p, InFlight::counts_errors_in(cell));
        lemma_all_woken_only(a.fences, p);
        lemma_aborted_tally(b.blt, p);
        lemma_all_signalled_only(b.fences, p);
    }
}

/// A failing transport is failed, with nothing in flight.
pub(crate) proof fn lemma_latched_is_failed(g: GpuState)
    ensures
        g.latched().0.queue.failed,
        g.latched().0.queue.inflight.len() == 0,
        g.latched().0.fences.next_wire_fence == g.fences.next_wire_fence,
        g.latched().0.fences.wire_fence_base == g.fences.wire_fence_base,
{
    let start = GpuState {
        queue: QueueState { failed: true, ..g.queue },
        fast: FastBindState::blank(g.fast.presentation_epoch_floor),
        ..g
    };
    let a = start.inflight_failed().0;
    let b = GpuState { fences: a.fences.all_woken().0, ..a }.streams_purged();
    lemma_failed_keeps(start);
    lemma_all_woken_empties(a.fences);
    lemma_all_signalled_empties(b.fences);
}

pub(crate) proof fn lemma_failed_keeps(g: GpuState)
    ensures
        ({
            let t = g.inflight_failed().0;
            &&& t.queue.inflight.len() == 0
            &&& t.queue.failed == g.queue.failed
            &&& t.streams == g.streams
            &&& t.fences == g.fences
            &&& t.wddm == g.wddm
        }),
    decreases g.queue.inflight.len(),
{
    if g.queue.inflight.len() > 0 {
        let popped = GpuState {
            queue: QueueState { inflight: g.queue.inflight.drop_last(), ..g.queue },
            ..g
        };
        lemma_failed_keeps(popped.entry_failed(g.queue.inflight.last()).0);
    }
}

/// Draining the submission with fence `f` retires `f` and no other fence: every
/// waiter on it is woken and every event on it signalled, those on other fences
/// stay, the other commands stay in flight, and whoever asks for `f` from now on
/// is told that it is complete.
pub proof fn law_drained_fence_is_complete(g: GpuState, token: u16, resp_type: u32, f: u64)
    requires
        g.wf(),
        !g.queue.failed,
        first_index(g.queue.inflight, InFlight::tokened(token)) matches Some(i)
            && g.queue.inflight[i].fence() == Some(f),
    ensures
        ({
            let i = first_index(g.queue.inflight, InFlight::tokened(token))->0;
            let (t, a) = g.drained(token, true, resp_type);
            let retired = g.fences.fence_retired(f).1;
            &&& !t.queue.failed
            &&& t.queue.inflight == swap_removed(g.queue.inflight, i)
            &&& !some(t.queue.inflight, InFlight::fences(f))
            &&& !some(t.fences.waiters, FenceWaiter::on(f))
            &&& !some(t.fences.events, FenceEventEntry::on(f))
            &&& forall|w: FenceWaiter|
                w.fence_id != f ==> (g.fences.waiters.contains(w) <==> t.fences.waiters.contains(w))
            &&& forall|e: FenceEventEntry|
                e.fence_id != f ==> (g.fences.events.contains(e) <==> t.fences.events.contains(e))
            &&& retired.len() <= a.len()
            &&& a.skip(a.len() - retired.len()) == retired
            &&& forall|block: u64|
                (#[trigger] t.fences.wait_answer(false, t.queue.inflight, f, block)).0
                    == FenceWaitPrep::Complete
        }),
{
    let i = first_index(g.queue.inflight, InFlight::tokened(token))->0;
    lemma_first_index_exists(g.queue.inflight, InFlight::tokened(token));
    let e = g.queue.inflight[i];
    let mid = GpuState {
        queue: QueueState { inflight: swap_removed(g.queue.inflight, i), ..g.queue },
        ..g
    };
    let ok = is_ok(resp_type);
    let (t, a) = g.drained(token, true, resp_type);
    let retired = g.fences.fence_retired(f).1;
    law_retired_fence_leaves_nobody(g.fences, f);
    lemma_completed_keeps_queue(mid, e, ok);
    lemma_completed_fences(mid, e, ok);
    assert forall|k: int| 0 <= k < t.queue.inflight.len() implies !InFlight::fences(f)(
        #[trigger] t.queue.inflight[k],
    ) by {
        let src = if k == i {
            g.queue.inflight.len() - 1
        } else {
            k
        };
        assert(t.queue.inflight[k] == g.queue.inflight[src]);
        if src < i {
            assert(distinct_fences(g.queue.inflight[src], e));
        } else {
            assert(distinct_fences(e, g.queue.inflight[src]));
        }
    }
    assert(a.skip(a.len() - retired.len()) =~= retired);
}

/// A command's waiter is signalled once, by the host's answer and with the whole
/// response, or by the failure of the transport and with nothing: a block that got
/// nothing belongs to a failed transport.
pub proof fn law_signal_brings_the_response(
    g: GpuState,
    token: u16,
    popped: bool,
    resp_type: u32,
    block: u64,
)
    requires
        g.wf(),
        !g.queue.failed,
        first_index(g.queue.inflight, InFlight::tokened(token)) matches Some(i) && (
        g.queue.inflight[i].kind matches InFlightKind::Sync { waiter: Some(b), .. } && b == block),
    ensures
        ({
            let i = first_index(g.queue.inflight, InFlight::tokened(token))->0;
            let (t, a) = g.drained(token, popped, resp_type);
            if popped {
                &&& !t.queue.failed
                &&& a == seq![
                    Action::CompleteBlock { block, copy: g.queue.inflight[i].resp_len },
                ]
                &&& g.queue.inflight[i].resp_len > 0
            } else {
                &&& t.queue.failed
                &&& tally(a, Action::completes(block)) == 0
                &&& tally(a, Action::fails(block)) == tally(
                    g.queue.inflight,
                    InFlight::waited_by(block),
                ) + tally(g.fences.waiters, FenceWaiter::of_block(block))
            }
        }),
{
    lemma_first_index_exists(g.queue.inflight, InFlight::tokened(token));
    let i = first_index(g.queue.inflight, InFlight::tokened(token))->0;
    assert(g.queue.inflight[i].wf());
    if popped {
        lemma_completed_keeps_queue(
            GpuState {
                queue: QueueState {
                    inflight: swap_removed(g.queue.inflight, i),
                    ..g.queue
                },
                ..g
            },
            g.queue.inflight[i],
            is_ok(resp_type),
        );
    } else {
        law_failure_strands_nobody(g);
    }
}

/// The answer to a submission wakes those who wait for its fence, and nobody else.
proof fn lemma_venus_tally(
    g: GpuState,
    fence_id: u64,
    ring_idx: u8,
    notify: Option<ScanoutNotify>,
    stream: Option<PresentStreamRetire>,
    blt: Option<WindowedBltRetire>,
    ok: bool,
    block: u64,
)
    ensures
        tally(
            g.venus_completed(fence_id, ring_idx, notify, stream, blt, ok).1,
            Action::completes(block),
        ) == tally(g.fences.waiters, FenceWaiter::pair(fence_id, block)),
{
    let p = Action::completes(block);
    let (g1, a1) = g.venus_counted(ring_idx, ok).stream_answered(stream, ok);
    let (g2, a2) = g1.blt_answered(blt, ok);
    let a3 = copy_notified(notify, ring_idx, ok);
    let a4 = g2.fences.fence_retired(fence_id).1;
    assert forall|k: int| 0 <= k < a1.len() implies !p(#[trigger] a1[k]) by {
        assert(a1[k] is WakeDisplay);
    }
    assert forall|k: int| 0 <= k < a2.len() implies !p(#[trigger] a2[k]) by {
        assert(a2[k] is RetireRead || a2[k] is RetireWanted || a2[k] is WakeDisplay);
    }
    assert forall|k: int| 0 <= k < a3.len() implies !p(#[trigger] a3[k]) by {
        assert(a3[k] is Store || a3[k] is LowerGate || a3[k] is Wake);
    }
    lemma_tally_none(a1, p);
    lemma_tally_none(a2, p);
    lemma_tally_none(a3, p);
    lemma_tally_concat(a1, a2, p);
    lemma_tally_concat(a1 + a2, a3, p);
    lemma_tally_concat(a1 + a2 + a3, a4, p);
    law_retired_fence_reaches_each_once(g.fences, fence_id, block, 0);
}

/// The answer to a command that nobody waits for with this block wakes nobody with
/// it, unless the command is a submission.
proof fn lemma_other_tally(g: GpuState, e: InFlight, ok: bool, block: u64)
    requires
        !InFlight::waited_by(block)(e),
        e.fence() is None,
    ensures
        tally(g.entry_completed(e, ok).1, Action::completes(block)) == 0,
{
    let p = Action::completes(block);
    let a = g.entry_completed(e, ok).1;
    assert forall|k: int| 0 <= k < a.len() implies !p(#[trigger] a[k]) by {
        match e.kind {
            InFlightKind::Sync { .. } => {},
            _ => {
                assert(a[k] is RetireRead || a[k] is EndLeases || a[k] is Increment || a[k] is Store
                    || a[k] is Wake);
            },
        }
    }
    lemma_tally_none(a, p);
}

/// Whoever waits for a fence and is told that it is done was waiting for the very
/// fence that has just retired, on a transport that has not failed. No command is
/// waited for with that block.
pub proof fn law_done_means_retired(
    g: GpuState,
    token: u16,
    popped: bool,
    resp_type: u32,
    block: u64,
)
    requires
        g.wf(),
        !some(g.queue.inflight, InFlight::waited_by(block)),
    ensures
        ({
            let (t, a) = g.drained(token, popped, resp_type);
            tally(a, Action::completes(block)) > 0 ==> {
                &&& !t.queue.failed
                &&& first_index(g.queue.inflight, InFlight::tokened(token)) matches Some(i) && (
                g.queue.inflight[i].fence() matches Some(f) && {
                    &&& some(g.fences.waiters, FenceWaiter::pair(f, block))
                    &&& !some(t.queue.inflight, InFlight::fences(f))
                })
            }
        }),
{
    let p = Action::completes(block);
    let a = g.drained(token, popped, resp_type).1;
    lemma_first_index_exists(g.queue.inflight, InFlight::tokened(token));
    let found = first_index(g.queue.inflight, InFlight::tokened(token));
    if g.queue.failed {
        lemma_tally_none(a, p);
    } else if found is None {
        law_failure_strands_nobody(
            GpuState {
                queue: QueueState {
                    counters: QueueCounters {
                        drain_bad_token: g.queue.counters.drain_bad_token.wrapping_add(1),
                        ..g.queue.counters
                    },
                    ..g.queue
                },
                ..g
            },
        );
        assert(tally(a, p) == 0);
    } else if !popped {
        law_failure_strands_nobody(g);
        assert(tally(a, p) == 0);
    } else {
        let i = found->0;
        let e = g.queue.inflight[i];
        let mid = GpuState {
            queue: QueueState { inflight: swap_removed(g.queue.inflight, i), ..g.queue },
            ..g
        };
        let ok = is_ok(resp_type);
        assert(!InFlight::waited_by(block)(e));
        assert(a == mid.entry_completed(e, ok).1);
        if let InFlightKind::AsyncVenus {
            fence_id,
            ring_idx,
            scanout_notify,
            present_stream,
            windowed_blt,
        } = e.kind {
            lemma_venus_tally(
                mid,
                fence_id,
                ring_idx,
                scanout_notify,
                present_stream,
                windowed_blt,
                ok,
                block,
            );
            if !some(g.fences.waiters, FenceWaiter::pair(fence_id, block)) {
                lemma_tally_none(g.fences.waiters, FenceWaiter::pair(fence_id, block));
            }
            law_drained_fence_is_complete(g, token, resp_type, fence_id);
        } else {
            lemma_other_tally(mid, e, ok, block);
        }
    }
}

} // verus!
