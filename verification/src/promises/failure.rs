//! Who is told when something ends: a stream, a submission, or the whole transport.
use crate::drain::{control_done, end_flush, lemma_failed_keeps, notify_done};
use crate::gpu::GpuState;
use crate::fast_bind::FastBindState;
use crate::inflight::{Action, InFlight, InFlightKind, ScanoutNotify};
use crate::lifecycle::{fence_of, lowest_below, ring_of};
use crate::owner::DeviceOwner;
use crate::promises::{is_done, law_boundary_is_met_when_done, law_live_boundary_names_a_stream,
    names_a_stream};
use crate::queue::QueueState;
use crate::seqs::{first_index, lemma_first_index_exists};
use crate::streams::PresentStreamSlot;
use crate::windowed_blt::WindowedBltPending;
use vstd::prelude::*;

verus! {

/// What the failure of a command asks for whatever the rest of the transport is like.
proof fn lemma_failure_asks(g: GpuState, i: int, want: Action)
    requires
        0 <= i < g.queue.inflight.len(),
        forall|s: GpuState| (#[trigger] s.entry_failed(g.queue.inflight[i])).1.contains(want),
    ensures
        g.inflight_failed().1.contains(want),
    decreases g.queue.inflight.len(),
{
    let popped = GpuState {
        queue: QueueState { inflight: g.queue.inflight.drop_last(), ..g.queue },
        ..g
    };
    let (t, a) = popped.entry_failed(g.queue.inflight.last());
    let b = t.inflight_failed().1;
    assert(g.inflight_failed().1 == a + b);
    if i < g.queue.inflight.len() - 1 {
        assert(t.queue.inflight[i] == g.queue.inflight[i]);
        lemma_failure_asks(t, i, want);
        let k = choose|k: int| 0 <= k < b.len() && b[k] == want;
        assert((a + b)[a.len() + k] == want);
    } else {
        assert(a.contains(want));
        let k = choose|k: int| 0 <= k < a.len() && a[k] == want;
        assert((a + b)[k] == want);
    }
}

/// When the transport breaks, every scan-out copy in flight ends its programming and
/// wakes its worker, every flush ends its reader, and the owner of every command without
/// a waiter is woken. None of it is shown as a success.
pub proof fn law_failure_ends_what_is_under_way(g: GpuState, i: int)
    requires
        0 <= i < g.queue.inflight.len(),
    ensures
        ({
            let a = g.latched().1;
            &&& g.queue.inflight[i].kind matches InFlightKind::AsyncVenus {
                scanout_notify: Some(n),
                ..
            } ==> a.contains(Action::LowerGate { gate: n.programming, ticket: n.ticket })
                && a.contains(Action::Wake { event: n.event })
            &&& g.queue.inflight[i].kind matches InFlightKind::AsyncControl {
                cells,
                scanout_flush,
            } ==> a.contains(Action::Wake { event: cells.wake_event }) && (
            scanout_flush matches Some(f) ==> a.contains(
                Action::RetireRead { ticket: f.ledger_ticket, cancelled: false },
            ))
        }),
{
    let start = GpuState {
        queue: QueueState { failed: true, ..g.queue },
        fast: FastBindState::blank(g.fast.presentation_epoch_floor),
        ..g
    };
    let e = g.queue.inflight[i];
    if let InFlightKind::AsyncVenus { scanout_notify: Some(n), .. } = e.kind {
        let gate = Action::LowerGate { gate: n.programming, ticket: n.ticket };
        let wake = Action::Wake { event: n.event };
        assert forall|s: GpuState| (#[trigger] s.entry_failed(e)).1.contains(gate)
            && s.entry_failed(e).1.contains(wake) by {
            let acts = s.entry_failed(e).1;
            assert(notify_done(n, false).len() == 2);
            assert(acts[0] == notify_done(n, false)[0]);
            assert(acts[1] == notify_done(n, false)[1]);
        }
        lemma_failure_asks(start, i, gate);
        lemma_failure_asks(start, i, wake);
        lemma_latch_asks(g, gate);
        lemma_latch_asks(g, wake);
    }
    if let InFlightKind::AsyncControl { cells, scanout_flush } = e.kind {
        let wake = Action::Wake { event: cells.wake_event };
        assert forall|s: GpuState| (#[trigger] s.entry_failed(e)).1.contains(wake) by {
            let acts = s.entry_failed(e).1;
            assert(acts[acts.len() - 1] == control_done(cells, false).last());
        }
        lemma_failure_asks(start, i, wake);
        lemma_latch_asks(g, wake);
        if let Some(f) = scanout_flush {
            let read = Action::RetireRead { ticket: f.ledger_ticket, cancelled: false };
            assert forall|s: GpuState| (#[trigger] s.entry_failed(e)).1.contains(read) by {
                let acts = s.entry_failed(e).1;
                assert(acts[0] == end_flush(scanout_flush, false)[0]);
            }
            lemma_failure_asks(start, i, read);
            lemma_latch_asks(g, read);
        }
    }
}

proof fn lemma_latch_asks(g: GpuState, want: Action)
    requires
        ({
            let start = GpuState {
                queue: QueueState { failed: true, ..g.queue },
                fast: FastBindState::blank(g.fast.presentation_epoch_floor),
                ..g
            };
            start.inflight_failed().1.contains(want)
        }),
    ensures
        g.latched().1.contains(want),
{
    let start = GpuState {
        queue: QueueState { failed: true, ..g.queue },
        fast: FastBindState::blank(g.fast.presentation_epoch_floor),
        ..g
    };
    let (a, act1) = start.inflight_failed();
    let (woken, act2) = a.fences.all_woken();
    let b = GpuState { fences: woken, ..a }.streams_purged();
    let act3 = b.blt.aborted().1;
    let act4 = b.fences.all_signalled().1;
    let k = choose|k: int| 0 <= k < act1.len() && act1[k] == want;
    assert((act1 + act2 + act3 + act4)[k] == want);
}

/// A transport that has failed publishes nothing, defers nothing and remembers of its
/// presentations only the newest epoch; its copies and their ends are gone, and what the
/// scheduler has pending stays with it.
pub proof fn law_failure_forgets_the_scanout(g: GpuState)
    requires
        g.wf(),
    ensures
        ({
            let t = g.latched().0;
            &&& t.queue.failed
            &&& t.fast.presentation_epoch_floor == g.fast.presentation_epoch_floor
            &&& t.fast.publication is None && t.fast.publication_request is None
            &&& t.fast.completed is None && t.fast.fast_failure_wake is None
            &&& t.fast.deferred_earliest is None && t.fast.deferred_latest is None
            &&& t.fast.deferred_worker is None && t.fast.sync_worker_owned is None
            &&& !t.fast.retire_barrier && t.fast.host_accepted_seq == 0
            &&& t.refresh.earliest is None && t.refresh.latest is None
            &&& t.blt.pending.len() == 0 && t.blt.ready.len() == 0 && t.blt.terminal.len() == 0
            &&& t.wddm == g.wddm
            &&& t.tables == g.tables
            &&& t.queue.parked.len() == g.queue.parked.len() + g.queue.inflight.len()
            &&& t.queue.dma_pool == g.queue.dma_pool
        }),
{
    let start = GpuState {
        queue: QueueState { failed: true, ..g.queue },
        fast: FastBindState::blank(g.fast.presentation_epoch_floor),
        ..g
    };
    lemma_failed_keeps(start);
    lemma_failed_parks(start);
    let a = start.inflight_failed().0;
    let b = GpuState { fences: a.fences.all_woken().0, ..a }.streams_purged();
    crate::lifecycle::lemma_aborted_signals_none(b.blt, 0);
    lemma_aborted_clears(b.blt);
}

proof fn lemma_aborted_clears(s: crate::windowed_blt::BltState)
    ensures
        s.aborted().0.pending.len() == 0,
        s.aborted().0.ready.len() == 0,
        s.aborted().0.terminal.len() == 0,
    decreases s.pending.len(),
{
    if s.pending.len() > 0 {
        lemma_aborted_clears(
            crate::windowed_blt::BltState { pending: s.pending.drop_first(), ..s },
        );
    }
}

proof fn lemma_failed_parks(g: GpuState)
    requires
        g.queue.parked.len() + g.queue.inflight.len() <= 256,
    ensures
        ({
            let t = g.inflight_failed().0;
            &&& t.queue.parked.len() == g.queue.parked.len() + g.queue.inflight.len()
            &&& t.queue.dma_pool == g.queue.dma_pool
            &&& t.fast == g.fast && t.tables == g.tables && t.refresh == g.refresh
        }),
    decreases g.queue.inflight.len(),
{
    if g.queue.inflight.len() > 0 {
        let popped = GpuState {
            queue: QueueState { inflight: g.queue.inflight.drop_last(), ..g.queue },
            ..g
        };
        lemma_failed_parks(popped.entry_failed(g.queue.inflight.last()).0);
    }
}

/// The end of a scan-out copy on the scan-out ring lowers its gate and wakes its worker,
/// and shows it only if it succeeded.
pub proof fn law_end_of_a_copy_is_told(g: GpuState, i: int, resp_type: u32, n: ScanoutNotify)
    requires
        g.wf(),
        !g.queue.failed,
        0 <= i < g.queue.inflight.len(),
        g.queue.inflight[i].kind matches InFlightKind::AsyncVenus { scanout_notify, ring_idx, .. }
            && scanout_notify == Some(n) && ring_idx == 1,
    ensures
        ({
            let a = g.drained(g.queue.inflight[i].token, true, resp_type).1;
            let ok = 0x1100 <= resp_type < 0x1200;
            &&& a.contains(Action::LowerGate { gate: n.programming, ticket: n.ticket })
            &&& a.contains(Action::Wake { event: n.event })
            &&& ok ==> a.contains(
                Action::Store { cell: n.displayed_primary, value: n.primary_address },
            ) && a.contains(Action::Store { cell: n.pending, value: 1 })
            &&& !ok ==> forall|k: int| 0 <= k < a.len() ==> !(#[trigger] a[k] is Store)
        }),
{
    let e = g.queue.inflight[i];
    crate::promises::commands::lemma_its_token(g.queue, i);
    let ok = crate::protocol::is_ok(resp_type);
    let mid = GpuState {
        queue: QueueState {
            inflight: crate::seqs::swap_removed(g.queue.inflight, i),
            ..g.queue
        },
        ..g
    };
    let a = g.drained(e.token, true, resp_type).1;
    if let InFlightKind::AsyncVenus {
        fence_id,
        ring_idx,
        scanout_notify,
        present_stream,
        windowed_blt,
    } = e.kind {
        let (g1, a1) = mid.venus_counted(ring_idx, ok).stream_answered(present_stream, ok);
        let (g2, a2) = g1.blt_answered(windowed_blt, ok);
        let a3 = notify_done(n, ok);
        let a4 = g2.fences.fence_retired(fence_id).1;
        assert(a == a1 + a2 + a3 + a4);
        let at = (a1 + a2).len() as int;
        assert forall|k: int| 0 <= k < a3.len() implies a[at + k] == #[trigger] a3[k] by {}
        let m = a3.len() as int;
        assert(a[at + (m - 1)] == a3[m - 1]);
        assert(a[at + (m - 2)] == a3[m - 2]);
        if ok {
            assert(a[at + 0] == a3[0]);
            assert(a[at + 1] == a3[1]);
        } else {
            lemma_retired_stores_nothing(g2.fences, fence_id);
            assert forall|k: int| 0 <= k < a.len() implies !(#[trigger] a[k] is Store) by {
                if k < a1.len() {
                    assert(a[k] == a1[k]);
                } else if k < at {
                    assert(a[k] == a2[k - a1.len()]);
                } else if k < at + m {
                    assert(a[k] == a3[k - at]);
                } else {
                    assert(a[k] == a4[k - at - m]);
                }
            }
        }
    }
}

proof fn lemma_retired_stores_nothing(f: crate::fences::FenceState, fence: u64)
    ensures
        forall|k: int|
            0 <= k < f.fence_retired(fence).1.len() ==> !(#[trigger] f.fence_retired(
                fence,
            ).1[k] is Store),
{
    lemma_woken_stores_nothing(f, fence, 0);
    lemma_signalled_stores_nothing(f.waiters_woken(fence, 0).0, fence, 0);
}

proof fn lemma_woken_stores_nothing(f: crate::fences::FenceState, fence: u64, j: int)
    requires
        0 <= j,
    ensures
        forall|k: int|
            0 <= k < f.waiters_woken(fence, j).1.len() ==> !(#[trigger] f.waiters_woken(
                fence,
                j,
            ).1[k] is Store),
    decreases f.waiters.len() - j,
{
    if j < f.waiters.len() {
        if f.waiters[j].fence_id == fence {
            lemma_woken_stores_nothing(
                crate::fences::FenceState {
                    waiters: crate::seqs::swap_removed(f.waiters, j),
                    ..f
                },
                fence,
                j,
            );
        } else {
            lemma_woken_stores_nothing(f, fence, j + 1);
        }
    }
}

proof fn lemma_signalled_stores_nothing(f: crate::fences::FenceState, fence: u64, j: int)
    requires
        0 <= j,
    ensures
        forall|k: int|
            0 <= k < f.events_signalled(fence, j).1.len() ==> !(#[trigger] f.events_signalled(
                fence,
                j,
            ).1[k] is Store),
    decreases f.events.len() - j,
{
    if j < f.events.len() {
        if f.events[j].fence_id == fence {
            lemma_signalled_stores_nothing(
                crate::fences::FenceState {
                    events: crate::seqs::swap_removed(f.events, j),
                    counters: crate::counters::FenceCounters {
                        event_signals: f.counters.event_signals.wrapping_add(1),
                        ..f.counters
                    },
                    ..f
                },
                fence,
                j,
            );
        } else {
            lemma_signalled_stores_nothing(f, fence, j + 1);
        }
    }
}

/// The display worker is woken exactly when a copy that was admitted and not sent has its
/// producer done.
pub proof fn law_worker_is_woken_for_a_ready_copy(g: GpuState)
    requires
        g.wf(),
    ensures
        ({
            let a = g.blt_wake();
            let ready = |k: int|
                0 <= k < g.blt.pending.len() && g.blt.pending[k].admitted
                    && !g.blt.pending[k].dispatched && is_done(g, g.blt.pending[k].stream_boundary);
            &&& (exists|k: int| #[trigger] ready(k)) ==> a.len() == 1 && exists|k: int| #[trigger]
                ready(k) && a[0] == (Action::WakeDisplay { adapter: g.blt.pending[k].adapter })
            &&& !(exists|k: int| #[trigger] ready(k)) ==> a.len() == 0
        }),
{
    let ready = |k: int|
        0 <= k < g.blt.pending.len() && g.blt.pending[k].admitted && !g.blt.pending[k].dispatched
            && is_done(g, g.blt.pending[k].stream_boundary);
    let p = g.blt_waits();
    lemma_first_index_exists(g.blt.pending, p);
    assert forall|k: int| 0 <= k < g.blt.pending.len() implies (p(#[trigger] g.blt.pending[k])
        <==> ready(k)) by {
        law_boundary_is_met_when_done(g, g.blt.pending[k].stream_boundary);
    }
    match first_index(g.blt.pending, p) {
        Some(i) => {
            assert(p(g.blt.pending[i]));
            assert(ready(i));
        },
        None => {
            assert forall|k: int| !#[trigger] ready(k) by {
                if 0 <= k < g.blt.pending.len() {
                    assert(!p(g.blt.pending[k]));
                }
            }
        },
    }
}

/// A stream is ended exactly by its owner, context and capability together; it alone
/// dies.
pub proof fn law_stream_is_ended_by_its_capability(
    g: GpuState,
    owner: DeviceOwner,
    ctx_id: u32,
    cookie: u64,
)
    requires
        g.wf(),
    ensures
        ({
            let (r, t, _) = g.stream_ended(owner, ctx_id, cookie);
            let its = |k: int|
                0 <= k < 64 && g.streams.slots[k].live && g.streams.slots[k].owner == Some(owner)
                    && g.streams.slots[k].ctx_id == ctx_id && g.streams.slots[k].cookie == cookie;
            &&& r <==> exists|k: int| #[trigger] its(k)
            &&& forall|k: int| #[trigger]
                its(k) ==> !t.streams.slots[k].live && t.streams.slots[k].generation
                    == g.streams.slots[k].generation
            &&& forall|k: int|
                0 <= k < 64 && !its(k) ==> #[trigger] t.streams.slots[k] == g.streams.slots[k]
        }),
{
    let its = |k: int|
        0 <= k < 64 && g.streams.slots[k].live && g.streams.slots[k].owner == Some(owner)
            && g.streams.slots[k].ctx_id == ctx_id && g.streams.slots[k].cookie == cookie;
    let p = PresentStreamSlot::named(owner, ctx_id, cookie);
    lemma_first_index_exists(g.streams.slots, p);
    match first_index(g.streams.slots, p) {
        Some(i) => {
            assert(p(g.streams.slots[i]));
            assert(its(i));
            let dead = GpuState { streams: g.streams.slot_retired(i), ..g };
            lemma_settled_keeps_streams(dead);
            assert forall|k: int| #[trigger] its(k) implies k == i by {
                if k < i {
                    assert(g.streams.slots[k].cookie != g.streams.slots[i].cookie);
                } else if i < k {
                    assert(g.streams.slots[i].cookie != g.streams.slots[k].cookie);
                }
            }
        },
        None => {
            assert forall|k: int| !#[trigger] its(k) by {
                if 0 <= k < 64 {
                    assert(!p(g.streams.slots[k]));
                }
            }
        },
    }
}

pub(crate) proof fn lemma_settled_keeps_streams(g: GpuState)
    ensures
        g.deaths_settled().0.streams == g.streams,
        g.deaths_settled().0.queue == g.queue,
        g.deaths_settled().0.fences == g.fences,
{
    lemma_discharged_keeps_streams(g, 0);
}

proof fn lemma_discharged_keeps_streams(g: GpuState, i: int)
    requires
        0 <= i,
    ensures
        g.discharged_from(i).1.streams == g.streams,
        g.discharged_from(i).1.queue == g.queue,
        g.discharged_from(i).1.fences == g.fences,
    decreases g.wddm.pending.len() - i,
{
    if i < g.wddm.pending.len() {
        if g.waits_for_dead(g.wddm.pending[i]) {
            lemma_discharged_keeps_streams(g.entry_discharged(i).0, i + 1);
        } else {
            lemma_discharged_keeps_streams(g, i + 1);
        }
    }
}

/// Once the death of streams is settled, no copy that was not sent belongs to a dead one.
pub proof fn law_unsent_copies_die_with_their_stream(g: GpuState, k: int)
    requires
        g.streams.wf(),
        0 <= k < g.deaths_settled().0.blt.pending.len(),
    ensures
        ({
            let c = g.deaths_settled().0.blt.pending[k];
            c.dispatched || names_a_stream(g.streams, c.stream_boundary)
        }),
{
    let h = g.waits_discharged().1;
    lemma_discharged_keeps_streams(g, 0);
    assert(h.streams == g.streams);
    let p = WindowedBltPending::orphaned(g.streams);
    crate::blt_ops::law_cancel_all_leaves_none(h.blt, p);
    let c = g.deaths_settled().0.blt.pending[k];
    assert(!p(g.deaths_settled().0.blt.pending[k]));
    law_live_boundary_names_a_stream(g.streams, c.stream_boundary);
}

/// The submission that is named as the lowest outstanding one is in flight below the
/// watermark, and none is lower.
pub proof fn law_lowest_is_the_lowest(s: Seq<InFlight>, watermark: u64, i: int)
    requires
        lowest_below(s, watermark, i),
    ensures
        s[i].kind matches InFlightKind::AsyncVenus { fence_id, ring_idx, .. } && fence_id < watermark
            && ring_of(s[i]) == ring_idx && forall|j: int|
            0 <= j < s.len() ==> ((#[trigger] s[j]).kind matches InFlightKind::AsyncVenus {
                fence_id: other,
                ..
            } ==> other >= fence_id),
{
    let below = InFlight::fences_below(watermark, crate::inflight::RetireDomain::IncludingGpu);
    assert(below(s[i]));
    assert forall|j: int| 0 <= j < s.len() implies ((
    #[trigger] s[j]).kind matches InFlightKind::AsyncVenus { fence_id: other, .. } ==> other
        >= fence_of(s[i])) by {
        if let InFlightKind::AsyncVenus { fence_id: other, .. } = s[j].kind {
            if other < watermark {
                assert(below(s[j]));
            }
        }
    }
}

} // verus!
