//! Which frame the host is asked to show, and when.
use crate::drain::lemma_latched_is_failed;
use crate::enqueue::AddResult;
use crate::fast_bind::FastBindState;
use crate::gpu::GpuState;
use crate::inflight::{Action, Chain, InFlight, InFlightKind, ScanoutFlushToken};
use crate::promises::{is_done, law_boundary_is_met_when_done, law_live_boundary_names_a_stream,
    names_a_stream};
use crate::queue::QueueState;
use crate::scanout::{FastBindDispatch, FastBindRefusal, Publication, PublicationKey, PublicationPhase,
    PublicationRefresh, RefreshMarker, ScanoutBindRequest, ScanoutRefreshState, WorkerBindDispatch};
use vstd::prelude::*;

verus! {

/// A frame of this or a later epoch was sent already.
pub open spec fn is_outdated(f: FastBindState, r: ScanoutBindRequest) -> bool {
    r.resource_id != 0 && 0 < r.present_epoch <= f.presentation_epoch_floor
}

/// The request's buffer is being retired, or its producer has died.
pub open spec fn is_lost(g: GpuState, r: ScanoutBindRequest) -> bool {
    r.resource_id == g.fast.retiring_resource || r.carried_watermark >= 0x8000_0000_0000_0000
        && !names_a_stream(g.streams, r.carried_watermark)
}

/// A command buffer is there and the queue takes it.
pub open spec fn can_send(g: GpuState, added: AddResult) -> bool {
    &&& g.queue.bind_cmd_pool.len() > 0
    &&& g.queue.bind_cmd_pool.last().pages * 4096 >= 120
    &&& !g.queue.failed
    &&& g.queue.inflight.len() < 64
    &&& g.queue.parked.len() < 192
    &&& added is Token
}

/// The transport after this SET went out: it is the last command in flight, under
/// the token and the number it got, and the one publication; every older frame is
/// outdated from now on.
pub open spec fn went_out(
    g: GpuState,
    h: GpuState,
    r: ScanoutBindRequest,
    seq: u64,
    token: u16,
) -> bool {
    let e = h.queue.inflight.last();
    &&& h.queue.inflight.len() == g.queue.inflight.len() + 1
    &&& h.queue.inflight.drop_last() == g.queue.inflight
    &&& e.token == token
    &&& e.meta.pa == g.queue.bind_cmd_pool.last().pa
    &&& e.meta.len == 120
    &&& e.chain == (Chain::Meta1 { in0_len: 96 })
    &&& e.resp_len == 24
    &&& e.venus is None
    &&& e.kind matches InFlightKind::AsyncScanoutBind { bind } && {
        &&& bind.seq == seq
        &&& bind.resource_id == r.resource_id
        &&& bind.wh == r.width * 0x1_0000_0000 + r.height
        &&& bind.present_epoch == r.present_epoch
        &&& bind.primary_address == r.primary_address
        &&& bind.carried_watermark == r.carried_watermark
        &&& bind.format == r.format
        &&& bind.stride == r.stride
        &&& bind.offset == r.offset
    }
    &&& h.queue.bind_cmd_pool == g.queue.bind_cmd_pool.drop_last()
    &&& h.fast.publication == Some(
        Publication {
            key: PublicationKey { resource_id: r.resource_id, present_epoch: r.present_epoch },
            seq,
            phase: PublicationPhase::SetInFlight,
        },
    )
    &&& h.fast.publication_request == Some(r)
    &&& h.fast.presentation_epoch_floor == if r.resource_id != 0 && r.present_epoch
        > g.fast.presentation_epoch_floor {
        r.present_epoch
    } else {
        g.fast.presentation_epoch_floor
    }
    &&& h.tables == g.tables
    &&& h.fences == g.fences
    &&& h.streams == g.streams
}

/// The transport with one command buffer of a SET taken out.
spec fn without_buffer(g: GpuState) -> GpuState {
    GpuState {
        queue: QueueState { bind_cmd_pool: g.queue.bind_cmd_pool.drop_last(), ..g.queue },
        ..g
    }
}

/// A SET goes to the host exactly when its frame is done, on every ring and in its
/// stream, nothing is being published, its buffer is live and nobody retires it, no
/// newer frame went out, the worker has not claimed it, and the queue takes it. One
/// whose frame is not done, or that finds a publication active, waits: first if none
/// waits, else as the newest.
pub proof fn law_frame_is_shown_when_done(
    g: GpuState,
    r: ScanoutBindRequest,
    seq: u64,
    added: AddResult,
)
    requires
        g.wf(),
    ensures
        ({
            let (d, h, _) = g.staged(r, seq, added);
            let mine = g.fast.sync_worker_owned == Some(r);
            let refused = mine || is_outdated(g.fast, r) || g.fast.retire_barrier || is_lost(g, r);
            let waits = g.fast.publication is Some || !is_done(g, r.carried_watermark);
            &&& d is Queued <==> !refused && !waits && g.tables.resources.contains(r.resource_id)
                && can_send(g, added)
            &&& d is Queued ==> went_out(g, h, r, seq, added->Token_0)
            &&& d is Deferred <==> !refused && waits
            &&& d is Deferred ==> h.queue == g.queue && h.fast == if g.fast.deferred_earliest is None {
                FastBindState { deferred_earliest: Some(r), ..g.fast }
            } else {
                FastBindState { deferred_latest: Some(r), ..g.fast }
            }
            &&& d is Handled <==> mine
            &&& d is Superseded <==> !mine && is_outdated(g.fast, r)
            &&& !(d is Queued) && !h.queue.failed ==> h.queue.inflight == g.queue.inflight
                && h.fast.publication == g.fast.publication
        }),
{
    law_boundary_is_met_when_done(g, r.carried_watermark);
    law_live_boundary_names_a_stream(g.streams, r.carried_watermark);
    let (d, h, _) = g.staged(r, seq, added);
    let taken = without_buffer(g);
    lemma_latched_is_failed(taken);
    if d is Queued {
        assert(h.queue.inflight.drop_last() =~= g.queue.inflight);
    }
}

/// The waiting request whose turn it is: the oldest that is neither outdated nor
/// lost.
pub open spec fn first_in_line(g: GpuState) -> Option<ScanoutBindRequest> {
    match g.fast.deferred_earliest {
        Some(e) if !is_outdated(g.fast, e) && !is_lost(g, e) => Some(e),
        _ => match g.fast.deferred_latest {
            Some(l) if !is_outdated(g.fast, l) && !is_lost(g, l) => Some(l),
            _ => None,
        },
    }
}

/// A waiting SET goes to the host exactly when it is first in line, its frame is done
/// and nothing else is being published or retired. A due one that cannot be sent
/// becomes the worker's.
pub proof fn law_waiting_frame_is_shown_in_turn(g: GpuState, seq: u64, added: AddResult)
    requires
        g.wf(),
    ensures
        ({
            let (d, h, _) = g.serviced(seq, added);
            let open = !g.fast.retire_barrier && g.fast.publication is None;
            let first = first_in_line(g);
            let due = open && (first matches Some(r) && is_done(g, r.carried_watermark));
            let r = first->0;
            let sendable = g.fast.sync_worker_owned != Some(r) && g.tables.resources.contains(
                r.resource_id,
            ) && can_send(g, added);
            &&& d == Some(FastBindDispatch::Queued) <==> due && sendable
            &&& d == Some(FastBindDispatch::Queued) ==> went_out(g, h, r, seq, added->Token_0)
                && h.fast.deferred_latest is None && (h.fast.deferred_earliest matches Some(x)
                ==> Some(x) == g.fast.deferred_latest && Some(r) == g.fast.deferred_earliest)
            &&& due && !sendable && g.fast.sync_worker_owned != Some(r) && !h.queue.failed
                ==> h.fast.deferred_worker == Some(r)
            &&& d != Some(FastBindDispatch::Queued) && !h.queue.failed ==> h.queue.inflight
                == g.queue.inflight && h.fast.publication == g.fast.publication
            &&& !due && open ==> h.fast.deferred_earliest == first
        }),
{
    if let Some(e) = g.fast.deferred_earliest {
        law_boundary_is_met_when_done(g, e.carried_watermark);
        law_live_boundary_names_a_stream(g.streams, e.carried_watermark);
    }
    if let Some(l) = g.fast.deferred_latest {
        law_boundary_is_met_when_done(g, l.carried_watermark);
        law_live_boundary_names_a_stream(g.streams, l.carried_watermark);
    }
    let (d, h, _) = g.serviced(seq, added);
    let (due, k) = g.service_due();
    assert(k.queue == g.queue && k.streams == g.streams && k.tables == g.tables);
    if let Some(r) = first_in_line(g) {
        assert(k.boundary_ready(r.carried_watermark) == g.boundary_ready(r.carried_watermark));
    }
    lemma_latched_is_failed(without_buffer(k));
    if d == Some(FastBindDispatch::Queued) {
        assert(h.queue.inflight.drop_last() =~= g.queue.inflight);
    }
}

/// The worker may send a SET itself exactly when the frame is done, nothing is being
/// published or retired, no newer frame went out, and the fast path does not have the
/// request already.
pub proof fn law_worker_sends_finished_frames_only(
    g: GpuState,
    r: ScanoutBindRequest,
    reserve: bool,
)
    requires
        g.wf(),
    ensures
        ({
            let (d, f) = g.worker_staged(r, reserve);
            let gone = g.fast.retire_barrier || is_lost(g, r) || !g.tables.resources.contains(
                r.resource_id,
            );
            let elsewhere = g.fast.publication_request == Some(r) || (g.fast.host_accepted_fast
                && g.fast.host_accepted_fast_request == Some(r)) || g.fast.sync_worker_owned
                == Some(r);
            &&& d is Abandoned <==> gone
            &&& d is Superseded <==> !gone && is_outdated(g.fast, r)
            &&& d is Ready ==> !gone && !is_outdated(g.fast, r) && g.fast.publication is None
                && !elsewhere && is_done(g, r.carried_watermark)
            &&& !gone && !is_outdated(g.fast, r) && !(d is Ready) ==> d is Waiting
                && f.deferred_worker == Some(r)
            &&& d is Ready && reserve ==> f.sync_worker_owned == Some(r)
            &&& d is Ready && !reserve ==> f.sync_worker_owned == g.fast.sync_worker_owned
            &&& f.publication == g.fast.publication
            &&& !gone && !is_outdated(g.fast, r) && g.fast.publication is None && !elsewhere
                && is_done(g, r.carried_watermark) && g.fast.completed is None && !(exists|i: int|
                0 <= i < g.queue.inflight.len() && (
                #[trigger] g.queue.inflight[i]).kind is AsyncScanoutBind) ==> d is Ready
        }),
{
    law_boundary_is_met_when_done(g, r.carried_watermark);
    law_live_boundary_names_a_stream(g.streams, r.carried_watermark);
}

/// The worker is woken for the request it waits with exactly when that may go out, or
/// is outdated; never while something is published.
pub proof fn law_worker_is_woken_for_a_finished_frame(g: GpuState)
    requires
        g.wf(),
    ensures
        ({
            let (woken, f) = g.worker_woken();
            &&& woken ==> g.fast.deferred_worker is Some && g.fast.publication is None
            &&& woken ==> (g.fast.deferred_worker matches Some(r) && (is_outdated(g.fast, r) || (
            is_done(g, r.carried_watermark) && !is_lost(g, r) && g.tables.resources.contains(
                r.resource_id,
            ))))
            &&& woken ==> f.deferred_worker is None
            &&& f.publication == g.fast.publication
        }),
{
    if let Some(r) = g.fast.deferred_worker {
        law_boundary_is_met_when_done(g, r.carried_watermark);
        law_live_boundary_names_a_stream(g.streams, r.carried_watermark);
    }
}

/// The answer to the active publication's SET decides over it: success makes it ready
/// for its flush and records what the host now shows, refusal ends it and leaves the
/// request for the worker. An answer to any other SET leaves it alone.
pub proof fn law_answer_decides_its_own_publication(
    f: FastBindState,
    p: Publication,
    r: ScanoutBindRequest,
    bind: crate::scanout::CompletedBind,
    ok: bool,
)
    requires
        f.publication == Some(p),
        f.publication_request == Some(r),
        p.key == (PublicationKey { resource_id: r.resource_id, present_epoch: r.present_epoch }),
        p.phase == PublicationPhase::SetInFlight,
    ensures
        ({
            let t = f.fast_set_ended(bind, ok);
            let same = bind.seq == p.seq && bind.resource_id == r.resource_id && bind.wh == r.width
                * 0x1_0000_0000 + r.height && bind.present_epoch == r.present_epoch
                && bind.primary_address == r.primary_address && bind.carried_watermark
                == r.carried_watermark && bind.format == r.format && bind.stride == r.stride
                && bind.offset == r.offset;
            &&& same && ok ==> t.publication == Some(
                Publication { phase: PublicationPhase::SetSucceeded, ..p },
            ) && t.publication_request == Some(r)
            &&& same && !ok ==> t.publication is None && t.publication_request is None
                && t.fast_failure_wake == Some(r) && t.completed == f.completed
                && t.host_accepted_resource == f.host_accepted_resource
            &&& !same ==> t.publication == f.publication && t.publication_request
                == f.publication_request
            &&& ok ==> t.completed == Some(bind) && t.fast_failure_wake == f.fast_failure_wake
            &&& ok && bind.seq >= f.host_accepted_seq ==> t.host_accepted_seq == bind.seq
                && t.host_accepted_resource == bind.resource_id && t.host_accepted_fast
            &&& ok && bind.seq < f.host_accepted_seq ==> t.host_accepted_seq == f.host_accepted_seq
                && t.host_accepted_resource == f.host_accepted_resource
            &&& t.presentation_epoch_floor == f.presentation_epoch_floor
            &&& t.deferred_earliest == f.deferred_earliest
            &&& t.deferred_latest == f.deferred_latest
        }),
{
}

/// The answer to a SET with a waiter does the same; where the waiter has left, an
/// accepted SET is left to be applied.
pub proof fn law_waited_answer_decides_its_own_publication(
    f: FastBindState,
    p: Publication,
    r: ScanoutBindRequest,
    bind: crate::inflight::SyncScanoutBind,
    abandoned: bool,
    ok: bool,
)
    requires
        f.publication == Some(p),
        f.publication_request == Some(r),
        p.key == (PublicationKey { resource_id: r.resource_id, present_epoch: r.present_epoch }),
        p.phase == PublicationPhase::SetInFlight,
    ensures
        ({
            let t = f.sync_set_ended(Some(bind), abandoned, ok);
            let same = bind.seq == p.seq && bind.request == Some(r);
            &&& same && ok ==> t.publication == Some(
                Publication { phase: PublicationPhase::SetSucceeded, ..p },
            )
            &&& same && !ok ==> t.publication is None && t.publication_request is None
                && t.fast_failure_wake == Some(r)
            &&& !same ==> t.publication == f.publication
            &&& ok && bind.seq >= f.host_accepted_seq ==> t.host_accepted_seq == bind.seq
                && t.host_accepted_resource == bind.resource_id && !t.host_accepted_fast
            &&& !ok || bind.seq < f.host_accepted_seq ==> t.host_accepted_seq
                == f.host_accepted_seq && t.host_accepted_resource == f.host_accepted_resource
            &&& t.completed == f.completed || (abandoned && same && ok && (
            t.completed matches Some(c) && c.seq == bind.seq && c.resource_id == r.resource_id
                && c.present_epoch == r.present_epoch && c.wh == r.width * 0x1_0000_0000 + r.height
                && c.primary_address == r.primary_address))
            &&& abandoned && same && ok ==> t.completed is Some
        }),
{
}

/// A flush is sent only where nothing is being published, or for the very frame whose
/// SET has succeeded; it then owns the publication until it comes back.
pub proof fn law_flush_reads_what_is_shown(
    g: GpuState,
    meta: crate::hal::DmaBuffer,
    in0_len: usize,
    resp_len: usize,
    cells: crate::inflight::ControlCells,
    flush: ScanoutFlushToken,
    added: AddResult,
)
    requires
        g.fast.publication matches Some(p) ==> (g.fast.publication_request matches Some(r)
            && p.key == (PublicationKey {
            resource_id: r.resource_id,
            present_epoch: r.present_epoch,
        })),
    ensures
        ({
            let (r, t, _) = g.control_enqueued(
                meta,
                in0_len,
                resp_len,
                cells,
                Some(flush),
                added,
            );
            let free = g.fast.publication is None;
            let shown = g.fast.publication matches Some(p) && p.phase
                == PublicationPhase::SetSucceeded && p.key.resource_id == flush.resource_id
                && p.key.present_epoch == flush.covers_epoch;
            &&& r is Ok ==> free || shown
            &&& r is Ok && shown ==> t.fast.publication == Some(
                Publication { phase: PublicationPhase::FlushInFlight, ..g.fast.publication->0 },
            ) && t.fast.publication_request == g.fast.publication_request
            &&& r is Ok && free ==> t.fast == g.fast
            &&& r is Ok ==> (t.queue.inflight.last().kind matches InFlightKind::AsyncControl {
                cells: c,
                scanout_flush: Some(f),
            } && c == cells && f == flush)
            &&& r is Err && !t.queue.failed ==> t.fast == g.fast
        }),
{
    if let Ok(key) = g.flush_of(Some(flush)) {
        lemma_latched_is_failed(g.flush_armed_for(key));
    }
}

/// A flush that came back ends the publication that it was sent for, and no other:
/// after success only one that was waiting for it.
pub proof fn law_flush_ends_its_own_publication(
    f: FastBindState,
    flush: ScanoutFlushToken,
    ok: bool,
)
    requires
        f.publication matches Some(p) ==> (f.publication_request matches Some(r) && p.key == (
        PublicationKey { resource_id: r.resource_id, present_epoch: r.present_epoch })),
    ensures
        ({
            let t = f.flush_ended(Some(flush), ok);
            let its = f.publication matches Some(p) && p.key.resource_id == flush.resource_id
                && p.key.present_epoch == flush.covers_epoch && (ok ==> p.phase
                == PublicationPhase::FlushInFlight);
            if its {
                t == (FastBindState { publication: None, publication_request: None, ..f })
            } else {
                t == f
            }
        }),
{
}

/// A request for a read is answered at once exactly when what was drawn is done, and
/// then nothing older waits any more; else it waits, first if none does, else as the
/// newest.
pub proof fn law_read_waits_for_the_drawing(g: GpuState, resource_id: u32, watermark: u64)
    requires
        g.wf(),
    ensures
        ({
            let m = RefreshMarker { resource_id, boundary: watermark };
            let (now, s) = g.refresh_noted(resource_id, watermark);
            if is_done(g, watermark) {
                now && s.earliest is None && s.latest is None
            } else {
                &&& !now
                &&& g.refresh.earliest is None ==> s.earliest == Some(m) && s.latest is None
                &&& g.refresh.earliest is Some ==> s.earliest == g.refresh.earliest && s.latest
                    == Some(m)
            }
        }),
{
    law_boundary_is_met_when_done(g, watermark);
}

/// A read is handed out exactly when one that waits is done: the newest first, which
/// stands for the older one too.
pub proof fn law_read_is_taken_when_drawn(g: GpuState)
    requires
        g.wf(),
    ensures
        ({
            let (r, s) = g.refresh_taken();
            let newest = g.refresh.latest matches Some(m) && is_done(g, m.boundary);
            let oldest = g.refresh.earliest matches Some(m) && is_done(g, m.boundary);
            &&& newest ==> r == g.refresh.latest && s.earliest is None && s.latest is None
            &&& !newest && oldest ==> r == g.refresh.earliest && s.earliest == g.refresh.latest
                && s.latest is None
            &&& !newest && !oldest ==> r is None && s == g.refresh
        }),
{
    if let Some(m) = g.refresh.latest {
        law_boundary_is_met_when_done(g, m.boundary);
    }
    if let Some(m) = g.refresh.earliest {
        law_boundary_is_met_when_done(g, m.boundary);
    }
}

/// The steps of a publication touch nothing but it, and apply to its own key in their
/// own order only: armed after the SET succeeded, disarmed and completed while the
/// flush is out, released at any time.
pub proof fn law_publication_steps(
    f: FastBindState,
    p: Publication,
    r: ScanoutBindRequest,
    key: PublicationKey,
)
    requires
        f.publication == Some(p),
        f.publication_request == Some(r),
        p.key == (PublicationKey { resource_id: r.resource_id, present_epoch: r.present_epoch }),
    ensures
        f.armed(key).0 <==> key == p.key && p.phase == PublicationPhase::SetSucceeded,
        f.armed(key).1 == if f.armed(key).0 {
            (FastBindState {
                publication: Some(Publication { phase: PublicationPhase::FlushInFlight, ..p }),
                ..f
            })
        } else {
            f
        },
        f.rolled_back(key).0 <==> key == p.key && p.phase == PublicationPhase::FlushInFlight,
        f.rolled_back(key).1 == if f.rolled_back(key).0 {
            (FastBindState {
                publication: Some(Publication { phase: PublicationPhase::SetSucceeded, ..p }),
                ..f
            })
        } else {
            f
        },
        f.flush_done(key).0 <==> key == p.key && p.phase == PublicationPhase::FlushInFlight,
        f.flush_done(key).1 == if f.flush_done(key).0 {
            (FastBindState { publication: None, publication_request: None, ..f })
        } else {
            f
        },
        f.released(key).0 <==> key == p.key,
        f.released(key).1 == if key == p.key {
            (FastBindState { publication: None, publication_request: None, ..f })
        } else {
            f
        },
        f.refresh_for(key.resource_id) == if r.resource_id == key.resource_id && p.phase
            == PublicationPhase::SetSucceeded {
            PublicationRefresh::ReadyExact(r)
        } else {
            PublicationRefresh::Blocked
        },
        f.request_for(key.resource_id) == if r.resource_id == key.resource_id {
            Some(r)
        } else {
            None
        },
{
}

/// A SET that is sent with a command buffer goes out exactly when it is not outdated,
/// nothing is being published, the buffer holds it and the queue takes it; otherwise the
/// buffer goes back where it came from.
pub proof fn law_sent_set_owns_the_scanout(
    g: GpuState,
    buf: crate::hal::DmaBuffer,
    r: ScanoutBindRequest,
    seq: u64,
    added: AddResult,
)
    requires
        g.queue.bind_cmd_pool.len() < 4,
    ensures
        ({
            let (refusal, h, _) = g.bind_enqueued(buf, r, seq, added);
            let sound = !is_outdated(g.fast, r) && g.fast.publication is None && buf.pages * 4096
                >= 120;
            let takes = !g.queue.failed && g.queue.inflight.len() < 64 && g.queue.parked.len()
                < 192 && added is Token;
            &&& refusal is None <==> sound && takes
            &&& is_outdated(g.fast, r) ==> refusal == Some(FastBindRefusal::Superseded)
            &&& !is_outdated(g.fast, r) && g.fast.publication is Some ==> refusal == Some(
                FastBindRefusal::Busy,
            )
            &&& refusal is None ==> h.fast.publication_request == Some(r) && (
            h.fast.publication matches Some(p) && p.seq == seq && p.phase
                == PublicationPhase::SetInFlight && p.key.resource_id == r.resource_id
                && p.key.present_epoch == r.present_epoch) && h.queue.inflight.len()
                == g.queue.inflight.len() + 1
            &&& refusal is Some && !h.queue.failed ==> h.queue.inflight == g.queue.inflight
                && h.fast == g.fast && h.queue.bind_cmd_pool.len() == g.queue.bind_cmd_pool.len()
                + 1 && h.queue.bind_cmd_pool.last().pa == buf.pa
        }),
{
    lemma_latched_is_failed(g);
}

/// What the host shows is the newest SET that it has accepted.
pub proof fn law_newest_accepted_set_is_shown(f: FastBindState, seq: u64, resource_id: u32)
    ensures
        ({
            let t = f.host_accepted(seq, resource_id);
            if seq >= f.host_accepted_seq {
                &&& t.host_accepted_seq == seq
                &&& t.host_accepted_resource == resource_id
                &&& !t.host_accepted_fast && t.host_accepted_fast_request is None
            } else {
                t == f
            }
        }),
{
}

/// What waits to be applied or looked at is handed out once.
pub proof fn law_handed_out_once(f: FastBindState)
    ensures
        f.completed_taken().0 == f.completed,
        f.completed_taken().1.completed_taken().0 is None,
        f.completed_taken().1.publication == f.publication,
        f.wake_taken().0 == f.fast_failure_wake,
        f.wake_taken().1.wake_taken().0 is None,
        f.wake_taken().1.publication == f.publication,
        f.wake_taken().1.completed == f.completed,
{
}

/// The retirement of a resource freezes SETs and drops all that wait, and of the worker's
/// only those of the resource; its end lets new ones through. The publication of a
/// retired resource ends, another's does not.
pub proof fn law_retirement_of_a_resource(g: GpuState, resource_id: u32, r: ScanoutBindRequest)
    ensures
        ({
            let t = g.retire_begun(resource_id);
            &&& t.fast.retire_barrier && t.fast.retiring_resource == resource_id
            &&& t.fast.deferred_earliest is None && t.fast.deferred_latest is None
            &&& g.fast.deferred_worker == Some(r) ==> t.fast.deferred_worker == if r.resource_id
                == resource_id {
                None
            } else {
                Some(r)
            }
            &&& g.fast.sync_worker_owned == Some(r) ==> t.fast.sync_worker_owned
                == if r.resource_id == resource_id {
                None
            } else {
                Some(r)
            }
            &&& t.fast.publication == g.fast.publication && t.queue == g.queue
            &&& t.fast.host_accepted_seq == g.fast.host_accepted_seq
        }),
        !g.fast.retire_ended().retire_barrier,
        g.fast.retire_ended().publication == g.fast.publication,
        g.fast.retire_ended().deferred_worker == g.fast.deferred_worker,
        g.fast.publication_request == Some(r) && (g.fast.publication matches Some(p)
            && p.key.resource_id == r.resource_id && p.key.present_epoch == r.present_epoch)
            ==> g.fast.retired_for(resource_id).0 == (r.resource_id == resource_id) && (
        g.fast.retired_for(resource_id).1.publication is None <==> r.resource_id == resource_id),
        g.fast.publication_request is None ==> g.fast.retired_for(resource_id) == (false, g.fast),
{
}

} // verus!
