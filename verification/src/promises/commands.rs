//! What is handed to the device queue, and what its answers bring about.
use crate::ctrl::{map_verdict_of, verdict_of, wait_ms_of, BlockWait, Budget, FenceWait,
    FenceWaitEvent, FenceWaitPhase, FenceWaitStep, Roundtrip, RoundtripEvent, RoundtripPhase,
    RoundtripStep, WaitFenceOutcome, WaitStep, Wake};
use crate::drain::{control_done, copy_notified, dropped_flush, end_flush, lemma_latched_is_failed};
use crate::enqueue::AddResult;
use crate::error::VirtioError;
use crate::fences::{FenceEventEntry, FenceEventReg, FenceState, FenceWaitPrep, FenceWaiter};
use crate::gpu::GpuState;
use crate::hal::DmaBuffer;
use crate::inflight::{Action, Chain, ControlCells, InFlight, InFlightKind, PresentStreamRetire,
    ScanoutFlushToken, ScanoutNotify, SyncScanoutBind, WindowedBltRetire};
use crate::promises::scanout::is_outdated;
use crate::promises::{law_wire_wait_is_about_its_fences, not_in_flight};
use crate::queue::{best_fit, QueueState, SyncOutcome};
use crate::scanout::{Publication, PublicationKey, PublicationPhase, ScanoutBindRequest};
use crate::seqs::{first_index, lemma_first_index, lemma_first_index_exists, lemma_no_first_index,
    some, swap_removed};
use crate::submit::{judged, SubmitStep};
use vstd::prelude::*;

verus! {

/// The queue takes another command.
pub open spec fn takes_another(q: QueueState, added: AddResult) -> bool {
    !q.failed && q.inflight.len() < 64 && q.parked.len() < 192 && added is Token
}

/// A command's requests and its response lie behind each other in its buffer, or the
/// stream in a buffer of its own; a command is handed over only if all of it lies in
/// what the buffers have in use.
pub proof fn law_layout_of_a_command(
    chain: Chain,
    meta: DmaBuffer,
    venus: Option<DmaBuffer>,
    resp_len: usize,
)
    ensures
        ({
            let s = chain.spans_of(meta, venus, resp_len);
            &&& chain matches Chain::Meta1 { in0_len } ==> (s is Some <==> in0_len + resp_len
                <= meta.len) && (s matches Some(x) ==> x.count == 1 && x.first.pa == meta.pa
                && x.first.offset == 0 && x.first.len == in0_len && x.resp.pa == meta.pa
                && x.resp.offset == in0_len && x.resp.len == resp_len)
            &&& chain matches Chain::Meta2 { in0_len, in1_len } ==> (s is Some <==> in0_len + in1_len
                + resp_len <= meta.len) && (s matches Some(x) ==> x.count == 2 && x.first.pa
                == meta.pa && x.first.offset == 0 && x.first.len == in0_len && x.second.pa
                == meta.pa && x.second.offset == in0_len && x.second.len == in1_len && x.resp.pa
                == meta.pa && x.resp.offset == in0_len + in1_len && x.resp.len == resp_len)
            &&& chain matches Chain::MetaPlusVenus { hdr_len, venus_len } ==> (s is Some <==> (
            hdr_len + resp_len <= meta.len && (venus matches Some(v) && venus_len <= v.len))) && (
            s matches Some(x) ==> x.count == 2 && x.first.pa == meta.pa && x.first.offset == 0
                && x.first.len == hdr_len && x.second.pa == venus->0.pa && x.second.offset == 0
                && x.second.len == venus_len && x.resp.pa == meta.pa && x.resp.offset == hdr_len
                && x.resp.len == resp_len)
        }),
{
}

/// A command with a waiter is queued exactly when it has a request and a response that
/// the waiter's block holds, all of it fits its buffer, it shows no outdated frame and
/// no frame while another is published, and the queue takes it. It is then the last in
/// flight, with its waiter; a frame that it shows is the publication.
pub proof fn law_waited_command_is_queued_as_asked(
    g: GpuState,
    meta: DmaBuffer,
    in0_len: usize,
    in1_len: usize,
    resp_len: usize,
    waiter: u64,
    bind: Option<(u32, Option<ScanoutBindRequest>)>,
    seq: u64,
    added: AddResult,
)
    ensures
        ({
            let (r, t, _) = g.sync_enqueued(
                meta,
                in0_len,
                in1_len,
                resp_len,
                waiter,
                bind,
                seq,
                added,
            );
            let sound = in0_len > 0 && 0 < resp_len <= 64;
            let outdated = bind matches Some((_, Some(x))) && is_outdated(g.fast, x);
            let busy = bind matches Some((id, _)) && id != 0 && g.fast.publication is Some;
            let fits = in0_len + in1_len + resp_len <= meta.len;
            &&& r is Ok <==> sound && !outdated && !busy && fits && takes_another(g.queue, added)
            &&& !sound ==> r == Err::<u16, VirtioError>(VirtioError::DeviceError) && t == g
            &&& sound && outdated ==> r == Err::<u16, VirtioError>(
                VirtioError::PresentationSuperseded,
            ) && t == g
            &&& sound && !outdated && busy ==> r == Err::<u16, VirtioError>(
                VirtioError::PublicationBusy,
            ) && t == g
            &&& sound && !outdated && !busy && (g.queue.failed || !fits) ==> r == Err::<
                u16,
                VirtioError,
            >(VirtioError::DeviceError) && t == g
            &&& sound && !outdated && !busy && fits && !g.queue.failed && (g.queue.inflight.len()
                >= 64 || g.queue.parked.len() >= 192 || added is QueueFull) ==> r == Err::<
                u16,
                VirtioError,
            >(VirtioError::QueueFull) && t.queue.inflight == g.queue.inflight && t.fast == g.fast
                && t.queue.counters.queue_full_retries
                == g.queue.counters.queue_full_retries.wrapping_add(1)
            &&& r matches Ok(token) ==> {
                let e = t.queue.inflight.last();
                &&& added == AddResult::Token(token)
                &&& t.queue.inflight.len() == g.queue.inflight.len() + 1
                &&& t.queue.inflight.drop_last() == g.queue.inflight
                &&& e.token == token && e.meta == meta && e.resp_len == resp_len && e.venus is None
                &&& in1_len == 0 ==> e.chain == (Chain::Meta1 { in0_len })
                &&& in1_len > 0 ==> e.chain == (Chain::Meta2 { in0_len, in1_len })
                &&& e.kind matches InFlightKind::Sync { waiter: w, scanout_bind: b } && w == Some(
                    waiter,
                ) && (bind is None ==> b is None) && (bind matches Some((id, request)) ==> b
                    == Some(SyncScanoutBind { seq, resource_id: id, request }))
                &&& t.tables == g.tables && t.fences == g.fences && t.streams == g.streams
                &&& bind matches Some((_, Some(x))) ==> g.fast.publication is None ==> {
                    &&& t.fast.publication == Some(
                        Publication {
                            key: PublicationKey {
                                resource_id: x.resource_id,
                                present_epoch: x.present_epoch,
                            },
                            seq,
                            phase: PublicationPhase::SetInFlight,
                        },
                    )
                    &&& t.fast.publication_request == Some(x)
                    &&& x.resource_id != 0 && x.present_epoch > g.fast.presentation_epoch_floor
                        ==> t.fast.presentation_epoch_floor == x.present_epoch
                }
                &&& !(bind matches Some((_, Some(_)))) ==> t.fast == g.fast
            }
        }),
{
    lemma_latched_is_failed(g);
    let t = g.sync_enqueued(meta, in0_len, in1_len, resp_len, waiter, bind, seq, added).1;
    if t.queue.inflight.len() > g.queue.inflight.len() {
        assert(t.queue.inflight.drop_last() =~= g.queue.inflight);
    }
}

/// A submission is queued exactly when its stream is not empty and all of it fits, and
/// the queue takes it. It gets the next fence, goes on the ring it names, and is the
/// last in flight with what its end has to bring about.
pub proof fn law_submission_is_queued_as_asked(
    g: GpuState,
    ring: u32,
    meta: DmaBuffer,
    venus: DmaBuffer,
    venus_len: usize,
    notify: Option<ScanoutNotify>,
    stream: Option<PresentStreamRetire>,
    blt: Option<WindowedBltRetire>,
    added: AddResult,
)
    requires
        g.fences.next_wire_fence < u64::MAX,
    ensures
        ({
            let (r, t, _) = g.submit_enqueued(
                ring,
                meta,
                venus,
                venus_len,
                notify,
                stream,
                blt,
                added,
            );
            let fits = 0 < venus_len <= venus.len && 56 <= meta.len;
            &&& r is Ok <==> fits && takes_another(g.queue, added)
            &&& !fits || g.queue.failed ==> r == Err::<u64, VirtioError>(VirtioError::DeviceError)
                && t == g
            &&& fits && !g.queue.failed && (g.queue.inflight.len() >= 64 || g.queue.parked.len()
                >= 192 || added is QueueFull) ==> r == Err::<u64, VirtioError>(
                VirtioError::QueueFull,
            ) && t.queue.inflight == g.queue.inflight && t.fences == g.fences && t.streams
                == g.streams
            &&& r matches Ok(f) ==> {
                let e = t.queue.inflight.last();
                &&& f == g.fences.next_wire_fence
                &&& t.fences.next_wire_fence == f + 1
                &&& t.fences.waiters == g.fences.waiters && t.fences.events == g.fences.events
                &&& t.queue.inflight.len() == g.queue.inflight.len() + 1
                &&& t.queue.inflight.drop_last() == g.queue.inflight
                &&& added == AddResult::Token(e.token)
                &&& e.meta == meta && e.venus == Some(venus) && e.resp_len == 24
                &&& e.chain == (Chain::MetaPlusVenus { hdr_len: 32, venus_len })
                &&& e.kind == (InFlightKind::AsyncVenus {
                    fence_id: f,
                    ring_idx: if ring <= 255 {
                        ring as u8
                    } else {
                        255
                    },
                    scanout_notify: notify,
                    present_stream: stream,
                    windowed_blt: blt,
                })
                &&& t.tables == g.tables && t.fast == g.fast && t.wddm == g.wddm && t.blt == g.blt
                &&& stream is None ==> t.streams == g.streams
            }
        }),
{
    lemma_latched_is_failed(g);
    let t = g.submit_enqueued(ring, meta, venus, venus_len, notify, stream, blt, added).1;
    if t.queue.inflight.len() > g.queue.inflight.len() {
        assert(t.queue.inflight.drop_last() =~= g.queue.inflight);
    }
}

/// A command without a waiter is queued exactly when it has a request and a response
/// of at most 64 bytes that fit its buffer, a flush is of what is shown, and the queue
/// takes it.
pub proof fn law_unwaited_command_is_queued_as_asked(
    g: GpuState,
    meta: DmaBuffer,
    in0_len: usize,
    resp_len: usize,
    cells: ControlCells,
    flush: Option<ScanoutFlushToken>,
    added: AddResult,
)
    requires
        g.fast.publication matches Some(p) ==> (g.fast.publication_request matches Some(r)
            && p.key == (PublicationKey {
            resource_id: r.resource_id,
            present_epoch: r.present_epoch,
        })),
    ensures
        ({
            let (r, t, a) = g.control_enqueued(meta, in0_len, resp_len, cells, flush, added);
            let sound = in0_len > 0 && 0 < resp_len <= 64;
            let clear = flush matches Some(f) ==> (g.fast.publication matches Some(p) ==> p.phase
                == PublicationPhase::SetSucceeded && p.key.resource_id == f.resource_id
                && p.key.present_epoch == f.covers_epoch);
            let fits = in0_len + resp_len <= meta.len;
            &&& r is Ok <==> sound && clear && fits && takes_another(g.queue, added)
            &&& !sound ==> r == Err::<u16, VirtioError>(VirtioError::DeviceError)
            &&& sound && !clear ==> r == Err::<u16, VirtioError>(VirtioError::QueueFull)
            &&& sound && clear && (g.queue.failed || !fits) ==> r == Err::<u16, VirtioError>(
                VirtioError::DeviceError,
            )
            &&& r matches Ok(token) ==> {
                let e = t.queue.inflight.last();
                &&& added == AddResult::Token(token)
                &&& t.queue.inflight.len() == g.queue.inflight.len() + 1
                &&& t.queue.inflight.drop_last() == g.queue.inflight
                &&& e.token == token && e.meta == meta && e.resp_len == resp_len && e.venus is None
                &&& e.chain == (Chain::Meta1 { in0_len })
                &&& e.kind == (InFlightKind::AsyncControl { cells, scanout_flush: flush })
                &&& a.len() == 0
            }
            &&& r is Err && !t.queue.failed ==> t.queue.inflight == g.queue.inflight && t.fast
                == g.fast
            &&& r is Err && flush is Some && !(added is Failed) ==> a == seq![
                Action::RetireRead { ticket: flush->0.ledger_ticket, cancelled: true },
            ]
            &&& r is Err && flush is None && !(added is Failed) ==> a.len() == 0
        }),
{
    if let Ok(key) = g.flush_of(flush) {
        lemma_latched_is_failed(g.flush_armed_for(key));
    }
    let (r, t, a) = g.control_enqueued(meta, in0_len, resp_len, cells, flush, added);
    if r is Ok {
        assert(t.queue.inflight.drop_last() =~= g.queue.inflight);
    }
    if flush is Some && r is Err && !(added is Failed) {
        assert(a =~= seq![
            Action::RetireRead { ticket: flush->0.ledger_ticket, cancelled: true },
        ]);
    }
}

/// The end of a command without a waiter: success stores its value and asks for a new
/// round where that is wanted, failure is counted; then the busy cell is cleared, and
/// last its owner woken.
pub proof fn law_end_of_an_unwaited_command(cells: ControlCells, ok: bool)
    ensures
        ({
            let a = control_done(cells, ok);
            let n = a.len() as int;
            &&& a[n - 1] == Action::Wake { event: cells.wake_event }
            &&& a[n - 2] == Action::Store { cell: cells.completion, value: 0 }
            &&& !ok ==> n == 3 && a[0] == Action::Increment { cell: cells.completion_errors }
            &&& ok && cells.success_cell is None && cells.resubmit is None ==> n == 2
            &&& ok && cells.success_cell is Some ==> a[0] == Action::Store {
                cell: cells.success_cell->0,
                value: cells.success_value as u64,
            }
            &&& ok && cells.resubmit is Some ==> a[n - 3] == Action::Store {
                cell: cells.resubmit->0,
                value: 1,
            }
            &&& ok ==> n == 2 + (if cells.success_cell is Some {
                1int
            } else {
                0int
            }) + (if cells.resubmit is Some {
                1int
            } else {
                0int
            })
        }),
{
}

/// The end of a scan-out copy on the scan-out ring shows it, if it succeeded, and lowers
/// its gate either way; on another ring it tells nobody. A flush that ran ends its
/// reader, and its leases where it covers any; one that never ran gives its claim up.
pub proof fn law_end_of_a_copy_and_of_a_flush(
    n: ScanoutNotify,
    ring: u8,
    flush: ScanoutFlushToken,
    ok: bool,
)
    ensures
        ring != 1 ==> copy_notified(Some(n), ring, ok).len() == 0,
        copy_notified(None, ring, ok).len() == 0,
        ok ==> copy_notified(Some(n), 1, ok) == seq![
            Action::Store { cell: n.displayed_primary, value: n.primary_address },
            Action::Store { cell: n.pending, value: 1 },
            Action::LowerGate { gate: n.programming, ticket: n.ticket },
            Action::Wake { event: n.event },
        ],
        !ok ==> copy_notified(Some(n), 1, ok) == seq![
            Action::LowerGate { gate: n.programming, ticket: n.ticket },
            Action::Wake { event: n.event },
        ],
        flush.covers_epoch == 0 ==> end_flush(Some(flush), ok) == seq![
            Action::RetireRead { ticket: flush.ledger_ticket, cancelled: false },
        ],
        flush.covers_epoch != 0 ==> end_flush(Some(flush), ok) == seq![
            Action::RetireRead { ticket: flush.ledger_ticket, cancelled: false },
            Action::EndLeases {
                adapter: flush.adapter,
                through: flush.covers_epoch,
                host_read: ok,
            },
        ],
        dropped_flush(Some(flush)) == seq![
            Action::RetireRead { ticket: flush.ledger_ticket, cancelled: true },
        ],
        end_flush(None, ok).len() == 0,
        dropped_flush(None).len() == 0,
{
    if ok {
        assert(copy_notified(Some(n), 1, ok) =~= seq![
            Action::Store { cell: n.displayed_primary, value: n.primary_address },
            Action::Store { cell: n.pending, value: 1 },
            Action::LowerGate { gate: n.programming, ticket: n.ticket },
            Action::Wake { event: n.event },
        ]);
    } else {
        assert(copy_notified(Some(n), 1, ok) =~= seq![
            Action::LowerGate { gate: n.programming, ticket: n.ticket },
            Action::Wake { event: n.event },
        ]);
    }
    if flush.covers_epoch == 0 {
        assert(end_flush(Some(flush), ok) =~= seq![
            Action::RetireRead { ticket: flush.ledger_ticket, cancelled: false },
        ]);
    } else {
        assert(end_flush(Some(flush), ok) =~= seq![
            Action::RetireRead { ticket: flush.ledger_ticket, cancelled: false },
            Action::EndLeases {
                adapter: flush.adapter,
                through: flush.covers_epoch,
                host_read: ok,
            },
        ]);
    }
}

/// The index of the command with a token.
pub(crate) proof fn lemma_its_token(q: QueueState, i: int)
    requires
        q.wf(),
        0 <= i < q.inflight.len(),
    ensures
        first_index(q.inflight, InFlight::tokened(q.inflight[i].token)) == Some(i),
{
    let p = InFlight::tokened(q.inflight[i].token);
    assert forall|j: int| 0 <= j < i implies !p(#[trigger] q.inflight[j]) by {
        assert(q.inflight[j].token != q.inflight[i].token);
    }
    lemma_first_index(q.inflight, p, i);
}

/// An answer takes its own command out of flight and no other, and is counted. The
/// command waits to be reaped with all its buffers, but the buffer of a SET without a
/// waiter goes back to its pool where there is room.
pub proof fn law_answer_ends_its_own_command(g: GpuState, i: int, resp_type: u32)
    requires
        g.wf(),
        !g.queue.failed,
        0 <= i < g.queue.inflight.len(),
    ensures
        ({
            let e = g.queue.inflight[i];
            let (t, a) = g.drained(e.token, true, resp_type);
            let ok = 0x1100 <= resp_type < 0x1200;
            let pooled = e.kind is AsyncScanoutBind && e.venus is None
                && g.queue.bind_cmd_pool.len() < 4;
            let c = g.queue.counters;
            let d = t.queue.counters;
            &&& !t.queue.failed
            &&& t.queue.inflight == g.queue.inflight.update(i, g.queue.inflight.last()).drop_last()
            &&& pooled ==> t.queue.bind_cmd_pool == g.queue.bind_cmd_pool.push(e.meta)
                && t.queue.parked == g.queue.parked
            &&& !pooled ==> t.queue.bind_cmd_pool == g.queue.bind_cmd_pool && t.queue.parked.len()
                == g.queue.parked.len() + 1 && t.queue.parked.drop_last() == g.queue.parked
                && t.queue.parked.last().meta == e.meta && t.queue.parked.last().venus == e.venus
            &&& t.queue.dma_pool == g.queue.dma_pool
            &&& t.tables == g.tables && t.wddm == g.wddm && t.refresh == g.refresh
            &&& t.fences.next_wire_fence == g.fences.next_wire_fence
            &&& e.kind is AsyncVenus ==> d.async_completes == c.async_completes.wrapping_add(1)
                && d.async_resp_errors == if ok {
                c.async_resp_errors
            } else {
                c.async_resp_errors.wrapping_add(1)
            }
            &&& e.kind is AsyncControl ==> d.async_ctrl_completes
                == c.async_ctrl_completes.wrapping_add(1) && d.async_ctrl_resp_errors == if ok {
                c.async_ctrl_resp_errors
            } else {
                c.async_ctrl_resp_errors.wrapping_add(1)
            }
            &&& !(e.kind is AsyncVenus) ==> t.fences == g.fences && t.streams == g.streams && t.blt
                == g.blt
            &&& e.kind matches InFlightKind::Sync { waiter, .. } ==> match waiter {
                Some(block) => a == seq![Action::CompleteBlock { block, copy: e.resp_len }],
                None => a.len() == 0,
            }
            &&& e.kind is AsyncScanoutBind ==> a.len() == 0
            &&& e.kind matches InFlightKind::AsyncControl { cells, scanout_flush } ==> a
                == end_flush(scanout_flush, ok) + control_done(cells, ok)
        }),
{
    lemma_its_token(g.queue, i);
    let e = g.queue.inflight[i];
    assert(e.wf());
    let (t, a) = g.drained(e.token, true, resp_type);
    if let InFlightKind::AsyncVenus { fence_id, .. } = e.kind {
        crate::fences::law_retired_fence_leaves_nobody(g.fences, fence_id);
    }
    if t.queue.parked.len() > g.queue.parked.len() {
        assert(t.queue.parked.drop_last() =~= g.queue.parked);
    }
}

/// The answer to a tagged submission advances its stream to the submission's value, if
/// the stream still lives and is not further; a refusal ends the stream. The answer to
/// a copy is the copy's.
pub proof fn law_answer_advances_the_stream(g: GpuState, i: int, resp_type: u32)
    requires
        g.wf(),
        !g.queue.failed,
        0 <= i < g.queue.inflight.len(),
        g.queue.inflight[i].kind is AsyncVenus,
    ensures
        ({
            let e = g.queue.inflight[i];
            let t = g.drained(e.token, true, resp_type).0;
            let ok = 0x1100 <= resp_type < 0x1200;
            e.kind matches InFlightKind::AsyncVenus { present_stream, windowed_blt, .. } && {
                &&& present_stream is None ==> t.streams == g.streams
                &&& windowed_blt is None ==> t.blt == g.blt
                &&& windowed_blt matches Some(w) ==> t.blt == g.blt.ring_completed(
                    w.adapter,
                    w.token,
                    w.stream_boundary,
                    ok,
                ).0
                &&& present_stream matches Some(s) ==> forall|k: int|
                    0 <= k < 64 ==> {
                        let before = g.streams.slots[k];
                        let its = before.live && s.handle == before.generation * 64 + k;
                        let after = #[trigger] t.streams.slots[k];
                        &&& !its ==> after == before
                        &&& its && ok ==> after.live && after.retired_value == (if s.value
                            > before.retired_value {
                            s.value
                        } else {
                            before.retired_value
                        }) && after.submitted_value == before.submitted_value && after.cookie
                            == before.cookie && after.generation == before.generation
                        &&& its && !ok ==> !after.live && after.generation == before.generation
                    }
            }
        }),
{
    lemma_its_token(g.queue, i);
    let e = g.queue.inflight[i];
    let t = g.drained(e.token, true, resp_type).0;
    if let InFlightKind::AsyncVenus { present_stream: Some(s), .. } = e.kind {
        assert forall|k: int| 0 <= k < 64 implies {
            let before = g.streams.slots[k];
            let its = before.live && s.handle == before.generation * 64 + k;
            let after = #[trigger] t.streams.slots[k];
            &&& !its ==> after == before
            &&& its && (0x1100 <= resp_type < 0x1200) ==> after.live && after.retired_value == (
            if s.value > before.retired_value {
                s.value
            } else {
                before.retired_value
            }) && after.submitted_value == before.submitted_value && after.cookie == before.cookie
                && after.generation == before.generation
            &&& its && !(0x1100 <= resp_type < 0x1200) ==> !after.live && after.generation
                == before.generation
        } by {
            assert(g.streams.slots[k].wf());
        }
    }
}

/// A completion that belongs to no command, and one that the queue does not release,
/// fail the transport.
pub proof fn law_corrupt_completion_fails_the_transport(
    g: GpuState,
    token: u16,
    popped: bool,
    resp_type: u32,
)
    requires
        g.wf(),
        !g.queue.failed,
    ensures
        ({
            let known = exists|i: int|
                0 <= i < g.queue.inflight.len() && (#[trigger] g.queue.inflight[i]).token == token;
            let t = g.drained(token, popped, resp_type).0;
            &&& t.queue.failed <==> !known || !popped
            &&& !known ==> t.queue.inflight.len() == 0
        }),
{
    let p = InFlight::tokened(token);
    lemma_first_index_exists(g.queue.inflight, p);
    match first_index(g.queue.inflight, p) {
        Some(i) => {
            assert(p(g.queue.inflight[i]));
            assert(g.queue.inflight[i].token == token);
            lemma_latched_is_failed(g);
            law_answer_ends_its_own_command(g, i, resp_type);
        },
        None => {
            assert forall|i: int| 0 <= i < g.queue.inflight.len() implies (
            #[trigger] g.queue.inflight[i]).token != token by {
                assert(!p(g.queue.inflight[i]));
            }
            lemma_latched_is_failed(
                GpuState {
                    queue: QueueState {
                        counters: crate::counters::QueueCounters {
                            drain_bad_token: g.queue.counters.drain_bad_token.wrapping_add(1),
                            ..g.queue.counters
                        },
                        ..g.queue
                    },
                    ..g
                },
            );
        },
    }
}

/// A waiter that gives up finds its command gone, or detaches from it, and is counted
/// then; a command that is not its own it leaves alone.
pub proof fn law_giving_up_detaches_the_waiter(g: GpuState, token: u16, block: u64)
    requires
        g.wf(),
    ensures
        ({
            let (r, t) = g.given_up(token, block);
            &&& r == SyncOutcome::AlreadyCompleted <==> forall|i: int|
                0 <= i < g.queue.inflight.len() ==> (#[trigger] g.queue.inflight[i]).token != token
            &&& forall|i: int|
                0 <= i < g.queue.inflight.len() && (#[trigger] g.queue.inflight[i]).token == token
                    ==> {
                    let e = g.queue.inflight[i];
                    let ours = e.kind matches InFlightKind::Sync { waiter, .. } && waiter == Some(
                        block,
                    );
                    &&& ours ==> r == SyncOutcome::Abandoned && t.queue.inflight
                        == g.queue.inflight.update(i, t.queue.inflight[i])
                        && t.queue.inflight[i].kind == (InFlightKind::Sync {
                        waiter: None,
                        scanout_bind: e.kind->Sync_scanout_bind,
                    }) && t.queue.inflight[i].token == token && t.queue.inflight[i].meta == e.meta
                        && t.queue.inflight[i].resp_len == e.resp_len
                        && t.queue.counters.ctrl_timeouts
                        == g.queue.counters.ctrl_timeouts.wrapping_add(1)
                    &&& !ours ==> r == SyncOutcome::NotOurs && t == g
                }
            &&& r == SyncOutcome::AlreadyCompleted ==> t == g
        }),
{
    let p = InFlight::tokened(token);
    lemma_first_index_exists(g.queue.inflight, p);
    match first_index(g.queue.inflight, p) {
        Some(i) => {
            assert(p(g.queue.inflight[i]));
            assert forall|k: int|
                0 <= k < g.queue.inflight.len() && (#[trigger] g.queue.inflight[k]).token
                    == token implies k == i by {
                if k < i {
                    assert(g.queue.inflight[k].token != g.queue.inflight[i].token);
                } else if i < k {
                    assert(g.queue.inflight[i].token != g.queue.inflight[k].token);
                }
            }
        },
        None => {
            assert forall|i: int| 0 <= i < g.queue.inflight.len() implies (
            #[trigger] g.queue.inflight[i]).token != token by {
                assert(!p(g.queue.inflight[i]));
            }
        },
    }
}

/// A wait for a fence is answered by what has become of the fence: not one of this
/// instance, out of flight, or in flight and the waiter registered, 64 at most.
pub proof fn law_wait_is_answered_by_the_fence(g: GpuState, fence: u64, block: u64)
    ensures
        ({
            let (r, f) = g.fence_awaited(fence, block);
            let own = !g.queue.failed && fence != 0 && g.fences.wire_fence_base <= fence
                < g.fences.next_wire_fence;
            let gone = not_in_flight(g.queue.inflight, fence);
            let full = g.fences.waiters.len() >= 64;
            &&& r is Invalid <==> !own
            &&& r is Complete <==> own && gone
            &&& r is TableFull <==> own && !gone && full
            &&& r is Registered <==> own && !gone && !full
            &&& f.waiters == if r is Registered {
                g.fences.waiters.push(FenceWaiter { fence_id: fence, block })
            } else {
                g.fences.waiters
            }
            &&& f.events == g.fences.events && f.next_wire_fence == g.fences.next_wire_fence
                && f.wire_fence_base == g.fences.wire_fence_base
        }),
{
    law_wire_wait_is_about_its_fences(g.queue.inflight, fence);
}

/// An event is answered in the same way, 256 at most, and a pair that is registered is
/// not registered again.
pub proof fn law_event_is_answered_by_the_fence(g: GpuState, fence: u64, event: u64)
    ensures
        ({
            let (r, f) = g.event_attached(fence, event);
            let own = !g.queue.failed && fence != 0 && g.fences.wire_fence_base <= fence
                < g.fences.next_wire_fence;
            let gone = not_in_flight(g.queue.inflight, fence);
            let pair = FenceEventEntry { fence_id: fence, event };
            let there = g.fences.events.contains(pair);
            let full = g.fences.events.len() >= 256;
            &&& r is Invalid <==> !own
            &&& r is AlreadyComplete <==> own && gone
            &&& r is Duplicate <==> own && !gone && there
            &&& r is TableFull <==> own && !gone && !there && full
            &&& r is Registered <==> own && !gone && !there && !full
            &&& f.events == if r is Registered {
                g.fences.events.push(pair)
            } else {
                g.fences.events
            }
            &&& f.waiters == g.fences.waiters && f.next_wire_fence == g.fences.next_wire_fence
                && f.wire_fence_base == g.fences.wire_fence_base
        }),
{
    law_wire_wait_is_about_its_fences(g.queue.inflight, fence);
    lemma_pair(g.fences, fence, event);
}

proof fn lemma_pair(f: FenceState, fence: u64, event: u64)
    ensures
        some(f.events, FenceEventEntry::pair(fence, event)) <==> f.events.contains(
            FenceEventEntry { fence_id: fence, event },
        ),
{
    let p = FenceEventEntry::pair(fence, event);
    let e = FenceEventEntry { fence_id: fence, event };
    if some(f.events, p) {
        let i = choose|i: int| 0 <= i < f.events.len() && p(#[trigger] f.events[i]);
        assert(f.events[i] == e);
    }
    if f.events.contains(e) {
        let i = choose|i: int| 0 <= i < f.events.len() && f.events[i] == e;
        assert(p(f.events[i]));
    }
}

/// A registration that is taken back was there, and is there no more; a waiter that
/// gives up is told whether it was woken already.
pub proof fn law_registrations_are_taken_back(f: FenceState, fence: u64, event: u64, block: u64)
    ensures
        f.event_left(fence, event).0 <==> f.events.contains(
            FenceEventEntry { fence_id: fence, event },
        ),
        f.event_left(fence, event).0 ==> exists|i: int|
            0 <= i < f.events.len() && #[trigger] f.events[i] == (FenceEventEntry {
                fence_id: fence,
                event,
            }) && f.event_left(fence, event).1.events == f.events.update(
                i,
                f.events.last(),
            ).drop_last(),
        !f.event_left(fence, event).0 ==> f.event_left(fence, event).1 == f,
        f.event_left(fence, event).1.waiters == f.waiters,
        f.wait_cancelled(block).0 <==> forall|i: int|
            0 <= i < f.waiters.len() ==> (#[trigger] f.waiters[i]).block != block,
        f.wait_cancelled(block).0 ==> f.wait_cancelled(block).1 == f,
        !f.wait_cancelled(block).0 ==> exists|i: int|
            0 <= i < f.waiters.len() && (#[trigger] f.waiters[i]).block == block
                && f.wait_cancelled(block).1.waiters == f.waiters.update(
                i,
                f.waiters.last(),
            ).drop_last(),
        f.wait_cancelled(block).1.events == f.events,
{
    let p = FenceEventEntry::pair(fence, event);
    lemma_pair(f, fence, event);
    lemma_first_index_exists(f.events, p);
    if let Some(i) = first_index(f.events, p) {
        assert(p(f.events[i]));
        assert(f.events[i] == (FenceEventEntry { fence_id: fence, event }));
    }
    let q = FenceWaiter::of_block(block);
    lemma_first_index_exists(f.waiters, q);
    match first_index(f.waiters, q) {
        Some(i) => {
            assert(q(f.waiters[i]));
            assert(f.waiters[i].block == block);
        },
        None => {
            assert forall|i: int| 0 <= i < f.waiters.len() implies (#[trigger] f.waiters[i]).block
                != block by {
                assert(!q(f.waiters[i]));
            }
        },
    }
}

/// A wait for a fence ends at once where the answer is known, and waits its time where
/// the fence is in flight: from one millisecond to two minutes. A poll never waits.
pub proof fn law_fence_wait_follows_the_answer(w: FenceWait, g: GpuState, wake: Wake)
    requires
        w.wf(),
        w.phase is Registering,
    ensures
        ({
            let (step, n, t) = w.next(g, FenceWaitEvent::Drained(wake));
            let own = !g.queue.failed && w.fence_id != 0 && g.fences.wire_fence_base <= w.fence_id
                < g.fences.next_wire_fence;
            let gone = not_in_flight(g.queue.inflight, w.fence_id);
            let full = g.fences.waiters.len() >= 64;
            &&& !own ==> step == FenceWaitStep::Finish(WaitFenceOutcome::Invalid)
            &&& own && gone ==> step == FenceWaitStep::Finish(WaitFenceOutcome::Complete)
            &&& own && !gone && full && w.full_retries < 1000 ==> step == FenceWaitStep::Retry(1)
                && n.phase is Registering && n.full_retries == w.full_retries + 1
            &&& own && !gone && full && w.full_retries >= 1000 ==> step == FenceWaitStep::Finish(
                WaitFenceOutcome::TimedOut,
            )
            &&& own && !gone && !full && w.timeout_ns > 0 ==> (step matches FenceWaitStep::Wait(ms)
                && ms > 0) && n.phase is Waiting && t.fences.waiters == g.fences.waiters.push(
                FenceWaiter { fence_id: w.fence_id, block: w.block },
            )
            &&& own && !gone && !full && w.timeout_ns == 0 && (forall|i: int|
                0 <= i < g.fences.waiters.len() ==> (#[trigger] g.fences.waiters[i]).block
                    != w.block) ==> step == FenceWaitStep::Finish(WaitFenceOutcome::TimedOut)
                && t.fences.waiters == g.fences.waiters
            &&& w.timeout_ns < 1_000_000 ==> wait_ms_of(w.timeout_ns) == 1
            &&& 1_000_000 <= w.timeout_ns <= 120_000_000_000 ==> wait_ms_of(w.timeout_ns)
                == w.timeout_ns / 1_000_000
            &&& w.timeout_ns > 120_000_000_000 ==> wait_ms_of(w.timeout_ns) == 120_000
        }),
{
    law_wait_is_answered_by_the_fence(g, w.fence_id, w.block);
    let (prep, f) = g.fences.wait_answer(
        g.queue.failed,
        g.queue.inflight,
        w.fence_id,
        w.block,
    );
    if prep is Registered {
        let p = FenceWaiter::of_block(w.block);
        let last = g.fences.waiters.len() as int;
        lemma_first_index_exists(f.waiters, p);
        assert(p(f.waiters[last]));
        if forall|i: int|
            0 <= i < g.fences.waiters.len() ==> (#[trigger] g.fences.waiters[i]).block != w.block {
            assert forall|i: int| 0 <= i < last implies !p(#[trigger] f.waiters[i]) by {
                assert(f.waiters[i] == g.fences.waiters[i]);
            }
            lemma_first_index(f.waiters, p, last);
            assert(swap_removed(f.waiters, last) =~= g.fences.waiters);
        }
    }
}

/// A wait that times out takes its waiter back; a waiter that is still registered has
/// not been woken.
pub proof fn law_fence_wait_ends_in_time(w: FenceWait, g: GpuState, wake: Wake)
    requires
        w.wf(),
    ensures
        w.phase matches FenceWaitPhase::Waiting(b) ==> {
            let (step, n, _) = w.next(g, FenceWaitEvent::Waited(Wake::Asleep));
            &&& b.waited_ms >= b.total_ms ==> step is Drain && n.phase is Cancelling
            &&& b.waited_ms < b.total_ms ==> (step matches FenceWaitStep::Wait(ms) && 0 < ms
                && ms <= 1000 && ms <= b.total_ms - b.waited_ms && (
            n.phase matches FenceWaitPhase::Waiting(c) && c.waited_ms == b.waited_ms + ms
                && c.total_ms == b.total_ms))
        },
        w.phase is Cancelling ==> {
            let (step, _, t) = w.next(g, FenceWaitEvent::Drained(wake));
            let registered = exists|i: int|
                0 <= i < g.fences.waiters.len() && (#[trigger] g.fences.waiters[i]).block
                    == w.block;
            &&& registered ==> step == FenceWaitStep::Finish(WaitFenceOutcome::TimedOut)
                && t.fences.counters.wait_timeouts
                == g.fences.counters.wait_timeouts.wrapping_add(1) && t.fences.waiters.len()
                == g.fences.waiters.len() - 1
            &&& !registered && wake is Completed ==> step == FenceWaitStep::Finish(
                WaitFenceOutcome::Complete,
            )
            &&& !registered && wake is Failed ==> step == FenceWaitStep::Finish(
                WaitFenceOutcome::Invalid,
            )
        },
{
    law_registrations_are_taken_back(g.fences, 0, 0, w.block);
}

/// A round trip goes on in its order: a buffer for requests and response, the queue, the
/// wait. Only a full queue is tried again, for five seconds at most; a wait that runs out
/// gives up this command alone.
pub proof fn law_round_trip_goes_in_order(rt: Roundtrip, event: RoundtripEvent)
    requires
        rt.wf(),
        event matches RoundtripEvent::Begin { in0_len, in1_len, resp_len } ==> in0_len + in1_len
            + resp_len <= usize::MAX,
    ensures
        ({
            let (step, n) = rt.next(event);
            &&& event is Gone ==> step == RoundtripStep::Fail(VirtioError::DeviceError)
            &&& rt.phase is Idle ==> (event matches RoundtripEvent::Begin {
                in0_len,
                in1_len,
                resp_len,
            } ==> step == if in0_len == 0 || resp_len == 0 {
                RoundtripStep::Fail(VirtioError::DeviceError)
            } else {
                RoundtripStep::Allocate((in0_len + in1_len + resp_len) as usize)
            })
            &&& rt.phase is Allocating && event == RoundtripEvent::Allocated(true) ==> step
                == RoundtripStep::Enqueue && n.phase == RoundtripPhase::Enqueueing(
                Budget { total_ms: 5000, spent_ms: 0 },
            )
            &&& rt.phase is Allocating && event == RoundtripEvent::Allocated(false) ==> step
                == RoundtripStep::Fail(VirtioError::OutOfMemory)
            &&& rt.phase matches RoundtripPhase::Enqueueing(b) ==> {
                &&& event matches RoundtripEvent::Refused(e) ==> e != VirtioError::QueueFull ==> step
                    == RoundtripStep::Fail(e)
                &&& event == RoundtripEvent::Refused(VirtioError::QueueFull) && b.spent_ms
                    < b.total_ms ==> step == RoundtripStep::Retry(1) && n.phase
                    == RoundtripPhase::Sleeping(
                    Budget { total_ms: b.total_ms, spent_ms: (b.spent_ms + 1) as u64 },
                )
                &&& event == RoundtripEvent::Refused(VirtioError::QueueFull) && b.total_ms
                    <= b.spent_ms < u64::MAX ==> step == RoundtripStep::Fail(VirtioError::QueueFull)
                &&& event is Enqueued && rt.timeout_ms > 0 ==> step is Wait && n.phase is Waiting
                &&& event is Enqueued && rt.timeout_ms == 0 ==> step is GiveUp
            }
            &&& rt.phase matches RoundtripPhase::Sleeping(b) ==> event is Slept ==> step is Enqueue
                && n.phase == RoundtripPhase::Enqueueing(b)
            &&& rt.phase matches RoundtripPhase::Waiting(w) ==> {
                &&& event == RoundtripEvent::Waited(true) ==> step is Succeed
                &&& event == RoundtripEvent::Waited(false) && w.waited_ms >= w.total_ms
                    ==> step is GiveUp && n.phase is GivingUp
                &&& event == RoundtripEvent::Waited(false) && w.waited_ms < w.total_ms
                    ==> step is Wait && n.phase is Waiting
            }
            &&& rt.phase is GivingUp ==> {
                &&& event == RoundtripEvent::GaveUp(SyncOutcome::AlreadyCompleted)
                    ==> step is Succeed
                &&& event == RoundtripEvent::GaveUp(SyncOutcome::Abandoned) ==> step
                    == RoundtripStep::Fail(VirtioError::Timeout)
                &&& event == RoundtripEvent::GaveUp(SyncOutcome::NotOurs) ==> step
                    == RoundtripStep::Fail(VirtioError::DeviceError)
            }
            &&& step is Succeed || step is Fail ==> n.phase is Ended
            &&& rt.phase is Ended ==> step is Fail
        }),
{
}

/// A wait is waited out in slices, each twice the one before and a second at most, that
/// add up to its time.
pub proof fn law_wait_adds_up(w: BlockWait)
    requires
        w.wf(),
    ensures
        w.waited(true).0 is Done,
        w.waited_ms == w.total_ms ==> w.waited(false).0 is TimedOut,
        w.waited_ms < w.total_ms ==> {
            let (step, n) = w.waited(false);
            let left = w.total_ms - w.waited_ms;
            &&& step == WaitStep::Sleep(
                if w.slice_ms <= left {
                    w.slice_ms
                } else {
                    left as u64
                },
            )
            &&& n.waited_ms == w.waited_ms + step->Sleep_0
            &&& n.total_ms == w.total_ms
            &&& n.slice_ms == if w.slice_ms > 500 {
                1000
            } else {
                w.slice_ms * 2
            }
        },
        BlockWait::of(w.total_ms) == (BlockWait {
            total_ms: w.total_ms,
            waited_ms: 0,
            slice_ms: 1,
        }),
{
}

/// A submission that finds the queue full is tried again within its budget, and no other.
pub proof fn law_full_queue_is_tried_again(budget: Budget, outcome: Result<u64, VirtioError>)
    requires
        budget.spent_ms < u64::MAX,
    ensures
        ({
            let (step, n) = judged(budget, outcome);
            let full = outcome == Err::<u64, VirtioError>(VirtioError::QueueFull);
            &&& step is Retry <==> full && budget.spent_ms < budget.total_ms
            &&& !(step is Retry) ==> step == SubmitStep::Done(outcome)
            &&& n.spent_ms == if full {
                budget.spent_ms + 1
            } else {
                budget.spent_ms as int
            }
            &&& n.total_ms == budget.total_ms
        }),
{
}

/// A round trip that came back is judged by the first word of its response; a map
/// request is granted with the mode in its response.
pub proof fn law_response_decides(done: Result<(), VirtioError>, resp: Seq<u8>)
    requires
        resp.len() >= 32,
    ensures
        ({
            let word = resp[0] + 256 * resp[1] + 65536 * resp[2] + 16777216 * resp[3];
            let ok = 0x1100 <= word < 0x1200;
            &&& done matches Err(e) ==> verdict_of(done, resp) == Err::<(), VirtioError>(e)
                && map_verdict_of(done, resp) == Err::<u32, VirtioError>(e)
            &&& done is Ok && ok ==> verdict_of(done, resp) is Ok && map_verdict_of(done, resp)
                == Ok::<u32, VirtioError>((resp[24] % 16) as u32)
            &&& done is Ok && !ok ==> verdict_of(done, resp) == Err::<(), VirtioError>(
                VirtioError::DeviceError,
            ) && map_verdict_of(done, resp) == Err::<u32, VirtioError>(VirtioError::DeviceError)
        }),
{
    crate::promises::wire::law_caching_mode_is_a_nibble(resp);
}

/// A finished buffer is kept if it is 64 KiB at most and the pool has room, 128 buffers
/// and 2 MiB; else it is handed back. The smallest that holds the bytes is given out.
pub proof fn law_pool_keeps_small_buffers(q: QueueState, b: DmaBuffer, len: usize, i: int, j: int)
    requires
        q.wf(),
        b.wf(),
    ensures
        ({
            let (t, left) = q.recycled(seq![b], 0);
            let fits = b.pages * 4096 <= 65536 && q.dma_pool.len() < 128 && q.dma_pool_bytes
                + b.pages * 4096 <= 2097152;
            &&& fits ==> left.len() == 0 && t.dma_pool == q.dma_pool.push(b) && t.dma_pool_bytes
                == q.dma_pool_bytes + b.pages * 4096
            &&& !fits ==> left == seq![b] && t.dma_pool == q.dma_pool && t.pool.drops
                == q.pool.drops.wrapping_add(1)
        }),
        best_fit(q.dma_pool, len, i) && 0 <= j < q.dma_pool.len() && q.dma_pool[j].pages * 4096
            >= len ==> len <= q.dma_pool[i].pages * 4096 <= q.dma_pool[j].pages * 4096,
{
    let s = seq![b];
    assert(swap_removed(s, 0) =~= Seq::empty());
    reveal_with_fuel(QueueState::recycled, 3);
    if !q.takes(b) {
        let u = QueueState {
            pool: crate::counters::PoolCounters {
                drops: q.pool.drops.wrapping_add(1),
                ..q.pool
            },
            ..q
        };
        assert(u.recycled(s, 1).1 == s);
    }
}

/// What a submission is tied to is what it was queued for: nothing, a scan-out copy on
/// ring 1 with whom it tells, a windowed copy on ring 1 that was taken, or a value of a
/// stream on its own ring. A windowed copy that was not taken, and a tag that is not
/// honoured, put nothing in flight.
pub proof fn law_submission_is_tied_as_asked(
    g: GpuState,
    ring: u32,
    meta: DmaBuffer,
    venus: DmaBuffer,
    len: usize,
    notify: ScanoutNotify,
    adapter: u64,
    token: u64,
    boundary: u64,
    added: AddResult,
)
    requires
        g.wf(),
        g.fences.next_wire_fence < u64::MAX,
    ensures
        ({
            let next = g.fences.next_wire_fence;
            let goes = 0 < len <= venus.len && 56 <= meta.len && takes_another(g.queue, added);
            let named = if ring <= 255 {
                ring as u8
            } else {
                255
            };
            let taken = exists|i: int|
                0 <= i < g.blt.pending.len() && (#[trigger] g.blt.pending[i]).token == token
                    && g.blt.pending[i].stream_boundary == boundary && g.blt.pending[i].admitted
                    && g.blt.pending[i].dispatched;
            let plain = g.plain_submitted(ring, meta, venus, len, added);
            let shown = g.scanout_submitted(meta, venus, len, notify, added);
            let sent = g.scanout_copy_sent(meta, venus, len, notify, added);
            let present = g.present_copy_sent(meta, venus, len, added);
            let copy = g.copy_submitted(adapter, meta, venus, len, token, boundary, added);
            &&& plain.0 is Ok <==> goes
            &&& shown.0 is Ok <==> goes
            &&& sent.0 is Ok <==> goes
            &&& present.0 is Ok <==> goes
            &&& copy.0 is Ok <==> goes && taken
            &&& !taken ==> copy.0 == Err::<u64, VirtioError>(VirtioError::DeviceError) && copy.1
                == g
            &&& len == 0 ==> sent.0 == Err::<u64, VirtioError>(VirtioError::DeviceError)
                && present.0 == Err::<u64, VirtioError>(VirtioError::DeviceError)
            &&& goes ==> plain.1.queue.inflight.last().kind == (InFlightKind::AsyncVenus {
                fence_id: next,
                ring_idx: named,
                scanout_notify: None,
                present_stream: None,
                windowed_blt: None,
            })
            &&& goes ==> shown.1.queue.inflight.last().kind == (InFlightKind::AsyncVenus {
                fence_id: next,
                ring_idx: 1,
                scanout_notify: Some(notify),
                present_stream: None,
                windowed_blt: None,
            }) && sent.1 == shown.1
            &&& goes ==> present.1.queue.inflight.last().kind == (InFlightKind::AsyncVenus {
                fence_id: next,
                ring_idx: 1,
                scanout_notify: None,
                present_stream: None,
                windowed_blt: None,
            })
            &&& goes && taken ==> copy.1.queue.inflight.last().kind == (InFlightKind::AsyncVenus {
                fence_id: next,
                ring_idx: 1,
                scanout_notify: None,
                present_stream: None,
                windowed_blt: Some(
                    WindowedBltRetire { adapter, token, stream_boundary: boundary },
                ),
            })
        }),
{
    law_submission_is_queued_as_asked(g, ring, meta, venus, len, None, None, None, added);
    law_submission_is_queued_as_asked(g, 1, meta, venus, len, Some(notify), None, None, added);
    law_submission_is_queued_as_asked(g, 1, meta, venus, len, None, None, None, added);
    law_submission_is_queued_as_asked(
        g,
        1,
        meta,
        venus,
        len,
        None,
        None,
        Some(WindowedBltRetire { adapter, token, stream_boundary: boundary }),
        added,
    );
    crate::promises::copies::law_submittable_copy_was_taken(g.blt, token, boundary);
}

/// A tagged submission is queued exactly when its tag is honoured and the queue takes it:
/// it carries the value of its stream on the ring it names, and its stream moves to that
/// value. Otherwise nothing is in flight and no fence is used up.
pub proof fn law_tagged_submission_carries_its_value(
    g: GpuState,
    owner: crate::owner::DeviceOwner,
    ctx_id: u32,
    ring: u32,
    cookie: u64,
    value: u32,
    meta: DmaBuffer,
    venus: DmaBuffer,
    len: usize,
    added: AddResult,
)
    requires
        g.wf(),
        g.fences.next_wire_fence < u64::MAX,
    ensures
        ({
            let (r, t, _) = g.tagged_submitted(
                owner,
                ctx_id,
                ring,
                cookie,
                value,
                meta,
                venus,
                len,
                added,
            );
            let goes = 0 < len <= venus.len && 56 <= meta.len && takes_another(g.queue, added);
            let next = |k: int|
                0 <= k < 64 && g.streams.slots[k].live && g.streams.slots[k].owner == Some(owner)
                    && g.streams.slots[k].ctx_id == ctx_id && g.streams.slots[k].cookie == cookie
                    && (g.streams.slots[k].ring_idx == 0 || g.streams.slots[k].ring_idx == ring)
                    && value > g.streams.slots[k].submitted_value;
            &&& r is Ok <==> goes && ctx_id != 0 && cookie != 0 && 0 < ring <= 255 && exists|k: int|
                #[trigger] next(k)
            &&& r is Ok ==> exists|k: int| #[trigger]
                next(k) && t.queue.inflight.last().kind == (InFlightKind::AsyncVenus {
                    fence_id: g.fences.next_wire_fence,
                    ring_idx: ring as u8,
                    scanout_notify: None,
                    present_stream: Some(
                        PresentStreamRetire {
                            handle: (g.streams.slots[k].generation * 64 + k) as u32,
                            value,
                        },
                    ),
                    windowed_blt: None,
                }) && t.streams.slots[k].submitted_value == value && t.streams.slots[k].ring_idx
                    == ring && t.streams.slots[k].live
            &&& r is Err && !t.queue.failed ==> t.queue.inflight == g.queue.inflight
                && t.fences.next_wire_fence == g.fences.next_wire_fence && t.streams.slots
                == g.streams.slots
        }),
{
    let next = |k: int|
        0 <= k < 64 && g.streams.slots[k].live && g.streams.slots[k].owner == Some(owner)
            && g.streams.slots[k].ctx_id == ctx_id && g.streams.slots[k].cookie == cookie && (
        g.streams.slots[k].ring_idx == 0 || g.streams.slots[k].ring_idx == ring) && value
            > g.streams.slots[k].submitted_value;
    crate::promises::stream_life::law_tag_advances_its_own_stream(
        g,
        owner,
        ctx_id,
        ring,
        cookie,
        value,
    );
    lemma_latched_is_failed(g);
    let p = crate::streams::PresentStreamSlot::named(owner, ctx_id, cookie);
    lemma_first_index_exists(g.streams.slots, p);
    if exists|k: int| #[trigger] next(k) {
        let k = choose|k: int| #[trigger] next(k);
        assert(p(g.streams.slots[k]));
    }
    if let Ok(x) = g.tag_checked(owner, ctx_id, ring, cookie, value) {
        law_submission_is_queued_as_asked(g, ring, meta, venus, len, None, Some(x), None, added);
        let i = first_index(g.streams.slots, p)->0;
        assert(p(g.streams.slots[i]));
        assert(g.streams.slots[i].wf());
        assert(next(i));
        crate::promises::stream_life::law_queued_tag_moves_its_stream(g.streams, x, ring);
    }
}

/// What a plan hands to the device queue is what is queued, and what is handed over
/// again when the answer is popped: a plan succeeds exactly where the command is queued
/// if the queue takes it, and its spans are those of the command in flight.
pub proof fn law_plan_is_what_is_queued(
    g: GpuState,
    meta: DmaBuffer,
    in0_len: usize,
    in1_len: usize,
    resp_len: usize,
    waiter: u64,
    bind: Option<(u32, Option<ScanoutBindRequest>)>,
    seq: u64,
    cells: ControlCells,
    flush: Option<ScanoutFlushToken>,
    token: u16,
)
    requires
        g.wf(),
        meta.wf(),
        forall|i: int|
            0 <= i < g.queue.inflight.len() ==> (#[trigger] g.queue.inflight[i]).token != token,
    ensures
        ({
            let planned = g.sync_planned(meta, in0_len, in1_len, resp_len, bind);
            let (r, t, _) = g.sync_enqueued(
                meta,
                in0_len,
                in1_len,
                resp_len,
                waiter,
                bind,
                seq,
                AddResult::Token(token),
            );
            &&& planned is Ok <==> r is Ok
            &&& planned matches Err(e) ==> r == Err::<u16, VirtioError>(e)
            &&& planned matches Ok(x) ==> t.queue.spans_in_flight(token) == Some(x)
                && x.first.offset == 0 && x.first.len == in0_len && x.first.pa == meta.pa
                && x.resp.offset == in0_len + in1_len && x.resp.len == resp_len && x.resp.pa
                == meta.pa
        }),
        ({
            let planned = g.control_planned(meta, in0_len, resp_len, flush);
            let (r, t, _) = g.control_enqueued(
                meta,
                in0_len,
                resp_len,
                cells,
                flush,
                AddResult::Token(token),
            );
            &&& planned is Ok <==> r is Ok
            &&& planned matches Err(e) ==> r == Err::<u16, VirtioError>(e)
            &&& planned matches Ok(x) ==> t.queue.spans_in_flight(token) == Some(x)
                && x.first.offset == 0 && x.first.len == in0_len && x.first.pa == meta.pa
                && x.resp.offset == in0_len && x.resp.len == resp_len && x.resp.pa == meta.pa
        }),
{
    let (r, t, _) = g.sync_enqueued(
        meta,
        in0_len,
        in1_len,
        resp_len,
        waiter,
        bind,
        seq,
        AddResult::Token(token),
    );
    if r is Ok {
        lemma_last_token(g.queue, t.queue, token);
    }
    let (r2, t2, _) = g.control_enqueued(
        meta,
        in0_len,
        resp_len,
        cells,
        flush,
        AddResult::Token(token),
    );
    if r2 is Ok {
        lemma_last_token(g.queue, t2.queue, token);
    }
}

/// The same of a submission: its header and its stream are what is queued.
pub proof fn law_submission_plan_is_what_is_queued(
    g: GpuState,
    ring: u32,
    meta: DmaBuffer,
    venus: DmaBuffer,
    venus_len: usize,
    notify: Option<ScanoutNotify>,
    stream: Option<PresentStreamRetire>,
    blt: Option<WindowedBltRetire>,
    token: u16,
)
    requires
        g.wf(),
        g.fences.next_wire_fence < u64::MAX,
        forall|i: int|
            0 <= i < g.queue.inflight.len() ==> (#[trigger] g.queue.inflight[i]).token != token,
    ensures
        ({
            let planned = g.submit_gate(meta, venus, venus_len);
            let (r, t, _) = g.submit_enqueued(
                ring,
                meta,
                venus,
                venus_len,
                notify,
                stream,
                blt,
                AddResult::Token(token),
            );
            &&& planned is Ok <==> r is Ok
            &&& planned matches Err(e) ==> r == Err::<u64, VirtioError>(e)
            &&& planned matches Ok(x) ==> t.queue.spans_in_flight(token) == Some(x) && x.count == 2
                && x.first.pa == meta.pa && x.first.offset == 0 && x.first.len == 32 && x.second.pa
                == venus.pa && x.second.offset == 0 && x.second.len == venus_len && x.resp.pa
                == meta.pa && x.resp.offset == 32 && x.resp.len == 24
        }),
{
    let (r, t, _) = g.submit_enqueued(
        ring,
        meta,
        venus,
        venus_len,
        notify,
        stream,
        blt,
        AddResult::Token(token),
    );
    if r is Ok {
        lemma_last_token(g.queue, t.queue, token);
    }
}

proof fn lemma_last_token(q: QueueState, t: QueueState, token: u16)
    requires
        t.inflight.len() == q.inflight.len() + 1,
        t.inflight.last().token == token,
        forall|i: int| 0 <= i < q.inflight.len() ==> t.inflight[i] == q.inflight[i],
        forall|i: int| 0 <= i < q.inflight.len() ==> (#[trigger] q.inflight[i]).token != token,
    ensures
        first_index(t.inflight, InFlight::tokened(token)) == Some(t.inflight.len() - 1),
{
    let p = InFlight::tokened(token);
    assert forall|i: int| 0 <= i < t.inflight.len() - 1 implies !p(#[trigger] t.inflight[i]) by {
        assert(t.inflight[i] == q.inflight[i]);
    }
    lemma_first_index(t.inflight, p, t.inflight.len() - 1);
}

} // verus!
