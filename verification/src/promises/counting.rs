//! What the counters count.
use crate::counters::{FenceCounters, QueueCounters, StreamCounters, TableCounters, WddmCounters};
use crate::enqueue::AddResult;
use crate::fences::FenceState;
use crate::gpu::GpuState;
use crate::hal::DmaBuffer;
use crate::inflight::{ControlCells, InFlight, PresentStreamRetire, ScanoutFlushToken,
    ScanoutNotify, WindowedBltRetire};
use crate::owner::DeviceOwner;
use crate::present_stream::index_of;
use crate::promises::commands::{law_event_is_answered_by_the_fence,
    law_wait_is_answered_by_the_fence};
use crate::queue::QueueState;
use crate::seqs::first_index;
use crate::streams::{PresentStreamSlot, StreamState};
use crate::tables::{BlobSlot, TablesState};
use crate::wddm::HeadBlock;
use vstd::prelude::*;

verus! {

/// A counter after a step that it counts, or does not.
pub open spec fn stepped(before: u32, counts: bool) -> u32 {
    if counts {
        before.wrapping_add(1)
    } else {
        before
    }
}

/// A high-water mark after its table was seen with `n` entries.
pub open spec fn risen(mark: u32, n: int) -> int {
    if mark < n {
        n
    } else {
        mark as int
    }
}

/// A wait counts as registered exactly if it was, and an id counts as foreign exactly if
/// it was handed out before this instance's first one, while the transport works.
/// Nothing else is counted.
pub proof fn law_fence_waits_are_counted(g: GpuState, fence: u64, block: u64)
    ensures
        ({
            let (r, f) = g.fence_awaited(fence, block);
            let foreign = !g.queue.failed && 0 < fence < g.fences.wire_fence_base && fence
                < g.fences.next_wire_fence;
            f.counters == FenceCounters {
                wait_registered: stepped(g.fences.counters.wait_registered, r is Registered),
                foreign_generation: stepped(g.fences.counters.foreign_generation, foreign),
                ..g.fences.counters
            }
        }),
{
    law_wait_is_answered_by_the_fence(g, fence, block);
}

/// Each answer to an event registration has a counter of its own, and a registration
/// raises the high-water mark to the number of events.
pub proof fn law_fence_events_are_counted(g: GpuState, fence: u64, event: u64)
    requires
        g.fences.events.len() <= 256,
    ensures
        ({
            let (r, f) = g.event_attached(fence, event);
            let c = g.fences.counters;
            let foreign = !g.queue.failed && 0 < fence < g.fences.wire_fence_base && fence
                < g.fences.next_wire_fence;
            &&& f.counters == FenceCounters {
                event_registers: stepped(c.event_registers, r is Registered),
                event_already_complete: stepped(c.event_already_complete, r is AlreadyComplete),
                event_dup_rejects: stepped(c.event_dup_rejects, r is Duplicate),
                event_overflows: stepped(c.event_overflows, r is TableFull),
                foreign_generation: stepped(c.foreign_generation, foreign),
                event_high_water: f.counters.event_high_water,
                ..c
            }
            &&& f.counters.event_high_water == if r is Registered {
                risen(c.event_high_water, f.events.len() as int)
            } else {
                c.event_high_water as int
            }
        }),
{
    law_event_is_answered_by_the_fence(g, fence, event);
}

/// An event that is taken back counts as cancelled, one that was not there does not.
pub proof fn law_cancelled_events_are_counted(f: FenceState, fence: u64, event: u64)
    ensures
        f.event_left(fence, event).1.counters == (FenceCounters {
            event_cancels: stepped(f.counters.event_cancels, f.event_left(fence, event).0),
            ..f.counters
        }),
{
}

/// A stream that is registered counts as live and as registered; a refusal counts as
/// one, and changes no other counter.
pub proof fn law_registrations_are_counted(
    g: GpuState,
    owner: DeviceOwner,
    ctx_id: u32,
    process: usize,
)
    requires
        g.streams.counters.live < u32::MAX,
    ensures
        ({
            let (r, t) = g.stream_registered(owner, ctx_id, process);
            let c = g.streams.counters;
            let d = t.counters;
            &&& d == StreamCounters {
                registers: stepped(c.registers, r is Ok),
                live: stepped(c.live, r is Ok),
                rejects: stepped(c.rejects, r is Err),
                high_water: d.high_water,
                ..c
            }
            &&& d.high_water == if r is Ok {
                risen(c.high_water, d.live as int)
            } else {
                c.high_water as int
            }
        }),
{
}

/// A marker counts as one or as refused. One whose value was not submitted yet counts as
/// ahead, and the mark is the largest distance.
pub proof fn law_markers_are_counted(
    s: StreamState,
    ctx_id: u32,
    value: u32,
    cookie: u64,
    process: usize,
    k: int,
)
    requires
        s.wf(),
        0 <= k < s.slots.len(),
        s.slots[k].live && s.slots[k].cookie == cookie,
    ensures
        ({
            let (r, t) = s.marker_answer(ctx_id, value, cookie, process);
            let c = s.counters;
            let d = t.counters;
            let ahead = r is Some && value > s.slots[k].submitted_value;
            &&& t.slots == s.slots
            &&& d == StreamCounters {
                markers: stepped(c.markers, r is Some),
                rejects: stepped(c.rejects, r is None),
                marker_ahead: stepped(c.marker_ahead, ahead),
                marker_ahead_high_water: d.marker_ahead_high_water,
                ..c
            }
            &&& d.marker_ahead_high_water == if ahead {
                risen(c.marker_ahead_high_water, value - s.slots[k].submitted_value)
            } else {
                c.marker_ahead_high_water as int
            }
        }),
{
    let p = PresentStreamSlot::marked(ctx_id, cookie, process);
    if let Some(i) = first_index(s.slots, p) {
        assert(p(s.slots[i]));
        if i != k {
            assert(s.slots[i].cookie == s.slots[k].cookie);
        }
    }
}

/// A tag that advances its stream counts as one, any other as refused.
pub proof fn law_tags_are_counted(s: StreamState, retire: PresentStreamRetire, ring: u32)
    requires
        s.wf(),
    ensures
        ({
            let t = s.tag_committed(retire, ring);
            let advanced = exists|i: int|
                0 <= i < s.slots.len() && s.slots[i].submitted_value < (
                #[trigger] t.slots[i]).submitted_value;
            &&& t.counters == StreamCounters {
                tags: stepped(s.counters.tags, advanced),
                rejects: stepped(s.counters.rejects, !advanced),
                ..s.counters
            }
            &&& !advanced ==> t.slots == s.slots
        }),
{
    let t = s.tag_committed(retire, ring);
    if t.slots != s.slots {
        let i = index_of(retire.handle)->0;
        assert(s.slots[i].submitted_value < t.slots[i].submitted_value);
    }
}

/// A head that is taken counts as delivered from the queue, one that is held back counts
/// under what held it back.
pub proof fn law_looks_at_the_head_are_counted(g: GpuState, block: HeadBlock)
    ensures
        ({
            let c = g.wddm.counters;
            g.head_settled(block).1.wddm.counters == (WddmCounters {
                head_blocked_wire: stepped(c.head_blocked_wire, block is Wire),
                head_blocked_stream: stepped(c.head_blocked_stream, block is Stream),
                head_blocked_blt: stepped(c.head_blocked_blt, block is Blt),
                head_blocked_hold: stepped(c.head_blocked_hold, block is Hold),
                fence_from_dpc: stepped(c.fence_from_dpc, block is Nothing),
                ..c
            })
        }),
{
}

/// A named fence that was never handed out counts as clamped, one from before this
/// instance as foreign, and one that is waited for alone as exact. A submission without
/// one counts where its stream stands for the wire.
pub proof fn law_choices_of_a_bound_are_counted(
    g: GpuState,
    paging: bool,
    gpu_fence: Option<u64>,
    stream: Option<u64>,
    exact: bool,
)
    ensures
        ({
            let c = g.wddm.counters;
            let named = !paging && gpu_fence is Some;
            let id = gpu_fence->0;
            let unknown = id == 0 || id >= g.fences.next_wire_fence;
            let foreign = !unknown && id < g.fences.wire_fence_base;
            let (_, _, after) = g.wire_choice(paging, gpu_fence, stream, exact);
            after == WddmCounters {
                fence_clamped: stepped(c.fence_clamped, named && unknown),
                fence_foreign_generation: stepped(c.fence_foreign_generation, named && foreign),
                d3d12_exact_used: stepped(
                    c.d3d12_exact_used,
                    named && !unknown && !foreign && exact,
                ),
                present_exact_used: stepped(
                    c.present_exact_used,
                    !paging && gpu_fence is None && stream is Some
                        && g.wddm.present_exact_watermark,
                ),
                ..c
            }
        }),
{
}

/// A tracked resource or blob raises its table's high-water mark to the table's length,
/// and counts under nothing else.
pub proof fn law_tracked_entries_are_counted(t: TablesState, id: u32, slot: BlobSlot)
    requires
        t.resources.len() < 0xffff_ffff,
        t.blobs.len() < 0xffff_ffff,
    ensures
        ({
            let u = t.resource_committed(id);
            &&& u.counters == TableCounters {
                resource_high_water: u.counters.resource_high_water,
                ..t.counters
            }
            &&& u.counters.resource_high_water == risen(
                t.counters.resource_high_water,
                u.resources.len() as int,
            )
        }),
        ({
            let u = t.blob_committed(slot);
            &&& u.counters == TableCounters {
                blob_high_water: u.counters.blob_high_water,
                ..t.counters
            }
            &&& u.counters.blob_high_water == risen(
                t.counters.blob_high_water,
                u.blobs.len() as int,
            )
        }),
{
}

/// A table that is full, a reserve that comes too late and an adoption of a dead resource
/// each count under a counter of their own.
pub proof fn law_refusals_are_counted(t: TablesState, id: u32, len: u64)
    ensures
        t.context_refused() == (TablesState {
            counters: TableCounters {
                context_full_drops: stepped(t.counters.context_full_drops, true),
                ..t.counters
            },
            ..t
        }),
        t.resource_refused() == (TablesState {
            counters: TableCounters {
                resource_full_rejects: stepped(t.counters.resource_full_rejects, true),
                ..t.counters
            },
            ..t
        }),
        t.blob_refused() == (TablesState {
            counters: TableCounters {
                blob_full_rejects: stepped(t.counters.blob_full_rejects, true),
                ..t.counters
            },
            ..t
        }),
        t.window_reserved(len).1.counters == (TableCounters {
            window_reconfig_refused: stepped(
                t.counters.window_reconfig_refused,
                !t.window_reserved(len).0,
            ),
            ..t.counters
        }),
        t.adopted(id).1.counters == (TableCounters {
            adopt_dead_rejects: stepped(
                t.counters.adopt_dead_rejects,
                !t.resources.contains(id),
            ),
            ..t.counters
        }),
{
}

/// A submission that was queued counts as one, and as one of a ring unless its ring is 0;
/// the high-water mark is the number of commands in flight.
pub proof fn law_submissions_are_counted(
    g: GpuState,
    ring: u32,
    meta: DmaBuffer,
    venus: DmaBuffer,
    venus_len: usize,
    notify: Option<ScanoutNotify>,
    stream: Option<PresentStreamRetire>,
    blt: Option<WindowedBltRetire>,
    added: AddResult,
)
    requires
        g.queue.inflight.len() <= 64,
    ensures
        ({
            let (r, t, _) = g.submit_enqueued(
                ring,
                meta,
                venus,
                venus_len,
                notify,
                stream,
                blt,
                added,
            );
            let c = g.queue.counters;
            let d = t.queue.counters;
            r is Ok ==> d == (QueueCounters {
                async_submits: stepped(c.async_submits, true),
                ring_submits: stepped(c.ring_submits, ring != 0),
                inflight_high_water: d.inflight_high_water,
                ..c
            }) && d.inflight_high_water == risen(
                c.inflight_high_water,
                t.queue.inflight.len() as int,
            )
        }),
{
}

/// A control command without a waiter that was queued counts as one.
pub proof fn law_control_commands_are_counted(
    g: GpuState,
    meta: DmaBuffer,
    in0_len: usize,
    resp_len: usize,
    cells: ControlCells,
    flush: Option<ScanoutFlushToken>,
    added: AddResult,
)
    requires
        g.queue.inflight.len() <= 64,
    ensures
        ({
            let (r, t, _) = g.control_enqueued(meta, in0_len, resp_len, cells, flush, added);
            let c = g.queue.counters;
            let d = t.queue.counters;
            r is Ok ==> d == (QueueCounters {
                async_ctrl: stepped(c.async_ctrl, true),
                inflight_high_water: d.inflight_high_water,
                ..c
            }) && d.inflight_high_water == risen(
                c.inflight_high_water,
                t.queue.inflight.len() as int,
            )
        }),
{
}

/// A submission's end counts as one, as one of a ring unless its ring is 0, and as an
/// error where the host refused it.
pub proof fn law_ends_of_submissions_are_counted(g: GpuState, ring: u8, ok: bool)
    ensures
        g.venus_counted(ring, ok) == (GpuState {
            queue: QueueState {
                counters: QueueCounters {
                    async_completes: stepped(g.queue.counters.async_completes, true),
                    ring_completes: stepped(g.queue.counters.ring_completes, ring != 0),
                    async_resp_errors: stepped(g.queue.counters.async_resp_errors, !ok),
                    ..g.queue.counters
                },
                ..g.queue
            },
            ..g
        }),
{
}

/// A command that the device is done with waits for its reaping, 256 at most. One more
/// is lost and counts as such.
pub proof fn law_finished_commands_are_counted(q: QueueState, e: InFlight)
    ensures
        ({
            let t = q.with_parked(e);
            let room = q.parked.len() < 256;
            let c = q.counters;
            &&& t.parked == if room {
                q.parked.push(e)
            } else {
                q.parked
            }
            &&& t.inflight == q.inflight
            &&& t.counters == QueueCounters {
                parked_leaks: stepped(c.parked_leaks, !room),
                parked_high_water: t.counters.parked_high_water,
                ..c
            }
            &&& t.counters.parked_high_water == if room {
                risen(c.parked_high_water, t.parked.len() as int)
            } else {
                c.parked_high_water as int
            }
        }),
{
}

} // verus!
