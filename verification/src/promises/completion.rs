//! When the scheduler is told that a submission is done.
use crate::gpu::GpuState;
use crate::inflight::{RetireDomain, WireBoundary};
use crate::promises::copies::{is_given_up, law_given_up_completion_owes_nothing};
use crate::promises::{is_done, law_boundary_is_met_when_done, law_live_boundary_names_a_stream,
    law_same_stream_is_same_handle, law_wire_wait_is_about_its_fences, names_a_stream, none_below,
    none_decoding_below, not_in_flight, of_one_stream};
use crate::seqs::some;
use crate::wddm::{Taken, WddmPending, MAX_WDDM_PENDING};
use crate::windowed_blt::{BltState, WindowedBltPending, WindowedBltTerminalPrefix};
use vstd::prelude::*;

verus! {

/// The fences that a new submission has to wait for are out of flight. A paging
/// buffer waits for none. One that names an issued fence waits for it alone, or for
/// it and all before it; one that names any other waits for all. One that waits for a
/// stream leaves its order to the stream, where that is switched on. Any other waits
/// for all that was sent before it: until the GPU has run it, or, where that is
/// switched off, until the host has decoded it.
pub open spec fn wire_is_done(
    g: GpuState,
    paging: bool,
    gpu_fence: Option<u64>,
    stream_boundary: Option<u64>,
    d3d12: bool,
) -> bool {
    let next = g.fences.next_wire_fence;
    let streamed = stream_boundary matches Some(b) && names_a_stream(g.streams, b);
    if paging {
        true
    } else {
        match gpu_fence {
            Some(f) => if f != 0 && g.fences.wire_fence_base <= f < next {
                if d3d12 {
                    not_in_flight(g.queue.inflight, f)
                } else {
                    none_below(g.queue.inflight, f + 1)
                }
            } else {
                none_below(g.queue.inflight, next as int)
            },
            None => if streamed {
                g.wddm.present_exact_watermark || none_below(g.queue.inflight, next as int)
            } else if g.wddm.dma_gpu_fence {
                none_below(g.queue.inflight, next as int)
            } else {
                none_decoding_below(g.queue.inflight, next as int)
            },
        }
    }
}

/// A submission is reported done at once only if nothing is pending before it and all
/// that it depends on is done: its fences, the value of its stream, and no hold is
/// asked for. One that names no copies is reported exactly then.
pub proof fn law_done_at_once_is_earned(
    g: GpuState,
    fence: u32,
    paging: bool,
    gpu_fence: Option<u64>,
    stream_boundary: Option<u64>,
    blt_token: Option<u64>,
    d3d12: bool,
    now: u64,
)
    requires
        g.streams.wf(),
        !g.queue.failed,
        g.wddm.pending.len() < MAX_WDDM_PENDING,
    ensures
        ({
            let due = g.submission_noted(
                fence,
                paging,
                gpu_fence,
                stream_boundary,
                blt_token,
                d3d12,
                now,
            ).0;
            let earned = {
                &&& g.wddm.pending.len() == 0
                &&& wire_is_done(g, paging, gpu_fence, stream_boundary, d3d12)
                &&& stream_boundary matches Some(b) ==> names_a_stream(g.streams, b) ==> is_done(
                    g,
                    b,
                )
                &&& !(d3d12 && g.wddm.hold_ms > 0)
            };
            &&& due ==> earned
            &&& blt_token is None ==> (earned ==> due)
        }),
{
    let next = g.fences.next_wire_fence;
    law_wire_wait_is_about_its_fences(g.queue.inflight, next);
    law_wire_wait_is_about_its_fences(g.queue.inflight, 0);
    if let Some(b) = stream_boundary {
        law_live_boundary_names_a_stream(g.streams, b);
        law_boundary_is_met_when_done(g, b);
    }
    if let Some(f) = gpu_fence {
        law_wire_wait_is_about_its_fences(g.queue.inflight, f);
        if f < u64::MAX {
            law_wire_wait_is_about_its_fences(g.queue.inflight, (f + 1) as u64);
        }
    }
    let (p, h, _) = g.submission_of(
        fence,
        paging,
        gpu_fence,
        stream_boundary,
        blt_token,
        d3d12,
        now,
    );
    assert(h.queue == g.queue && h.streams == g.streams && h.fences == g.fences);
    if let Some(b) = stream_boundary {
        assert(h.boundary_ready(b) == g.boundary_ready(b));
    }
}

/// A submission that is not reported at once is queued behind all others, and its
/// entry holds what it depends on.
pub proof fn law_queued_submission_keeps_its_dependencies(
    g: GpuState,
    fence: u32,
    paging: bool,
    gpu_fence: Option<u64>,
    stream_boundary: Option<u64>,
    blt_token: Option<u64>,
    d3d12: bool,
    now: u64,
)
    requires
        g.wf(),
        !g.submission_noted(
            fence,
            paging,
            gpu_fence,
            stream_boundary,
            blt_token,
            d3d12,
            now,
        ).0,
    ensures
        ({
            let h = g.submission_noted(
                fence,
                paging,
                gpu_fence,
                stream_boundary,
                blt_token,
                d3d12,
                now,
            ).1;
            let p = h.wddm.pending.last();
            let next = g.fences.next_wire_fence;
            let streamed = stream_boundary matches Some(b) && names_a_stream(g.streams, b);
            &&& h.wddm.pending.len() == g.wddm.pending.len() + 1
            &&& h.wddm.pending.drop_last() == g.wddm.pending
            &&& p.fence == fence
            &&& !p.rebased
            &&& p.head_deadline_100ns == 0
            &&& p.stream_boundary == if streamed {
                stream_boundary
            } else {
                None
            }
            &&& p.ordinary_watermark == if paging {
                0
            } else {
                next
            }
            &&& p.hold_until_100ns == if d3d12 && g.wddm.hold_ms > 0 {
                now.saturating_add((g.wddm.hold_ms * 10000) as u64)
            } else {
                0
            }
            &&& paging ==> p.watermark == 0 && p.wire_boundary == WireBoundary::Prefix
            &&& !paging && gpu_fence is None ==> {
                &&& p.wire_boundary == WireBoundary::Prefix
                &&& p.watermark == if streamed && g.wddm.present_exact_watermark {
                    0
                } else {
                    next
                }
                &&& p.domain == if streamed || g.wddm.dma_gpu_fence {
                    RetireDomain::IncludingGpu
                } else {
                    RetireDomain::DecodeOnly
                }
            }
            &&& !paging ==> (gpu_fence matches Some(f) ==> {
                let issued = f != 0 && g.fences.wire_fence_base <= f < next;
                &&& p.domain == RetireDomain::IncludingGpu
                &&& issued && d3d12 ==> p.wire_boundary == WireBoundary::Exact && p.watermark == f
                &&& !(issued && d3d12) ==> p.wire_boundary == WireBoundary::Prefix
                &&& issued && !d3d12 ==> p.watermark == f + 1
                &&& !issued ==> p.watermark == next
            })
            &&& p.blt_token is Some <==> p.blt_stream_boundary is Some
            &&& p.blt_token is Some ==> p.blt_token == blt_token && p.blt_stream_boundary
                == stream_boundary
            &&& h.queue == g.queue
            &&& h.fences == g.fences
            &&& h.streams == g.streams
        }),
{
    let h = g.submission_noted(
        fence,
        paging,
        gpu_fence,
        stream_boundary,
        blt_token,
        d3d12,
        now,
    ).1;
    if let Some(b) = stream_boundary {
        law_live_boundary_names_a_stream(g.streams, b);
    }
    assert(h.wddm.pending.drop_last() =~= g.wddm.pending);
}

/// A submission that names copies which are reserved or ended, and which no other
/// pending one names, waits for them if its stream is registered; a submission never
/// shares its copies with another.
pub proof fn law_copies_have_one_completion(
    g: GpuState,
    fence: u32,
    paging: bool,
    gpu_fence: Option<u64>,
    boundary: u64,
    token: u64,
    d3d12: bool,
    now: u64,
)
    requires
        g.wf(),
        !g.queue.failed,
        g.wddm.pending.len() < MAX_WDDM_PENDING,
    ensures
        ({
            let (due, h, _) = g.submission_noted(
                fence,
                paging,
                gpu_fence,
                Some(boundary),
                Some(token),
                d3d12,
                now,
            );
            let known = (exists|i: int|
                0 <= i < g.blt.pending.len() && (#[trigger] g.blt.pending[i]).token == token
                    && g.blt.pending[i].stream_boundary == boundary) || g.blt.terminal.contains(
                (token, boundary),
            );
            let claimed = exists|j: int|
                0 <= j < g.wddm.pending.len() && ((#[trigger] g.wddm.pending[j]).blt_token matches
                    Some(t) && g.wddm.pending[j].blt_stream_boundary matches Some(b) && token <= t
                    && of_one_stream(b, boundary));
            &&& token != 0 && names_a_stream(g.streams, boundary) && known && !claimed ==> !due
                && h.wddm.pending.last().blt_token == Some(token)
            &&& !due && h.wddm.pending.last().blt_token is Some ==> known && !claimed
        }),
{
    law_live_boundary_names_a_stream(g.streams, boundary);
    let named = WindowedBltPending::named(token, boundary);
    let end = crate::windowed_blt::is_end(token, boundary);
    let owns = WddmPending::owns(token, boundary);
    if exists|i: int|
        0 <= i < g.blt.pending.len() && (#[trigger] g.blt.pending[i]).token == token
            && g.blt.pending[i].stream_boundary == boundary {
        let i = choose|i: int|
            0 <= i < g.blt.pending.len() && (#[trigger] g.blt.pending[i]).token == token
                && g.blt.pending[i].stream_boundary == boundary;
        assert(named(g.blt.pending[i]));
    }
    if some(g.blt.pending, named) {
        let i = choose|i: int| 0 <= i < g.blt.pending.len() && named(#[trigger] g.blt.pending[i]);
        assert(g.blt.pending[i].token == token);
    }
    if g.blt.terminal.contains((token, boundary)) {
        let i = choose|i: int|
            0 <= i < g.blt.terminal.len() && g.blt.terminal[i] == (token, boundary);
        assert(end(g.blt.terminal[i]));
    }
    if some(g.blt.terminal, end) {
        let i = choose|i: int| 0 <= i < g.blt.terminal.len() && end(#[trigger] g.blt.terminal[i]);
        assert(g.blt.terminal[i] == (token, boundary));
    }
    assert forall|j: int| 0 <= j < g.wddm.pending.len() implies (owns(
        #[trigger] g.wddm.pending[j],
    ) <==> (g.wddm.pending[j].blt_token matches Some(t)
        && g.wddm.pending[j].blt_stream_boundary matches Some(b) && token <= t && of_one_stream(
        b,
        boundary,
    ))) by {
        assert(g.wddm.pending[j].wf());
        if let Some(b) = g.wddm.pending[j].blt_stream_boundary {
            law_same_stream_is_same_handle(b, boundary);
        }
    }
}

/// The copies of a submission are done: the end of the last one is there, and none of
/// the stream's copies up to it still owes one.
pub open spec fn copies_done(blt: BltState, token: u64, boundary: u64) -> bool {
    &&& blt.terminal.contains((token, boundary))
    &&& forall|i: int|
        0 <= i < blt.pending.len() && (#[trigger] blt.pending[i]).token <= token && of_one_stream(
            blt.pending[i].stream_boundary,
            boundary,
        ) ==> !blt.pending[i].wddm_completion_required
}

/// Everything that a pending submission waits for is done.
pub open spec fn nothing_holds(g: GpuState, p: WddmPending, now: u64) -> bool {
    &&& fences_done(g, p)
    &&& p.stream_boundary matches Some(b) ==> is_done(g, b)
    &&& match (p.blt_token, p.blt_stream_boundary) {
        (Some(t), Some(b)) => copies_done(g.blt, t, b),
        _ => true,
    }
    &&& now >= p.hold_until_100ns
}

pub open spec fn fences_done(g: GpuState, p: WddmPending) -> bool {
    match (p.wire_boundary, p.domain) {
        (WireBoundary::Exact, _) => not_in_flight(g.queue.inflight, p.watermark),
        (_, RetireDomain::IncludingGpu) => none_below(g.queue.inflight, p.watermark as int),
        (_, RetireDomain::DecodeOnly) => none_decoding_below(
            g.queue.inflight,
            p.watermark as int,
        ),
    }
}

/// The copies of a submission are ready exactly when they are done.
pub proof fn law_prefix_is_ready_when_done(blt: BltState, token: u64, boundary: u64)
    requires
        token != 0,
        boundary >= 0x8000_0000_0000_0000,
    ensures
        WindowedBltTerminalPrefix::of(token, boundary) matches Some(x) && (blt.prefix_ready(x)
            <==> copies_done(blt, token, boundary)),
{
    let x = WindowedBltTerminalPrefix::of(token, boundary)->0;
    let end = crate::windowed_blt::is_end(token, boundary);
    let owed = WindowedBltPending::owed_in(x);
    if blt.terminal.contains((token, boundary)) {
        let i = choose|i: int| 0 <= i < blt.terminal.len() && blt.terminal[i] == (token, boundary);
        assert(end(blt.terminal[i]));
    }
    if some(blt.terminal, end) {
        let i = choose|i: int| 0 <= i < blt.terminal.len() && end(#[trigger] blt.terminal[i]);
        assert(blt.terminal[i] == (token, boundary));
    }
    assert forall|i: int| 0 <= i < blt.pending.len() implies (owed(#[trigger] blt.pending[i])
        <==> blt.pending[i].token <= token && of_one_stream(
        blt.pending[i].stream_boundary,
        boundary,
    ) && blt.pending[i].wddm_completion_required) by {
        law_same_stream_is_same_handle(boundary, blt.pending[i].stream_boundary);
    }
    if !copies_done(blt, token, boundary) && blt.terminal.contains((token, boundary)) {
        let i = choose|i: int|
            0 <= i < blt.pending.len() && (#[trigger] blt.pending[i]).token <= token
                && of_one_stream(blt.pending[i].stream_boundary, boundary)
                && blt.pending[i].wddm_completion_required;
        assert(owed(blt.pending[i]));
    }
}

proof fn lemma_nothing_blocks(g: GpuState, p: WddmPending, now: u64)
    requires
        g.streams.wf(),
        p.wf(),
    ensures
        nothing_holds(g, p, now) <==> g.block_of(p, now) is Nothing,
        fences_done(g, p) <==> !(g.block_of(p, now) is Wire),
{
    law_wire_wait_is_about_its_fences(g.queue.inflight, p.watermark);
    if let Some(b) = p.stream_boundary {
        law_boundary_is_met_when_done(g, b);
    }
    if let (Some(t), Some(b)) = (p.blt_token, p.blt_stream_boundary) {
        law_prefix_is_ready_when_done(g.blt, t, b);
    }
}

/// The scheduler is told of a submission exactly when it is the oldest and all that it
/// waits for is done. Only a bound on its wait, where one is set and has expired, lets
/// it go without its stream and its copies: then everything sent so far, on every
/// ring, is done instead. Nothing behind it moves.
pub proof fn law_taken_head_has_nothing_to_wait_for(g: GpuState, now: u64)
    requires
        g.wf(),
        g.wddm.pending.len() > 0,
    ensures
        ({
            let head = g.wddm.pending[0];
            let (taken, t, _) = g.head_taken(now);
            let late = g.wddm.head_ms > 0 && !head.rebased && 0 < head.head_deadline_100ns <= now
                && fences_done(g, head) && none_below(
                g.queue.inflight,
                g.fences.next_wire_fence as int,
            ) && now >= head.hold_until_100ns;
            &&& !(taken is Empty)
            &&& taken is Ready <==> nothing_holds(g, head, now) || late
            &&& taken matches Taken::Ready(p) ==> {
                &&& p.fence == head.fence
                &&& nothing_holds(g, head, now) ==> p == head && t.blt == g.blt
                &&& t.wddm.pending == g.wddm.pending.skip(1)
            }
            &&& taken is Blocked ==> t.wddm.pending.len() == g.wddm.pending.len()
                && t.wddm.pending.skip(1) == g.wddm.pending.skip(1) && t.wddm.pending[0].fence
                == head.fence
            &&& t.queue == g.queue
            &&& t.fences == g.fences
            &&& t.streams == g.streams
        }),
{
    let head = g.wddm.pending[0];
    assert(head.wf());
    lemma_nothing_blocks(g, head, now);
    let block = g.block_of(head, now);
    let (taken0, g1) = g.head_settled(block);
    let (rebased, h, _) = g1.head_rebased(now);
    let (taken, t, _) = g.head_taken(now);
    law_wire_wait_is_about_its_fences(g.queue.inflight, g.fences.next_wire_fence);
    if (block is Stream || block is Blt) && rebased {
        let q = h.wddm.pending[0];
        assert(q.wf());
        lemma_nothing_blocks(h, q, now);
    }
    assert(g.wddm.pending.remove(0) =~= g.wddm.pending.skip(1));
    if taken is Ready {
        assert(t.wddm.pending =~= g.wddm.pending.skip(1));
    } else {
        assert(t.wddm.pending.skip(1) =~= g.wddm.pending.skip(1));
    }
}

/// The bound on a head's wait is armed when it is first found waiting for its stream
/// or its copies with its fences done, for the configured time; no sooner, and no head
/// that waits for its fences is ever late.
pub proof fn law_bound_is_armed_by_the_first_look(g: GpuState, now: u64)
    requires
        g.wf(),
        g.wddm.pending.len() > 0,
        !nothing_holds(g, g.wddm.pending[0], now),
        g.wddm.pending[0].head_deadline_100ns == 0,
    ensures
        ({
            let head = g.wddm.pending[0];
            let (taken, t, _) = g.head_taken(now);
            let waits = fences_done(g, head) && (!(head.stream_boundary matches Some(b) ==> is_done(
                g,
                b,
            )) || !(match (head.blt_token, head.blt_stream_boundary) {
                (Some(x), Some(b)) => copies_done(g.blt, x, b),
                _ => true,
            }));
            &&& taken is Blocked
            &&& t.wddm.pending[0] == if waits && g.wddm.head_ms > 0 && !head.rebased {
                WddmPending {
                    head_deadline_100ns: now.saturating_add((g.wddm.head_ms * 10000) as u64),
                    ..head
                }
            } else {
                head
            }
            &&& t.blt == g.blt
        }),
{
    let head = g.wddm.pending[0];
    assert(head.wf());
    lemma_nothing_blocks(g, head, now);
    if let Some(b) = head.stream_boundary {
        law_boundary_is_met_when_done(g, b);
    }
    if let (Some(t), Some(b)) = (head.blt_token, head.blt_stream_boundary) {
        law_prefix_is_ready_when_done(g.blt, t, b);
    }
}

impl GpuState {
    /// Every pending submission with this completion fence waits until the GPU has run
    /// all wire fences below `watermark`.
    pub open spec fn waits_for_gpu(self, fence: u32, watermark: u64) -> bool {
        forall|k: int|
            0 <= k < self.wddm.pending.len() && (#[trigger] self.wddm.pending[k]).fence == fence
                ==> self.wddm.pending[k].waits_below(watermark) && self.wddm.pending[k].domain
                == RetireDomain::IncludingGpu
    }
}

/// Where the GPU counts, an ordinary submission that names no fence and no stream is
/// reported done, at once or whenever it is taken later, only when no submission that
/// was sent before it is in flight, on any ring. `later` is any state that the
/// transport went on to.
pub proof fn law_ordinary_completion_waits_for_the_gpu(
    g: GpuState,
    fence: u32,
    blt_token: Option<u64>,
    d3d12: bool,
    noted_at: u64,
    later: GpuState,
    now: u64,
)
    requires
        g.wf(),
        !g.queue.failed,
        g.wddm.dma_gpu_fence,
        g.wddm.pending.len() < MAX_WDDM_PENDING,
        forall|k: int|
            0 <= k < g.wddm.pending.len() ==> (#[trigger] g.wddm.pending[k]).fence != fence,
        later.wf(),
        later.goes_on(
            g.submission_noted(fence, false, None, None, blt_token, d3d12, noted_at).1,
        ),
    ensures
        g.submission_noted(fence, false, None, None, blt_token, d3d12, noted_at).0 ==> none_below(
            g.queue.inflight,
            g.fences.next_wire_fence as int,
        ),
        later.head_taken(now).0 matches Taken::Ready(p) ==> p.fence == fence ==> none_below(
            later.queue.inflight,
            g.fences.next_wire_fence as int,
        ),
{
    let (due, t, _) = g.submission_noted(fence, false, None, None, blt_token, d3d12, noted_at);
    let w = g.fences.next_wire_fence;
    law_done_at_once_is_earned(g, fence, false, None, None, blt_token, d3d12, noted_at);
    if !due {
        law_queued_submission_keeps_its_dependencies(
            g,
            fence,
            false,
            None,
            None,
            blt_token,
            d3d12,
            noted_at,
        );
    }
    assert forall|k: int|
        0 <= k < t.wddm.pending.len() && (#[trigger] t.wddm.pending[k]).fence == fence implies
        t.wddm.pending[k].waits_below(w) && t.wddm.pending[k].domain
        == RetireDomain::IncludingGpu by {
        if !due && k < g.wddm.pending.len() {
            assert(t.wddm.pending[k] == t.wddm.pending.drop_last()[k]);
        }
    }
    law_gpu_wait_is_kept(t, later, fence, w);
    if let Taken::Ready(p) = later.head_taken(now).0 {
        if p.fence == fence {
            assert(later.wddm.pending.len() > 0);
            law_taken_head_has_nothing_to_wait_for(later, now);
            let head = later.wddm.pending[0];
            assert(head.waits_below(w) && head.domain == RetireDomain::IncludingGpu);
            assert(none_below(later.queue.inflight, head.watermark as int));
        }
    }
}

/// A submission that waits for the GPU goes on to, whatever the transport does next.
pub proof fn law_gpu_wait_is_kept(a: GpuState, b: GpuState, fence: u32, watermark: u64)
    requires
        a.waits_for_gpu(fence, watermark),
        b.order_follows(a),
    ensures
        b.waits_for_gpu(fence, watermark),
{
    assert forall|k: int|
        0 <= k < b.wddm.pending.len() && (#[trigger] b.wddm.pending[k]).fence == fence implies
        b.wddm.pending[k].waits_below(watermark) && b.wddm.pending[k].domain
        == RetireDomain::IncludingGpu by {
        let p = b.wddm.pending[k];
        if b.wddm.pending != a.wddm.pending {
            assert(p.descends(a.wddm.pending));
            let j = choose|j: int|
                0 <= j < a.wddm.pending.len() && p.follows(#[trigger] a.wddm.pending[j]);
            assert(a.wddm.pending[j].fence == fence);
        }
    }
}

/// A failed transport, and a queue that is full, report a new submission at once and
/// leave none pending: the newest fence stands for all.
pub proof fn law_pointless_waits_end(
    g: GpuState,
    fence: u32,
    paging: bool,
    gpu_fence: Option<u64>,
    stream_boundary: Option<u64>,
    blt_token: Option<u64>,
    d3d12: bool,
    now: u64,
)
    requires
        g.queue.failed || g.wddm.pending.len() >= MAX_WDDM_PENDING,
    ensures
        ({
            let (due, t, _) = g.submission_noted(
                fence,
                paging,
                gpu_fence,
                stream_boundary,
                blt_token,
                d3d12,
                now,
            );
            &&& due
            &&& t.wddm.pending.len() == 0
            &&& g.queue.failed ==> t.blt.terminal.len() == 0 && t.wddm.counters.signal_after_failure
                == g.wddm.counters.signal_after_failure.wrapping_add(1)
            &&& !g.queue.failed ==> t.wddm.counters.pending_overflows
                == g.wddm.counters.pending_overflows.wrapping_add(1)
        }),
{
}

/// A submission that was taken and is put back is the oldest again, and what was behind
/// it still is; so the next look takes it, if nothing holds it then.
pub proof fn law_put_back_submission_is_next(g: GpuState, p: WddmPending)
    ensures
        ({
            let t = g.requeued(p);
            &&& t.wddm.pending.len() == g.wddm.pending.len() + 1
            &&& t.wddm.pending[0] == p
            &&& t.wddm.pending.skip(1) == g.wddm.pending
            &&& t.queue == g.queue && t.fences == g.fences && t.streams == g.streams && t.blt
                == g.blt
        }),
{
    assert(g.requeued(p).wddm.pending.skip(1) =~= g.wddm.pending);
}

/// A preemption leaves no submission pending: each will come anew. Copies that were sent
/// stay sent, the others wait to be admitted anew, and no end is lost.
pub proof fn law_preemption_leaves_nothing_pending(g: GpuState)
    ensures
        ({
            let t = g.scheduler_preempted();
            &&& t.wddm.pending.len() == 0
            &&& t.blt.ready.len() == 0
            &&& t.blt.terminal == g.blt.terminal
            &&& t.blt.pending.len() == g.blt.pending.len()
            &&& forall|i: int|
                0 <= i < g.blt.pending.len() ==> #[trigger] t.blt.pending[i]
                    == if g.blt.pending[i].dispatched {
                    g.blt.pending[i]
                } else {
                    WindowedBltPending { admitted: false, ..g.blt.pending[i] }
                }
            &&& t.queue == g.queue && t.fences == g.fences && t.streams == g.streams
        }),
{
}

/// A head that goes on without its copies gives them up: none that was not sent stays,
/// and none that was owes it an end. It gives them up only when its bound has expired.
pub proof fn law_late_head_gives_up_its_copies(g: GpuState, now: u64, token: u64, boundary: u64)
    requires
        g.wf(),
        g.wddm.pending.len() > 0,
        g.wddm.pending[0].blt_token == Some(token),
        g.wddm.pending[0].blt_stream_boundary == Some(boundary),
    ensures
        ({
            let head = g.wddm.pending[0];
            let (taken, t, _) = g.head_taken(now);
            let late = g.wddm.head_ms > 0 && !head.rebased && 0 < head.head_deadline_100ns <= now
                && fences_done(g, head) && !nothing_holds(g, head, now) && !((
            head.stream_boundary matches Some(b) ==> is_done(g, b)) && copies_done(
                g.blt,
                token,
                boundary,
            ));
            &&& late ==> is_given_up(t.blt, token, boundary)
            &&& !late ==> t.blt == g.blt
        }),
{
    let head = g.wddm.pending[0];
    assert(head.wf());
    lemma_nothing_blocks(g, head, now);
    if let Some(b) = head.stream_boundary {
        law_boundary_is_met_when_done(g, b);
    }
    law_prefix_is_ready_when_done(g.blt, token, boundary);
    law_given_up_completion_owes_nothing(g.blt, token, boundary);
    let x = WindowedBltTerminalPrefix { max_token: token, max_boundary: boundary };
    let u = g.blt.abandoned(x).0;
    assert forall|k: int| 0 <= k < u.terminal.len() implies !(of_one_stream(
        (#[trigger] u.terminal[k]).1,
        boundary,
    ) && u.terminal[k].0 <= token) by {
        assert(u.terminal.contains(u.terminal[k]));
    }
}

} // verus!
