//! What holds from one state of the transport to every later one.
//!
//! Every operation on a running transport states that its result follows the
//! state before it. The laws here draw out what that means over many operations:
//! fences are issued in rising order and retire for good, a stream's values rise
//! while it lives, a queued submission never waits for less than it did, and the
//! retirement of a resource keeps SETs back until it ends.
use crate::enqueue::AddResult;
use crate::fast_bind::{other_resource, FastBindState};
use crate::fences::{FenceWaitPrep, FenceWaiter};
use crate::gpu::{distinct_fences, GpuState};
use crate::inflight::{retired_up_to, InFlight, RetireDomain, WireBoundary};
use crate::scanout::ScanoutBindRequest;
use crate::seqs::{some, swap_removed};
use crate::streams::{PresentStreamSlot, StreamState};
use crate::wddm::{Taken, WddmPending, WddmState};
use vstd::prelude::*;

verus! {

impl PresentStreamSlot {
    /// The slot after `before`: its generation never falls, and as long as it is
    /// the same registration, its values never fall either.
    pub open spec fn follows(self, before: PresentStreamSlot) -> bool {
        &&& self.generation >= before.generation
        &&& self.generation == before.generation && self.live ==> {
            &&& before.live
            &&& self.owner == before.owner
            &&& self.ctx_id == before.ctx_id
            &&& self.cookie == before.cookie
            &&& self.submitted_value >= before.submitted_value
            &&& self.retired_value >= before.retired_value
        }
    }
}

impl StreamState {
    /// The table after `before`: each slot follows what it was, and a stream that
    /// was registered since has a new capability.
    pub open spec fn follows(self, before: StreamState) -> bool {
        &&& self.slots.len() == before.slots.len()
        &&& self.next_cookie >= before.next_cookie
        &&& forall|i: int|
            0 <= i < self.slots.len() ==> (#[trigger] self.slots[i]).follows(before.slots[i]) && (
            self.slots[i].live && self.slots[i].generation != before.slots[i].generation
                ==> self.slots[i].cookie >= before.next_cookie)
    }
}

impl WddmPending {
    /// The submission is `before` at a later time. It still stands for the same
    /// fence, and waits on the wire for no less than it did. Its watermark changes
    /// only when it gives up its stream, because it was rebased or because the
    /// stream died, and rises then.
    pub open spec fn follows(self, before: WddmPending) -> bool {
        &&& self.fence == before.fence
        &&& self.ordinary_watermark == before.ordinary_watermark
        &&& self.hold_until_100ns == before.hold_until_100ns
        &&& self.watermark >= before.watermark
        &&& self.wire_boundary == before.wire_boundary || self.wire_boundary
            == WireBoundary::Prefix && self.watermark > before.watermark
        &&& self.domain == before.domain || self.domain == RetireDomain::IncludingGpu
        &&& self.stream_boundary == before.stream_boundary || self.stream_boundary is None
        &&& before.rebased ==> self.rebased
        &&& self.watermark != before.watermark ==> !before.rebased && (self.rebased || (
        before.watermark == 0 && before.stream_boundary is Some && self.stream_boundary is None
            && self.watermark == self.ordinary_watermark))
    }

    /// The submission is one of `earlier` at a later time.
    pub open spec fn descends(self, earlier: Seq<WddmPending>) -> bool {
        exists|j: int| 0 <= j < earlier.len() && self.follows(#[trigger] earlier[j])
    }
}

impl GpuState {
    /// Fences are issued in rising order, none comes back once it has retired, and
    /// a failed transport stays failed.
    pub open spec fn fences_follow(self, before: GpuState) -> bool {
        &&& self.fences.wire_fence_base == before.fences.wire_fence_base
        &&& self.fences.next_wire_fence >= before.fences.next_wire_fence
        &&& before.queue.failed ==> self.queue.failed
        &&& self.queue.inflight == before.queue.inflight || forall|i: int|
            0 <= i < self.queue.inflight.len() ==> ((#[trigger] self.queue.inflight[i]).fence() matches
                Some(f) ==> f >= before.fences.next_wire_fence || some(
                before.queue.inflight,
                InFlight::fences(f),
            ))
    }

    /// A waiter leaves only when its fence has retired or the transport has failed,
    /// unless it is the one that gives up.
    pub open spec fn waiters_follow(self, before: GpuState, given_up: Option<u64>) -> bool {
        forall|w: FenceWaiter| #[trigger]
            before.fences.waiters.contains(w) ==> self.fences.waiters.contains(w)
                || self.queue.failed || !some(self.queue.inflight, InFlight::fences(w.fence_id))
                || given_up == Some(w.block)
    }

    /// Every pending submission was pending before, and waits for no less.
    pub open spec fn order_follows(self, before: GpuState) -> bool {
        self.wddm.pending == before.wddm.pending || forall|k: int|
            0 <= k < self.wddm.pending.len() ==> (#[trigger] self.wddm.pending[k]).descends(
                before.wddm.pending,
            )
    }

    /// What every operation on a running transport does.
    pub open spec fn advances(self, before: GpuState) -> bool {
        self.fences_follow(before) && self.streams.follows(before.streams)
    }

    /// While a resource is retired, no SET is put off, none is claimed by the worker,
    /// and none without a waiter goes out, unless the transport fails.
    pub open spec fn keeps_barrier(self, before: GpuState) -> bool {
        before.fast.retire_barrier && !self.queue.failed ==> {
            &&& self.fast.retire_barrier
            &&& before.fast.deferred_earliest is None && before.fast.deferred_latest is None
                ==> self.fast.deferred_earliest is None && self.fast.deferred_latest is None
            &&& self.fast.deferred_worker is None || self.fast.deferred_worker
                == before.fast.deferred_worker
            &&& self.fast.sync_worker_owned is None || self.fast.sync_worker_owned
                == before.fast.sync_worker_owned
            &&& self.queue.inflight == before.queue.inflight || forall|i: int|
                0 <= i < self.queue.inflight.len() && (
                #[trigger] self.queue.inflight[i]).kind is AsyncScanoutBind
                    ==> before.queue.inflight.contains(self.queue.inflight[i])
        }
    }

    /// What every operation does, except that a submission may be queued or put
    /// back, and that a waiter may give up.
    pub open spec fn goes_on(self, before: GpuState) -> bool {
        &&& self.advances(before)
        &&& self.waiters_follow(before, None)
        &&& self.order_follows(before)
    }

    /// The same, where the retirement of a resource does not end either.
    pub open spec fn follows(self, before: GpuState) -> bool {
        self.goes_on(before) && self.keeps_barrier(before)
    }
}

/// What follows a state is followed only by what follows that state too.
pub proof fn law_follows_is_transitive(a: GpuState, b: GpuState, c: GpuState)
    requires
        a.fences_wf(),
        b.follows(a),
        c.follows(b),
    ensures
        c.follows(a),
{
    law_goes_on_is_transitive(a, b, c);
    law_keeps_barrier_is_transitive(a, b, c);
}

/// What a state goes on to goes on to no state but those that it goes on to itself.
pub proof fn law_goes_on_is_transitive(a: GpuState, b: GpuState, c: GpuState)
    requires
        a.fences_wf(),
        b.goes_on(a),
        c.goes_on(b),
    ensures
        c.goes_on(a),
{
    law_advances_is_transitive(a, b, c);
    lemma_waiters_follow(a, b, c, None);
    lemma_order_follows(a, b, c);
}

/// A retirement that goes on from one state to the next goes on over both.
pub proof fn law_keeps_barrier_is_transitive(a: GpuState, b: GpuState, c: GpuState)
    requires
        b.keeps_barrier(a),
        c.keeps_barrier(b),
        b.queue.failed ==> c.queue.failed,
    ensures
        c.keeps_barrier(a),
{
    if a.fast.retire_barrier && !c.queue.failed {
        assert forall|i: int|
            0 <= i < c.queue.inflight.len() && (
            #[trigger] c.queue.inflight[i]).kind is AsyncScanoutBind implies
            a.queue.inflight.contains(c.queue.inflight[i]) by {
            let e = c.queue.inflight[i];
            assert(b.queue.inflight.contains(e));
            let j = choose|j: int| 0 <= j < b.queue.inflight.len() && b.queue.inflight[j] == e;
            assert(a.queue.inflight.contains(b.queue.inflight[j]));
        }
    }
}

/// What every operation does, any number of them do.
pub proof fn law_advances_is_transitive(a: GpuState, b: GpuState, c: GpuState)
    requires
        b.advances(a),
        c.advances(b),
    ensures
        c.advances(a),
{
    assert forall|i: int| 0 <= i < c.queue.inflight.len() implies ((
    #[trigger] c.queue.inflight[i]).fence() matches Some(f) ==> f >= a.fences.next_wire_fence
        || some(a.queue.inflight, InFlight::fences(f))) by {
        if let Some(f) = c.queue.inflight[i].fence() {
            assert(InFlight::fences(f)(c.queue.inflight[i]));
            if some(b.queue.inflight, InFlight::fences(f)) {
                let j = choose|j: int|
                    0 <= j < b.queue.inflight.len() && InFlight::fences(f)(
                        #[trigger] b.queue.inflight[j],
                    );
                assert(b.queue.inflight[j].fence() == Some(f));
                assert(some(a.queue.inflight, InFlight::fences(f)) || f
                    >= a.fences.next_wire_fence);
            }
        }
    }
    assert forall|i: int| 0 <= i < c.streams.slots.len() implies (
    #[trigger] c.streams.slots[i]).follows(a.streams.slots[i]) && (c.streams.slots[i].live
        && c.streams.slots[i].generation != a.streams.slots[i].generation
        ==> c.streams.slots[i].cookie >= a.streams.next_cookie) by {
        assert(b.streams.slots[i].follows(a.streams.slots[i]));
    }
}

/// A fence that was issued and is not in flight stays out of flight.
pub(crate) proof fn lemma_stays_retired(a: GpuState, b: GpuState, f: u64)
    requires
        f < a.fences.next_wire_fence,
        !some(a.queue.inflight, InFlight::fences(f)),
        b.fences_follow(a),
    ensures
        !some(b.queue.inflight, InFlight::fences(f)),
{
    if some(b.queue.inflight, InFlight::fences(f)) {
        let j = choose|j: int|
            0 <= j < b.queue.inflight.len() && InFlight::fences(f)(#[trigger] b.queue.inflight[j]);
        assert(b.queue.inflight[j].fence() == Some(f));
    }
}

pub(crate) proof fn lemma_waiters_follow(
    a: GpuState,
    b: GpuState,
    c: GpuState,
    given_up: Option<u64>,
)
    requires
        a.fences_wf(),
        b.advances(a),
        c.advances(b),
        b.waiters_follow(a, given_up),
        c.waiters_follow(b, given_up),
    ensures
        c.waiters_follow(a, given_up),
{
    assert forall|w: FenceWaiter| #[trigger]
        a.fences.waiters.contains(w) implies c.fences.waiters.contains(w) || c.queue.failed
        || !some(c.queue.inflight, InFlight::fences(w.fence_id)) || given_up == Some(w.block) by {
        let k = choose|k: int| 0 <= k < a.fences.waiters.len() && a.fences.waiters[k] == w;
        assert(some(a.queue.inflight, InFlight::fences(a.fences.waiters[k].fence_id)));
        let j = choose|j: int|
            0 <= j < a.queue.inflight.len() && InFlight::fences(w.fence_id)(
                #[trigger] a.queue.inflight[j],
            );
        assert(a.queue.inflight[j].fence() == Some(w.fence_id));
        if !b.fences.waiters.contains(w) && !b.queue.failed && given_up != Some(w.block) {
            lemma_stays_retired(b, c, w.fence_id);
        }
    }
}

pub(crate) proof fn lemma_order_follows(a: GpuState, b: GpuState, c: GpuState)
    requires
        b.order_follows(a),
        c.order_follows(b),
    ensures
        c.order_follows(a),
{
    assert forall|k: int| 0 <= k < c.wddm.pending.len() implies (
    #[trigger] c.wddm.pending[k]).descends(a.wddm.pending) by {
        let p = c.wddm.pending[k];
        let m = if c.wddm.pending == b.wddm.pending {
            k
        } else {
            choose|m: int| 0 <= m < b.wddm.pending.len() && p.follows(#[trigger] b.wddm.pending[m])
        };
        let q = b.wddm.pending[m];
        assert(p.follows(q));
        let j = if b.wddm.pending == a.wddm.pending {
            m
        } else {
            choose|j: int| 0 <= j < a.wddm.pending.len() && q.follows(#[trigger] a.wddm.pending[j])
        };
        assert(q.follows(a.wddm.pending[j]));
        assert(p.follows(a.wddm.pending[j]));
    }
}

/// A pending submission that goes on leaves the rest as it is.
pub(crate) proof fn lemma_updated_order(g: GpuState, h: GpuState, i: int, p: WddmPending)
    requires
        g.fences_wf(),
        0 <= i < g.wddm.pending.len(),
        h.wddm.pending == g.wddm.pending.update(i, p),
        p.follows(g.wddm.pending[i]),
        g.waits_within(p),
        h.queue == g.queue,
        h.fences == g.fences,
        h.streams == g.streams,
        h.fast == g.fast,
    ensures
        h.fences_wf(),
        h.follows(g),
{
    assert forall|k: int| 0 <= k < h.wddm.pending.len() implies (
    #[trigger] h.wddm.pending[k]).descends(g.wddm.pending) && h.waits_within(
        h.wddm.pending[k],
    ) by {
        assert(h.wddm.pending[k].follows(g.wddm.pending[k]));
        assert(g.waits_within(g.wddm.pending[k]));
    }
}

/// A stream that dies is followed by a free slot of the same generation.
pub(crate) proof fn lemma_purged_follows(
    s: StreamState,
    p: spec_fn(PresentStreamSlot) -> bool,
    n: nat,
)
    requires
        n <= s.slots.len(),
    ensures
        s.purged(p, n).follows(s),
    decreases n,
{
    if n > 0 {
        lemma_purged_follows(s, p, (n - 1) as nat);
        let t = s.purged(p, (n - 1) as nat);
        let u = s.purged(p, n);
        assert forall|i: int| 0 <= i < u.slots.len() implies (#[trigger] u.slots[i]).follows(
            s.slots[i],
        ) by {
            assert(t.slots[i].follows(s.slots[i]));
        }
    }
}

/// A command that was queued keeps the fences consistent if its own is new.
pub(crate) proof fn lemma_published_fences(g: GpuState, h: GpuState, e: InFlight)
    requires
        g.fences_wf(),
        h.queue.inflight == g.queue.inflight.push(e),
        h.queue.failed == g.queue.failed,
        h.fences.waiters == g.fences.waiters,
        h.fences.events == g.fences.events,
        h.fences.wire_fence_base == g.fences.wire_fence_base,
        h.fences.next_wire_fence >= g.fences.next_wire_fence,
        h.wddm.pending == g.wddm.pending,
        e.fence() matches Some(f) ==> g.fences.next_wire_fence <= f < h.fences.next_wire_fence,
    ensures
        h.fences_wf(),
        h.fences_follow(g),
        h.waiters_follow(g, None),
{
    let n = g.queue.inflight.len() as int;
    assert forall|i: int| 0 <= i < h.queue.inflight.len() implies ((
    #[trigger] h.queue.inflight[i]).fence() matches Some(f) ==> h.fences.wire_fence_base <= f
        < h.fences.next_wire_fence && (f >= g.fences.next_wire_fence || some(
        g.queue.inflight,
        InFlight::fences(f),
    ))) by {
        if i < n {
            assert(h.queue.inflight[i] == g.queue.inflight[i]);
            if let Some(f) = g.queue.inflight[i].fence() {
                assert(InFlight::fences(f)(g.queue.inflight[i]));
            }
        }
    }
    assert forall|i: int, j: int| 0 <= i < j < h.queue.inflight.len() implies distinct_fences(
        #[trigger] h.queue.inflight[i],
        #[trigger] h.queue.inflight[j],
    ) by {
        assert(h.queue.inflight[i] == g.queue.inflight[i]);
        if j < n {
            assert(h.queue.inflight[j] == g.queue.inflight[j]);
        }
    }
    assert forall|f: u64| some(g.queue.inflight, #[trigger] InFlight::fences(f)) implies some(
        h.queue.inflight,
        InFlight::fences(f),
    ) by {
        lemma_pushed_some(g.queue.inflight, e, InFlight::fences(f));
    }
}

proof fn lemma_pushed_some<T>(s: Seq<T>, x: T, p: spec_fn(T) -> bool)
    requires
        some(s, p),
    ensures
        some(s.push(x), p),
{
    let i = choose|i: int| 0 <= i < s.len() && p(#[trigger] s[i]);
    assert(p(s.push(x)[i]));
}

/// Commands that change, but not in their fences, keep the fences consistent.
pub(crate) proof fn lemma_same_fences(g: GpuState, h: GpuState)
    requires
        g.fences_wf(),
        h.queue.inflight.len() == g.queue.inflight.len(),
        forall|i: int|
            0 <= i < g.queue.inflight.len() ==> (#[trigger] h.queue.inflight[i]).fence()
                == g.queue.inflight[i].fence(),
        h.queue.failed == g.queue.failed,
        h.fences == g.fences,
        h.wddm.pending == g.wddm.pending,
    ensures
        h.fences_wf(),
        h.fences_follow(g),
        h.waiters_follow(g, None),
{
    assert forall|f: u64| some(g.queue.inflight, #[trigger] InFlight::fences(f)) implies some(
        h.queue.inflight,
        InFlight::fences(f),
    ) by {
        let i = choose|i: int|
            0 <= i < g.queue.inflight.len() && InFlight::fences(f)(
                #[trigger] g.queue.inflight[i],
            );
        assert(h.queue.inflight[i].fence() == Some(f));
        assert(InFlight::fences(f)(h.queue.inflight[i]));
    }
    assert forall|i: int| 0 <= i < h.queue.inflight.len() implies ((
    #[trigger] h.queue.inflight[i]).fence() matches Some(f) ==> h.fences.wire_fence_base <= f
        < h.fences.next_wire_fence && (f >= g.fences.next_wire_fence || some(
        g.queue.inflight,
        InFlight::fences(f),
    ))) by {
        assert(g.queue.inflight[i].fence() == h.queue.inflight[i].fence());
        if let Some(f) = g.queue.inflight[i].fence() {
            assert(InFlight::fences(f)(g.queue.inflight[i]));
        }
    }
    assert forall|i: int, j: int| 0 <= i < j < h.queue.inflight.len() implies distinct_fences(
        #[trigger] h.queue.inflight[i],
        #[trigger] h.queue.inflight[j],
    ) by {
        assert(distinct_fences(g.queue.inflight[i], g.queue.inflight[j]));
    }
}

/// A command that is done leaves the fences consistent if nobody waits for its own
/// any more.
pub(crate) proof fn lemma_removed_fences(g: GpuState, h: GpuState, i: int)
    requires
        g.fences_wf(),
        0 <= i < g.queue.inflight.len(),
        h.queue.inflight == swap_removed(g.queue.inflight, i),
        h.queue.failed == g.queue.failed,
        h.fences.wire_fence_base == g.fences.wire_fence_base,
        h.fences.next_wire_fence == g.fences.next_wire_fence,
        h.wddm.pending == g.wddm.pending,
        forall|k: int|
            0 <= k < h.fences.waiters.len() ==> g.fences.waiters.contains(
                #[trigger] h.fences.waiters[k],
            ) && Some(h.fences.waiters[k].fence_id) != g.queue.inflight[i].fence(),
        forall|k: int|
            0 <= k < h.fences.events.len() ==> g.fences.events.contains(
                #[trigger] h.fences.events[k],
            ) && Some(h.fences.events[k].fence_id) != g.queue.inflight[i].fence(),
        forall|w: FenceWaiter| #[trigger]
            g.fences.waiters.contains(w) && Some(w.fence_id) != g.queue.inflight[i].fence()
                ==> h.fences.waiters.contains(w),
    ensures
        h.fences_wf(),
        h.fences_follow(g),
        h.waiters_follow(g, None),
        g.queue.inflight[i].fence() matches Some(f) ==> !some(
            h.queue.inflight,
            InFlight::fences(f),
        ),
{
    let s = g.queue.inflight;
    let t = h.queue.inflight;
    assert forall|k: int| 0 <= k < t.len() implies #[trigger] t[k] == s[if k == i {
        s.len() - 1
    } else {
        k
    }] by {}
    assert forall|f: u64| Some(f) != s[i].fence() && some(s, #[trigger] InFlight::fences(f)) implies some(
        t,
        InFlight::fences(f),
    ) by {
        let k = choose|k: int| 0 <= k < s.len() && InFlight::fences(f)(#[trigger] s[k]);
        assert(k != i);
        let dst = if k == s.len() - 1 {
            i
        } else {
            k
        };
        assert(InFlight::fences(f)(t[dst]));
    }
    assert forall|k: int| 0 <= k < t.len() implies ((#[trigger] t[k]).fence() matches Some(f)
        ==> h.fences.wire_fence_base <= f < h.fences.next_wire_fence && (f
        >= g.fences.next_wire_fence || some(s, InFlight::fences(f)))) by {
        let src = if k == i {
            s.len() - 1
        } else {
            k
        };
        assert(t[k] == s[src]);
        if let Some(f) = s[src].fence() {
            assert(InFlight::fences(f)(s[src]));
        }
    }
    assert forall|a: int, b: int| 0 <= a < b < t.len() implies distinct_fences(
        #[trigger] t[a],
        #[trigger] t[b],
    ) by {
        let x = if a == i {
            s.len() - 1
        } else {
            a
        };
        let y = if b == i {
            s.len() - 1
        } else {
            b
        };
        if x < y {
            assert(distinct_fences(s[x], s[y]));
        } else {
            assert(distinct_fences(s[y], s[x]));
        }
    }
    if let Some(f) = s[i].fence() {
        assert forall|k: int| 0 <= k < t.len() implies !InFlight::fences(f)(#[trigger] t[k]) by {
            let src = if k == i {
                s.len() - 1
            } else {
                k
            };
            assert(t[k] == s[src]);
            if src < i {
                assert(distinct_fences(s[src], s[i]));
            } else {
                assert(distinct_fences(s[i], s[src]));
            }
        }
    }
    assert forall|k: int| 0 <= k < h.fences.waiters.len() implies some(
        t,
        InFlight::fences((#[trigger] h.fences.waiters[k]).fence_id),
    ) by {
        let w = h.fences.waiters[k];
        let j = choose|j: int| 0 <= j < g.fences.waiters.len() && g.fences.waiters[j] == w;
        assert(some(s, InFlight::fences(g.fences.waiters[j].fence_id)));
    }
    assert forall|k: int| 0 <= k < h.fences.events.len() implies some(
        t,
        InFlight::fences((#[trigger] h.fences.events[k]).fence_id),
    ) by {
        let e = h.fences.events[k];
        let j = choose|j: int| 0 <= j < g.fences.events.len() && g.fences.events[j] == e;
        assert(some(s, InFlight::fences(g.fences.events[j].fence_id)));
    }
}

/// A fence that has retired stays so, whatever the transport does next: whoever
/// asks for it is told that it is complete, unless the transport has failed.
pub proof fn law_retired_fence_stays_complete(a: GpuState, b: GpuState, f: u64, block: u64)
    requires
        a.fences.wait_answer(a.queue.failed, a.queue.inflight, f, block).0
            == FenceWaitPrep::Complete,
        b.fences_follow(a),
    ensures
        b.fences.next_wire_fence >= a.fences.next_wire_fence,
        b.fences.wait_answer(b.queue.failed, b.queue.inflight, f, block).0 == if b.queue.failed {
            FenceWaitPrep::Invalid
        } else {
            FenceWaitPrep::Complete
        },
{
    lemma_stays_retired(a, b, f);
}

impl GpuState {
    /// Every pending submission with this completion fence waits for all wire
    /// fences below `watermark`.
    pub open spec fn waits_from(self, fence: u32, watermark: u64) -> bool {
        forall|k: int|
            0 <= k < self.wddm.pending.len() && (#[trigger] self.wddm.pending[k]).fence == fence
                ==> self.wddm.pending[k].waits_below(watermark)
    }
}

impl WddmPending {
    pub open spec fn waits_below(self, watermark: u64) -> bool {
        self.wire_boundary == WireBoundary::Prefix && self.watermark >= watermark
    }
}

/// What a queued submission waits for on the wire never shrinks, whatever the
/// transport does next.
pub proof fn law_wait_never_shrinks(a: GpuState, b: GpuState, fence: u32, watermark: u64)
    requires
        a.waits_from(fence, watermark),
        b.order_follows(a),
    ensures
        b.waits_from(fence, watermark),
{
    assert forall|k: int|
        0 <= k < b.wddm.pending.len() && (#[trigger] b.wddm.pending[k]).fence == fence implies
        b.wddm.pending[k].waits_below(watermark) by {
        let p = b.wddm.pending[k];
        if b.wddm.pending != a.wddm.pending {
            assert(p.descends(a.wddm.pending));
            let j = choose|j: int|
                0 <= j < a.wddm.pending.len() && p.follows(#[trigger] a.wddm.pending[j]);
            assert(a.wddm.pending[j].fence == fence);
        }
    }
}

/// A submission of another fence, and a submission that is put back as it was
/// taken, leave what a queued one waits for as it is.
pub proof fn law_others_leave_the_wait(
    g: GpuState,
    fence: u32,
    watermark: u64,
    other: u32,
    paging: bool,
    gpu_fence: Option<u64>,
    stream_boundary: Option<u64>,
    blt_token: Option<u64>,
    d3d12: bool,
    now: u64,
    back: WddmPending,
)
    requires
        g.waits_from(fence, watermark),
        other != fence,
        back.fence == fence ==> back.waits_below(watermark),
    ensures
        g.submission_noted(
            other,
            paging,
            gpu_fence,
            stream_boundary,
            blt_token,
            d3d12,
            now,
        ).1.waits_from(fence, watermark),
        (GpuState {
            wddm: WddmState { pending: g.wddm.pending.insert(0, back), ..g.wddm },
            ..g
        }).waits_from(fence, watermark),
{
    let put = g.wddm.pending.insert(0, back);
    assert forall|k: int| 0 <= k < put.len() && (#[trigger] put[k]).fence == fence implies
        put[k].waits_below(watermark) by {
        if k > 0 {
            assert(put[k] == g.wddm.pending[k - 1]);
        }
    }
    let noted = g.submission_noted(
        other,
        paging,
        gpu_fence,
        stream_boundary,
        blt_token,
        d3d12,
        now,
    ).1.wddm.pending;
    assert forall|k: int| 0 <= k < noted.len() && (#[trigger] noted[k]).fence == fence implies
        noted[k].waits_below(watermark) by {
        assert(noted[k] == g.wddm.pending[k]);
    }
}

/// An ordinary submission, which names no fence, stream or copy, is queued to wait
/// for every wire fence issued so far.
pub proof fn law_ordinary_submission_waits_for_all(g: GpuState, fence: u32, d3d12: bool, now: u64)
    requires
        !g.queue.failed,
        forall|k: int|
            0 <= k < g.wddm.pending.len() ==> (#[trigger] g.wddm.pending[k]).fence != fence,
    ensures
        g.submission_noted(fence, false, None, None, None, d3d12, now).1.waits_from(
            fence,
            g.fences.next_wire_fence,
        ),
{
    let noted = g.submission_noted(fence, false, None, None, None, d3d12, now).1.wddm.pending;
    assert forall|k: int| 0 <= k < noted.len() && (#[trigger] noted[k]).fence == fence implies
        noted[k].waits_below(g.fences.next_wire_fence) by {
        if k < g.wddm.pending.len() {
            assert(noted[k] == g.wddm.pending[k]);
        }
    }
}

/// A submission is handed out only once the wire fences that it waits for have
/// retired: all of them if it waits for the GPU, else those of the ring that is
/// done when it is decoded.
pub proof fn law_taken_submission_is_in_order(g: GpuState, now: u64, fence: u32, watermark: u64)
    requires
        g.wf(),
        g.waits_from(fence, watermark),
        watermark <= g.fences.next_wire_fence,
    ensures
        g.head_taken(now).0 matches Taken::Ready(p) ==> p.fence == fence ==> {
            &&& p.waits_below(watermark)
            &&& retired_up_to(g.queue.inflight, watermark, p.domain)
            &&& retired_up_to(g.queue.inflight, watermark, RetireDomain::DecodeOnly)
        },
        g.head_taken(now).1.waits_from(fence, watermark),
{
    let (taken, t, _) = g.head_taken(now);
    if let Taken::Ready(p) = taken {
        if p.fence == fence && g.wddm.pending.len() > 0 {
            assert(g.wddm.pending[0].fence == fence);
            assert(retired_up_to(g.queue.inflight, p.watermark, p.domain));
            assert forall|i: int| 0 <= i < g.queue.inflight.len() && p.watermark != 0 implies
                !InFlight::fences_below(watermark, p.domain)(#[trigger] g.queue.inflight[i])
                && !InFlight::fences_below(watermark, RetireDomain::DecodeOnly)(
                g.queue.inflight[i],
            ) by {
                assert(!InFlight::fences_below(p.watermark, p.domain)(g.queue.inflight[i]));
            }
        }
    }
    assert forall|k: int|
        0 <= k < t.wddm.pending.len() && (#[trigger] t.wddm.pending[k]).fence == fence implies
        t.wddm.pending[k].waits_below(watermark) by {
        if g.wddm.pending.len() > 0 {
            if taken is Ready {
                assert(t.wddm.pending[k] == g.wddm.pending[k + 1]);
            } else if k > 0 {
                assert(t.wddm.pending[k] == g.wddm.pending[k]);
            } else {
                assert(g.wddm.pending[0].fence == fence);
            }
        }
    }
}

/// Completions keep the order of the wire: `g` is the transport when an ordinary
/// submission was queued, and `later` any state it went on to. When the submission
/// is handed out, no command stream that was issued before it is still waiting to
/// be decoded.
pub proof fn law_completion_follows_the_wire(
    g: GpuState,
    fence: u32,
    d3d12: bool,
    noted_at: u64,
    later: GpuState,
    now: u64,
)
    requires
        !g.queue.failed,
        forall|k: int|
            0 <= k < g.wddm.pending.len() ==> (#[trigger] g.wddm.pending[k]).fence != fence,
        later.wf(),
        later.goes_on(g.submission_noted(fence, false, None, None, None, d3d12, noted_at).1),
    ensures
        later.head_taken(now).0 matches Taken::Ready(p) ==> p.fence == fence ==> retired_up_to(
            later.queue.inflight,
            g.fences.next_wire_fence,
            RetireDomain::DecodeOnly,
        ),
{
    let t = g.submission_noted(fence, false, None, None, None, d3d12, noted_at).1;
    law_ordinary_submission_waits_for_all(g, fence, d3d12, noted_at);
    law_wait_never_shrinks(t, later, fence, g.fences.next_wire_fence);
    law_taken_submission_is_in_order(later, now, fence, g.fences.next_wire_fence);
}

impl GpuState {
    /// The transport after the retirement of a resource has begun.
    pub open spec fn retire_begun(self, resource_id: u32) -> GpuState {
        GpuState {
            fast: FastBindState {
                retiring_resource: resource_id,
                retire_barrier: true,
                deferred_worker: other_resource(self.fast.deferred_worker, resource_id),
                sync_worker_owned: other_resource(self.fast.sync_worker_owned, resource_id),
                deferred_earliest: None,
                deferred_latest: None,
                fast_failure_wake: other_resource(self.fast.fast_failure_wake, resource_id),
                ..self.fast
            },
            ..self
        }
    }
}

/// From the beginning of a resource's retirement until its end, or until the
/// transport fails, no SET waits for its turn, neither the fast path nor the worker
/// has one of the resource to send, and no SET without a waiter is in flight but
/// those that were when it began. `later` is any state on the way. Who sends a SET
/// past these decisions, with `enqueue_scanout_bind_async`, leaves that way.
pub proof fn law_retirement_freezes_sets(
    g: GpuState,
    resource_id: u32,
    later: GpuState,
    i: int,
)
    requires
        later.keeps_barrier(g.retire_begun(resource_id)),
        !later.queue.failed,
    ensures
        later.fast.retire_barrier,
        later.fast.deferred_earliest is None,
        later.fast.deferred_latest is None,
        later.fast.deferred_worker matches Some(r) ==> r.resource_id != resource_id,
        later.fast.sync_worker_owned matches Some(r) ==> r.resource_id != resource_id,
        0 <= i < later.queue.inflight.len() && later.queue.inflight[i].kind is AsyncScanoutBind
            ==> g.queue.inflight.contains(later.queue.inflight[i]),
{
}

/// While a resource is retired, whatever asks for a SET is refused: a new one is
/// neither sent nor put off, one that waits is not due, a ready one is not sent, and
/// the worker is told to give its up.
pub proof fn law_retirement_refuses_sets(
    g: GpuState,
    request: ScanoutBindRequest,
    seq: u64,
    added: AddResult,
    reserve: bool,
)
    requires
        g.fast.retire_barrier,
    ensures
        g.stage_refusal(request) matches Some((d, _)) && (d is Handled || d is Superseded
            || d is Failed),
        !(g.ready_enqueued(request, seq, added).0 is Queued),
        g.ready_enqueued(request, seq, added).1.queue == g.queue,
        g.service_due().0 is Err,
        g.serviced(seq, added).1.queue == g.queue,
        g.worker_staged(request, reserve).0 is Abandoned,
{
}

} // verus!
