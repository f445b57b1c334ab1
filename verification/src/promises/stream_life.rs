//! Who may register, tag and wait for a present stream, and what ends with it.
use crate::error::VirtioError;
use crate::gpu::GpuState;
use crate::inflight::PresentStreamRetire;
use crate::owner::DeviceOwner;
use crate::promises::failure::lemma_settled_keeps_streams;
use crate::promises::{law_live_boundary_names_a_stream, names_a_stream, names_slot};
use crate::seqs::{first_index, lemma_first_index_exists, some};
use crate::streams::{PresentStreamSlot, StreamState};
use crate::tables::ContextSlot;
use vstd::prelude::*;

verus! {

/// A stream is registered exactly for a context that its owner has and that has no
/// stream yet, by a process, while the transport works and a slot and a capability are
/// left. It takes a free slot in a new life, with a capability that no stream had, and
/// starts at value 0; no other slot changes.
pub proof fn law_registration_of_a_stream(
    g: GpuState,
    owner: DeviceOwner,
    ctx_id: u32,
    process: usize,
)
    requires
        g.streams.wf(),
    ensures
        ({
            let s = g.streams;
            let failed = g.queue.failed;
            let contexts = g.tables.contexts;
            let (r, t) = g.stream_registered(owner, ctx_id, process);
            let sound = !failed && ctx_id != 0 && process != 0;
            let owned = exists|k: int|
                0 <= k < contexts.len() && (#[trigger] contexts[k]).owner == Some(owner)
                    && contexts[k].ctx_id == ctx_id;
            let has_one = exists|k: int|
                0 <= k < s.slots.len() && (#[trigger] s.slots[k]).live && s.slots[k].owner == Some(
                    owner,
                ) && s.slots[k].ctx_id == ctx_id;
            let room = s.next_cookie < u64::MAX && exists|k: int|
                0 <= k < s.slots.len() && !(#[trigger] s.slots[k]).live && s.slots[k].generation
                    < 0x1ff_ffff;
            &&& r is Ok <==> sound && owned && !has_one && room
            &&& !sound ==> r == Err::<u64, VirtioError>(VirtioError::DeviceError)
            &&& sound && !owned ==> r == Err::<u64, VirtioError>(VirtioError::NotOwned)
            &&& sound && owned && has_one ==> r == Err::<u64, VirtioError>(VirtioError::DeviceError)
            &&& sound && owned && !has_one && !room ==> r == Err::<u64, VirtioError>(
                VirtioError::OutOfMemory,
            )
            &&& r is Err ==> t.slots == s.slots && t.next_cookie == s.next_cookie
            &&& r matches Ok(cookie) ==> cookie == s.next_cookie && t.next_cookie == cookie + 1
                && cookie > 0 && (forall|k: int|
                0 <= k < s.slots.len() && (#[trigger] s.slots[k]).live ==> s.slots[k].cookie
                    != cookie) && exists|i: int|
                0 <= i < s.slots.len() && !(#[trigger] s.slots[i]).live && t.slots
                    == s.slots.update(
                    i,
                    PresentStreamSlot {
                        live: true,
                        owner: Some(owner),
                        ctx_id,
                        ring_idx: 0,
                        generation: (s.slots[i].generation + 1) as u32,
                        cookie,
                        creator_process: process,
                        submitted_value: 0,
                        retired_value: 0,
                    },
                )
        }),
{
    let s = g.streams;
    let contexts = g.tables.contexts;
    let c = ContextSlot::named(Some(owner), ctx_id);
    if exists|k: int|
        0 <= k < contexts.len() && (#[trigger] contexts[k]).owner == Some(owner)
            && contexts[k].ctx_id == ctx_id {
        let k = choose|k: int|
            0 <= k < contexts.len() && (#[trigger] contexts[k]).owner == Some(owner)
                && contexts[k].ctx_id == ctx_id;
        assert(c(contexts[k]));
    }
    if some(contexts, c) {
        let k = choose|k: int| 0 <= k < contexts.len() && c(#[trigger] contexts[k]);
        assert(contexts[k].owner == Some(owner));
    }
    let o = PresentStreamSlot::of_context(owner, ctx_id);
    if exists|k: int|
        0 <= k < s.slots.len() && (#[trigger] s.slots[k]).live && s.slots[k].owner == Some(owner)
            && s.slots[k].ctx_id == ctx_id {
        let k = choose|k: int|
            0 <= k < s.slots.len() && (#[trigger] s.slots[k]).live && s.slots[k].owner == Some(
                owner,
            ) && s.slots[k].ctx_id == ctx_id;
        assert(o(s.slots[k]));
    }
    if some(s.slots, o) {
        let k = choose|k: int| 0 <= k < s.slots.len() && o(#[trigger] s.slots[k]);
        assert(s.slots[k].live);
    }
    let f = PresentStreamSlot::reusable();
    lemma_first_index_exists(s.slots, f);
    match first_index(s.slots, f) {
        Some(i) => {
            assert(f(s.slots[i]));
            assert(!s.slots[i].live);
        },
        None => {
            assert forall|k: int| 0 <= k < s.slots.len() implies !(!(#[trigger] s.slots[k]).live
                && s.slots[k].generation < 0x1ff_ffff) by {
                assert(!f(s.slots[k]));
            }
        },
    }
}

/// A marker is honoured exactly for a registered stream whose context, capability and
/// process it names; it then stands for that value of that stream.
pub proof fn law_marker_names_its_stream(
    s: StreamState,
    ctx_id: u32,
    value: u32,
    cookie: u64,
    process: usize,
)
    requires
        s.wf(),
    ensures
        ({
            let (r, t) = s.marker_answer(ctx_id, value, cookie, process);
            let its = |k: int|
                0 <= k < s.slots.len() && s.slots[k].live && s.slots[k].ctx_id == ctx_id
                    && s.slots[k].cookie == cookie && s.slots[k].creator_process == process;
            &&& r is Some <==> ctx_id != 0 && value != 0 && cookie != 0 && process != 0 && exists|
                k: int,
            | #[trigger] its(k)
            &&& r matches Some(b) ==> exists|k: int| #[trigger] its(k) && names_slot(s, b, k, value)
            &&& t.slots == s.slots
            &&& t.next_cookie == s.next_cookie
        }),
{
    let its = |k: int|
        0 <= k < s.slots.len() && s.slots[k].live && s.slots[k].ctx_id == ctx_id
            && s.slots[k].cookie == cookie && s.slots[k].creator_process == process;
    let p = PresentStreamSlot::marked(ctx_id, cookie, process);
    lemma_first_index_exists(s.slots, p);
    match first_index(s.slots, p) {
        Some(i) => {
            assert(p(s.slots[i]));
            assert(its(i));
            assert(s.slots[i].wf());
        },
        None => {
            assert forall|k: int| !#[trigger] its(k) by {
                if 0 <= k < s.slots.len() {
                    assert(!p(s.slots[k]));
                }
            }
        },
    }
}

/// A tag is honoured exactly for a registered stream that its owner, context and
/// capability name, on the ring that the stream keeps to, for a value above every one
/// before. A capability that names no stream is not owned.
pub proof fn law_tag_advances_its_own_stream(
    g: GpuState,
    owner: DeviceOwner,
    ctx_id: u32,
    ring: u32,
    cookie: u64,
    value: u32,
)
    requires
        g.streams.wf(),
    ensures
        ({
            let s = g.streams;
            let failed = g.queue.failed;
            let r = g.tag_checked(owner, ctx_id, ring, cookie, value);
            let sound = !failed && ctx_id != 0 && cookie != 0 && value != 0 && 0 < ring <= 255;
            let its = |k: int|
                0 <= k < s.slots.len() && s.slots[k].live && s.slots[k].owner == Some(owner)
                    && s.slots[k].ctx_id == ctx_id && s.slots[k].cookie == cookie;
            let next = |k: int|
                its(k) && (s.slots[k].ring_idx == 0 || s.slots[k].ring_idx == ring) && value
                    > s.slots[k].submitted_value;
            &&& r is Ok <==> sound && exists|k: int| #[trigger] next(k)
            &&& sound && !(exists|k: int| #[trigger] its(k)) ==> r == Err::<
                PresentStreamRetire,
                VirtioError,
            >(VirtioError::NotOwned)
            &&& !sound || (r is Err && exists|k: int| #[trigger] its(k)) ==> r == Err::<
                PresentStreamRetire,
                VirtioError,
            >(VirtioError::DeviceError)
            &&& r matches Ok(x) ==> exists|k: int| #[trigger]
                next(k) && x.handle == s.slots[k].generation * 64 + k && x.value == value
        }),
{
    let s = g.streams;
    let its = |k: int|
        0 <= k < s.slots.len() && s.slots[k].live && s.slots[k].owner == Some(owner)
            && s.slots[k].ctx_id == ctx_id && s.slots[k].cookie == cookie;
    let next = |k: int|
        its(k) && (s.slots[k].ring_idx == 0 || s.slots[k].ring_idx == ring) && value
            > s.slots[k].submitted_value;
    let p = PresentStreamSlot::named(owner, ctx_id, cookie);
    lemma_first_index_exists(s.slots, p);
    match first_index(s.slots, p) {
        Some(i) => {
            assert(p(s.slots[i]));
            assert(its(i));
            assert(s.slots[i].wf());
            assert forall|k: int| #[trigger] its(k) implies k == i by {
                if k < i {
                    assert(s.slots[k].cookie != s.slots[i].cookie);
                } else if i < k {
                    assert(s.slots[i].cookie != s.slots[k].cookie);
                }
            }
            if exists|k: int| #[trigger] next(k) {
                let k = choose|k: int| #[trigger] next(k);
                assert(its(k));
            }
            if g.tag_checked(owner, ctx_id, ring, cookie, value) is Ok {
                assert(next(i));
            }
        },
        None => {
            assert forall|k: int| !#[trigger] its(k) by {
                if 0 <= k < s.slots.len() {
                    assert(!p(s.slots[k]));
                }
            }
            if exists|k: int| #[trigger] next(k) {
                let k = choose|k: int| #[trigger] next(k);
                assert(its(k));
            }
        },
    }
}

/// A tagged submission that was queued moves its stream to its value and ring; no other
/// stream moves. A tag of a stream that died, or of a value that it has passed, moves
/// nothing.
pub proof fn law_queued_tag_moves_its_stream(s: StreamState, retire: PresentStreamRetire, ring: u32)
    requires
        s.wf(),
        ring <= 255,
    ensures
        ({
            let t = s.tag_committed(retire, ring);
            &&& t.slots.len() == s.slots.len()
            &&& t.next_cookie == s.next_cookie
            &&& forall|k: int|
                0 <= k < s.slots.len() ==> #[trigger] t.slots[k] == if s.slots[k].live
                    && retire.handle == s.slots[k].generation * 64 + k && (s.slots[k].ring_idx == 0
                    || s.slots[k].ring_idx == ring) && retire.value > s.slots[k].submitted_value {
                    PresentStreamSlot {
                        ring_idx: ring as u8,
                        submitted_value: retire.value,
                        ..s.slots[k]
                    }
                } else {
                    s.slots[k]
                }
        }),
{
    let t = s.tag_committed(retire, ring);
    assert forall|k: int| 0 <= k < s.slots.len() implies #[trigger] t.slots[k] == if s.slots[k].live
        && retire.handle == s.slots[k].generation * 64 + k && (s.slots[k].ring_idx == 0
        || s.slots[k].ring_idx == ring) && retire.value > s.slots[k].submitted_value {
        PresentStreamSlot { ring_idx: ring as u8, submitted_value: retire.value, ..s.slots[k] }
    } else {
        s.slots[k]
    } by {
        assert(s.slots[k].wf());
    }
}

/// The streams that are ended die, and no others: those of an owner, those of a context
/// of an owner, or all. A dead slot keeps its number of lives.
pub proof fn law_ended_streams_are_those_named(
    s: StreamState,
    owner: Option<DeviceOwner>,
    ctx_id: u32,
    k: int,
)
    requires
        s.wf(),
        0 <= k < 64,
    ensures
        ({
            let x = s.slots[k];
            let of_owner = s.purged(PresentStreamSlot::owned_by(owner), 64).slots[k];
            let of_context = s.purged(PresentStreamSlot::on_context(owner, ctx_id), 64).slots[k];
            let of_all = s.purged(PresentStreamSlot::anyone(), 64).slots[k];
            &&& x.live && x.owner == owner ==> !of_owner.live && of_owner.generation == x.generation
            &&& !(x.live && x.owner == owner) ==> of_owner == x
            &&& x.live && x.owner == owner && x.ctx_id == ctx_id ==> !of_context.live
                && of_context.generation == x.generation
            &&& !(x.live && x.owner == owner && x.ctx_id == ctx_id) ==> of_context == x
            &&& !of_all.live && of_all.generation == x.generation
        }),
{
    lemma_purged_slot(s, PresentStreamSlot::owned_by(owner), 64, k);
    lemma_purged_slot(s, PresentStreamSlot::on_context(owner, ctx_id), 64, k);
    lemma_purged_slot(s, PresentStreamSlot::anyone(), 64, k);
}

proof fn lemma_purged_slot(
    s: StreamState,
    p: spec_fn(PresentStreamSlot) -> bool,
    n: nat,
    k: int,
)
    requires
        s.slots.len() == 64,
        n <= 64,
        0 <= k < 64,
    ensures
        s.purged(p, n).slots.len() == 64,
        s.purged(p, n).slots[k] == if k < n && s.slots[k].live && p(s.slots[k]) {
            PresentStreamSlot {
                live: false,
                owner: None,
                ctx_id: 0,
                ring_idx: 0,
                generation: s.slots[k].generation,
                cookie: 0,
                creator_process: 0,
                submitted_value: 0,
                retired_value: 0,
            }
        } else {
            s.slots[k]
        },
    decreases n,
{
    if n > 0 {
        lemma_purged_slot(s, p, (n - 1) as nat, k);
        lemma_purged_slot(s, p, (n - 1) as nat, n - 1);
    }
}

/// A boundary whose stream has died stands for everything sent so far; any other stands
/// for itself.
pub proof fn law_dead_boundary_is_replaced(g: GpuState, boundary: u64)
    requires
        g.streams.wf(),
    ensures
        g.boundary_replacement(boundary) == if boundary >= 0x8000_0000_0000_0000
            && !names_a_stream(g.streams, boundary) {
            Some(g.fences.next_wire_fence)
        } else {
            None
        },
{
    law_live_boundary_names_a_stream(g.streams, boundary);
}

/// Once the death of streams is settled, no submission waits for a dead one: it keeps
/// its fence and its place, and where it had left its order to the stream it waits for
/// all that was sent before it. One whose stream lives is as it was.
pub proof fn law_dead_stream_holds_nobody(g: GpuState, k: int)
    requires
        g.wf(),
        0 <= k < g.wddm.pending.len(),
    ensures
        ({
            let t = g.waits_discharged().1;
            let p = g.wddm.pending[k];
            let q = t.wddm.pending[k];
            let dead = p.stream_boundary matches Some(b) && b >= 0x8000_0000_0000_0000
                && !names_a_stream(g.streams, b);
            &&& t.wddm.pending.len() == g.wddm.pending.len()
            &&& q.fence == p.fence && q.domain == p.domain && q.wire_boundary == p.wire_boundary
            &&& dead ==> q.stream_boundary is None && q.watermark == (if p.watermark == 0 {
                p.ordinary_watermark
            } else {
                p.watermark
            })
            &&& !dead ==> q.stream_boundary == p.stream_boundary && q.watermark == p.watermark
            &&& t.streams == g.streams && t.queue == g.queue && t.fences == g.fences
            &&& t.refresh.earliest matches Some(m) ==> m.boundary < 0x8000_0000_0000_0000
                || names_a_stream(g.streams, m.boundary)
            &&& t.refresh.latest matches Some(m) ==> m.boundary < 0x8000_0000_0000_0000
                || names_a_stream(g.streams, m.boundary)
            &&& t.fast.deferred_earliest matches Some(r) ==> r.carried_watermark
                < 0x8000_0000_0000_0000 || names_a_stream(g.streams, r.carried_watermark)
            &&& t.fast.deferred_latest matches Some(r) ==> r.carried_watermark
                < 0x8000_0000_0000_0000 || names_a_stream(g.streams, r.carried_watermark)
        }),
{
    lemma_discharge(g, 0, k);
    if let Some(b) = g.wddm.pending[k].stream_boundary {
        law_live_boundary_names_a_stream(g.streams, b);
    }
    if let Some(m) = g.refresh.earliest {
        law_live_boundary_names_a_stream(g.streams, m.boundary);
    }
    if let Some(m) = g.refresh.latest {
        law_live_boundary_names_a_stream(g.streams, m.boundary);
    }
    if let Some(r) = g.fast.deferred_earliest {
        law_live_boundary_names_a_stream(g.streams, r.carried_watermark);
    }
    if let Some(r) = g.fast.deferred_latest {
        law_live_boundary_names_a_stream(g.streams, r.carried_watermark);
    }
}

proof fn lemma_discharge(g: GpuState, i: int, k: int)
    requires
        0 <= i,
        0 <= k < g.wddm.pending.len(),
    ensures
        ({
            let t = g.discharged_from(i).1;
            let p = g.wddm.pending[k];
            let q = t.wddm.pending[k];
            let dead = k >= i && (p.stream_boundary matches Some(b) && !g.streams.not_dead(b));
            &&& t.wddm.pending.len() == g.wddm.pending.len()
            &&& t.streams == g.streams && t.queue == g.queue && t.fences == g.fences
            &&& t.refresh == g.refresh && t.fast == g.fast
            &&& q.fence == p.fence && q.domain == p.domain && q.wire_boundary == p.wire_boundary
            &&& dead ==> q.stream_boundary is None && q.watermark == (if p.watermark == 0 {
                p.ordinary_watermark
            } else {
                p.watermark
            })
            &&& !dead ==> q == p
        }),
    decreases g.wddm.pending.len() - i,
{
    if i < g.wddm.pending.len() {
        if g.waits_for_dead(g.wddm.pending[i]) {
            lemma_discharge(g.entry_discharged(i).0, i + 1, k);
        } else {
            lemma_discharge(g, i + 1, k);
        }
    }
}

/// The streams that an operation ends are those it names, and no others: an owner's, a
/// context's of an owner, or all.
pub proof fn law_operations_end_the_named_streams(
    g: GpuState,
    owner: Option<DeviceOwner>,
    ctx_id: u32,
    k: int,
)
    requires
        g.wf(),
        0 <= k < 64,
    ensures
        ({
            let x = g.streams.slots[k];
            let of_owner = g.owner_streams_ended(owner).1.streams.slots[k];
            let of_context = g.context_streams_ended(owner, ctx_id).1.streams.slots[k];
            let of_all = g.all_streams_ended().0.streams.slots[k];
            &&& x.live && x.owner == owner ==> !of_owner.live
            &&& !(x.live && x.owner == owner) ==> of_owner == x
            &&& x.live && x.owner == owner && x.ctx_id == ctx_id ==> !of_context.live
            &&& !(x.live && x.owner == owner && x.ctx_id == ctx_id) ==> of_context == x
            &&& !of_all.live
        }),
{
    law_ended_streams_are_those_named(g.streams, owner, ctx_id, k);
    lemma_settled_keeps_streams(g.purged(PresentStreamSlot::owned_by(owner)));
    lemma_settled_keeps_streams(g.purged(PresentStreamSlot::on_context(owner, ctx_id)));
    lemma_settled_keeps_streams(g.streams_purged());
}

} // verus!
