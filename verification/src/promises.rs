//! What the operations are for, said of the tables and fields alone.
//!
//! The contracts of the operations are equations over spec functions. The laws here
//! say what those equations come to for whoever relies on them: which submission may
//! be reported done, which frame may be shown, which memory may be freed, which bytes
//! go to the device. They speak of fields, ids and addresses, not of the functions
//! that compute the answers.
use crate::gpu::GpuState;
use crate::inflight::{retired_up_to, wire_ready, InFlight, InFlightKind, RetireDomain,
    WireBoundary};
use crate::seqs::some;
use crate::streams::StreamState;
use vstd::prelude::*;

pub mod bring_up;
pub mod commands;
pub mod completion;
pub mod copies;
pub mod counting;
pub mod failure;
pub mod memory;
pub mod scanout;
pub mod stream_life;
pub mod tasks;
pub mod wire;

verus! {

/// No submission with a fence below `watermark` is in flight, on any ring.
pub open spec fn none_below(inflight: Seq<InFlight>, watermark: int) -> bool {
    forall|i: int|
        0 <= i < inflight.len() ==> ((#[trigger] inflight[i]).kind matches
            InFlightKind::AsyncVenus { fence_id, .. } ==> fence_id >= watermark)
}

/// No submission with a fence below `watermark` is in flight on ring 0, whose answers
/// mean that the host has decoded the commands.
pub open spec fn none_decoding_below(inflight: Seq<InFlight>, watermark: int) -> bool {
    forall|i: int|
        0 <= i < inflight.len() ==> ((#[trigger] inflight[i]).kind matches
            InFlightKind::AsyncVenus { fence_id, ring_idx, .. } ==> ring_idx != 0 || fence_id
            >= watermark)
}

/// The submission with this fence is not in flight.
pub open spec fn not_in_flight(inflight: Seq<InFlight>, fence: u64) -> bool {
    forall|i: int|
        0 <= i < inflight.len() ==> ((#[trigger] inflight[i]).kind matches
            InFlightKind::AsyncVenus { fence_id, .. } ==> fence_id != fence)
}

/// `boundary` is that of `value` in the stream that is registered in slot `i`.
pub open spec fn names_slot(streams: StreamState, boundary: u64, i: int, value: u32) -> bool {
    &&& 0 <= i < streams.slots.len()
    &&& streams.slots[i].live
    &&& boundary == 0x8000_0000_0000_0000 + (streams.slots[i].generation * 64 + i)
        * 0x1_0000_0000 + value
}

/// `boundary` names a registered stream.
pub open spec fn names_a_stream(streams: StreamState, boundary: u64) -> bool {
    exists|i: int, value: u32| #[trigger] names_slot(streams, boundary, i, value)
}

/// `boundary` names a registered stream that has retired the value it names.
pub open spec fn stream_reached(streams: StreamState, boundary: u64) -> bool {
    exists|i: int, value: u32| #[trigger]
        names_slot(streams, boundary, i, value) && streams.slots[i].retired_value >= value
}

/// What `boundary` stands for is done: a value of a stream, or everything sent before
/// a wire fence, on every ring.
pub open spec fn is_done(g: GpuState, boundary: u64) -> bool {
    if boundary >= 0x8000_0000_0000_0000 {
        stream_reached(g.streams, boundary)
    } else {
        none_below(g.queue.inflight, boundary as int)
    }
}

/// Both boundaries are those of one stream: they differ in their value at most.
pub open spec fn of_one_stream(a: u64, b: u64) -> bool {
    &&& a >= 0x8000_0000_0000_0000
    &&& b >= 0x8000_0000_0000_0000
    &&& a / 0x1_0000_0000 == b / 0x1_0000_0000
}

/// A wait on the wire is over exactly when the fences it is about are out of flight:
/// all below a watermark, on every ring where the GPU counts and on ring 0 where
/// decoding does; or the one fence that is named.
pub proof fn law_wire_wait_is_about_its_fences(inflight: Seq<InFlight>, watermark: u64)
    ensures
        retired_up_to(inflight, watermark, RetireDomain::IncludingGpu) <==> none_below(
            inflight,
            watermark as int,
        ),
        retired_up_to(inflight, watermark, RetireDomain::DecodeOnly) <==> none_decoding_below(
            inflight,
            watermark as int,
        ),
        wire_ready(inflight, watermark, RetireDomain::IncludingGpu, WireBoundary::Prefix)
            <==> none_below(inflight, watermark as int),
        wire_ready(inflight, watermark, RetireDomain::DecodeOnly, WireBoundary::Prefix)
            <==> none_decoding_below(inflight, watermark as int),
        watermark != 0 ==> forall|d: RetireDomain|
            #[trigger] wire_ready(inflight, watermark, d, WireBoundary::Exact) <==> not_in_flight(
                inflight,
                watermark,
            ),
        some(inflight, InFlight::fences(watermark)) <==> !not_in_flight(inflight, watermark),
{
    let all = InFlight::fences_below(watermark, RetireDomain::IncludingGpu);
    let decoded = InFlight::fences_below(watermark, RetireDomain::DecodeOnly);
    let one = InFlight::fences(watermark);
    assert forall|i: int| 0 <= i < inflight.len() implies (all(#[trigger] inflight[i]) <==> (
    inflight[i].kind matches InFlightKind::AsyncVenus { fence_id, .. } && fence_id < watermark))
        && (decoded(inflight[i]) <==> (inflight[i].kind matches InFlightKind::AsyncVenus {
        fence_id,
        ring_idx,
        ..
    } && fence_id < watermark && ring_idx == 0)) && (one(inflight[i]) <==> (
    inflight[i].kind matches InFlightKind::AsyncVenus { fence_id, .. } && fence_id
        == watermark)) by {}
    if !none_below(inflight, watermark as int) {
        let i = choose|i: int|
            0 <= i < inflight.len() && !((#[trigger] inflight[i]).kind matches
                InFlightKind::AsyncVenus { fence_id, .. } ==> fence_id >= watermark);
        assert(all(inflight[i]));
    }
    if !none_decoding_below(inflight, watermark as int) {
        let i = choose|i: int|
            0 <= i < inflight.len() && !((#[trigger] inflight[i]).kind matches
                InFlightKind::AsyncVenus { fence_id, ring_idx, .. } ==> ring_idx != 0 || fence_id
                >= watermark);
        assert(decoded(inflight[i]));
    }
    if !not_in_flight(inflight, watermark) {
        let i = choose|i: int|
            0 <= i < inflight.len() && !((#[trigger] inflight[i]).kind matches
                InFlightKind::AsyncVenus { fence_id, .. } ==> fence_id != watermark);
        assert(one(inflight[i]));
    }
}

/// A boundary names a stream exactly when one is registered under its handle, and a
/// wire fence names none.
pub proof fn law_live_boundary_names_a_stream(streams: StreamState, boundary: u64)
    requires
        streams.wf(),
    ensures
        streams.boundary_live(boundary) <==> names_a_stream(streams, boundary),
        streams.not_dead(boundary) <==> boundary < 0x8000_0000_0000_0000 || names_a_stream(
            streams,
            boundary,
        ),
        names_a_stream(streams, boundary) ==> boundary >= 0x8000_0000_0000_0000,
{
    if streams.boundary_live(boundary) {
        let h = (boundary - 0x8000_0000_0000_0000) / 0x1_0000_0000;
        let value = (boundary % 0x1_0000_0000) as u32;
        assert(names_slot(streams, boundary, h % 64, value));
    }
    if names_a_stream(streams, boundary) {
        let (i, value) = choose|i: int, value: u32| #[trigger]
            names_slot(streams, boundary, i, value);
        lemma_named_slot(streams, boundary, i, value);
    }
}

proof fn lemma_named_slot(streams: StreamState, boundary: u64, i: int, value: u32)
    requires
        streams.wf(),
        names_slot(streams, boundary, i, value),
    ensures
        boundary >= 0x8000_0000_0000_0000,
        crate::present_stream::stream_of(boundary) == Some(
            ((streams.slots[i].generation * 64 + i) as u32, value),
        ),
        crate::present_stream::index_of((streams.slots[i].generation * 64 + i) as u32) == Some(i),
        streams.boundary_live(boundary),
{
    assert(streams.slots[i].wf());
}

/// A dependency is met exactly when what it stands for is done: a stream's value once
/// that very stream has retired it, a wire fence once everything sent before it, on
/// every ring, is out of flight.
pub proof fn law_boundary_is_met_when_done(g: GpuState, boundary: u64)
    requires
        g.streams.wf(),
    ensures
        g.boundary_ready(boundary) <==> is_done(g, boundary),
{
    if boundary >= 0x8000_0000_0000_0000 {
        if g.boundary_ready(boundary) {
            let h = (boundary - 0x8000_0000_0000_0000) / 0x1_0000_0000;
            let value = (boundary % 0x1_0000_0000) as u32;
            assert(names_slot(g.streams, boundary, h % 64, value));
        }
        if stream_reached(g.streams, boundary) {
            let (i, value) = choose|i: int, value: u32| #[trigger]
                names_slot(g.streams, boundary, i, value) && g.streams.slots[i].retired_value
                    >= value;
            lemma_named_slot(g.streams, boundary, i, value);
        }
    } else {
        law_wire_wait_is_about_its_fences(g.queue.inflight, boundary);
    }
}

/// Two boundaries name one stream exactly when they differ in their value at most.
pub proof fn law_same_stream_is_same_handle(a: u64, b: u64)
    ensures
        crate::present_stream::same_stream(a, b) <==> of_one_stream(a, b),
{
}

} // verus!
