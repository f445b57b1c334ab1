//! Tagged present-stream boundaries and packed stream handles.
//!
//! A boundary with bit 63 set names a stream handle and a value in that stream;
//! every other boundary is a wire fence. The two namespaces are not comparable.
//! A handle packs a slot index with the slot's generation, so that the handle of
//! a slot's earlier life never names its later one.
use vstd::prelude::*;

verus! {

/// Streams that can be registered at once.
pub const MAX_STREAMS: usize = 64;

/// Last generation of a slot: the handle then fills 31 bits.
pub const GENERATION_MAX: u32 = 0x01ff_ffff;

/// Set in every present-stream boundary and in no wire fence.
pub const PRESENT_STREAM_BOUNDARY_TAG: u64 = 0x8000_0000_0000_0000;

/// The boundary of `value` in the stream `handle`.
pub open spec fn boundary_of(handle: u32, value: u32) -> u64 {
    (PRESENT_STREAM_BOUNDARY_TAG + (handle % 0x8000_0000) * 0x1_0000_0000 + value) as u64
}

/// The handle and value of a tagged boundary; wire fences have none.
pub open spec fn stream_of(boundary: u64) -> Option<(u32, u32)> {
    if boundary >= PRESENT_STREAM_BOUNDARY_TAG {
        Some(
            (
                ((boundary - PRESENT_STREAM_BOUNDARY_TAG) / 0x1_0000_0000) as u32,
                (boundary % 0x1_0000_0000) as u32,
            ),
        )
    } else {
        None
    }
}

/// The handle of slot `index` in its life number `generation`.
pub open spec fn handle_of(generation: u32, index: int) -> int {
    generation * 64 + index
}

/// The slot that a handle names; generation 0 names none.
pub open spec fn index_of(handle: u32) -> Option<int> {
    if handle >= 64 {
        Some(handle as int % 64)
    } else {
        None
    }
}

/// Both boundaries name the same stream.
pub open spec fn same_stream(a: u64, b: u64) -> bool {
    match (stream_of(a), stream_of(b)) {
        (Some(x), Some(y)) => x.0 == y.0,
        _ => false,
    }
}

/// Encode the boundary of `value` in the stream `handle`.
pub fn encode_present_stream_boundary(handle: u32, value: u32) -> (r: u64)
    ensures
        r == boundary_of(handle, value),
{
    PRESENT_STREAM_BOUNDARY_TAG + (handle % 0x8000_0000) as u64 * 0x1_0000_0000 + value as u64
}

/// Decode a tagged boundary; a wire fence is not one.
pub fn decode_present_stream_boundary(boundary: u64) -> (r: Option<(u32, u32)>)
    ensures
        r == stream_of(boundary),
{
    if boundary >= PRESENT_STREAM_BOUNDARY_TAG {
        Some(
            (
                ((boundary - PRESENT_STREAM_BOUNDARY_TAG) / 0x1_0000_0000) as u32,
                (boundary % 0x1_0000_0000) as u32,
            ),
        )
    } else {
        None
    }
}

/// Whether both boundaries name the same stream.
pub fn names_same_stream(a: u64, b: u64) -> (r: bool)
    ensures
        r == same_stream(a, b),
{
    match (decode_present_stream_boundary(a), decode_present_stream_boundary(b)) {
        (Some(x), Some(y)) => x.0 == y.0,
        _ => false,
    }
}

/// Pack a slot index with its generation.
pub fn slot_handle(generation: u32, index: usize) -> (r: u32)
    requires
        generation <= GENERATION_MAX,
        index < MAX_STREAMS,
    ensures
        r == handle_of(generation, index as int),
        r < 0x8000_0000,
{
    generation * 64 + index as u32
}

/// The slot that a handle names.
pub fn handle_index(handle: u32) -> (r: Option<usize>)
    ensures
        match r {
            Some(i) => index_of(handle) == Some(i as int) && i < MAX_STREAMS,
            None => index_of(handle) is None,
        },
{
    if handle >= 64 {
        Some((handle % 64) as usize)
    } else {
        None
    }
}

/// Capacity of the stream table.
pub fn max_present_streams() -> (r: usize)
    ensures
        r == MAX_STREAMS,
{
    MAX_STREAMS
}

/// How far a marker's value runs ahead of what its stream has submitted.
pub fn marker_lookahead(value: u32, submitted: u32) -> (r: u32)
    ensures
        r == if value > submitted {
            value - submitted
        } else {
            0
        },
{
    value.saturating_sub(submitted)
}

/// The later of two retired values.
pub open spec fn later(a: u32, b: u32) -> u32 {
    if a < b {
        b
    } else {
        a
    }
}

/// A stream's retired value after `completed` retired; it never falls.
pub fn advance_retired(retired: u32, completed: u32) -> (r: u32)
    ensures
        r == later(retired, completed),
{
    if retired < completed {
        completed
    } else {
        retired
    }
}

/// A boundary decodes to what it was encoded from.
pub proof fn law_boundary_round_trip(handle: u32, value: u32)
    requires
        handle < 0x8000_0000,
    ensures
        stream_of(boundary_of(handle, value)) == Some((handle, value)),
{
}

/// Every tagged boundary is the encoding of what it decodes to, and no wire
/// fence is one.
pub proof fn law_tag_separates_namespaces(boundary: u64)
    ensures
        stream_of(boundary) is Some <==> boundary >= PRESENT_STREAM_BOUNDARY_TAG,
        stream_of(boundary) matches Some((handle, value)) ==> handle < 0x8000_0000 && boundary_of(
            handle,
            value,
        ) == boundary,
{
}

/// A handle tells the slot and its generation: two lives of a slot, and two
/// slots, never share a handle. No handle is 0.
pub proof fn law_handles_are_unique(g1: u32, i1: int, g2: u32, i2: int)
    requires
        0 < g1 <= GENERATION_MAX,
        0 < g2 <= GENERATION_MAX,
        0 <= i1 < MAX_STREAMS,
        0 <= i2 < MAX_STREAMS,
    ensures
        handle_of(g1, i1) == handle_of(g2, i2) ==> g1 == g2 && i1 == i2,
        0 < handle_of(g1, i1) < 0x8000_0000,
        index_of(handle_of(g1, i1) as u32) == Some(i1),
{
}

} // verus!
