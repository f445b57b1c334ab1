use helios_virtio::config::DxgkConfigAccess;
use helios_virtio::enqueue::AddResult;
use helios_virtio::error::VirtioError;
use helios_virtio::gpu::VirtioGpu;
use helios_virtio::hal::DmaBuffer;
use helios_virtio::init::Knobs;
use helios_virtio::owner::DeviceOwner;
use helios_virtio::present_stream::{
    advance_retired, decode_present_stream_boundary, encode_present_stream_boundary, handle_index,
    marker_lookahead, max_present_streams, names_same_stream, slot_handle,
};

const OK: u32 = 0x1100;
const REFUSED: u32 = 0x1200;

fn gpu() -> VirtioGpu {
    let mut resp = vec![0u8; 408];
    resp[1] = 0x11;
    let knobs =
        Knobs { dma_gpu_fence: true, present_exact_watermark: true, hold_ms: 0, head_ms: 0 };
    VirtioGpu::init(&DxgkConfigAccess::new([0; 64]), &resp, None, Vec::new(), 1, knobs).unwrap()
}

fn owner(raw: usize) -> DeviceOwner {
    DeviceOwner::new(raw).unwrap()
}

fn context(g: &mut VirtioGpu, who: usize, id: u32) {
    assert!(g.reserve_context_slot());
    g.commit_context(Some(owner(who)), id);
}

fn tagged(
    g: &mut VirtioGpu,
    ring: u32,
    cookie: u64,
    value: u32,
    token: u16,
) -> Result<u64, VirtioError> {
    let meta = DmaBuffer::new(56, 0x1000).unwrap();
    let venus = DmaBuffer::new(64, 0x2000).unwrap();
    let added = AddResult::Token(token);
    g.enqueue_async_submit_present_stream(
        owner(7), 3, ring, cookie, value, meta, venus, 64, added, &mut Vec::new(),
    )
    .map_err(|e| e.2)
}

#[test]
fn boundaries_round_trip() {
    assert_eq!(encode_present_stream_boundary(0x40, 5), 0x8000_0040_0000_0005);
    assert_eq!(decode_present_stream_boundary(0x8000_0040_0000_0005), Some((0x40, 5)));
    // A wire fence is no stream boundary.
    assert_eq!(decode_present_stream_boundary(0x7fff_ffff_ffff_ffff), None);
    let b = encode_present_stream_boundary(0x7fff_ffff, u32::MAX);
    assert_eq!(decode_present_stream_boundary(b), Some((0x7fff_ffff, u32::MAX)));
}

#[test]
fn values_of_one_stream_name_the_same_stream() {
    let a = encode_present_stream_boundary(0x40, 5);
    assert!(names_same_stream(a, encode_present_stream_boundary(0x40, 6)));
    assert!(!names_same_stream(a, encode_present_stream_boundary(0x41, 5)));
    assert!(!names_same_stream(a, 5));
    assert!(!names_same_stream(5, 5));
}

#[test]
fn handles_name_slot_and_generation() {
    assert_eq!(slot_handle(1, 3), 67);
    assert_eq!(handle_index(67), Some(3));
    assert_eq!(handle_index(63), None);
    assert_eq!(max_present_streams(), 64);
}

#[test]
fn lookahead_and_retirement_saturate() {
    assert_eq!(marker_lookahead(7, 5), 2);
    assert_eq!(marker_lookahead(5, 7), 0);
    assert_eq!(advance_retired(5, 7), 7);
    assert_eq!(advance_retired(7, 5), 7);
}

#[test]
fn a_stream_belongs_to_a_context_of_its_owner() {
    let mut g = gpu();
    context(&mut g, 7, 3);
    assert_eq!(g.register_present_stream(owner(7), 0, 99), Err(VirtioError::DeviceError));
    assert_eq!(g.register_present_stream(owner(7), 3, 0), Err(VirtioError::DeviceError));
    assert_eq!(g.register_present_stream(owner(8), 3, 99), Err(VirtioError::NotOwned));
    assert_eq!(g.register_present_stream(owner(7), 3, 99), Ok(1));
    // One stream per context.
    assert_eq!(g.register_present_stream(owner(7), 3, 99), Err(VirtioError::DeviceError));
    assert_eq!(g.streams.counters.rejects, 4);
    assert_eq!((g.streams.counters.live, g.streams.counters.high_water), (1, 1));
}

#[test]
fn the_table_of_streams_is_bounded() {
    let mut g = gpu();
    for id in 1..66u32 {
        context(&mut g, 7, id);
        let r = g.register_present_stream(owner(7), id, 99);
        if id <= 64 {
            assert_eq!(r, Ok(id as u64));
        } else {
            assert_eq!(r, Err(VirtioError::OutOfMemory));
        }
    }
}

#[test]
fn markers_name_the_stream() {
    let mut g = gpu();
    context(&mut g, 7, 3);
    let cookie = g.register_present_stream(owner(7), 3, 99).unwrap();
    let boundary = encode_present_stream_boundary(64, 2);
    assert_eq!(g.present_stream_marker_boundary(3, 2, cookie, 99), Some(boundary));
    assert_eq!(g.streams.counters.marker_ahead_high_water, 2);
    assert_eq!(g.present_stream_marker_boundary(3, 0, cookie, 99), None);
    assert_eq!(g.present_stream_marker_boundary(3, 2, cookie + 1, 99), None);
    assert_eq!(g.present_stream_marker_boundary(3, 2, cookie, 98), None);
    assert_eq!(g.present_stream_marker_boundary(4, 2, cookie, 99), None);
    assert!(g.streams.boundary_live(boundary));
    assert!(!g.scanout_boundary_ready(boundary));
}

#[test]
fn values_rise_and_stay_on_one_ring() {
    let mut g = gpu();
    context(&mut g, 7, 3);
    let cookie = g.register_present_stream(owner(7), 3, 99).unwrap();
    let refused = Err(VirtioError::DeviceError);
    assert_eq!(tagged(&mut g, 0, cookie, 1, 1), refused);
    assert_eq!(tagged(&mut g, 256, cookie, 1, 1), refused);
    assert_eq!(tagged(&mut g, 1, cookie, 0, 1), refused);
    assert_eq!(tagged(&mut g, 1, cookie + 1, 1, 1), Err(VirtioError::NotOwned));
    assert!(tagged(&mut g, 1, cookie, 5, 1).is_ok());
    assert_eq!(tagged(&mut g, 1, cookie, 5, 2), refused);
    assert_eq!(tagged(&mut g, 2, cookie, 6, 2), refused);
    assert!(tagged(&mut g, 1, cookie, 6, 2).is_ok());
}

#[test]
fn success_retires_a_value_and_refusal_ends_the_stream() {
    let mut g = gpu();
    context(&mut g, 7, 3);
    let cookie = g.register_present_stream(owner(7), 3, 99).unwrap();
    let five = g.present_stream_marker_boundary(3, 5, cookie, 99).unwrap();
    let six = g.present_stream_marker_boundary(3, 6, cookie, 99).unwrap();
    assert!(tagged(&mut g, 1, cookie, 5, 1).is_ok());
    assert!(tagged(&mut g, 1, cookie, 6, 2).is_ok());
    assert!(!g.scanout_boundary_ready(five));
    g.drain_used(1, true, OK);
    assert!(g.scanout_boundary_ready(five));
    assert!(!g.scanout_boundary_ready(six));
    assert_eq!(g.rebase_dead_present_stream_boundary(six), None);
    g.drain_used(2, true, REFUSED);
    // The stream is dead: what it retired counts no more.
    assert!(!g.scanout_boundary_ready(five));
    assert!(!g.streams.boundary_live(five));
    assert!(!g.streams.not_dead(five));
    assert!(g.streams.not_dead(17));
    assert_eq!(g.rebase_dead_present_stream_boundary(six), Some(g.wire_fence_watermark()));
}

#[test]
fn a_reused_slot_is_another_stream() {
    let mut g = gpu();
    context(&mut g, 7, 3);
    let cookie = g.register_present_stream(owner(7), 3, 99).unwrap();
    let old = g.present_stream_marker_boundary(3, 5, cookie, 99).unwrap();
    let mut out = Vec::new();
    assert!(!g.unregister_present_stream(owner(8), 3, cookie, &mut out));
    assert!(g.unregister_present_stream(owner(7), 3, cookie, &mut out));
    assert!(!g.unregister_present_stream(owner(7), 3, cookie, &mut out));
    let again = g.register_present_stream(owner(7), 3, 99).unwrap();
    assert_eq!(again, cookie + 1);
    let new = g.present_stream_marker_boundary(3, 5, again, 99).unwrap();
    assert_eq!(decode_present_stream_boundary(old), Some((64, 5)));
    assert_eq!(decode_present_stream_boundary(new), Some((128, 5)));
    assert!(!g.streams.boundary_live(old));
    assert!(g.streams.handle_live(128));
}

#[test]
fn streams_end_with_their_owner_or_context() {
    let mut g = gpu();
    for (who, id) in [(7usize, 3u32), (7, 4), (8, 5)] {
        context(&mut g, who, id);
        assert!(g.register_present_stream(owner(who), id, 99).is_ok());
    }
    let mut out = Vec::new();
    assert_eq!(g.purge_present_streams_for_context(Some(owner(7)), 4, &mut out), 1);
    assert_eq!(g.purge_present_streams_for_owner(Some(owner(7)), &mut out), 1);
    assert_eq!(g.purge_present_streams_for_owner(Some(owner(7)), &mut out), 0);
    assert_eq!(g.streams.counters.live, 1);
    g.purge_all_present_streams_ordered(&mut out);
    assert_eq!(g.streams.counters.live, 0);
    assert!(out.is_empty());
}

#[test]
fn an_accepted_value_is_never_accepted_again() {
    let mut g = gpu();
    context(&mut g, 7, 3);
    let cookie = g.register_present_stream(owner(7), 3, 99).unwrap();
    assert!(tagged(&mut g, 1, cookie, 5, 1).is_ok());
    g.drain_used(1, true, OK);
    let next = g.wire_fence_watermark();
    for value in 1..=5 {
        assert_eq!(tagged(&mut g, 1, cookie, value, 2), Err(VirtioError::DeviceError));
    }
    assert_eq!(g.wire_fence_watermark(), next);
    assert!(g.queue.inflight.is_empty());
    // Once the stream is dead its capability names nothing, whatever the value.
    assert!(g.unregister_present_stream(owner(7), 3, cookie, &mut Vec::new()));
    let again = g.register_present_stream(owner(7), 3, 99).unwrap();
    assert_ne!(again, cookie);
    assert_eq!(tagged(&mut g, 1, cookie, 9, 2), Err(VirtioError::NotOwned));
    assert!(tagged(&mut g, 1, again, 1, 2).is_ok());
}
