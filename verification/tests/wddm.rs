use helios_virtio::config::DxgkConfigAccess;
use helios_virtio::enqueue::AddResult;
use helios_virtio::gpu::VirtioGpu;
use helios_virtio::hal::DmaBuffer;
use helios_virtio::inflight::{Action, RetireDomain, WireBoundary};
use helios_virtio::init::Knobs;
use helios_virtio::owner::DeviceOwner;
use helios_virtio::wddm::{
    clamp_bound_ms, clamp_hold_ms, look_at_head, select_boundary, HeadLook, Rejection, WddmTake,
    MAX_WDDM_PENDING,
};
use helios_virtio::windowed_blt::WindowedBltTerminalPrefix;

const OK: u32 = 0x1100;

fn gpu_with(knobs: Knobs) -> VirtioGpu {
    let mut resp = vec![0u8; 408];
    resp[1] = 0x11;
    VirtioGpu::init(&DxgkConfigAccess::new([0; 64]), &resp, None, Vec::new(), 1, knobs).unwrap()
}

fn gpu() -> VirtioGpu {
    gpu_with(Knobs { dma_gpu_fence: true, present_exact_watermark: true, hold_ms: 0, head_ms: 0 })
}

fn submit(g: &mut VirtioGpu, ring: u32, token: u16) -> u64 {
    let meta = DmaBuffer::new(56, 0x1000).unwrap();
    let venus = DmaBuffer::new(64, 0x2000).unwrap();
    g.enqueue_async_submit(ring, meta, venus, 64, AddResult::Token(token), &mut Vec::new()).unwrap()
}

/// A stream's first value, submitted as `token`.
fn stream(g: &mut VirtioGpu, token: u16) -> u64 {
    let owner = DeviceOwner::new(7).unwrap();
    assert!(g.reserve_context_slot());
    g.commit_context(Some(owner), 3);
    let cookie = g.register_present_stream(owner, 3, 99).unwrap();
    let boundary = g.present_stream_marker_boundary(3, 1, cookie, 99).unwrap();
    let meta = DmaBuffer::new(56, 0x1000).unwrap();
    let venus = DmaBuffer::new(64, 0x2000).unwrap();
    let added = AddResult::Token(token);
    g.enqueue_async_submit_present_stream(
        owner, 3, 1, cookie, 1, meta, venus, 64, added, &mut Vec::new(),
    )
    .unwrap();
    boundary
}

fn note(g: &mut VirtioGpu, fence: u32, stream: Option<u64>) -> bool {
    g.note_wddm_submission(fence, false, None, stream, None, false, 1000, &mut Vec::new())
}

fn take(g: &mut VirtioGpu, now: u64) -> Result<u32, bool> {
    match g.take_one_ready_wddm(now, &mut Vec::new()) {
        WddmTake::Ready(r) => Ok(r.delivered()),
        WddmTake::BlockedOnProducer => Err(true),
        WddmTake::Empty => Err(false),
    }
}

#[test]
fn durations_are_brought_within_their_limits() {
    assert_eq!(clamp_hold_ms(0), 0);
    assert_eq!(clamp_hold_ms(250), 250);
    assert_eq!(clamp_hold_ms(251), 250);
    assert_eq!(clamp_bound_ms(0), 0);
    assert_eq!(clamp_bound_ms(1), 100);
    assert_eq!(clamp_bound_ms(300), 300);
    assert_eq!(clamp_bound_ms(5000), 1000);
}

#[test]
fn a_named_fence_must_be_this_instances() {
    let s = select_boundary(7, 5, 10, false);
    assert_eq!((s.watermark, s.boundary, s.rejection), (8, WireBoundary::Prefix, Rejection::Accepted));
    let s = select_boundary(7, 5, 10, true);
    assert_eq!((s.watermark, s.boundary, s.rejection), (7, WireBoundary::Exact, Rejection::Accepted));
    for (id, why) in
        [(0, Rejection::OutOfRange), (10, Rejection::OutOfRange), (4, Rejection::ForeignGeneration)]
    {
        let s = select_boundary(id, 5, 10, true);
        assert_eq!((s.watermark, s.boundary, s.rejection), (10, WireBoundary::Prefix, why));
    }
}

#[test]
fn a_blocked_head_is_armed_waits_and_rebases() {
    assert_eq!(look_at_head(0, 5, 0, false), HeadLook::Disabled);
    assert_eq!(look_at_head(100, 5, 0, false), HeadLook::Arm(1_000_005));
    assert_eq!(look_at_head(100, 1_000_004, 1_000_005, false), HeadLook::Wait);
    assert_eq!(look_at_head(100, 1_000_005, 1_000_005, false), HeadLook::Rebase);
    assert_eq!(look_at_head(100, 1_000_005, 1_000_005, true), HeadLook::AlreadyRebased);
    assert_eq!(look_at_head(100, u64::MAX, 0, false), HeadLook::Arm(u64::MAX));
}

#[test]
fn an_idle_device_completes_at_once() {
    let mut g = gpu();
    assert!(note(&mut g, 1, None));
    assert_eq!(take(&mut g, 0), Err(false));
}

#[test]
fn completions_keep_their_order() {
    let mut g = gpu();
    submit(&mut g, 0, 1);
    assert!(!note(&mut g, 1, None));
    // A paging buffer waits for no wire fence, but for its turn.
    assert!(!g.note_wddm_submission(2, true, None, None, None, false, 0, &mut Vec::new()));
    assert_eq!(g.wddm.pending[1].watermark, 0);
    assert_eq!(take(&mut g, 0), Err(true));
    assert_eq!(g.wddm.counters.head_blocked_wire, 1);
    g.drain_used(1, true, OK);
    assert_eq!(take(&mut g, 0), Ok(1));
    assert_eq!(take(&mut g, 0), Ok(2));
    assert_eq!(take(&mut g, 0), Err(false));
    assert_eq!(g.wddm.counters.fence_from_dpc, 2);
}

#[test]
fn putting_back_undoes_taking() {
    let mut g = gpu();
    submit(&mut g, 0, 1);
    assert!(!note(&mut g, 1, None));
    assert!(!note(&mut g, 2, None));
    g.drain_used(1, true, OK);
    let ready = match g.take_one_ready_wddm(0, &mut Vec::new()) {
        WddmTake::Ready(r) => r,
        _ => panic!("the head is ready"),
    };
    assert_eq!(ready.fence(), 1);
    assert_eq!(ready.terminal_prefix(), None);
    g.requeue_wddm_front(ready);
    assert_eq!(take(&mut g, 0), Ok(1));
    assert_eq!(take(&mut g, 0), Ok(2));
}

#[test]
fn decoding_is_enough_where_the_gpu_is_not_waited_for() {
    let mut g = gpu_with(Knobs {
        dma_gpu_fence: false,
        present_exact_watermark: true,
        hold_ms: 0,
        head_ms: 0,
    });
    submit(&mut g, 1, 1);
    assert!(note(&mut g, 1, None));
    // A named fence always includes the GPU.
    assert!(!g.note_wddm_submission(2, false, Some(1), None, None, false, 0, &mut Vec::new()));
    assert_eq!(g.wddm.pending[0].domain, RetireDomain::IncludingGpu);
    assert_eq!(g.wddm.pending[0].watermark, 2);
}

#[test]
fn an_exact_fence_does_not_wait_for_older_work() {
    let mut g = gpu();
    submit(&mut g, 1, 1);
    let f = submit(&mut g, 1, 2);
    assert!(!g.note_wddm_submission(1, false, Some(f), None, None, true, 0, &mut Vec::new()));
    assert_eq!(g.wddm.pending[0].wire_boundary, WireBoundary::Exact);
    g.drain_used(2, true, OK);
    assert_eq!(take(&mut g, 0), Ok(1));
    assert_eq!(g.wddm.counters.d3d12_exact_used, 1);
}

#[test]
fn a_foreign_fence_waits_for_everything() {
    let mut g = gpu();
    submit(&mut g, 1, 1);
    assert!(!g.note_wddm_submission(1, false, Some(77), None, None, true, 0, &mut Vec::new()));
    assert_eq!(g.wddm.pending[0].watermark, 2);
    assert_eq!(g.wddm.counters.fence_clamped, 1);
}

#[test]
fn a_hold_delays_only_what_asks_for_it() {
    let mut g = gpu_with(Knobs {
        dma_gpu_fence: true,
        present_exact_watermark: true,
        hold_ms: 2,
        head_ms: 0,
    });
    assert_eq!(g.wddm_hold_deadline(1000), 21_000);
    assert!(note(&mut g, 1, None));
    assert!(!g.note_wddm_submission(2, false, None, None, None, true, 1000, &mut Vec::new()));
    assert_eq!(take(&mut g, 20_999), Err(true));
    assert_eq!(g.wddm.counters.head_blocked_hold, 1);
    assert_eq!(take(&mut g, 21_000), Ok(2));
    assert_eq!(gpu().wddm_hold_deadline(1000), 0);
}

#[test]
fn a_submission_waits_for_its_stream() {
    let mut g = gpu();
    let boundary = stream(&mut g, 1);
    assert!(!note(&mut g, 1, Some(boundary)));
    assert_eq!(g.wddm.pending[0].watermark, 0);
    assert_eq!(g.wddm.counters.present_exact_used, 1);
    assert_eq!(take(&mut g, 0), Err(true));
    assert_eq!(g.wddm.counters.head_blocked_stream, 1);
    g.drain_used(1, true, OK);
    assert_eq!(take(&mut g, 0), Ok(1));
}

#[test]
fn a_dead_stream_is_no_dependency() {
    let mut g = gpu();
    let boundary = stream(&mut g, 1);
    g.drain_used(1, true, 0x1200);
    assert!(note(&mut g, 1, Some(boundary)));
}

#[test]
fn discharging_a_dead_stream_frees_its_waiters() {
    let mut g = gpu();
    let boundary = stream(&mut g, 1);
    assert!(!note(&mut g, 1, Some(boundary)));
    g.drain_used(1, true, 0x1200);
    assert_eq!(take(&mut g, 0), Err(true));
    let mut out = Vec::new();
    assert_eq!(g.discharge_dead_present_stream_waits(&mut out), 1);
    assert_eq!(g.wddm.pending[0].stream_boundary, None);
    assert_eq!(take(&mut g, 0), Ok(1));
    assert_eq!(g.discharge_dead_present_stream_waits(&mut out), 0);
}

#[test]
fn a_dead_stream_leaves_the_ordinary_order() {
    let mut g = gpu();
    submit(&mut g, 0, 5);
    let boundary = stream(&mut g, 1);
    assert!(!note(&mut g, 1, Some(boundary)));
    assert_eq!(g.wddm.pending[0].watermark, 0);
    submit(&mut g, 0, 6);
    // The host refuses the frame while older work is still in flight.
    g.drain_used(1, true, 0x1200);
    assert_eq!(g.discharge_dead_present_stream_waits(&mut Vec::new()), 1);
    assert_eq!(g.wddm.pending[0].watermark, g.wddm.pending[0].ordinary_watermark);
    assert_eq!(take(&mut g, 0), Err(true));
    // The older work ends; what was sent later is not waited for.
    g.drain_used(5, true, OK);
    assert_eq!(take(&mut g, 0), Ok(1));
}

#[test]
fn a_head_that_waits_too_long_rebases_once() {
    let mut g = gpu_with(Knobs {
        dma_gpu_fence: true,
        present_exact_watermark: true,
        hold_ms: 0,
        head_ms: 100,
    });
    let boundary = stream(&mut g, 1);
    assert!(!note(&mut g, 1, Some(boundary)));
    assert_eq!(take(&mut g, 10), Err(true));
    assert_eq!(g.wddm.pending[0].head_deadline_100ns, 1_000_010);
    assert_eq!(take(&mut g, 1_000_009), Err(true));
    assert!(!g.wddm.pending[0].rebased);
    // Rebased, it waits for the wire fence of the stream's own submission.
    assert_eq!(take(&mut g, 1_000_010), Err(true));
    assert!(g.wddm.pending[0].rebased);
    assert_eq!(g.wddm.pending[0].stream_boundary, None);
    assert_eq!(g.wddm.counters.head_rebased, 1);
    g.drain_used(1, true, OK);
    assert_eq!(take(&mut g, 1_000_011), Ok(1));
}

#[test]
fn a_full_fifo_completes_the_newest() {
    let mut g = gpu();
    submit(&mut g, 0, 1);
    for fence in 0..MAX_WDDM_PENDING as u32 {
        assert!(!note(&mut g, fence, None));
    }
    assert!(note(&mut g, 1000, None));
    assert_eq!(g.wddm_pending_overflows(), 1);
    assert_eq!(take(&mut g, 0), Err(false));
}

#[test]
fn after_a_failure_everything_completes() {
    let mut g = gpu();
    submit(&mut g, 0, 1);
    assert!(!note(&mut g, 1, None));
    g.drain_used(1, false, OK);
    assert!(note(&mut g, 2, None));
    assert_eq!(g.wddm.counters.signal_after_failure, 1);
    assert_eq!(take(&mut g, 0), Err(false));
}

#[test]
fn preemption_empties_the_fifo() {
    let mut g = gpu();
    submit(&mut g, 0, 1);
    assert!(!note(&mut g, 1, None));
    assert!(!note(&mut g, 2, None));
    assert_eq!(g.preempt_flush(), 2);
    assert_eq!(take(&mut g, 0), Err(false));
    assert!(!note(&mut g, 3, None));
    let mut out = Vec::new();
    assert_eq!(g.terminal_abandon_wddm_epoch(&mut out), 1);
    assert!(out.is_empty());
}

#[test]
fn a_submission_waits_for_its_copies_and_takes_their_ends() {
    let mut g = gpu();
    let boundary = stream(&mut g, 1);
    g.drain_used(1, true, OK);
    let t1 = g.queue_windowed_blt(50, 8, 9, 70, boundary, false, Some(60)).unwrap();
    let t2 = g.queue_windowed_blt(50, 8, 9, 71, boundary, false, Some(61)).unwrap();
    assert_eq!((t1, t2), (1, 2));
    let mut out = Vec::new();
    assert!(!g.note_wddm_submission(
        1, false, None, Some(boundary), Some(t2), false, 0, &mut out
    ));
    assert_eq!(take(&mut g, 0), Err(true));
    assert_eq!(g.wddm.counters.head_blocked_blt, 1);
    // The submission has admitted both copies.
    for t in [t1, t2] {
        let taken = g.take_ready_windowed_blt().unwrap();
        assert_eq!(taken.token, t);
        g.complete_windowed_blt_ring(50, t, boundary, true, &mut out);
    }
    let ready = match g.take_one_ready_wddm(0, &mut out) {
        WddmTake::Ready(r) => r,
        _ => panic!("the copies have ended"),
    };
    let prefix = WindowedBltTerminalPrefix::new(t2, boundary).unwrap();
    assert_eq!(ready.terminal_prefix(), Some(prefix));
    assert_eq!(ready.delivered(), 1);
    assert!(g.windowed_blt_terminal(t1, boundary));
    g.consume_windowed_blt_terminal_prefix(prefix);
    assert!(!g.windowed_blt_terminal(t1, boundary));
    assert!(!g.windowed_blt_terminal(t2, boundary));
    assert_eq!(
        out[..3],
        [
            Action::RetireRead { ticket: 60, cancelled: false },
            Action::RetireWanted { adapter: 50 },
            Action::WakeDisplay { adapter: 50 },
        ]
    );
}

#[test]
fn an_ordinary_submission_completes_behind_the_wire() {
    let mut g = gpu();
    submit(&mut g, 0, 1);
    submit(&mut g, 0, 2);
    let wire = g.wire_fence_watermark();
    assert!(!note(&mut g, 40, None));
    assert_eq!(g.wddm.pending[0].watermark, wire);
    // What is sent later holds nothing up, and moves nothing.
    submit(&mut g, 0, 3);
    assert!(!note(&mut g, 41, None));
    g.drain_used(2, true, OK);
    assert_eq!(take(&mut g, 0), Err(true));
    assert_eq!(g.wddm.pending[0].watermark, wire);
    g.drain_used(1, true, OK);
    assert_eq!(take(&mut g, 0), Ok(40));
    assert_eq!(take(&mut g, 0), Err(true));
    g.drain_used(3, true, OK);
    assert_eq!(take(&mut g, 0), Ok(41));
}
