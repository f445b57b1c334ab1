use helios_virtio::config::DxgkConfigAccess;
use helios_virtio::enqueue::AddResult;
use helios_virtio::error::VirtioError;
use helios_virtio::gpu::VirtioGpu;
use helios_virtio::hal::DmaBuffer;
use helios_virtio::inflight::Action;
use helios_virtio::init::Knobs;
use helios_virtio::owner::DeviceOwner;
use helios_virtio::present_stream::encode_present_stream_boundary;
use helios_virtio::windowed_blt::{WindowedBltTerminalPrefix, MAX_WINDOWED_BLT_PENDING};

const OK: u32 = 0x1100;
const REFUSED: u32 = 0x1200;

/// A device with one stream, and the boundary of that stream's first value. The
/// value is submitted as token 1.
fn gpu() -> (VirtioGpu, u64) {
    let mut resp = vec![0u8; 408];
    resp[1] = 0x11;
    let knobs =
        Knobs { dma_gpu_fence: true, present_exact_watermark: true, hold_ms: 0, head_ms: 0 };
    let mut g =
        VirtioGpu::init(&DxgkConfigAccess::new([0; 64]), &resp, None, Vec::new(), 1, knobs).unwrap();
    let owner = DeviceOwner::new(7).unwrap();
    assert!(g.reserve_context_slot());
    g.commit_context(Some(owner), 3);
    let cookie = g.register_present_stream(owner, 3, 99).unwrap();
    let boundary = g.present_stream_marker_boundary(3, 1, cookie, 99).unwrap();
    let added = AddResult::Token(1);
    g.enqueue_async_submit_present_stream(
        owner, 3, 1, cookie, 1, meta(), venus(), 64, added, &mut Vec::new(),
    )
    .unwrap();
    (g, boundary)
}

fn meta() -> DmaBuffer {
    DmaBuffer::new(56, 0x1000).unwrap()
}

fn venus() -> DmaBuffer {
    DmaBuffer::new(64, 0x2000).unwrap()
}

fn let_in(g: &mut VirtioGpu, boundary: u64, token: u64) {
    let mut out = Vec::new();
    assert!(!g.note_wddm_submission(
        1, false, None, Some(boundary), Some(token), false, 0, &mut out
    ));
    assert!(out.is_empty());
}

#[test]
fn a_prefix_names_a_stream_and_a_token() {
    let b = encode_present_stream_boundary(64, 5);
    assert!(WindowedBltTerminalPrefix::new(0, b).is_none());
    assert!(WindowedBltTerminalPrefix::new(3, 17).is_none());
    let p = WindowedBltTerminalPrefix::new(3, b).unwrap();
    assert!(p.contains(3, encode_present_stream_boundary(64, 1)));
    assert!(!p.contains(4, b));
    assert!(!p.contains(3, encode_present_stream_boundary(65, 5)));
}

#[test]
fn copies_that_cannot_be_reserved() {
    let (mut g, b) = gpu();
    let bad = Err(VirtioError::DeviceError);
    assert_eq!(g.plan_windowed_blt(0, 9, b), bad);
    assert_eq!(g.plan_windowed_blt(8, 8, b), bad);
    assert_eq!(g.plan_windowed_blt(8, 9, 17), bad);
    assert_eq!(g.plan_windowed_blt(8, 9, b), Ok(()));
    // Without a claim on the snapshot the token is spent all the same.
    assert_eq!(
        g.queue_windowed_blt(50, 8, 9, 70, b, false, None),
        Err(VirtioError::OutOfMemory)
    );
    assert_eq!(g.queue_windowed_blt(50, 8, 9, 70, b, false, Some(60)), Ok(2));
    for i in 1..MAX_WINDOWED_BLT_PENDING as u64 {
        assert_eq!(g.queue_windowed_blt(50, 8, 9, 70, b, false, Some(60)), Ok(2 + i));
    }
    assert_eq!(g.plan_windowed_blt(8, 9, b), Err(VirtioError::OutOfMemory));
    assert_eq!(
        g.queue_windowed_blt(50, 8, 9, 70, b, false, Some(60)),
        Err(VirtioError::OutOfMemory)
    );
}

#[test]
fn a_copy_is_sent_when_admitted_and_its_producer_is_done() {
    let (mut g, b) = gpu();
    let t = g.queue_windowed_blt(50, 8, 9, 70, b, false, Some(60)).unwrap();
    assert!(g.take_ready_windowed_blt().is_none());
    let_in(&mut g, b, t);
    assert!(g.take_ready_windowed_blt().is_none());
    assert!(!g.windowed_blt_submittable(t, b));
    // The producer's completion wakes the worker.
    assert_eq!(g.drain_used(1, true, OK), vec![Action::WakeDisplay { adapter: 50 }]);
    let taken = g.take_ready_windowed_blt().unwrap();
    assert_eq!((taken.token, taken.prepared, taken.dispatched), (t, 70, true));
    assert!(g.take_ready_windowed_blt().is_none());
    assert!(g.windowed_blt_submittable(t, b));
    let mut out = Vec::new();
    let added = AddResult::Token(2);
    assert_eq!(
        g.enqueue_async_submit_windowed_blt(50, meta(), venus(), 64, t, b, added, &mut out)
            .unwrap(),
        2
    );
    assert_eq!(
        g.drain_used(2, true, OK),
        vec![
            Action::RetireRead { ticket: 60, cancelled: false },
            Action::RetireWanted { adapter: 50 },
            Action::WakeDisplay { adapter: 50 },
        ]
    );
    assert!(g.windowed_blt_terminal(t, b));
}

#[test]
fn a_copy_that_was_not_taken_is_not_submitted() {
    let (mut g, b) = gpu();
    let t = g.queue_windowed_blt(50, 8, 9, 70, b, false, Some(60)).unwrap();
    let added = AddResult::Token(2);
    let (_, _, why) = g
        .enqueue_async_submit_windowed_blt(50, meta(), venus(), 64, t, b, added, &mut Vec::new())
        .unwrap_err();
    assert_eq!(why, VirtioError::DeviceError);
    assert_eq!(g.queue.inflight.len(), 1);
}

#[test]
fn a_mirrored_copy_ends_after_its_mirror() {
    let (mut g, b) = gpu();
    let t = g.queue_windowed_blt(50, 8, 9, 70, b, true, Some(60)).unwrap();
    let_in(&mut g, b, t);
    g.drain_used(1, true, OK);
    assert!(g.take_ready_windowed_blt().is_some());
    assert!(g.take_windowed_blt_mirror().is_none());
    let mut out = Vec::new();
    g.complete_windowed_blt_ring(50, t, b, true, &mut out);
    assert_eq!(
        out,
        vec![
            Action::RetireRead { ticket: 60, cancelled: false },
            Action::WakeDisplay { adapter: 50 },
        ]
    );
    assert!(!g.windowed_blt_terminal(t, b));
    let mirror = g.take_windowed_blt_mirror().unwrap();
    assert_eq!(mirror.token, t);
    assert!(g.take_windowed_blt_mirror().is_none());
    out.clear();
    g.complete_windowed_blt_mirror(50, t, b, true, &mut out);
    // The reader has ended already.
    assert_eq!(
        out,
        vec![Action::RetireWanted { adapter: 50 }, Action::WakeDisplay { adapter: 50 }]
    );
    assert!(g.windowed_blt_terminal(t, b));
}

#[test]
fn a_refused_copy_ends_cancelled() {
    let (mut g, b) = gpu();
    let t = g.queue_windowed_blt(50, 8, 9, 70, b, true, Some(60)).unwrap();
    let_in(&mut g, b, t);
    g.drain_used(1, true, OK);
    assert!(g.take_ready_windowed_blt().is_some());
    let mut out = Vec::new();
    let added = AddResult::Token(2);
    g.enqueue_async_submit_windowed_blt(50, meta(), venus(), 64, t, b, added, &mut out).unwrap();
    assert_eq!(
        g.drain_used(2, true, REFUSED)[0],
        Action::RetireRead { ticket: 60, cancelled: true }
    );
    assert!(g.windowed_blt_terminal(t, b));
}

#[test]
fn a_cancelled_copy_leaves_no_end() {
    let (mut g, b) = gpu();
    let t = g.queue_windowed_blt(50, 8, 9, 70, b, false, Some(60)).unwrap();
    let mut out = Vec::new();
    g.cancel_windowed_blt(50, t, b, &mut out);
    assert_eq!(
        out,
        vec![
            Action::RetireRead { ticket: 60, cancelled: true },
            Action::WakeDisplay { adapter: 50 },
        ]
    );
    assert!(!g.windowed_blt_terminal(t, b));
    out.clear();
    g.cancel_windowed_blt(50, t, b, &mut out);
    assert!(out.is_empty());
}

#[test]
fn a_resource_goes_when_no_copy_runs_on_it() {
    let (mut g, b) = gpu();
    let t1 = g.queue_windowed_blt(50, 8, 9, 70, b, true, Some(60)).unwrap();
    let t2 = g.queue_windowed_blt(50, 8, 9, 70, b, false, Some(61)).unwrap();
    let t3 = g.queue_windowed_blt(50, 10, 11, 70, b, false, Some(62)).unwrap();
    let_in(&mut g, b, t1);
    g.drain_used(1, true, OK);
    assert_eq!(g.take_ready_windowed_blt().unwrap().token, t1);
    let mut out = Vec::new();
    // Unsent copies that name the resource go at once.
    g.cancel_windowed_blt_for_resource(50, 9, &mut out);
    assert_eq!(out[0], Action::RetireRead { ticket: 61, cancelled: true });
    assert_eq!(g.blt.pending.iter().map(|r| r.token).collect::<Vec<u64>>(), vec![t1, t3]);
    assert!(!g.windowed_blt_terminal(t2, b));
    // One still runs.
    assert!(!g.finish_windowed_blt_teardown_for_resource(50, 9, &mut out));
    g.complete_windowed_blt_ring(50, t1, b, true, &mut out);
    assert!(g.finish_windowed_blt_teardown_for_resource(50, 9, &mut out));
    assert!(g.windowed_blt_terminal(t1, b));
    assert_eq!(g.blt.pending.len(), 1);
    assert!(g.blt.pending[0].uses_resource(10));
    assert!(!g.blt.pending[0].uses_resource(9));
}

#[test]
fn preemption_revokes_admission() {
    let (mut g, b) = gpu();
    let t = g.queue_windowed_blt(50, 8, 9, 70, b, false, Some(60)).unwrap();
    let_in(&mut g, b, t);
    g.drain_used(1, true, OK);
    assert_eq!(g.preempt_flush(), 1);
    assert!(g.take_ready_windowed_blt().is_none());
    let_in(&mut g, b, t);
    assert!(g.take_ready_windowed_blt().is_some());
}

#[test]
fn an_abandoned_epoch_cancels_what_was_not_sent() {
    let (mut g, b) = gpu();
    let t1 = g.queue_windowed_blt(50, 8, 9, 70, b, false, Some(60)).unwrap();
    let t2 = g.queue_windowed_blt(50, 8, 9, 70, b, false, Some(61)).unwrap();
    let_in(&mut g, b, t2);
    g.drain_used(1, true, OK);
    assert_eq!(g.take_ready_windowed_blt().unwrap().token, t1);
    let mut out = Vec::new();
    assert_eq!(g.terminal_abandon_wddm_epoch(&mut out), 1);
    assert_eq!(out[0], Action::RetireRead { ticket: 61, cancelled: true });
    // The copy that was sent runs on, but owes no end.
    g.complete_windowed_blt_ring(50, t1, b, true, &mut out);
    assert!(!g.windowed_blt_terminal(t1, b));
    assert!(g.blt.pending.is_empty());
}

#[test]
fn a_failure_aborts_every_copy() {
    let (mut g, b) = gpu();
    g.queue_windowed_blt(50, 8, 9, 70, b, false, Some(60)).unwrap();
    let out = g.drain_used(1, false, OK);
    assert_eq!(out, vec![Action::RetireRead { ticket: 60, cancelled: true }]);
    assert!(g.blt.pending.is_empty());
    assert_eq!(g.plan_windowed_blt(8, 9, b), Err(VirtioError::DeviceError));
}

#[test]
fn ends_are_consumed_up_to_the_prefix() {
    let (mut g, b) = gpu();
    let t1 = g.queue_windowed_blt(50, 8, 9, 70, b, false, Some(60)).unwrap();
    let t2 = g.queue_windowed_blt(50, 8, 9, 70, b, false, Some(61)).unwrap();
    let mut out = Vec::new();
    g.complete_windowed_blt_ring(50, t1, b, true, &mut out);
    g.complete_windowed_blt_ring(50, t2, b, true, &mut out);
    let first = WindowedBltTerminalPrefix::new(t1, b).unwrap();
    let second = WindowedBltTerminalPrefix::new(t2, b).unwrap();
    assert!(g.blt.terminal_prefix_ready(first));
    assert!(g.blt.terminal_prefix_ready(second));
    g.consume_windowed_blt_terminal_prefix(first);
    assert!(!g.blt.terminal_contains(t1, b));
    assert!(g.blt.terminal_contains(t2, b));
    assert!(!g.blt.terminal_prefix_ready(first));
}
