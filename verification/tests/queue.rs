use helios_virtio::config::DxgkConfigAccess;
use helios_virtio::ctrl::reap_parked;
use helios_virtio::enqueue::AddResult;
use helios_virtio::error::VirtioError;
use helios_virtio::fences::{FenceEventReg, FenceWaitPrep};
use helios_virtio::gpu::VirtioGpu;
use helios_virtio::hal::DmaBuffer;
use helios_virtio::inflight::{Action, ControlCells, ScanoutFlushToken, ScanoutNotify};
use helios_virtio::init::Knobs;
use helios_virtio::protocol::read32;
use helios_virtio::queue::{
    SyncOutcome, MAX_DMA_POOL_BUFFER_BYTES, MAX_INFLIGHT, PARKED_ENQUEUE_GATE,
};

const OK: u32 = 0x1100;
const REFUSED: u32 = 0x1200;

fn gpu() -> VirtioGpu {
    let mut resp = vec![0u8; 408];
    resp[1] = 0x11;
    let knobs =
        Knobs { dma_gpu_fence: true, present_exact_watermark: true, hold_ms: 0, head_ms: 0 };
    VirtioGpu::init(&DxgkConfigAccess::new([0; 64]), &resp, None, Vec::new(), 1, knobs).unwrap()
}

fn buffer(len: usize) -> DmaBuffer {
    DmaBuffer::new(len, 0x1000).unwrap()
}

fn cells() -> ControlCells {
    ControlCells {
        completion: 1,
        completion_errors: 2,
        wake_event: 3,
        success_cell: Some(4),
        success_value: 77,
        resubmit: Some(5),
    }
}

fn flush(covers_epoch: u64) -> ScanoutFlushToken {
    ScanoutFlushToken { adapter: 50, covers_epoch, resource_id: 8, ledger_ticket: 60 }
}

#[test]
fn a_command_with_a_waiter_runs_once() {
    let mut g = gpu();
    let mut out = Vec::new();
    let spans = g.plan_sync(&buffer(56), 32, 0, 24, None).unwrap();
    assert_eq!((spans.count, spans.resp.offset), (1, 32));
    let (ticket, seq) = g
        .enqueue_sync(buffer(56), 32, 0, 24, 500, None, 1, AddResult::Token(9), &mut out)
        .unwrap();
    assert_eq!((ticket.raw(), seq), (9, None));
    assert_eq!(g.drain_spans(9), Some(spans));
    assert_eq!(g.drain_used(9, true, OK), vec![Action::CompleteBlock { block: 500, copy: 24 }]);
    assert!(out.is_empty());
    assert_eq!(g.parked_len(), 1);
    assert_eq!(g.abandon_sync(ticket, 500), SyncOutcome::AlreadyCompleted);
}

#[test]
fn a_waiter_that_gave_up_is_not_woken() {
    let mut g = gpu();
    let (ticket, _) = g
        .enqueue_sync(buffer(56), 32, 0, 24, 500, None, 1, AddResult::Token(9), &mut Vec::new())
        .unwrap();
    assert_eq!(g.abandon_sync(ticket, 500), SyncOutcome::Abandoned);
    assert!(g.drain_used(9, true, OK).is_empty());
}

#[test]
fn spans_that_do_not_fit_are_refused() {
    let mut g = gpu();
    assert_eq!(g.plan_sync(&buffer(56), 33, 0, 24, None), Err(VirtioError::DeviceError));
    let (back, why) = g
        .enqueue_sync(buffer(56), 33, 0, 24, 500, None, 1, AddResult::Token(9), &mut Vec::new())
        .unwrap_err();
    assert_eq!(back, buffer(56));
    assert_eq!(why, VirtioError::DeviceError);
    assert!(!g.transport_failed());
}

#[test]
fn a_full_queue_is_no_failure() {
    let mut g = gpu();
    let mut out = Vec::new();
    let (_, why) = g
        .enqueue_sync(buffer(56), 32, 0, 24, 500, None, 1, AddResult::QueueFull, &mut out)
        .unwrap_err();
    assert_eq!(why, VirtioError::QueueFull);
    assert_eq!(g.queue.counters.queue_full_retries, 1);
    assert!(!g.transport_failed());
    assert!(out.is_empty());
}

#[test]
fn tables_refuse_before_they_are_full() {
    let mut g = gpu();
    for token in 0..MAX_INFLIGHT as u16 {
        assert!(g
            .enqueue_async_submit(
                0, buffer(56), buffer(64), 64, AddResult::Token(token), &mut Vec::new()
            )
            .is_ok());
    }
    assert_eq!(g.plan_sync(&buffer(56), 32, 0, 24, None), Err(VirtioError::QueueFull));
    // A command that does not fit its buffer is malformed even now.
    assert_eq!(g.plan_sync(&buffer(55), 32, 0, 24, None), Err(VirtioError::DeviceError));
    for token in 0..MAX_INFLIGHT as u16 {
        assert!(g.drain_used(token, true, OK).is_empty());
    }
    let mut round = 1;
    while g.parked_len() < PARKED_ENQUEUE_GATE {
        assert!(g
            .enqueue_async_submit(
                0, buffer(56), buffer(64), 64, AddResult::Token(round), &mut Vec::new()
            )
            .is_ok());
        assert!(g.drain_used(round, true, OK).is_empty());
        round += 1;
    }
    assert_eq!(g.plan_sync(&buffer(56), 32, 0, 24, None), Err(VirtioError::QueueFull));
    assert_eq!(g.queue.counters.parked_leaks, 0);
}

#[test]
fn a_failed_add_fails_everything() {
    let mut g = gpu();
    let f = g
        .enqueue_async_submit(0, buffer(56), buffer(64), 64, AddResult::Token(1), &mut Vec::new())
        .unwrap();
    assert_eq!(g.fence_wait_prepare(f, 70), FenceWaitPrep::Registered);
    let mut out = Vec::new();
    let (_, why) = g
        .enqueue_sync(buffer(56), 32, 0, 24, 500, None, 1, AddResult::Failed, &mut out)
        .unwrap_err();
    assert_eq!(why, VirtioError::DeviceError);
    assert!(g.transport_failed());
    assert_eq!(out, vec![Action::FailBlock { block: 70 }]);
    assert!(g.queue.inflight.is_empty());
    // And so it stays.
    assert!(g.drain_used(1, true, OK).is_empty());
    assert_eq!(g.plan_sync(&buffer(56), 32, 0, 24, None), Err(VirtioError::DeviceError));
}

#[test]
fn an_unknown_completion_fails_everything() {
    let mut g = gpu();
    g.enqueue_sync(buffer(56), 32, 0, 24, 500, None, 1, AddResult::Token(9), &mut Vec::new())
        .unwrap();
    assert_eq!(g.drain_spans(8), None);
    assert_eq!(g.drain_used(8, true, OK), vec![Action::FailBlock { block: 500 }]);
    assert_eq!(g.queue.counters.drain_bad_token, 1);
    assert!(g.transport_failed());
}

#[test]
fn a_pop_that_fails_fails_everything() {
    let mut g = gpu();
    g.enqueue_sync(buffer(56), 32, 0, 24, 500, None, 1, AddResult::Token(9), &mut Vec::new())
        .unwrap();
    assert_eq!(g.drain_used(9, false, OK), vec![Action::FailBlock { block: 500 }]);
    assert_eq!(g.queue.counters.drain_bad_token, 0);
    assert!(g.transport_failed());
}

#[test]
fn a_successful_command_stores_before_it_wakes() {
    let mut g = gpu();
    let mut out = Vec::new();
    assert!(g.plan_async_control(&buffer(120), 96, 24, None).is_ok());
    let token = g
        .enqueue_async_control(buffer(120), 96, 24, cells(), None, AddResult::Token(5), &mut out)
        .unwrap();
    assert_eq!(token, 5);
    assert_eq!(
        g.drain_used(5, true, OK),
        vec![
            Action::Store { cell: 4, value: 77 },
            Action::Store { cell: 5, value: 1 },
            Action::Store { cell: 1, value: 0 },
            Action::Wake { event: 3 },
        ]
    );
    assert_eq!(g.queue.counters.async_ctrl_completes, 1);
}

#[test]
fn a_refused_command_is_counted_and_wakes() {
    let mut g = gpu();
    g.enqueue_async_control(
        buffer(120), 96, 24, cells(), None, AddResult::Token(5), &mut Vec::new(),
    )
    .unwrap();
    assert_eq!(
        g.drain_used(5, true, REFUSED),
        vec![
            Action::Increment { cell: 2 },
            Action::Store { cell: 1, value: 0 },
            Action::Wake { event: 3 },
        ]
    );
    assert_eq!(g.queue.counters.async_ctrl_resp_errors, 1);
}

#[test]
fn a_command_needs_bytes_and_a_short_response() {
    let mut g = gpu();
    for (in0, resp) in [(0usize, 24usize), (96, 0), (8, 65)] {
        let (_, why) = g
            .enqueue_async_control(
                buffer(120), in0, resp, cells(), None, AddResult::Token(5), &mut Vec::new(),
            )
            .unwrap_err();
        assert_eq!(why, VirtioError::DeviceError);
    }
}

#[test]
fn a_flush_retires_its_claim_once() {
    let mut g = gpu();
    g.enqueue_async_control(
        buffer(72), 48, 24, cells(), Some(flush(6)), AddResult::Token(5), &mut Vec::new(),
    )
    .unwrap();
    assert_eq!(
        &g.drain_used(5, true, OK)[..2],
        &[
            Action::RetireRead { ticket: 60, cancelled: false },
            Action::EndLeases { adapter: 50, through: 6, host_read: true },
        ]
    );
    // A read that covers no presentation ends no lease.
    g.enqueue_async_control(
        buffer(72), 48, 24, cells(), Some(flush(0)), AddResult::Token(5), &mut Vec::new(),
    )
    .unwrap();
    let done = g.drain_used(5, true, REFUSED);
    assert_eq!(done[0], Action::RetireRead { ticket: 60, cancelled: false });
    assert!(!done.iter().any(|a| matches!(a, Action::EndLeases { .. })));
}

#[test]
fn a_completed_flush_ends_its_leases() {
    let mut out = Vec::new();
    flush(6).complete(false, &mut out);
    assert_eq!(
        out,
        vec![
            Action::RetireRead { ticket: 60, cancelled: false },
            Action::EndLeases { adapter: 50, through: 6, host_read: false },
        ]
    );
}

#[test]
fn a_flush_that_is_refused_gives_up_its_claim() {
    let mut g = gpu();
    let given_up = vec![Action::RetireRead { ticket: 60, cancelled: true }];
    for (in0, added) in [(0usize, AddResult::Token(5)), (48, AddResult::QueueFull)] {
        let mut out = Vec::new();
        assert!(g
            .enqueue_async_control(buffer(72), in0, 24, cells(), Some(flush(6)), added, &mut out)
            .is_err());
        assert_eq!(out, given_up);
    }
    let mut out = Vec::new();
    assert!(g
        .enqueue_async_control(
            buffer(72), 48, 24, cells(), Some(flush(6)), AddResult::Failed, &mut out
        )
        .is_err());
    assert_eq!(out, given_up);
}

#[test]
fn a_submission_carries_the_next_fence() {
    let mut g = gpu();
    let (venus, plan) = g.plan_submit(3, 1, &buffer(56), buffer(64), 64);
    let plan = plan.unwrap();
    assert_eq!(plan.fence_id, 1);
    assert_eq!(read32(&plan.header, 0), 0x0207);
    assert_eq!(read32(&plan.header, 8), 1);
    assert_eq!(plan.spans.second.len, 64);
    let f = g
        .enqueue_async_submit(1, buffer(56), venus, 64, AddResult::Token(1), &mut Vec::new())
        .unwrap();
    assert_eq!(f, 1);
    assert_eq!(g.queue.counters.async_submits, 1);
    assert_eq!(g.queue.counters.ring_submits, 1);
    assert!(g.drain_used(1, true, REFUSED).is_empty());
    assert_eq!(g.queue.counters.async_resp_errors, 1);
    assert_eq!(g.queue.counters.ring_completes, 1);
}

#[test]
fn a_copy_is_shown_only_when_it_succeeded() {
    let notify = ScanoutNotify {
        pending: 1,
        displayed_primary: 2,
        programming: 3,
        ticket: 4,
        primary_address: 0xabc,
        event: 5,
    };
    let mut g = gpu();
    for (resp, shown) in [(OK, true), (REFUSED, false)] {
        g.enqueue_scanout_submit(
            buffer(56), buffer(64), 64, notify, AddResult::Token(1), &mut Vec::new(),
        )
        .unwrap();
        let mut want = Vec::new();
        if shown {
            want.push(Action::Store { cell: 2, value: 0xabc });
            want.push(Action::Store { cell: 1, value: 1 });
        }
        want.push(Action::LowerGate { gate: 3, ticket: 4 });
        want.push(Action::Wake { event: 5 });
        assert_eq!(g.drain_used(1, true, resp), want);
    }
}

#[test]
fn finished_buffers_are_pooled_and_reused() {
    let mut g = gpu();
    g.enqueue_async_submit(
        0, buffer(56), buffer(64), 64, AddResult::Token(1), &mut Vec::new(),
    )
    .unwrap();
    g.drain_used(1, true, OK);
    assert!(reap_parked(&mut g).is_empty());
    assert_eq!(g.parked_len(), 0);
    assert_eq!(g.queue.dma_pool.len(), 2);
    assert_eq!(g.queue.dma_pool_bytes, 8192);
    let b = g.take_dma_buffer(4096).unwrap();
    assert_eq!(b.len, 4096);
    assert_eq!(g.queue.dma_pool_bytes, 4096);
    assert!(g.take_dma_buffer(4097).is_none());
    // What the pool does not take comes back to be freed.
    let big = DmaBuffer::new(MAX_DMA_POOL_BUFFER_BYTES + 1, 0x9000).unwrap();
    let left = g.recycle_dma_buffers(vec![b, big]);
    assert_eq!(left.len(), 1);
    assert_eq!(left[0].physical_address(), 0x9000);
}

#[test]
fn one_reap_runs_at_a_time() {
    let mut g = gpu();
    g.enqueue_async_submit(
        0, buffer(56), buffer(64), 64, AddResult::Token(1), &mut Vec::new(),
    )
    .unwrap();
    g.drain_used(1, true, OK);
    let (entries, buffers) = g.begin_parked_reap().unwrap();
    assert_eq!(entries.len(), 1);
    assert!(g.begin_parked_reap().is_none());
    assert_eq!(g.abort_parked_reap(entries, buffers).len(), 2);
    assert_eq!(g.queue.counters.reap_abandoned, 1);
    // Nothing is parked any more, and another reap can run.
    assert!(g.begin_parked_reap().is_none());
    g.enqueue_sync(buffer(56), 32, 0, 24, 500, None, 1, AddResult::Token(3), &mut Vec::new())
        .unwrap();
    g.drain_used(3, true, OK);
    let (entries, buffers) = g.begin_parked_reap().unwrap();
    assert_eq!(g.finish_parked_reap(entries, buffers), vec![buffer(56)]);
}

#[test]
fn the_end_hands_back_every_buffer() {
    let mut g = gpu();
    let f = g
        .enqueue_async_submit(0, buffer(56), buffer(64), 64, AddResult::Token(1), &mut Vec::new())
        .unwrap();
    g.fence_event_register(f, 20);
    g.enqueue_async_control(
        buffer(72), 48, 24, cells(), Some(flush(6)), AddResult::Token(2), &mut Vec::new(),
    )
    .unwrap();
    g.enqueue_sync(buffer(56), 32, 0, 24, 500, None, 1, AddResult::Token(3), &mut Vec::new())
        .unwrap();
    g.drain_used(3, true, OK);
    let mut out = Vec::new();
    let buffers = g.teardown(&mut out);
    assert_eq!(buffers.len(), 4);
    // No event is signalled, and the claim of the flush is given up.
    assert_eq!(
        out,
        vec![
            Action::Release { event: 20 },
            Action::RetireRead { ticket: 60, cancelled: true },
        ]
    );
    assert_eq!(g.fence_events_live(), 0);
    assert!(g.queue.inflight.is_empty());
}

#[test]
fn a_reap_pools_or_returns_every_buffer() {
    let mut g = gpu();
    let big = DmaBuffer::new(MAX_DMA_POOL_BUFFER_BYTES + 1, 0x9000).unwrap();
    g.enqueue_async_submit(0, buffer(56), big, 64, AddResult::Token(1), &mut Vec::new()).unwrap();
    g.enqueue_sync(buffer(56), 32, 0, 24, 500, None, 1, AddResult::Token(2), &mut Vec::new())
        .unwrap();
    g.drain_used(1, true, OK);
    let woken = g.drain_used(2, true, OK);
    assert_eq!(woken, vec![Action::CompleteBlock { block: 500, copy: 24 }]);
    let left = reap_parked(&mut g);
    assert_eq!(left.len(), 1);
    assert_eq!(left[0].physical_address(), 0x9000);
    assert_eq!(g.queue.dma_pool.len(), 2);
    assert!(reap_parked(&mut g).is_empty());
}

#[test]
fn a_failure_reaches_everyone_once() {
    let mut g = gpu();
    let mut out = Vec::new();
    let f = g.enqueue_async_submit(0, buffer(56), buffer(64), 64, AddResult::Token(1), &mut out);
    let f = f.unwrap();
    g.enqueue_sync(buffer(56), 32, 0, 24, 500, None, 1, AddResult::Token(2), &mut out).unwrap();
    let cells = ControlCells {
        completion: 30,
        completion_errors: 31,
        wake_event: 32,
        success_cell: Some(33),
        success_value: 7,
        resubmit: None,
    };
    g.enqueue_async_control(buffer(56), 32, 24, cells, None, AddResult::Token(3), &mut out)
        .unwrap();
    assert_eq!(g.fence_wait_prepare(f, 70), FenceWaitPrep::Registered);
    assert_eq!(g.fence_event_register(f, 80), FenceEventReg::Registered);
    assert!(out.is_empty());
    let actions = g.drain_used(99, true, OK);
    for once in [
        Action::FailBlock { block: 500 },
        Action::FailBlock { block: 70 },
        Action::SignalAndRelease { event: 80 },
        Action::Increment { cell: 31 },
        Action::Store { cell: 30, value: 0 },
        Action::Wake { event: 32 },
    ] {
        assert_eq!(actions.iter().filter(|a| **a == once).count(), 1);
    }
    assert_eq!(actions.len(), 6);
}
