use helios_virtio::config::DxgkConfigAccess;
use helios_virtio::ctrl::{
    ctrl_roundtrip, ctrl_roundtrip_ok, resource_map_blob_roundtrip, wait_fence, wait_fence_gone,
    BlockWait, Budget,
    FenceWait, FenceWaitEvent, FenceWaitStep, Roundtrip, RoundtripEvent, RoundtripStep,
    WaitFenceOutcome, WaitStep, Wake, ENQUEUE_RETRY_MAX_MS, WAIT_FENCE_MAX_MS, WAIT_TABLE_RETRIES,
};
use helios_virtio::enqueue::AddResult;
use helios_virtio::error::VirtioError;
use helios_virtio::gpu::VirtioGpu;
use helios_virtio::hal::DmaBuffer;
use helios_virtio::inflight::Action;
use helios_virtio::init::Knobs;
use helios_virtio::queue::SyncOutcome;
use helios_virtio::submit::{
    judge_submit, submit_3d_sync, submit_venus_async, submit_venus_async_present,
    submit_venus_sync, SubmitStep,
};
use helios_virtio::owner::DeviceOwner;

const OK: u32 = 0x1100;

fn gpu() -> VirtioGpu {
    let mut resp = vec![0u8; 408];
    resp[1] = 0x11;
    let knobs =
        Knobs { dma_gpu_fence: true, present_exact_watermark: true, hold_ms: 0, head_ms: 0 };
    VirtioGpu::init(&DxgkConfigAccess::new([0; 64]), &resp, None, Vec::new(), 1, knobs).unwrap()
}

fn meta() -> DmaBuffer {
    DmaBuffer::new(56, 0x1000).unwrap()
}

fn venus() -> DmaBuffer {
    DmaBuffer::new(64, 0x2000).unwrap()
}

fn submit(g: &mut VirtioGpu, token: u16) -> u64 {
    g.enqueue_async_submit(0, meta(), venus(), 64, AddResult::Token(token), &mut Vec::new())
        .unwrap()
}

#[test]
fn a_budget_counts_its_milliseconds() {
    let mut b = Budget::new(2);
    assert!(!b.charge_slice());
    assert!(!b.charge_slice());
    assert!(!b.expired());
    assert!(b.charge_slice());
    assert!(b.expired());
    assert_eq!(b.elapsed_ms(), 3);
    assert!(Budget::new(0).charge_slice());
}

#[test]
fn slices_double_up_to_a_second() {
    let mut w = BlockWait::new(5000);
    let mut slices = Vec::new();
    while let WaitStep::Sleep(ms) = w.wait_block(false) {
        slices.push(ms);
    }
    assert_eq!(slices[..11], [1, 2, 4, 8, 16, 32, 64, 128, 256, 512, 1000]);
    assert_eq!(slices.iter().sum::<u64>(), 5000);
    assert_eq!(w.wait_block(false), WaitStep::TimedOut);
    assert_eq!(w.wait_block(true), WaitStep::Done);
    assert_eq!(BlockWait::new(0).wait_block(false), WaitStep::TimedOut);
}

fn begun(timeout_ms: u64) -> Roundtrip {
    let mut rt = Roundtrip::new(timeout_ms);
    let begin = RoundtripEvent::Begin { in0_len: 32, in1_len: 0, resp_len: 24 };
    assert_eq!(ctrl_roundtrip(&mut rt, begin), RoundtripStep::Allocate(56));
    assert_eq!(ctrl_roundtrip(&mut rt, RoundtripEvent::Allocated(true)), RoundtripStep::Enqueue);
    rt
}

#[test]
fn a_round_trip_that_succeeds() {
    let mut rt = begun(100);
    assert_eq!(ctrl_roundtrip(&mut rt, RoundtripEvent::Enqueued), RoundtripStep::Wait(1));
    assert_eq!(ctrl_roundtrip(&mut rt, RoundtripEvent::Waited(false)), RoundtripStep::Wait(2));
    assert_eq!(ctrl_roundtrip(&mut rt, RoundtripEvent::Waited(true)), RoundtripStep::Succeed);
    assert_eq!(
        ctrl_roundtrip(&mut rt, RoundtripEvent::Waited(true)),
        RoundtripStep::Fail(VirtioError::DeviceError)
    );
}

#[test]
fn a_round_trip_needs_a_request_and_room_for_the_answer() {
    for (in0_len, resp_len) in [(0usize, 24usize), (32, 0)] {
        let mut rt = Roundtrip::new(100);
        assert_eq!(
            ctrl_roundtrip(&mut rt, RoundtripEvent::Begin { in0_len, in1_len: 8, resp_len }),
            RoundtripStep::Fail(VirtioError::DeviceError)
        );
    }
    let mut rt = Roundtrip::new(100);
    ctrl_roundtrip(&mut rt, RoundtripEvent::Begin { in0_len: 32, in1_len: 8, resp_len: 24 });
    assert_eq!(
        ctrl_roundtrip(&mut rt, RoundtripEvent::Allocated(false)),
        RoundtripStep::Fail(VirtioError::OutOfMemory)
    );
}

#[test]
fn a_full_queue_is_retried_within_its_budget() {
    let mut rt = begun(100);
    for _ in 0..ENQUEUE_RETRY_MAX_MS {
        assert_eq!(
            ctrl_roundtrip(&mut rt, RoundtripEvent::Refused(VirtioError::QueueFull)),
            RoundtripStep::Retry(1)
        );
        assert_eq!(ctrl_roundtrip(&mut rt, RoundtripEvent::Slept), RoundtripStep::Enqueue);
    }
    assert_eq!(
        ctrl_roundtrip(&mut rt, RoundtripEvent::Refused(VirtioError::QueueFull)),
        RoundtripStep::Fail(VirtioError::QueueFull)
    );
    let mut rt = begun(100);
    assert_eq!(
        ctrl_roundtrip(&mut rt, RoundtripEvent::Refused(VirtioError::PublicationBusy)),
        RoundtripStep::Fail(VirtioError::PublicationBusy)
    );
    let mut rt = begun(100);
    assert_eq!(
        ctrl_roundtrip(&mut rt, RoundtripEvent::Gone),
        RoundtripStep::Fail(VirtioError::DeviceError)
    );
}

#[test]
fn a_wait_that_times_out_gives_up_one_command() {
    for (found, step) in [
        (SyncOutcome::AlreadyCompleted, RoundtripStep::Succeed),
        (SyncOutcome::Abandoned, RoundtripStep::Fail(VirtioError::Timeout)),
        (SyncOutcome::NotOurs, RoundtripStep::Fail(VirtioError::DeviceError)),
    ] {
        let mut rt = begun(3);
        assert_eq!(ctrl_roundtrip(&mut rt, RoundtripEvent::Enqueued), RoundtripStep::Wait(1));
        assert_eq!(ctrl_roundtrip(&mut rt, RoundtripEvent::Waited(false)), RoundtripStep::Wait(2));
        assert_eq!(ctrl_roundtrip(&mut rt, RoundtripEvent::Waited(false)), RoundtripStep::GiveUp);
        assert_eq!(ctrl_roundtrip(&mut rt, RoundtripEvent::GaveUp(found)), step);
    }
}

#[test]
fn giving_up_is_counted() {
    let mut g = gpu();
    let (ticket, _) = g
        .enqueue_sync(meta(), 32, 0, 24, 500, None, 1, AddResult::Token(9), &mut Vec::new())
        .unwrap();
    assert_eq!(g.give_up_sync(ticket, 500), SyncOutcome::Abandoned);
    assert_eq!(g.queue.counters.ctrl_timeouts, 1);
    let (ticket, _) = g
        .enqueue_sync(meta(), 32, 0, 24, 501, None, 1, AddResult::Token(10), &mut Vec::new())
        .unwrap();
    assert_eq!(g.give_up_sync(ticket, 502), SyncOutcome::NotOurs);
    let (ticket, _) = g
        .enqueue_sync(meta(), 32, 0, 24, 503, None, 1, AddResult::Token(11), &mut Vec::new())
        .unwrap();
    g.drain_used(11, true, OK);
    assert_eq!(g.give_up_sync(ticket, 503), SyncOutcome::AlreadyCompleted);
    assert_eq!(g.queue.counters.ctrl_timeouts, 1);
}

#[test]
fn answers_are_judged_by_their_type() {
    let mut resp = vec![0u8; 32];
    assert_eq!(ctrl_roundtrip_ok(Ok(()), &resp), Err(VirtioError::DeviceError));
    resp[1] = 0x11;
    resp[24] = 0x12;
    assert_eq!(ctrl_roundtrip_ok(Ok(()), &resp), Ok(()));
    assert_eq!(ctrl_roundtrip_ok(Err(VirtioError::Timeout), &resp), Err(VirtioError::Timeout));
    assert_eq!(resource_map_blob_roundtrip(Ok(()), &resp), Ok(2));
    assert_eq!(
        resource_map_blob_roundtrip(Err(VirtioError::QueueFull), &resp),
        Err(VirtioError::QueueFull)
    );
}

#[test]
fn a_fence_wait_ends_when_the_fence_retires() {
    let mut g = gpu();
    let f = submit(&mut g, 1);
    let mut w = FenceWait::new(f, 500, 10_000_000);
    assert_eq!(wait_fence(&mut g, &mut w, FenceWaitEvent::Drained(Wake::Asleep)), FenceWaitStep::Wait(1));
    assert_eq!(wait_fence(&mut g, &mut w, FenceWaitEvent::Waited(Wake::Asleep)), FenceWaitStep::Wait(2));
    g.drain_used(1, true, OK);
    assert_eq!(
        wait_fence(&mut g, &mut w, FenceWaitEvent::Waited(Wake::Completed)),
        FenceWaitStep::Finish(WaitFenceOutcome::Complete)
    );
    let mut w = FenceWait::new(f, 500, 10_000_000);
    assert_eq!(
        wait_fence(&mut g, &mut w, FenceWaitEvent::Drained(Wake::Asleep)),
        FenceWaitStep::Finish(WaitFenceOutcome::Complete)
    );
}

#[test]
fn a_fence_wait_that_times_out_takes_its_waiter_back() {
    let mut g = gpu();
    let f = submit(&mut g, 1);
    let mut w = FenceWait::new(f, 500, 1);
    // The shortest wait is a millisecond.
    assert_eq!(wait_fence(&mut g, &mut w, FenceWaitEvent::Drained(Wake::Asleep)), FenceWaitStep::Wait(1));
    assert_eq!(wait_fence(&mut g, &mut w, FenceWaitEvent::Waited(Wake::Asleep)), FenceWaitStep::Drain);
    assert_eq!(
        wait_fence(&mut g, &mut w, FenceWaitEvent::Drained(Wake::Asleep)),
        FenceWaitStep::Finish(WaitFenceOutcome::TimedOut)
    );
    assert!(g.fences.waiters.is_empty());
    assert_eq!(g.fences.counters.wait_timeouts, 1);
    // The fence retires in the last drain.
    let mut w = FenceWait::new(f, 500, 1);
    wait_fence(&mut g, &mut w, FenceWaitEvent::Drained(Wake::Asleep));
    wait_fence(&mut g, &mut w, FenceWaitEvent::Waited(Wake::Asleep));
    g.drain_used(1, true, OK);
    assert_eq!(
        wait_fence(&mut g, &mut w, FenceWaitEvent::Drained(Wake::Asleep)),
        FenceWaitStep::Finish(WaitFenceOutcome::Complete)
    );
}

#[test]
fn a_poll_does_not_wait() {
    let mut g = gpu();
    let f = submit(&mut g, 1);
    let mut w = FenceWait::new(f, 500, 0);
    assert_eq!(
        wait_fence(&mut g, &mut w, FenceWaitEvent::Drained(Wake::Asleep)),
        FenceWaitStep::Finish(WaitFenceOutcome::TimedOut)
    );
    assert!(g.fences.waiters.is_empty());
    let mut w = FenceWait::new(f + 1, 500, 0);
    assert_eq!(
        wait_fence(&mut g, &mut w, FenceWaitEvent::Drained(Wake::Asleep)),
        FenceWaitStep::Finish(WaitFenceOutcome::Invalid)
    );
}

#[test]
fn the_longest_wait_is_bounded() {
    let mut g = gpu();
    let f = submit(&mut g, 1);
    let mut w = FenceWait::new(f, 500, u64::MAX);
    let mut total = 0;
    let mut step = wait_fence(&mut g, &mut w, FenceWaitEvent::Drained(Wake::Asleep));
    while let FenceWaitStep::Wait(ms) = step {
        total += ms;
        step = wait_fence(&mut g, &mut w, FenceWaitEvent::Waited(Wake::Asleep));
    }
    assert_eq!(total, WAIT_FENCE_MAX_MS);
}

#[test]
fn a_full_waiter_table_is_retried() {
    let mut g = gpu();
    let f = submit(&mut g, 1);
    for i in 0..64 {
        g.fence_wait_prepare(f, i);
    }
    let mut w = FenceWait::new(f, 500, 10_000_000);
    for _ in 0..WAIT_TABLE_RETRIES {
        assert_eq!(wait_fence(&mut g, &mut w, FenceWaitEvent::Drained(Wake::Asleep)), FenceWaitStep::Retry(1));
    }
    assert_eq!(
        wait_fence(&mut g, &mut w, FenceWaitEvent::Drained(Wake::Asleep)),
        FenceWaitStep::Finish(WaitFenceOutcome::TimedOut)
    );
    assert_eq!(g.fences.counters.wait_table_full, 1);
    assert_eq!(g.fences.counters.wait_timeouts, 0);
}

#[test]
fn submissions_need_a_stream() {
    assert_eq!(submit_3d_sync(3, 0), Err(VirtioError::DeviceError));
    assert_eq!(submit_3d_sync(3, 16).unwrap().len(), 32);
    assert_eq!(submit_venus_sync(3, 0), Err(VirtioError::DeviceError));
    let mut g = gpu();
    let owner = Some(DeviceOwner::new(7).unwrap());
    assert!(g.reserve_context_slot());
    g.commit_context(owner, 3);
    assert!(matches!(submit_venus_async(&g, owner, 3, 0), Err(VirtioError::DeviceError)));
    assert!(matches!(submit_venus_async(&g, owner, 4, 8), Err(VirtioError::NotOwned)));
    assert_eq!(submit_venus_async(&g, owner, 3, 8).unwrap().id(), 3);
}

#[test]
fn a_submission_is_retried_while_the_queue_is_full() {
    let mut b = Budget::new(1);
    let full = Err(VirtioError::QueueFull);
    assert!(matches!(judge_submit(&mut b, full), SubmitStep::Retry));
    assert!(matches!(judge_submit(&mut b, full), SubmitStep::Done(Err(VirtioError::QueueFull))));
    assert!(matches!(judge_submit(&mut b, Ok(9)), SubmitStep::Done(Ok(9))));
    assert!(matches!(
        judge_submit(&mut b, Err(VirtioError::NotOwned)),
        SubmitStep::Done(Err(VirtioError::NotOwned))
    ));
}

#[test]
fn a_present_submission_completes_with_the_gpu() {
    let mut g = gpu();
    let f = submit_venus_async_present(
        &mut g, meta(), venus(), 64, AddResult::Token(1), &mut Vec::new(),
    )
    .unwrap();
    assert_eq!(f, 1);
    assert_eq!(g.queue.counters.ring_submits, 1);
}

#[test]
fn a_failure_during_a_wait_is_no_completion() {
    // The waiter is woken by the failure itself.
    let mut g = gpu();
    let f = submit(&mut g, 1);
    let mut w = FenceWait::new(f, 500, 10_000_000);
    assert_eq!(wait_fence(&mut g, &mut w, FenceWaitEvent::Drained(Wake::Asleep)), FenceWaitStep::Wait(1));
    let woken = g.drain_used(9, true, OK);
    assert_eq!(woken, vec![Action::FailBlock { block: 500 }]);
    assert!(g.transport_failed());
    assert_eq!(
        wait_fence(&mut g, &mut w, FenceWaitEvent::Waited(Wake::Failed)),
        FenceWaitStep::Finish(WaitFenceOutcome::Invalid)
    );
    // The failure comes in the last drain, after the time is up.
    let mut g = gpu();
    let f = submit(&mut g, 1);
    let mut w = FenceWait::new(f, 500, 1);
    assert_eq!(wait_fence(&mut g, &mut w, FenceWaitEvent::Drained(Wake::Asleep)), FenceWaitStep::Wait(1));
    assert_eq!(wait_fence(&mut g, &mut w, FenceWaitEvent::Waited(Wake::Asleep)), FenceWaitStep::Drain);
    g.drain_used(1, false, OK);
    assert_eq!(
        wait_fence(&mut g, &mut w, FenceWaitEvent::Drained(Wake::Failed)),
        FenceWaitStep::Finish(WaitFenceOutcome::Invalid)
    );
    assert_eq!(g.fences.counters.wait_timeouts, 0);
}

#[test]
fn a_woken_waiter_has_its_fence() {
    let mut g = gpu();
    let a = submit(&mut g, 1);
    let b = submit(&mut g, 2);
    let mut w = FenceWait::new(b, 500, 10_000_000);
    assert_eq!(wait_fence(&mut g, &mut w, FenceWaitEvent::Drained(Wake::Asleep)), FenceWaitStep::Wait(1));
    assert!(g.drain_used(1, true, OK).is_empty());
    assert_eq!(g.fences.waiters.len(), 1);
    let woken = g.drain_used(2, true, OK);
    assert_eq!(woken, vec![Action::CompleteBlock { block: 500, copy: 0 }]);
    assert!(g.fences.waiters.is_empty());
    for f in [a, b] {
        let mut w = FenceWait::new(f, 600, 10_000_000);
        assert_eq!(
            wait_fence(&mut g, &mut w, FenceWaitEvent::Drained(Wake::Asleep)),
            FenceWaitStep::Finish(WaitFenceOutcome::Complete)
        );
    }
}

#[test]
fn a_fence_that_retired_before_a_failure_is_complete() {
    // Woken by the retirement; the failure comes before the waiter looks.
    let mut g = gpu();
    let f = submit(&mut g, 1);
    let mut w = FenceWait::new(f, 500, 10_000_000);
    assert_eq!(
        wait_fence(&mut g, &mut w, FenceWaitEvent::Drained(Wake::Asleep)),
        FenceWaitStep::Wait(1)
    );
    assert_eq!(g.drain_used(1, true, OK), vec![Action::CompleteBlock { block: 500, copy: 0 }]);
    assert!(g.drain_used(9, true, OK).is_empty());
    assert!(g.transport_failed());
    assert_eq!(
        wait_fence(&mut g, &mut w, FenceWaitEvent::Waited(Wake::Completed)),
        FenceWaitStep::Finish(WaitFenceOutcome::Complete)
    );
    // The same in the last drain.
    for (shown, outcome) in [
        (Wake::Completed, WaitFenceOutcome::Complete),
        (Wake::Failed, WaitFenceOutcome::Invalid),
        (Wake::Asleep, WaitFenceOutcome::Invalid),
    ] {
        let mut g = gpu();
        let f = submit(&mut g, 1);
        let mut w = FenceWait::new(f, 500, 1);
        wait_fence(&mut g, &mut w, FenceWaitEvent::Drained(Wake::Asleep));
        wait_fence(&mut g, &mut w, FenceWaitEvent::Waited(Wake::Asleep));
        g.drain_used(1, true, OK);
        g.drain_used(9, true, OK);
        assert_eq!(
            wait_fence(&mut g, &mut w, FenceWaitEvent::Drained(shown)),
            FenceWaitStep::Finish(outcome)
        );
    }
}

#[test]
fn a_wait_whose_transport_is_gone() {
    let begun = || {
        let mut g = gpu();
        let f = submit(&mut g, 1);
        let mut w = FenceWait::new(f, 500, 2_000_000);
        wait_fence(&mut g, &mut w, FenceWaitEvent::Drained(Wake::Asleep));
        w
    };
    let invalid = FenceWaitStep::Finish(WaitFenceOutcome::Invalid);
    let mut w = begun();
    assert_eq!(
        wait_fence_gone(&mut w, FenceWaitEvent::Waited(Wake::Completed)),
        FenceWaitStep::Finish(WaitFenceOutcome::Complete)
    );
    let mut w = begun();
    assert_eq!(wait_fence_gone(&mut w, FenceWaitEvent::Waited(Wake::Failed)), invalid);
    let mut w = begun();
    assert_eq!(
        wait_fence_gone(&mut w, FenceWaitEvent::Waited(Wake::Asleep)),
        FenceWaitStep::Wait(1)
    );
    assert_eq!(
        wait_fence_gone(&mut w, FenceWaitEvent::Waited(Wake::Asleep)),
        FenceWaitStep::Drain
    );
    assert_eq!(wait_fence_gone(&mut w, FenceWaitEvent::Drained(Wake::Asleep)), invalid);
    let mut w = FenceWait::new(1, 500, 1);
    assert_eq!(wait_fence_gone(&mut w, FenceWaitEvent::Drained(Wake::Asleep)), invalid);
}
