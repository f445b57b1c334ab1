use helios_virtio::config::DxgkConfigAccess;
use helios_virtio::enqueue::AddResult;
use helios_virtio::fences::{
    FenceEventReg, FenceWaitPrep, MAX_FENCE_EVENTS, MAX_FENCE_WAITERS, WIRE_FENCE_INSTANCE_STRIDE,
};
use helios_virtio::gpu::VirtioGpu;
use helios_virtio::hal::DmaBuffer;
use helios_virtio::inflight::{
    async_exact_retired, async_retired_up_to, fence_in_flight, wire_boundary_ready, Action,
    RetireDomain, WireBoundary,
};
use helios_virtio::init::{next_fence_base, Knobs};

const OK: u32 = 0x1100;
const BASE: u64 = 0x2_0000_0001;

fn gpu() -> VirtioGpu {
    let mut resp = vec![0u8; 408];
    resp[1] = 0x11;
    let knobs =
        Knobs { dma_gpu_fence: true, present_exact_watermark: true, hold_ms: 0, head_ms: 0 };
    VirtioGpu::init(&DxgkConfigAccess::new([0; 64]), &resp, None, Vec::new(), BASE, knobs).unwrap()
}

fn submit(g: &mut VirtioGpu, ring: u32, token: u16) -> u64 {
    let meta = DmaBuffer::new(56, 0x1000).unwrap();
    let venus = DmaBuffer::new(64, 0x2000).unwrap();
    let mut out = Vec::new();
    let fence =
        g.enqueue_async_submit(ring, meta, venus, 64, AddResult::Token(token), &mut out).unwrap();
    assert!(out.is_empty());
    fence
}

#[test]
fn fences_count_up_from_the_base() {
    let mut g = gpu();
    assert_eq!(submit(&mut g, 0, 1), BASE);
    assert_eq!(submit(&mut g, 1, 2), BASE + 1);
    assert_eq!(g.wire_fence_watermark(), BASE + 2);
    assert_eq!(next_fence_base(BASE), BASE + WIRE_FENCE_INSTANCE_STRIDE);
}

#[test]
fn only_own_fences_can_be_waited_for() {
    let mut g = gpu();
    let f = submit(&mut g, 0, 1);
    assert_eq!(g.fence_wait_prepare(0, 9), FenceWaitPrep::Invalid);
    assert_eq!(g.fence_wait_prepare(f + 1, 9), FenceWaitPrep::Invalid);
    assert_eq!(g.fences.counters.foreign_generation, 0);
    assert_eq!(g.fence_wait_prepare(BASE - 1, 9), FenceWaitPrep::Invalid);
    assert_eq!(g.fence_event_register(BASE - 1, 9), FenceEventReg::Invalid);
    assert_eq!(g.fences.counters.foreign_generation, 2);
}

#[test]
fn a_retired_fence_wakes_and_signals_everyone_on_it() {
    let mut g = gpu();
    let a = submit(&mut g, 0, 1);
    let b = submit(&mut g, 0, 2);
    assert_eq!(g.fence_wait_prepare(a, 10), FenceWaitPrep::Registered);
    assert_eq!(g.fence_wait_prepare(b, 11), FenceWaitPrep::Registered);
    assert_eq!(g.fence_wait_prepare(a, 12), FenceWaitPrep::Registered);
    assert_eq!(g.fence_event_register(a, 20), FenceEventReg::Registered);
    assert_eq!(g.fence_event_register(b, 21), FenceEventReg::Registered);
    assert_eq!(g.fence_events_live(), 2);
    assert_eq!(
        g.drain_used(1, true, OK),
        vec![
            Action::CompleteBlock { block: 10, copy: 0 },
            Action::CompleteBlock { block: 12, copy: 0 },
            Action::SignalAndRelease { event: 20 },
        ]
    );
    assert_eq!(g.fence_events_live(), 1);
    assert_eq!(g.fence_wait_prepare(a, 10), FenceWaitPrep::Complete);
    assert_eq!(g.fence_event_register(a, 20), FenceEventReg::AlreadyComplete);
    assert_eq!(g.fences.counters.event_already_complete, 1);
}

#[test]
fn a_waiter_can_give_up() {
    let mut g = gpu();
    let f = submit(&mut g, 0, 1);
    assert_eq!(g.fence_wait_prepare(f, 10), FenceWaitPrep::Registered);
    assert!(!g.fence_wait_cancel(10));
    // It is not registered any more, as after a wake.
    assert!(g.fence_wait_cancel(10));
    assert_eq!(g.drain_used(1, true, OK), Vec::new());
}

#[test]
fn events_are_registered_once_and_can_be_taken_back() {
    let mut g = gpu();
    let f = submit(&mut g, 0, 1);
    assert_eq!(g.fence_event_register(f, 20), FenceEventReg::Registered);
    assert_eq!(g.fence_event_register(f, 20), FenceEventReg::Duplicate);
    assert_eq!(g.fences.counters.event_dup_rejects, 1);
    assert!(g.fence_event_unregister(f, 20));
    assert!(!g.fence_event_unregister(f, 20));
    assert_eq!(g.fences.counters.event_cancels, 1);
}

#[test]
fn full_tables_refuse() {
    let mut g = gpu();
    let f = submit(&mut g, 0, 1);
    for i in 0..MAX_FENCE_WAITERS as u64 {
        assert_eq!(g.fence_wait_prepare(f, i), FenceWaitPrep::Registered);
    }
    assert_eq!(g.fence_wait_prepare(f, 1000), FenceWaitPrep::TableFull);
    for i in 0..MAX_FENCE_EVENTS as u64 {
        assert_eq!(g.fence_event_register(f, i), FenceEventReg::Registered);
    }
    assert_eq!(g.fence_event_register(f, 1000), FenceEventReg::TableFull);
    assert_eq!(g.fences.counters.event_overflows, 1);
    assert_eq!(g.fences.counters.event_high_water, MAX_FENCE_EVENTS as u32);
}

#[test]
fn decoding_and_gpu_completion_are_different_domains() {
    let mut g = gpu();
    let a = submit(&mut g, 0, 1);
    let b = submit(&mut g, 1, 2);
    let all = b + 1;
    assert!(!async_retired_up_to(&g.queue.inflight, all, RetireDomain::DecodeOnly));
    assert!(g.drain_used(1, true, OK).is_empty());
    assert!(async_retired_up_to(&g.queue.inflight, all, RetireDomain::DecodeOnly));
    assert!(!async_retired_up_to(&g.queue.inflight, all, RetireDomain::IncludingGpu));
    // Everything below the second fence has retired.
    assert!(async_retired_up_to(&g.queue.inflight, b, RetireDomain::IncludingGpu));
    assert!(async_retired_up_to(&g.queue.inflight, 0, RetireDomain::IncludingGpu));
    assert!(!fence_in_flight(&g.queue.inflight, a));
    assert!(fence_in_flight(&g.queue.inflight, b));
    assert!(async_exact_retired(&g.queue.inflight, a));
    assert!(!async_exact_retired(&g.queue.inflight, b));
    let exact = WireBoundary::Exact;
    assert!(wire_boundary_ready(&g.queue.inflight, a, RetireDomain::IncludingGpu, exact));
    assert!(!wire_boundary_ready(&g.queue.inflight, b, RetireDomain::IncludingGpu, exact));
}

#[test]
fn older_work_blocks_a_prefix_but_not_an_exact_fence() {
    let mut g = gpu();
    submit(&mut g, 0, 1);
    let b = submit(&mut g, 0, 2);
    assert!(g.drain_used(2, true, OK).is_empty());
    let domain = RetireDomain::IncludingGpu;
    assert!(wire_boundary_ready(&g.queue.inflight, b, domain, WireBoundary::Exact));
    assert!(!wire_boundary_ready(&g.queue.inflight, b + 1, domain, WireBoundary::Prefix));
    assert_eq!(g.outstanding_below(b + 1).0, 1);
}

#[test]
fn a_retired_fence_stays_complete_and_later_ones_are_higher() {
    let mut g = gpu();
    let a = submit(&mut g, 0, 1);
    g.drain_used(1, true, OK);
    // The token is free again; the fence is not.
    let b = submit(&mut g, 0, 1);
    assert!(b > a);
    let refused = g.enqueue_async_submit(
        0,
        DmaBuffer::new(56, 0x1000).unwrap(),
        DmaBuffer::new(64, 0x2000).unwrap(),
        64,
        AddResult::QueueFull,
        &mut Vec::new(),
    );
    assert!(refused.is_err());
    assert_eq!(submit(&mut g, 3, 2), b + 1);
    assert_eq!(g.fence_wait_prepare(a, 10), FenceWaitPrep::Complete);
    assert_eq!(g.fence_wait_prepare(b, 10), FenceWaitPrep::Registered);
    // A failed transport completes nothing.
    g.drain_used(77, true, OK);
    assert_eq!(g.fence_wait_prepare(a, 10), FenceWaitPrep::Invalid);
    assert_eq!(g.wire_fence_watermark(), b + 2);
}
