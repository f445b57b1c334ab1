use helios_virtio::config::DxgkConfigAccess;
use helios_virtio::counters::bump_high_water;
use helios_virtio::error::VirtioError;
use helios_virtio::gpu::VirtioGpu;
use helios_virtio::init::{
    BringUp, BringUpEvent, BringUpStep, Knobs, CTRL_POLL_SPINS, RESET_SPINS,
};

const NEED: u64 = 0b0110;
const LIKE: u64 = 0b1000;

fn reset() -> BringUp {
    let mut b = BringUp::new(NEED, LIKE);
    assert_eq!(b.advance(BringUpEvent::Begin), BringUpStep::Reset);
    assert_eq!(
        b.advance(BringUpEvent::Status(0)),
        BringUpStep::Acknowledge { first: 1, second: 3 }
    );
    b
}

fn started() -> BringUp {
    let mut b = reset();
    assert_eq!(
        b.advance(BringUpEvent::Features(0b1_0110)),
        BringUpStep::Accept { features: 0b0110, status: 11 }
    );
    assert_eq!(b.advance(BringUpEvent::Status(11)), BringUpStep::MakeQueue);
    assert_eq!(b.advance(BringUpEvent::Queue(true)), BringUpStep::Start { status: 15 });
    b
}

#[test]
fn bring_up_runs_to_the_display_report() {
    let mut b = started();
    assert_eq!(b.advance(BringUpEvent::Scratch(true)), BringUpStep::Query);
    assert_eq!(b.advance(BringUpEvent::Added(true)), BringUpStep::PollAnswer);
    assert_eq!(b.advance(BringUpEvent::CanPop(false)), BringUpStep::PollAnswer);
    assert_eq!(b.advance(BringUpEvent::CanPop(true)), BringUpStep::Pop);
    assert_eq!(b.advance(BringUpEvent::Popped(true)), BringUpStep::Build);
}

#[test]
fn only_known_features_are_accepted() {
    let mut b = reset();
    assert_eq!(
        b.advance(BringUpEvent::Features(u64::MAX)),
        BringUpStep::Accept { features: 0b1110, status: 11 }
    );
}

#[test]
fn a_missing_feature_is_refused() {
    let rejected = BringUpStep::Reject { status: 128, why: VirtioError::FeatureRejected };
    let mut b = reset();
    b.advance(BringUpEvent::Features(0b0100));
    assert_eq!(b.advance(BringUpEvent::Status(11)), rejected);
    // The device takes its agreement back.
    let mut b = reset();
    b.advance(BringUpEvent::Features(0b0110));
    assert_eq!(b.advance(BringUpEvent::Status(3)), rejected);
}

#[test]
fn a_device_that_does_not_reset_fails() {
    let mut b = BringUp::new(NEED, LIKE);
    b.advance(BringUpEvent::Begin);
    let mut polls = 0;
    loop {
        match b.advance(BringUpEvent::Status(1)) {
            BringUpStep::PollReset => polls += 1,
            step => {
                assert_eq!(step, BringUpStep::Fail(VirtioError::DeviceError));
                break;
            }
        }
    }
    assert_eq!(polls, RESET_SPINS + 1);
}

#[test]
fn every_later_step_can_fail() {
    let mut b = reset();
    b.advance(BringUpEvent::Features(0b0110));
    b.advance(BringUpEvent::Status(11));
    let failed = BringUpStep::Fail(VirtioError::DeviceError);
    assert_eq!(b.advance(BringUpEvent::Queue(false)), failed);
    let mut b = started();
    assert_eq!(
        b.advance(BringUpEvent::Scratch(false)),
        BringUpStep::Fail(VirtioError::OutOfMemory)
    );
    let mut b = started();
    b.advance(BringUpEvent::Scratch(true));
    assert_eq!(b.advance(BringUpEvent::Added(false)), failed);
    let mut b = started();
    b.advance(BringUpEvent::Scratch(true));
    b.advance(BringUpEvent::Added(true));
    b.advance(BringUpEvent::CanPop(true));
    assert_eq!(b.advance(BringUpEvent::Popped(false)), failed);
    assert_eq!(b.advance(BringUpEvent::Popped(true)), failed);
    assert_eq!(CTRL_POLL_SPINS, 100_000_000);
}

fn knobs() -> Knobs {
    Knobs { dma_gpu_fence: true, present_exact_watermark: false, hold_ms: 999, head_ms: 5 }
}

#[test]
fn a_refused_display_report_fails() {
    let r = VirtioGpu::init(
        &DxgkConfigAccess::new([0; 64]), &vec![0u8; 408], None, Vec::new(), 1, knobs(),
    );
    assert!(matches!(r, Err(VirtioError::DeviceError)));
}

#[test]
fn a_fresh_transport() {
    let mut resp = vec![0u8; 408];
    resp[1] = 0x11;
    resp[33] = 4;
    resp[37] = 3;
    let g =
        VirtioGpu::init(&DxgkConfigAccess::new([0; 64]), &resp, Some(0x7000), Vec::new(), 9, knobs())
            .unwrap();
    assert_eq!(g.display_mode(), Some((1024, 768)));
    assert_eq!(g.isr_status_addr(), 0x7000);
    assert!(!g.transport_failed());
    assert_eq!(g.host_visible(), None);
    assert_eq!(g.wire_fence_watermark(), 9);
    assert_eq!((g.wddm.hold_ms, g.wddm.head_ms), (250, 100));
    assert!(g.wddm.dma_gpu_fence && !g.wddm.present_exact_watermark);
}

#[test]
fn high_water_marks_only_rise() {
    let mut hw = 3;
    bump_high_water(&mut hw, 2);
    assert_eq!(hw, 3);
    bump_high_water(&mut hw, 5);
    assert_eq!(hw, 5);
}

#[test]
fn a_register_that_is_not_mapped_is_no_failure() {
    let mut resp = vec![0u8; 408];
    resp[1] = 0x11;
    let g = VirtioGpu::init(&DxgkConfigAccess::new([0; 64]), &resp, None, Vec::new(), 9, knobs())
        .unwrap();
    assert_eq!(g.isr_status_addr(), 0);
}
