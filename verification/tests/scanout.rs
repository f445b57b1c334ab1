use helios_virtio::config::DxgkConfigAccess;
use helios_virtio::enqueue::AddResult;
use helios_virtio::error::VirtioError;
use helios_virtio::gpu::VirtioGpu;
use helios_virtio::hal::DmaBuffer;
use helios_virtio::inflight::{Action, ControlCells, ScanoutFlushToken};
use helios_virtio::init::Knobs;
use helios_virtio::owner::DeviceOwner;
use helios_virtio::protocol::read32;
use helios_virtio::scanout::{
    completed_bind, completed_request, decide_epoch, pack_wh, publication_key, Admission,
    FastBindDispatch, FastBindRefusal, PublicationRefresh, RefreshMarker, ScanoutBindRequest,
    ScanoutRefreshState, WorkerBindDispatch,
};

const OK: u32 = 0x1100;
const REFUSED: u32 = 0x1200;

/// A device with two command buffers for SETs and the live resources 8 and 9.
fn gpu() -> VirtioGpu {
    let mut resp = vec![0u8; 408];
    resp[1] = 0x11;
    let knobs =
        Knobs { dma_gpu_fence: true, present_exact_watermark: true, hold_ms: 0, head_ms: 0 };
    let pool =
        vec![DmaBuffer::new(120, 0x5000).unwrap(), DmaBuffer::new(120, 0x6000).unwrap()];
    let mut g =
        VirtioGpu::init(&DxgkConfigAccess::new([0; 64]), &resp, None, pool, 1, knobs).unwrap();
    for id in [8, 9] {
        assert!(g.reserve_resource_slot());
        g.commit_resource(id);
    }
    g
}

fn request(resource_id: u32, present_epoch: u64) -> ScanoutBindRequest {
    ScanoutBindRequest {
        resource_id,
        width: 1920,
        height: 1080,
        format: 1,
        stride: 7680,
        offset: 0,
        present_epoch,
        primary_address: 0x1000,
        carried_watermark: 0,
    }
}

fn stage(g: &mut VirtioGpu, r: ScanoutBindRequest, seq: u64, token: u16) -> FastBindDispatch {
    g.stage_scanout_bind(r, seq, AddResult::Token(token), &mut Vec::new())
}

fn flush(g: &mut VirtioGpu, epoch: u64, added: AddResult) -> Result<u16, VirtioError> {
    let cells = ControlCells {
        completion: 1,
        completion_errors: 2,
        wake_event: 3,
        success_cell: None,
        success_value: 0,
        resubmit: None,
    };
    let token =
        ScanoutFlushToken { adapter: 50, covers_epoch: epoch, resource_id: 8, ledger_ticket: 60 };
    let meta = DmaBuffer::new(72, 0x1000).unwrap();
    g.enqueue_async_control(meta, 48, 24, cells, Some(token), added, &mut Vec::new())
        .map_err(|e| e.1)
}

#[test]
fn a_request_survives_its_completion() {
    let r = request(8, 5);
    let b = completed_bind(3, r);
    assert_eq!(b.wh, 0x780_0000_0438);
    assert_eq!(b.wh, pack_wh(1920, 1080));
    assert_eq!(b.seq, 3);
    assert_eq!(completed_request(b), r);
    assert_eq!(publication_key(r).present_epoch, 5);
}

#[test]
fn epochs_only_rise() {
    assert_eq!(decide_epoch(5, 0), Admission::Untracked);
    assert_eq!(decide_epoch(5, 6), Admission::Newer);
    assert_eq!(decide_epoch(5, 5), Admission::Superseded);
    assert_eq!(decide_epoch(5, 4), Admission::Superseded);
}

#[test]
fn the_first_marker_is_not_overtaken() {
    let a = RefreshMarker { resource_id: 8, boundary: 1 };
    let b = RefreshMarker { resource_id: 8, boundary: 2 };
    let c = RefreshMarker { resource_id: 8, boundary: 3 };
    let mut s = ScanoutRefreshState::new();
    assert!(!s.note(a, false));
    assert!(!s.note(b, false));
    assert!(!s.note(c, false));
    assert_eq!((s.earliest, s.latest), (Some(a), Some(c)));
    assert_eq!(s.take_ready(false, false), None);
    assert_eq!(s.take_ready(true, false), Some(a));
    assert_eq!((s.earliest, s.latest), (Some(c), None));
    assert_eq!(s.take_ready(true, true), Some(c));
    assert_eq!(s, ScanoutRefreshState::new());
}

#[test]
fn a_ready_marker_replaces_all() {
    let a = RefreshMarker { resource_id: 8, boundary: 1 };
    let b = RefreshMarker { resource_id: 8, boundary: 2 };
    let mut s = ScanoutRefreshState::new();
    s.note(a, false);
    assert!(s.note(b, true));
    assert_eq!(s, ScanoutRefreshState::new());
    s.note(a, false);
    s.note(b, false);
    assert_eq!(s.take_ready(true, true), Some(b));
    assert_eq!(s, ScanoutRefreshState::new());
    s.note(a, false);
    s.note(b, false);
    s.discard(false, true);
    assert_eq!((s.earliest, s.latest), (Some(b), None));
}

#[test]
fn a_refresh_waits_for_its_fence() {
    let mut g = gpu();
    assert!(g.note_scanout_refresh_at(8, 0));
    let meta = DmaBuffer::new(56, 0x1000).unwrap();
    let venus = DmaBuffer::new(64, 0x2000).unwrap();
    let f = g
        .enqueue_async_submit(1, meta, venus, 64, AddResult::Token(1), &mut Vec::new())
        .unwrap();
    assert!(!g.note_scanout_refresh_at(8, f + 1));
    assert_eq!(g.take_ready_scanout_refresh(), None);
    g.drain_used(1, true, OK);
    assert_eq!(
        g.take_ready_scanout_refresh(),
        Some(RefreshMarker { resource_id: 8, boundary: f + 1 })
    );
    assert_eq!(g.take_ready_scanout_refresh(), None);
}

#[test]
fn a_publication_runs_from_set_to_flush() {
    let mut g = gpu();
    let r = request(8, 5);
    let plan = g.plan_stage(r).unwrap();
    assert_eq!(read32(&plan.command, 0), 0x010d);
    assert_eq!((plan.spans.first.len, plan.spans.resp.offset), (96, 96));
    assert_eq!(stage(&mut g, r, 1, 10), FastBindDispatch::Queued);
    assert!(g.publication_active());
    assert_eq!(g.queue.bind_cmd_pool.len(), 1);
    assert_eq!(g.publication_request_for(8), Some(r));
    assert_eq!(g.publication_request_for(9), None);
    assert_eq!(g.publication_refresh_for(8), PublicationRefresh::Blocked);
    // The SET is not accepted yet: no flush.
    assert_eq!(flush(&mut g, 5, AddResult::Token(11)), Err(VirtioError::QueueFull));
    assert!(g.drain_used(10, true, OK).is_empty());
    assert_eq!(g.queue.bind_cmd_pool.len(), 2);
    assert_eq!(g.take_completed_bind(), Some(completed_bind(1, r)));
    assert_eq!(g.take_completed_bind(), None);
    assert_eq!(g.host_accepted_scanout_bind(), (1, 8));
    assert_eq!(g.publication_refresh_for(8), PublicationRefresh::ReadyExact(r));
    // A flush that the queue has no room for can be sent again.
    assert_eq!(flush(&mut g, 5, AddResult::QueueFull), Err(VirtioError::QueueFull));
    assert_eq!(flush(&mut g, 5, AddResult::Token(11)), Ok(11));
    assert!(g.publication_active());
    assert_eq!(
        g.drain_used(11, true, OK)[1],
        Action::EndLeases { adapter: 50, through: 5, host_read: true }
    );
    assert!(!g.publication_active());
    assert_eq!(g.publication_refresh_for(8), PublicationRefresh::NoActive);
}

#[test]
fn a_refused_flush_releases_the_publication() {
    let mut g = gpu();
    assert_eq!(stage(&mut g, request(8, 5), 1, 10), FastBindDispatch::Queued);
    g.drain_used(10, true, OK);
    flush(&mut g, 5, AddResult::Token(11)).unwrap();
    g.drain_used(11, true, REFUSED);
    assert!(!g.publication_active());
}

#[test]
fn a_refused_set_wakes_the_worker() {
    let mut g = gpu();
    let r = request(8, 5);
    assert_eq!(stage(&mut g, r, 1, 10), FastBindDispatch::Queued);
    g.drain_used(10, true, REFUSED);
    assert!(!g.publication_active());
    assert_eq!(g.take_completed_bind(), None);
    assert_eq!(g.take_fast_failure_wake(), Some(r));
    assert_eq!(g.take_fast_failure_wake(), None);
    assert_eq!(g.host_accepted_scanout_bind(), (0, 0));
}

#[test]
fn sets_wait_behind_a_publication_in_order() {
    let mut g = gpu();
    assert_eq!(stage(&mut g, request(8, 5), 1, 10), FastBindDispatch::Queued);
    assert_eq!(stage(&mut g, request(9, 6), 2, 11), FastBindDispatch::Deferred);
    assert_eq!(stage(&mut g, request(8, 7), 3, 12), FastBindDispatch::Deferred);
    assert_eq!(stage(&mut g, request(9, 8), 4, 13), FastBindDispatch::Deferred);
    assert_eq!(g.fast.deferred_earliest, Some(request(9, 6)));
    assert_eq!(g.fast.deferred_latest, Some(request(9, 8)));
    let mut out = Vec::new();
    assert!(g.plan_service().is_none());
    assert_eq!(g.service_deferred_scanout_bind(5, AddResult::Token(14), &mut out), None);
    g.drain_used(10, true, OK);
    flush(&mut g, 5, AddResult::Token(15)).unwrap();
    g.drain_used(15, true, OK);
    assert_eq!(g.plan_service().unwrap().request, request(9, 6));
    assert_eq!(
        g.service_deferred_scanout_bind(5, AddResult::Token(14), &mut out),
        Some(FastBindDispatch::Queued)
    );
    assert_eq!(g.fast.deferred_earliest, Some(request(9, 8)));
    assert_eq!(g.publication_request_for(9), Some(request(9, 6)));
}

#[test]
fn older_epochs_are_superseded() {
    let mut g = gpu();
    assert_eq!(stage(&mut g, request(8, 5), 1, 10), FastBindDispatch::Queued);
    assert_eq!(stage(&mut g, request(9, 5), 2, 11), FastBindDispatch::Superseded);
    assert!(g.fast.presentation_epoch_is_superseded(request(9, 4)));
    assert!(!g.fast.presentation_epoch_is_superseded(request(9, 6)));
    assert!(!g.fast.presentation_epoch_is_superseded(request(9, 0)));
    // A waiting request that was overtaken is dropped.
    g.fast.deferred_earliest = Some(request(9, 3));
    assert_eq!(
        g.service_deferred_scanout_bind(3, AddResult::Token(12), &mut Vec::new()),
        Some(FastBindDispatch::Superseded)
    );
    assert_eq!(g.fast.deferred_earliest, None);
}

#[test]
fn sets_that_cannot_be_sent() {
    let mut g = gpu();
    assert_eq!(stage(&mut g, request(77, 5), 1, 10), FastBindDispatch::Failed);
    g.queue.bind_cmd_pool.clear();
    assert_eq!(stage(&mut g, request(8, 5), 1, 10), FastBindDispatch::Busy);
    let mut g = gpu();
    assert_eq!(
        g.stage_scanout_bind(request(8, 5), 1, AddResult::QueueFull, &mut Vec::new()),
        FastBindDispatch::Failed
    );
    assert_eq!(g.queue.bind_cmd_pool.len(), 2);
    assert!(!g.publication_active());
    let buf = g.take_bind_cmd_buffer().unwrap();
    g.fast.presentation_epoch_floor = 9;
    assert_eq!(
        g.enqueue_scanout_bind_async(
            buf, request(8, 5), 1, AddResult::Token(1), &mut Vec::new()
        ),
        Err(FastBindRefusal::Superseded)
    );
    assert_eq!(g.queue.bind_cmd_pool.len(), 2);
}

#[test]
fn the_worker_and_the_fast_path_do_not_share_a_request() {
    let mut g = gpu();
    let r = request(8, 5);
    assert_eq!(g.stage_worker_scanout_bind(r, true), WorkerBindDispatch::Ready);
    assert_eq!(g.fast.sync_worker_owned, Some(r));
    assert_eq!(stage(&mut g, r, 1, 10), FastBindDispatch::Handled);
    assert_eq!(g.stage_worker_scanout_bind(r, true), WorkerBindDispatch::Waiting);
    g.release_failed_sync_worker_bind(r);
    assert_eq!(g.fast.sync_worker_owned, None);
    assert_eq!(stage(&mut g, r, 1, 10), FastBindDispatch::Queued);
    assert_eq!(g.stage_worker_scanout_bind(request(9, 6), true), WorkerBindDispatch::Waiting);
    assert!(!g.take_ready_worker_scanout_bind());
    assert_eq!(g.stage_worker_scanout_bind(request(9, 4), true), WorkerBindDispatch::Superseded);
    assert_eq!(g.stage_worker_scanout_bind(request(77, 9), true), WorkerBindDispatch::Abandoned);
}

#[test]
fn the_worker_is_woken_when_its_request_is_due() {
    let mut g = gpu();
    assert_eq!(stage(&mut g, request(8, 5), 1, 10), FastBindDispatch::Queued);
    assert_eq!(g.stage_worker_scanout_bind(request(9, 6), false), WorkerBindDispatch::Waiting);
    g.drain_used(10, true, REFUSED);
    assert!(g.take_ready_worker_scanout_bind());
    assert!(!g.take_ready_worker_scanout_bind());
}

#[test]
fn a_synchronous_set_publishes_too() {
    let mut g = gpu();
    let r = request(8, 5);
    let meta = DmaBuffer::new(120, 0x1000).unwrap();
    let (ticket, seq) = g
        .enqueue_sync(
            meta, 96, 0, 24, 500, Some((8, Some(r))), 4, AddResult::Token(9), &mut Vec::new(),
        )
        .unwrap();
    assert_eq!(seq, Some(4));
    assert!(g.publication_active());
    assert_eq!(g.fast.presentation_epoch_floor, 5);
    // The waiter gave up, but the host accepts: the SET is applied all the same.
    g.abandon_sync(ticket, 500);
    g.drain_used(9, true, OK);
    assert_eq!(g.host_accepted_scanout_bind(), (4, 8));
    assert_eq!(g.take_completed_bind(), Some(completed_bind(4, r)));
    let meta = DmaBuffer::new(120, 0x1000).unwrap();
    let (_, why) = g
        .enqueue_sync(
            meta,
            96,
            0,
            24,
            500,
            Some((9, Some(request(9, 6)))),
            5,
            AddResult::Token(9),
            &mut Vec::new(),
        )
        .unwrap_err();
    assert_eq!(why, VirtioError::PublicationBusy);
    let meta = DmaBuffer::new(120, 0x1000).unwrap();
    assert_eq!(
        g.plan_sync(&meta, 96, 0, 24, Some((9, Some(request(9, 5))))),
        Err(VirtioError::PresentationSuperseded)
    );
}

#[test]
fn later_answers_do_not_hide_newer_sets() {
    let mut g = gpu();
    g.note_host_accepted_scanout_bind(7, 8);
    g.note_host_accepted_scanout_bind(6, 9);
    assert_eq!(g.host_accepted_scanout_bind(), (7, 8));
    g.note_host_accepted_scanout_bind(8, 0);
    assert_eq!(g.host_accepted_scanout_bind(), (8, 0));
}

#[test]
fn a_retiring_resource_is_not_published() {
    let mut g = gpu();
    g.note_host_accepted_scanout_bind(7, 8);
    assert_eq!(g.begin_scanout_resource_retire(8), (7, 8));
    assert_eq!(stage(&mut g, request(8, 5), 1, 10), FastBindDispatch::Failed);
    assert_eq!(stage(&mut g, request(9, 6), 2, 11), FastBindDispatch::Failed);
    g.finish_scanout_resource_retire();
    assert_eq!(stage(&mut g, request(9, 6), 2, 11), FastBindDispatch::Queued);
    assert!(!g.cancel_publication_for_retirement(8));
    assert!(g.cancel_publication_for_retirement(9));
    assert!(!g.publication_active());
}

#[test]
fn flushes_are_armed_and_completed_by_identity() {
    let mut g = gpu();
    assert_eq!(stage(&mut g, request(8, 5), 1, 10), FastBindDispatch::Queued);
    assert!(!g.arm_publication_flush(8, 5));
    g.drain_used(10, true, OK);
    assert!(!g.arm_publication_flush(8, 6));
    assert!(g.arm_publication_flush(8, 5));
    assert!(!g.arm_publication_flush(8, 5));
    assert!(!g.complete_publication_flush(9, 5));
    assert!(g.complete_publication_flush(8, 5));
    assert!(!g.cancel_publication_exact(8, 5));
}

#[test]
fn a_set_behind_a_dead_stream_is_dropped() {
    let mut g = gpu();
    let owner = DeviceOwner::new(7).unwrap();
    assert!(g.reserve_context_slot());
    g.commit_context(Some(owner), 3);
    let cookie = g.register_present_stream(owner, 3, 99).unwrap();
    let boundary = g.present_stream_marker_boundary(3, 1, cookie, 99).unwrap();
    let r = ScanoutBindRequest { carried_watermark: boundary, ..request(8, 5) };
    assert_eq!(stage(&mut g, r, 1, 10), FastBindDispatch::Deferred);
    assert!(!g.note_scanout_refresh_at(8, boundary));
    assert!(g.unregister_present_stream(owner, 3, cookie, &mut Vec::new()));
    assert_eq!(g.fast.deferred_earliest, None);
    assert_eq!(g.refresh, ScanoutRefreshState::new());
    assert_eq!(stage(&mut g, r, 1, 10), FastBindDispatch::Failed);
}

#[test]
fn a_failure_keeps_only_the_epoch_floor() {
    let mut g = gpu();
    assert_eq!(stage(&mut g, request(8, 5), 1, 10), FastBindDispatch::Queued);
    assert_eq!(stage(&mut g, request(9, 6), 2, 11), FastBindDispatch::Deferred);
    g.drain_used(10, false, OK);
    assert!(!g.publication_active());
    assert_eq!(g.fast.deferred_earliest, None);
    assert_eq!(g.fast.presentation_epoch_floor, 5);
}

#[test]
fn the_worker_forgets_what_the_fast_path_published() {
    let mut g = gpu();
    let r = request(8, 5);
    g.fast.deferred_worker = Some(r);
    g.release_fast_owned_worker(r);
    assert_eq!(g.fast.deferred_worker, None);
}

#[test]
fn a_retirement_freezes_sets_until_it_ends() {
    let mut g = gpu();
    g.begin_scanout_resource_retire(8);
    // Other work goes on; the barrier stays.
    let meta = DmaBuffer::new(56, 0x1000).unwrap();
    let venus = DmaBuffer::new(64, 0x2000).unwrap();
    g.enqueue_async_submit(0, meta, venus, 64, AddResult::Token(1), &mut Vec::new()).unwrap();
    g.drain_used(1, true, 0x1100);
    for id in [8, 9] {
        assert_eq!(stage(&mut g, request(id, 5), 1, 2), FastBindDispatch::Failed);
        assert_eq!(
            g.stage_worker_scanout_bind(request(id, 5), true),
            WorkerBindDispatch::Abandoned
        );
    }
    assert_eq!(g.service_deferred_scanout_bind(1, AddResult::Token(2), &mut Vec::new()), None);
    assert!(g.queue.inflight.is_empty());
    assert_eq!(g.fast.deferred_earliest, None);
    assert_eq!(g.fast.deferred_worker, None);
    assert_eq!(g.fast.sync_worker_owned, None);
    g.finish_scanout_resource_retire();
    assert_eq!(stage(&mut g, request(9, 5), 1, 2), FastBindDispatch::Queued);
}
