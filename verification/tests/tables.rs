use helios_virtio::config::DxgkConfigAccess;
use helios_virtio::counters::{max_blobs, max_resources, WindowOverlapTruncated};
use helios_virtio::error::VirtioError;
use helios_virtio::gpu::VirtioGpu;
use helios_virtio::init::Knobs;
use helios_virtio::owner::{same_owner, DeviceOwner, OwnerFilter};
use helios_virtio::pci_caps::HostVisibleWindow;
use helios_virtio::tables::{
    BlobMapBegin, BlobMapFinish, BlobMapPrep, BlobRemapBegin, MAX_CONTEXTS,
};

const BASE: u64 = 0xf000_0000;

/// A device with a window of `len` bytes.
fn gpu(len: u32) -> VirtioGpu {
    let mut d = [0u32; 64];
    d[1] = 0x0010_0000;
    d[13] = 0x40;
    d[4] = BASE as u32;
    d[16] = 0x0800_0009;
    d[17] = 1 << 8;
    d[19] = len;
    let mut resp = vec![0u8; 408];
    resp[1] = 0x11;
    let knobs =
        Knobs { dma_gpu_fence: true, present_exact_watermark: true, hold_ms: 0, head_ms: 0 };
    VirtioGpu::init(&DxgkConfigAccess::new(d), &resp, None, Vec::new(), 1, knobs).unwrap()
}

fn owner(raw: usize) -> DeviceOwner {
    DeviceOwner::new(raw).unwrap()
}

/// Track a blob of `size` bytes.
fn blob(g: &mut VirtioGpu, who: Option<DeviceOwner>, id: u32, size: u64) {
    assert!(g.reserve_blob_slot());
    g.commit_blob(who, 1, id, size);
}

#[test]
fn a_null_handle_owns_nothing() {
    assert!(DeviceOwner::new(0).is_none());
    assert_eq!(owner(7).raw(), 7);
    assert!(owner(7).same(owner(7)));
    assert!(!owner(7).same(owner(8)));
    assert!(same_owner(None, None));
    assert!(!same_owner(Some(owner(7)), None));
    assert!(same_owner(Some(owner(7)), Some(owner(7))));
}

#[test]
fn filters_match_owners() {
    assert!(OwnerFilter::Any.matches_owner(None));
    assert!(OwnerFilter::Any.matches_owner(Some(owner(3))));
}

#[test]
fn ids_count_up_from_one() {
    let mut g = gpu(0x10000);
    assert_eq!(g.alloc_ctx_id(), 1);
    assert_eq!(g.alloc_ctx_id(), 2);
    assert_eq!(g.alloc_resource_id(), 1);
    assert_eq!(g.alloc_resource_id(), 2);
}

#[test]
fn a_committed_context_belongs_to_its_owner() {
    let mut g = gpu(0x10000);
    assert!(g.reserve_context_slot());
    g.commit_context(Some(owner(7)), 5);
    assert_eq!(g.resolve_owned_ctx(Some(owner(7)), 5).unwrap().id(), 5);
    assert!(g.resolve_owned_ctx(Some(owner(8)), 5).is_none());
    assert!(g.resolve_owned_ctx(None, 5).is_none());
    assert_eq!(g.untrack_owned_context(Some(owner(8)), 5), None);
    assert_eq!(g.untrack_owned_context(Some(owner(7)), 5), Some(5));
    assert_eq!(g.untrack_owned_context(Some(owner(7)), 5), None);
}

#[test]
fn contexts_of_an_owner_are_taken_one_by_one() {
    let mut g = gpu(0x10000);
    for id in 1..4u32 {
        assert!(g.reserve_context_slot());
        g.commit_context(Some(owner(if id == 2 { 8 } else { 7 })), id);
    }
    let mut taken = Vec::new();
    while let Some(id) = g.take_context_for_owner(Some(owner(7))) {
        taken.push(id);
    }
    taken.sort();
    assert_eq!(taken, vec![1, 3]);
    assert!(g.resolve_owned_ctx(Some(owner(8)), 2).is_some());
}

#[test]
fn reservations_count_against_the_capacity() {
    let mut g = gpu(0x10000);
    for _ in 0..MAX_CONTEXTS {
        assert!(g.reserve_context_slot());
    }
    assert!(!g.reserve_context_slot());
    assert_eq!(g.tables.counters.context_full_drops, 1);
    g.cancel_context_reservation();
    assert!(g.reserve_context_slot());
}

#[test]
fn resource_and_blob_tables_are_bounded() {
    let mut g = gpu(0x10000);
    for _ in 0..max_resources() {
        assert!(g.reserve_resource_slot());
    }
    assert!(!g.reserve_resource_slot());
    for _ in 0..max_blobs() {
        assert!(g.reserve_blob_slot());
    }
    assert!(!g.reserve_blob_slot());
    g.cancel_blob_reservation();
    assert!(g.reserve_blob_slot());
    g.cancel_resource_reservation();
    assert!(g.reserve_resource_slot());
}

#[test]
fn a_resource_is_torn_down_once() {
    let mut g = gpu(0x10000);
    assert!(g.reserve_resource_slot());
    g.commit_resource(9);
    assert!(g.resource_is_live(9));
    assert!(!g.resource_is_live(10));
    assert!(g.take_live_resource(9));
    assert!(!g.take_live_resource(9));
    assert!(!g.resource_is_live(9));
}

#[test]
fn a_blob_is_mapped_once() {
    let mut g = gpu(0x10000);
    blob(&mut g, Some(owner(7)), 4, 5000);
    assert_eq!(g.blob_lookup(4), Some((Some(owner(7)), 5000, false)));
    let begun = g.blob_map_begin(OwnerFilter::Any, 4);
    assert_eq!(begun, BlobMapBegin::Start { offset: 0, len: 8192 });
    assert_eq!(g.blob_map_begin(OwnerFilter::Any, 4), BlobMapBegin::Busy);
    let prep = BlobMapPrep { gpa: BASE, size: 8192, map_cache: 3 };
    assert_eq!(g.blob_map_finish(4, 0, 8192, Some(3)), BlobMapFinish::Done(prep));
    assert_eq!(g.blob_map_begin(OwnerFilter::Any, 4), BlobMapBegin::Mapped(prep));
    assert_eq!(g.blob_resid_at_offset(0), Some(4));
    assert_eq!(g.blob_resid_at_offset(0x4000), None);
    let stats = g.table_stats();
    assert_eq!((stats.blobs_live, stats.window_used, stats.window_len), (1, 8192, 0x10000));
}

#[test]
fn a_refused_mapping_returns_its_range() {
    let mut g = gpu(0x10000);
    blob(&mut g, None, 4, 4096);
    assert_eq!(
        g.blob_map_begin(OwnerFilter::Any, 4),
        BlobMapBegin::Start { offset: 0, len: 4096 }
    );
    assert_eq!(g.blob_map_finish(4, 0, 4096, None), BlobMapFinish::HostRejected);
    assert_eq!(g.table_stats().window_used, 0);
    assert_eq!(
        g.blob_map_begin(OwnerFilter::Any, 4),
        BlobMapBegin::Start { offset: 0, len: 4096 }
    );
}

#[test]
fn a_blob_that_went_away_during_its_mapping() {
    let mut g = gpu(0x10000);
    blob(&mut g, Some(owner(7)), 4, 4096);
    assert_eq!(
        g.blob_map_begin(OwnerFilter::Any, 4),
        BlobMapBegin::Start { offset: 0, len: 4096 }
    );
    assert!(g.take_blob_matching(owner(7), 1, 4).is_some());
    assert_eq!(g.blob_map_finish(4, 0, 4096, Some(1)), BlobMapFinish::SlotGone);
    assert_eq!(g.table_stats().window_used, 4096);
    g.free_window_range_pub(0, 4096);
    assert_eq!(g.table_stats().window_used, 0);
}

#[test]
fn mappings_that_cannot_be_made() {
    let mut g = gpu(0x10000);
    let failed = BlobMapBegin::Failed(VirtioError::DeviceError);
    assert_eq!(g.blob_map_begin(OwnerFilter::Any, 4), failed);
    blob(&mut g, None, 4, 0);
    assert_eq!(g.blob_map_begin(OwnerFilter::Any, 4), failed);
    blob(&mut g, None, 5, 0x1000_0001);
    assert_eq!(g.blob_map_begin(OwnerFilter::Any, 5), failed);
    blob(&mut g, None, 6, 0x11000);
    assert_eq!(
        g.blob_map_begin(OwnerFilter::Any, 6),
        BlobMapBegin::Failed(VirtioError::OutOfMemory)
    );
    g.tables.host_visible = None;
    blob(&mut g, None, 7, 4096);
    assert_eq!(g.blob_map_begin(OwnerFilter::Any, 7), failed);
}

#[test]
fn the_reserve_is_set_before_anything_is_issued() {
    let mut g = gpu(0x10000);
    assert!(g.configure_window_reserve(0x4000));
    // Once is enough.
    assert!(!g.configure_window_reserve(0x8000));
    assert_eq!(g.tables.counters.window_reconfig_refused, 1);
    blob(&mut g, None, 4, 4096);
    assert_eq!(
        g.blob_map_begin(OwnerFilter::Any, 4),
        BlobMapBegin::Start { offset: 0x4000, len: 4096 }
    );
    assert!(!g.configure_window_reserve(0x8000));
    assert_eq!(g.tables.counters.window_reconfig_refused, 2);
}

#[test]
fn the_reserve_stays_unset_after_a_mapping() {
    let mut g = gpu(0x10000);
    blob(&mut g, None, 4, 4096);
    assert_eq!(
        g.blob_map_begin(OwnerFilter::Any, 4),
        BlobMapBegin::Start { offset: 0, len: 4096 }
    );
    assert_eq!(g.blob_map_finish(4, 0, 4096, None), BlobMapFinish::HostRejected);
    assert_eq!(g.tables.window.next_offset, 0);
    assert!(!g.configure_window_reserve(0x4000));
    assert_eq!(g.tables.window.reserve, 0);
}

#[test]
fn a_blob_moves_to_a_placed_offset() {
    let mut g = gpu(0x10000);
    assert!(g.configure_window_reserve(0x8000));
    blob(&mut g, None, 4, 4096);
    assert_eq!(
        g.blob_remap_begin(4, 0x2000),
        BlobRemapBegin::Start { old: None, len: 4096 }
    );
    assert_eq!(g.blob_remap_begin(4, 0x2000), BlobRemapBegin::Busy);
    let prep = BlobMapPrep { gpa: BASE + 0x2000, size: 4096, map_cache: 1 };
    assert_eq!(g.blob_map_finish(4, 0x2000, 4096, Some(1)), BlobMapFinish::Done(prep));
    assert_eq!(g.blob_remap_begin(4, 0x2000), BlobRemapBegin::Mapped(prep));
    // Another offset hands the old range back for unmapping.
    assert_eq!(
        g.blob_remap_begin(4, 0x3000),
        BlobRemapBegin::Start { old: Some((0x2000, 4096)), len: 4096 }
    );
}

#[test]
fn stale_placements_are_listed() {
    let mut g = gpu(0x10000);
    assert!(g.configure_window_reserve(0x8000));
    for (id, offset) in [(4u32, 0u64), (5, 0x1000), (6, 0x3000)] {
        blob(&mut g, None, id, 4096);
        assert_eq!(
            g.blob_remap_begin(id, offset),
            BlobRemapBegin::Start { old: None, len: 4096 }
        );
        assert!(matches!(
            g.blob_map_finish(id, offset, 4096, Some(1)),
            BlobMapFinish::Done(_)
        ));
    }
    let mut out = [0u32; 8];
    assert_eq!(g.blobs_overlapping(0x800, 0x1000, 99, &mut out), Ok(2));
    assert_eq!(&out[..2], &[4, 5]);
    assert_eq!(g.blobs_overlapping(0x800, 0x1000, 4, &mut out), Ok(1));
    assert_eq!(out[0], 5);
    assert_eq!(g.blobs_overlapping(0x2000, 0x1000, 99, &mut out), Ok(0));
    let mut small = [0u32; 1];
    assert_eq!(g.blobs_overlapping(0, 0x8000, 99, &mut small), Err(WindowOverlapTruncated));
    g.blob_note_unmapped(4);
    assert_eq!(g.blobs_overlapping(0x800, 0x1000, 99, &mut out), Ok(1));
}

#[test]
fn an_adopted_blob_is_out_of_its_owners_reach() {
    let mut g = gpu(0x10000);
    blob(&mut g, Some(owner(7)), 4, 4096);
    // Only a live resource can be adopted.
    assert!(!g.adopt_blob_for_allocation(4));
    assert_eq!(g.tables.counters.adopt_dead_rejects, 1);
    assert!(g.reserve_resource_slot());
    g.commit_resource(4);
    assert!(g.adopt_blob_for_allocation(4));
    assert!(g.take_blob_matching(owner(7), 1, 4).is_none());
    assert!(g.take_blob_for_owner(Some(owner(7))).is_none());
    assert_eq!(g.blob_count(), 1);
    assert_eq!(g.forget_allocation_blob(4), Some((false, 0, 0)));
    assert_eq!(g.forget_allocation_blob(4), None);
    assert_eq!(g.blob_count(), 0);
}

#[test]
fn released_blobs_report_their_mapping() {
    let mut g = gpu(0x10000);
    blob(&mut g, Some(owner(7)), 4, 4096);
    assert_eq!(
        g.blob_map_begin(OwnerFilter::Any, 4),
        BlobMapBegin::Start { offset: 0, len: 4096 }
    );
    assert!(matches!(g.blob_map_finish(4, 0, 4096, Some(1)), BlobMapFinish::Done(_)));
    assert!(g.take_blob_matching(owner(8), 1, 4).is_none());
    assert!(g.take_blob_matching(owner(7), 2, 4).is_none());
    assert_eq!(g.take_blob_matching(owner(7), 1, 4), Some((4, true, 0, 4096)));
    blob(&mut g, Some(owner(7)), 5, 4096);
    assert_eq!(g.take_blob_for_owner(Some(owner(7))), Some((1, 5, false, 0, 0)));
    assert_eq!(g.take_blob_for_owner(Some(owner(7))), None);
}

#[test]
fn a_driver_blob_is_noted_once() {
    let mut g = gpu(0x10000);
    g.note_blob_size(4, 4096);
    g.note_blob_size(4, 8192);
    assert_eq!(g.blob_lookup(4), Some((None, 4096, false)));
    assert_eq!(g.tables.counters.blob_high_water, 1);
    assert_eq!(g.blob_lookup(5), None);
    for _ in 1..max_blobs() {
        assert!(g.reserve_blob_slot());
    }
    g.note_blob_size(5, 4096);
    assert_eq!(g.blob_lookup(5), None);
    assert_eq!(g.tables.counters.blob_full_rejects, 1);
}

#[test]
fn the_announced_window_is_reported() {
    let g = gpu(0x10000);
    assert_eq!(g.host_visible(), Some(HostVisibleWindow { base: BASE, len: 0x10000 }));
}
