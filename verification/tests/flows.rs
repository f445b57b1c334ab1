use helios_virtio::config::DxgkConfigAccess;
use helios_virtio::error::VirtioError;
use helios_virtio::flows::{
    alloc_blob, attach_resource_checked, ctx_attach_resource, ctx_create, ctx_create_finish,
    ctx_destroy, ctx_destroy_kmd, ctx_detach_resource, destroy_contexts_for_owner,
    forget_allocation_blob, map_blob_at, map_blob_prepare, release_blob_for_owner,
    release_blobs_for_owner, resource_create_blob, resource_flush_async, resource_unmap_blob,
    resource_unref, set_scanout_blob, set_scanout_blob_async, CreateBlob, FlowStep, Forget,
    MapBlob, MapBlobAt, Release,
};
use helios_virtio::gpu::VirtioGpu;
use helios_virtio::init::Knobs;
use helios_virtio::owner::{DeviceOwner, OwnerFilter};
use helios_virtio::protocol::{
    encode_create_blob, encode_ctx_create, encode_ctx_destroy, encode_flush, encode_map_blob,
    encode_set_scanout_blob, BlobSpec,
};
use helios_virtio::tables::{BlobMapPrep, MAX_CONTEXTS};

const BASE: u64 = 0xf000_0000;
const BLOB: BlobSpec = BlobSpec { blob_mem: 2, blob_flags: 1, blob_id: 3, size: 4096 };
const REFUSED: Result<(), VirtioError> = Err(VirtioError::DeviceError);

fn gpu() -> VirtioGpu {
    let mut d = [0u32; 64];
    d[1] = 0x0010_0000;
    d[13] = 0x40;
    d[4] = BASE as u32;
    d[16] = 0x0800_0009;
    d[17] = 1 << 8;
    d[19] = 0x10000;
    let mut resp = vec![0u8; 408];
    resp[1] = 0x11;
    let knobs =
        Knobs { dma_gpu_fence: true, present_exact_watermark: true, hold_ms: 0, head_ms: 0 };
    VirtioGpu::init(&DxgkConfigAccess::new(d), &resp, None, Vec::new(), 1, knobs).unwrap()
}

fn owner(raw: usize) -> DeviceOwner {
    DeviceOwner::new(raw).unwrap()
}

fn sent<T>(step: FlowStep<T>) -> Vec<u8> {
    match step {
        FlowStep::Send(bytes) => bytes,
        _ => panic!("a command was expected"),
    }
}

fn done<T>(step: FlowStep<T>) -> Result<T, VirtioError> {
    match step {
        FlowStep::Done(r) => r,
        _ => panic!("the end was expected"),
    }
}

/// An owned blob, created and attached.
fn create(g: &mut VirtioGpu, who: usize) -> u32 {
    let mut at = CreateBlob::Start;
    for _ in 0..2 {
        sent(alloc_blob(g, Some(owner(who)), 3, BLOB, &mut at, Ok(())));
    }
    done(alloc_blob(g, Some(owner(who)), 3, BLOB, &mut at, Ok(()))).unwrap()
}

/// Map a blob where the allocator puts it.
fn map(g: &mut VirtioGpu, id: u32) -> BlobMapPrep {
    let mut at = MapBlob::new();
    sent(map_blob_prepare(g, OwnerFilter::Any, id, &mut at, Ok(0)));
    done(map_blob_prepare(g, OwnerFilter::Any, id, &mut at, Ok(1))).unwrap()
}

#[test]
fn a_context_is_tracked_once_the_host_has_it() {
    let mut g = gpu();
    let (id, bytes) = ctx_create(&mut g, 4).unwrap();
    assert_eq!(bytes, encode_ctx_create(id, 4, b"helios"));
    assert_eq!(ctx_create_finish(&mut g, Some(owner(7)), id, Ok(())), Ok(id));
    assert!(g.resolve_owned_ctx(Some(owner(7)), id).is_some());
    assert!(matches!(ctx_destroy(&mut g, Some(owner(8)), id), Err(VirtioError::NotOwned)));
    assert_eq!(ctx_destroy(&mut g, Some(owner(7)), id).unwrap(), encode_ctx_destroy(id));
    assert!(matches!(ctx_destroy(&mut g, Some(owner(7)), id), Err(VirtioError::NotOwned)));
}

#[test]
fn a_refused_context_gives_its_slot_back() {
    let mut g = gpu();
    for _ in 0..MAX_CONTEXTS + 1 {
        let (id, _) = ctx_create(&mut g, 4).unwrap();
        assert_eq!(ctx_create_finish(&mut g, None, id, REFUSED), Err(VirtioError::DeviceError));
    }
    for _ in 0..MAX_CONTEXTS {
        assert!(ctx_create(&mut g, 4).is_ok());
    }
    assert!(matches!(ctx_create(&mut g, 4), Err(VirtioError::OutOfMemory)));
}

#[test]
fn an_owners_contexts_are_destroyed_together() {
    let mut g = gpu();
    for _ in 0..2 {
        let (id, _) = ctx_create(&mut g, 4).unwrap();
        ctx_create_finish(&mut g, Some(owner(7)), id, Ok(())).unwrap();
    }
    let (id, _) = ctx_create(&mut g, 4).unwrap();
    ctx_create_finish(&mut g, None, id, Ok(())).unwrap();
    let mut destroyed = 0;
    while destroy_contexts_for_owner(&mut g, Some(owner(7)), &mut destroyed).is_some() {}
    assert_eq!(destroyed, 2);
    assert_eq!(ctx_destroy_kmd(&mut g, id).unwrap(), encode_ctx_destroy(id));
}

#[test]
fn plain_commands() {
    assert_eq!(ctx_attach_resource(3, 8)[..4], [2, 2, 0, 0]);
    assert_eq!(ctx_detach_resource(3, 8)[..4], [3, 2, 0, 0]);
    assert_eq!(resource_unref(8)[..4], [2, 1, 0, 0]);
    assert_eq!(resource_unmap_blob(8)[..4], [9, 2, 0, 0]);
    assert_eq!(
        set_scanout_blob(8, 1920, 1080, 1, 7680, 0),
        encode_set_scanout_blob(8, 1920, 1080, 1, 7680, 0)
    );
}

#[test]
fn commands_without_a_waiter_name_their_cells() {
    let (bytes, cells) = resource_flush_async(8, 1920, 1080, 1, 2, 3);
    assert_eq!(bytes, encode_flush(8, 1920, 1080));
    assert_eq!((cells.completion, cells.completion_errors, cells.wake_event), (1, 2, 3));
    assert_eq!((cells.success_cell, cells.resubmit), (None, None));
    let (bytes, cells) = set_scanout_blob_async(8, 1920, 1080, 1, 7680, 0, 1, 2, 4, 5, 3);
    assert_eq!(bytes, encode_set_scanout_blob(8, 1920, 1080, 1, 7680, 0));
    assert_eq!((cells.success_cell, cells.success_value), (Some(4), 8));
    assert_eq!(cells.resubmit, Some(5));
}

#[test]
fn a_blob_is_created_attached_and_tracked() {
    let mut g = gpu();
    let mut at = CreateBlob::Start;
    let who = Some(owner(7));
    assert_eq!(
        sent(alloc_blob(&mut g, who, 3, BLOB, &mut at, Ok(()))),
        encode_create_blob(3, 1, BLOB)
    );
    assert_eq!(sent(alloc_blob(&mut g, who, 3, BLOB, &mut at, Ok(()))), ctx_attach_resource(3, 1));
    assert_eq!(done(alloc_blob(&mut g, who, 3, BLOB, &mut at, Ok(()))), Ok(1));
    assert_eq!(g.blob_lookup(1), Some((who, 4096, false)));
    assert!(g.resource_is_live(1));
    assert_eq!(attach_resource_checked(&g, 4, 1).unwrap(), ctx_attach_resource(4, 1));
    assert!(attach_resource_checked(&g, 4, 2).is_err());
}

#[test]
fn a_refused_blob_leaves_no_trace() {
    let mut g = gpu();
    let who = Some(owner(7));
    let mut at = CreateBlob::Start;
    sent(alloc_blob(&mut g, who, 3, BLOB, &mut at, Ok(())));
    assert_eq!(
        done(alloc_blob(&mut g, who, 3, BLOB, &mut at, REFUSED)),
        Err(VirtioError::DeviceError)
    );
    // One that cannot be attached is dropped again.
    let mut at = CreateBlob::Start;
    sent(alloc_blob(&mut g, who, 3, BLOB, &mut at, Ok(())));
    sent(alloc_blob(&mut g, who, 3, BLOB, &mut at, Ok(())));
    let drop = sent(alloc_blob(&mut g, who, 3, BLOB, &mut at, Err(VirtioError::Timeout)));
    assert_eq!(drop, resource_unref(2));
    assert_eq!(
        done(alloc_blob(&mut g, who, 3, BLOB, &mut at, Ok(()))),
        Err(VirtioError::Timeout)
    );
    assert_eq!((g.blob_count(), g.tables.blobs_reserved, g.tables.resources_reserved), (0, 0, 0));
    assert!(!g.resource_is_live(1) && !g.resource_is_live(2));
    let empty = BlobSpec { size: 0, ..BLOB };
    let mut at = CreateBlob::Start;
    assert_eq!(
        done(alloc_blob(&mut g, who, 3, empty, &mut at, Ok(()))),
        Err(VirtioError::DeviceError)
    );
}

#[test]
fn an_untracked_resource_can_be_created() {
    let mut g = gpu();
    let mut at = CreateBlob::Start;
    sent(resource_create_blob(&mut g, 3, BLOB, &mut at, Ok(())));
    sent(resource_create_blob(&mut g, 3, BLOB, &mut at, Ok(())));
    assert_eq!(done(resource_create_blob(&mut g, 3, BLOB, &mut at, Ok(()))), Ok(1));
    assert_eq!(g.blob_count(), 0);
}

#[test]
fn mapping_twice_asks_the_host_once() {
    let mut g = gpu();
    let id = create(&mut g, 7);
    let mut at = MapBlob::new();
    assert_eq!(
        sent(map_blob_prepare(&mut g, OwnerFilter::Any, id, &mut at, Ok(0))),
        encode_map_blob(id, 0)
    );
    // Somebody else has to wait.
    let mut other = MapBlob::new();
    assert!(matches!(
        map_blob_prepare(&mut g, OwnerFilter::Any, id, &mut other, Ok(0)),
        FlowStep::Sleep
    ));
    let prep = BlobMapPrep { gpa: BASE, size: 4096, map_cache: 2 };
    assert_eq!(done(map_blob_prepare(&mut g, OwnerFilter::Any, id, &mut at, Ok(2))), Ok(prep));
    assert_eq!(done(map_blob_prepare(&mut g, OwnerFilter::Any, id, &mut other, Ok(0))), Ok(prep));
}

#[test]
fn a_refused_mapping_gives_its_range_back() {
    let mut g = gpu();
    let id = create(&mut g, 7);
    let mut at = MapBlob::new();
    sent(map_blob_prepare(&mut g, OwnerFilter::Any, id, &mut at, Ok(0)));
    assert_eq!(
        done(map_blob_prepare(&mut g, OwnerFilter::Any, id, &mut at, Err(VirtioError::Timeout))),
        Err(VirtioError::Timeout)
    );
    assert_eq!(g.table_stats().window_used, 0);
}

#[test]
fn a_mapping_whose_blob_is_gone_is_undone() {
    let mut g = gpu();
    let id = create(&mut g, 7);
    let mut at = MapBlob::new();
    sent(map_blob_prepare(&mut g, OwnerFilter::Any, id, &mut at, Ok(0)));
    g.take_blob_matching(owner(7), 3, id).unwrap();
    assert_eq!(
        sent(map_blob_prepare(&mut g, OwnerFilter::Any, id, &mut at, Ok(1))),
        resource_unmap_blob(id)
    );
    assert_eq!(g.table_stats().window_used, 4096);
    assert_eq!(
        done(map_blob_prepare(&mut g, OwnerFilter::Any, id, &mut at, Ok(0))),
        Err(VirtioError::DeviceError)
    );
    assert_eq!(g.table_stats().window_used, 0);
}

#[test]
fn a_placement_evicts_what_is_in_its_way() {
    let mut g = gpu();
    assert!(g.configure_window_reserve(0x8000));
    let a = create(&mut g, 7);
    let b = create(&mut g, 7);
    let mut at = MapBlobAt::Start;
    assert_eq!(sent(map_blob_at(&mut g, a, 0x2000, &mut at, Ok(0))), encode_map_blob(a, 0x2000));
    assert_eq!(
        done(map_blob_at(&mut g, a, 0x2000, &mut at, Ok(1))),
        Ok(BlobMapPrep { gpa: BASE + 0x2000, size: 4096, map_cache: 1 })
    );
    let mut at = MapBlobAt::Start;
    assert_eq!(sent(map_blob_at(&mut g, b, 0x2000, &mut at, Ok(0))), resource_unmap_blob(a));
    assert_eq!(sent(map_blob_at(&mut g, b, 0x2000, &mut at, Ok(0))), encode_map_blob(b, 0x2000));
    assert!(done(map_blob_at(&mut g, b, 0x2000, &mut at, Ok(1))).is_ok());
    assert_eq!(g.blob_lookup(a), Some((Some(owner(7)), 4096, false)));
    assert_eq!(g.blob_resid_at_offset(0x2000), Some(b));
}

#[test]
fn a_placement_moves_the_blob() {
    let mut g = gpu();
    assert!(g.configure_window_reserve(0x8000));
    let a = create(&mut g, 7);
    assert_eq!(map(&mut g, a).gpa, BASE + 0x8000);
    let mut at = MapBlobAt::Start;
    assert_eq!(sent(map_blob_at(&mut g, a, 0x2000, &mut at, Ok(0))), resource_unmap_blob(a));
    assert_eq!(sent(map_blob_at(&mut g, a, 0x2000, &mut at, Ok(0))), encode_map_blob(a, 0x2000));
    // The range outside the reserve is free again.
    assert_eq!(g.table_stats().window_used, 0x8000);
    assert!(done(map_blob_at(&mut g, a, 0x2000, &mut at, Ok(1))).is_ok());
    let mut at = MapBlobAt::Start;
    assert!(done(map_blob_at(&mut g, 99, 0x2000, &mut at, Ok(1))).is_err());
}

#[test]
fn a_released_blob_is_unmapped_detached_and_dropped() {
    let mut g = gpu();
    let id = create(&mut g, 7);
    map(&mut g, id);
    let mut at = Release::Start;
    let step = |g: &mut VirtioGpu, at: &mut Release| {
        release_blob_for_owner(g, owner(7), 3, id, at, Ok(()))
    };
    assert_eq!(sent(step(&mut g, &mut at)), resource_unmap_blob(id));
    assert_eq!(sent(step(&mut g, &mut at)), ctx_detach_resource(3, id));
    assert_eq!(g.table_stats().window_used, 0);
    assert_eq!(sent(step(&mut g, &mut at)), resource_unref(id));
    assert!(!g.resource_is_live(id));
    assert_eq!(done(step(&mut g, &mut at)), Ok(()));
    // Somebody else's blob is left alone.
    let id = create(&mut g, 7);
    let mut at = Release::Start;
    assert_eq!(
        done(release_blob_for_owner(&mut g, owner(8), 3, id, &mut at, Ok(()))),
        Ok(())
    );
    assert_eq!(g.blob_count(), 1);
}

#[test]
fn all_blobs_of_an_owner_are_released() {
    let mut g = gpu();
    create(&mut g, 7);
    create(&mut g, 8);
    create(&mut g, 7);
    let mut at = Release::Start;
    let mut reclaimed = 0;
    let mut commands = 0;
    loop {
        match release_blobs_for_owner(&mut g, Some(owner(7)), &mut at, &mut reclaimed) {
            FlowStep::Send(_) => commands += 1,
            FlowStep::Again => {}
            FlowStep::Sleep => panic!("nothing to wait for"),
            FlowStep::Done(r) => {
                assert_eq!(r, Ok(2));
                break;
            }
        }
    }
    assert_eq!(commands, 4);
    assert_eq!(g.blob_count(), 1);
}

#[test]
fn a_forgotten_allocation_is_unmapped() {
    let mut g = gpu();
    let id = create(&mut g, 7);
    map(&mut g, id);
    assert!(g.adopt_blob_for_allocation(id));
    let mut at = Forget::Start;
    assert_eq!(sent(forget_allocation_blob(&mut g, id, &mut at)), resource_unmap_blob(id));
    assert_eq!(done(forget_allocation_blob(&mut g, id, &mut at)), Ok(true));
    assert_eq!(g.table_stats().window_used, 0);
    let mut at = Forget::Start;
    assert_eq!(done(forget_allocation_blob(&mut g, id, &mut at)), Ok(false));
}

#[test]
fn a_mapping_is_as_long_as_the_blob_in_pages() {
    let mut g = gpu();
    assert!(g.configure_window_reserve(0x8000));
    g.note_blob_size(70, 0x1001);
    let mut at = MapBlobAt::Start;
    assert_eq!(sent(map_blob_at(&mut g, 70, 0x2000, &mut at, Ok(0))), encode_map_blob(70, 0x2000));
    let prep = BlobMapPrep { gpa: BASE + 0x2000, size: 0x2000, map_cache: 1 };
    assert_eq!(done(map_blob_at(&mut g, 70, 0x2000, &mut at, Ok(1))), Ok(prep));
    // Where it is mapped already, it is answered at once, either way.
    let used = g.table_stats().window_used;
    let mut at = MapBlobAt::Start;
    assert_eq!(done(map_blob_at(&mut g, 70, 0x2000, &mut at, Ok(0))), Ok(prep));
    let mut at = MapBlob::new();
    assert_eq!(done(map_blob_prepare(&mut g, OwnerFilter::Any, 70, &mut at, Ok(0))), Ok(prep));
    assert_eq!(g.table_stats().window_used, used);
}

#[test]
fn a_sweep_leaves_the_others_as_they_were() {
    let mut g = gpu();
    let mine = [create(&mut g, 7), create(&mut g, 7), create(&mut g, 7)];
    let theirs = create(&mut g, 8);
    g.note_blob_size(90, 4096);
    map(&mut g, mine[1]);
    map(&mut g, theirs);
    let before = (g.blob_lookup(theirs), g.blob_lookup(90));
    let mut at = Release::Start;
    let mut reclaimed = 0;
    loop {
        match release_blobs_for_owner(&mut g, Some(owner(7)), &mut at, &mut reclaimed) {
            FlowStep::Done(r) => {
                assert_eq!(r, Ok(3));
                break;
            }
            FlowStep::Sleep => panic!("nothing to wait for"),
            _ => {}
        }
    }
    for id in mine {
        assert_eq!(g.blob_lookup(id), None);
        assert!(!g.resource_is_live(id));
    }
    assert_eq!((g.blob_lookup(theirs), g.blob_lookup(90)), before);
    assert!(g.resource_is_live(theirs));
    assert_eq!(g.blob_count(), 2);
    assert_eq!(g.table_stats().window_used, 4096);
}
