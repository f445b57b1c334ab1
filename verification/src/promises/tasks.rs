//! Tasks of several commands, in the order in which the host gets them; register
//! mappings; and what is left when an instance ends.
use crate::ctrl::Budget;
use crate::drain::control_done;
use crate::error::{status_of, VirtioError};
use crate::flows::{flush_cells, set_cells, CreateBlob, Forget, MapBlob, MapBlobAt, Next, Release};
use crate::gpu::GpuState;
use crate::hal::{Mapping, MmioCache, MmioInsert};
use crate::inflight::{Action, InFlightKind};
use crate::owner::DeviceOwner;
use crate::promises::memory::law_released_blob_is_its_owners;
use crate::promises::wire::{field32, field64, law_create_command_on_the_wire,
    law_map_command_on_the_wire, law_resource_command_on_the_wire};
use crate::protocol::BlobSpec;
use crate::seqs::{first_index, lemma_first_index, lemma_first_index_exists, lemma_no_first_index};
use crate::tables::{BlobMapBegin, BlobMapPrep, BlobSlot, TablesState};
use crate::window::{WindowRange, WindowState};
use vstd::prelude::*;

verus! {

/// The command `b` is this one, on this context and resource.
pub open spec fn is_command(b: Seq<u8>, command: int, ctx_id: int, resource_id: int) -> bool {
    field32(b, 0) == command && field32(b, 16) == ctx_id && field32(b, 24) == resource_id
}

/// A blob resource is created under a new id, then attached to its context, then
/// tracked. One that the host refuses is forgotten; one that could not be attached is
/// dropped again, and its refusal reported. One that could not be tracked is never
/// created.
pub proof fn law_creation_goes_in_order(
    t: TablesState,
    ctx_id: u32,
    blob: BlobSpec,
    id: u32,
    why: VirtioError,
    v: Result<(), VirtioError>,
)
    ensures
        ({
            let (step, at, u) = CreateBlob::Start.next(t, ctx_id, blob, v);
            if t.resources.len() + t.resources_reserved < 16384 {
                &&& step matches Next::Send(b) && is_command(
                    b,
                    0x10c,
                    ctx_id as int,
                    t.next_resource_id as int,
                ) && field64(b, 40) == blob.blob_id && field64(b, 48) == blob.size
                &&& at == (CreateBlob::Creating { resource_id: t.next_resource_id })
                &&& u.resources == t.resources
                &&& t.next_resource_id < u32::MAX ==> u.next_resource_id == t.next_resource_id + 1
            } else {
                &&& step == Next::<u32>::Done(Err(VirtioError::OutOfMemory))
                &&& u.resources == t.resources
            }
        }),
        ({
            let creating = CreateBlob::Creating { resource_id: id };
            let (step, at, u) = creating.next(t, ctx_id, blob, Ok(()));
            &&& step matches Next::Send(b) && is_command(b, 0x202, ctx_id as int, id as int)
            &&& at == (CreateBlob::Attaching { resource_id: id })
            &&& u == t
            &&& creating.next(t, ctx_id, blob, Err(why)).0 == Next::<u32>::Done(Err(why))
            &&& creating.next(t, ctx_id, blob, Err(why)).2.resources == t.resources
        }),
        ({
            let attaching = CreateBlob::Attaching { resource_id: id };
            let (done, _, u) = attaching.next(t, ctx_id, blob, Ok(()));
            let (drop, at, w) = attaching.next(t, ctx_id, blob, Err(why));
            &&& done == Next::<u32>::Done(Ok(id))
            &&& u.resources == t.resources.push(id)
            &&& drop matches Next::Send(b) && is_command(b, 0x102, 0, id as int)
            &&& at == (CreateBlob::Dropping { resource_id: id, why })
            &&& w == t
            &&& at.next(t, ctx_id, blob, v).0 == Next::<u32>::Done(Err(why))
            &&& at.next(t, ctx_id, blob, v).2.resources == t.resources
        }),
{
    law_create_command_on_the_wire(ctx_id, t.next_resource_id, blob);
    law_resource_command_on_the_wire(0x202, ctx_id, id);
    law_resource_command_on_the_wire(0x102, 0, id);
}

/// A tracked blob is created only with a size and room in the table, and belongs to its
/// owner and context from then on.
pub proof fn law_created_blob_is_its_owners(
    t: TablesState,
    owner: Option<DeviceOwner>,
    ctx_id: u32,
    blob: BlobSpec,
    id: u32,
    v: Result<(), VirtioError>,
)
    ensures
        blob.size == 0 ==> CreateBlob::Start.next_tracked(t, owner, ctx_id, blob, v) == (
            Next::<u32>::Done(Err(VirtioError::DeviceError)),
            CreateBlob::Ended,
            t,
        ),
        blob.size > 0 && t.blobs.len() + t.blobs_reserved >= 8192 ==> CreateBlob::Start.next_tracked(
            t,
            owner,
            ctx_id,
            blob,
            v,
        ).0 == Next::<u32>::Done(Err(VirtioError::OutOfMemory)),
        ({
            let attaching = CreateBlob::Attaching { resource_id: id };
            let (done, _, u) = attaching.next_tracked(t, owner, ctx_id, blob, Ok(()));
            &&& done == Next::<u32>::Done(Ok(id))
            &&& u.resources == t.resources.push(id)
            &&& u.blobs == t.blobs.push(
                BlobSlot {
                    owner,
                    ctx_id,
                    resource_id: id,
                    size: blob.size,
                    mapped: false,
                    map_pending: false,
                    map_cache: 0,
                    map_offset: 0,
                    map_len: 0,
                },
            )
            &&& t.blobs_reserved > 0 ==> u.blobs_reserved == t.blobs_reserved - 1
        }),
{
}

/// A blob that is released is first unmapped, where it is mapped, and its range returned
/// only then; then it is detached from its context and unreferenced, once. Another's
/// blob is left alone.
pub proof fn law_release_goes_in_order(
    t: TablesState,
    owner: DeviceOwner,
    ctx_id: u32,
    i: int,
    v: Result<(), VirtioError>,
)
    requires
        t.wf(),
        0 <= i < t.blobs.len(),
    ensures
        ({
            let s = t.blobs[i];
            let id = s.resource_id;
            let (step, at, u) = Release::Start.released(t, owner, ctx_id, id, v);
            let theirs = s.owner == Some(owner) && s.ctx_id == ctx_id;
            &&& !theirs ==> step == Next::<()>::Done(Ok(())) && u == t
            &&& theirs ==> u.blobs == t.blobs.update(i, t.blobs.last()).drop_last()
            &&& theirs && s.mapped ==> (step matches Next::Send(b) && is_command(
                b,
                0x209,
                0,
                id as int,
            )) && at == (Release::Unmapping {
                ctx_id,
                resource_id: id,
                offset: s.map_offset,
                len: s.map_len,
            }) && u.window == t.window && u.resources == t.resources
            &&& theirs && !s.mapped && t.resources.contains(id) ==> (step matches Next::Send(b)
                && is_command(b, 0x203, ctx_id as int, id as int)) && at == (Release::Detaching {
                ctx_id,
                resource_id: id,
            })
            &&& theirs && !s.mapped && !t.resources.contains(id) ==> step == Next::<()>::Done(
                Ok(()),
            ) && at == Release::Ended
        }),
{
    let s = t.blobs[i];
    let id = s.resource_id;
    law_released_blob_is_its_owners(t, owner, ctx_id, i);
    let p = BlobSlot::exact(Some(owner), ctx_id, id);
    assert forall|k: int|
        0 <= k < t.blobs.len() && (#[trigger] t.blobs[k]).resource_id == id implies k == i by {
        if k < i {
            assert(t.blobs[k].resource_id != t.blobs[i].resource_id);
        } else if i < k {
            assert(t.blobs[i].resource_id != t.blobs[k].resource_id);
        }
    }
    if s.owner == Some(owner) && s.ctx_id == ctx_id {
        lemma_first_index(t.blobs, p, i);
    } else {
        assert forall|k: int| 0 <= k < t.blobs.len() implies !p(#[trigger] t.blobs[k]) by {}
        lemma_no_first_index(t.blobs, p);
    }
    crate::promises::memory::law_life_ends_once(t.without_blob(i), id);
    law_resource_command_on_the_wire(0x209, 0, id);
    law_resource_command_on_the_wire(0x203, ctx_id, id);
}

/// What follows the unmapping of a released blob.
pub proof fn law_release_goes_on(
    t: TablesState,
    owner: DeviceOwner,
    ctx_id: u32,
    id: u32,
    offset: u64,
    len: u64,
    v: Result<(), VirtioError>,
)
    ensures
        ({
            let unmapping = Release::Unmapping { ctx_id, resource_id: id, offset, len };
            let (step, at, u) = unmapping.released(t, owner, ctx_id, id, v);
            &&& u.window == t.window.after_free(offset, len)
            &&& u.blobs == t.blobs
            &&& t.resources.contains(id) ==> (step matches Next::Send(b) && is_command(
                b,
                0x203,
                ctx_id as int,
                id as int,
            )) && at == (Release::Detaching { ctx_id, resource_id: id }) && u.resources.len()
                == t.resources.len() - 1
            &&& !t.resources.contains(id) ==> step == Next::<()>::Done(Ok(())) && u.resources
                == t.resources
        }),
        ({
            let detaching = Release::Detaching { ctx_id, resource_id: id };
            let (step, at, u) = detaching.released(t, owner, ctx_id, id, v);
            &&& step matches Next::Send(b) && is_command(b, 0x102, 0, id as int)
            &&& at == Release::Unreffing
            &&& u == t
        }),
        Release::Unreffing.released(t, owner, ctx_id, id, v) == (Next::Done(v), Release::Ended, t),
{
    crate::promises::memory::law_life_ends_once(t.after_window_free(offset, len), id);
    law_resource_command_on_the_wire(0x203, ctx_id, id);
    law_resource_command_on_the_wire(0x102, 0, id);
}

/// The driver's blob of an allocation is forgotten, and unmapped if it is mapped; the
/// answer tells whether it was.
pub proof fn law_forgotten_blob_is_unmapped(t: TablesState, i: int)
    requires
        t.wf(),
        0 <= i < t.blobs.len(),
    ensures
        ({
            let s = t.blobs[i];
            let id = s.resource_id;
            let (step, at, u) = Forget::Start.next(t, id);
            let drivers = s.owner is None;
            &&& !drivers ==> step == Next::<bool>::Done(Ok(false)) && u == t
            &&& drivers && !s.mapped ==> step == Next::<bool>::Done(Ok(false))
            &&& drivers && s.mapped ==> (step matches Next::Send(b) && is_command(
                b,
                0x209,
                0,
                id as int,
            )) && at == (Forget::Unmapping { offset: s.map_offset, len: s.map_len })
            &&& drivers ==> u.blobs == t.blobs.update(i, t.blobs.last()).drop_last() && u.window
                == t.window
            &&& (Forget::Unmapping { offset: s.map_offset, len: s.map_len }).next(u, id).0
                == Next::<bool>::Done(Ok(true))
            &&& (Forget::Unmapping { offset: s.map_offset, len: s.map_len }).next(u, id).2.window
                == u.window.after_free(s.map_offset, s.map_len)
        }),
{
    let s = t.blobs[i];
    let id = s.resource_id;
    let p = BlobSlot::driver_owned(id);
    assert forall|k: int|
        0 <= k < t.blobs.len() && (#[trigger] t.blobs[k]).resource_id == id implies k == i by {
        if k < i {
            assert(t.blobs[k].resource_id != t.blobs[i].resource_id);
        } else if i < k {
            assert(t.blobs[i].resource_id != t.blobs[k].resource_id);
        }
    }
    if s.owner is None {
        lemma_first_index(t.blobs, p, i);
    } else {
        assert forall|k: int| 0 <= k < t.blobs.len() implies !p(#[trigger] t.blobs[k]) by {}
        lemma_no_first_index(t.blobs, p);
    }
    law_resource_command_on_the_wire(0x209, 0, id);
}

/// A placement first undoes what is in its way, one mapping after the other, and maps
/// nothing if that is more than can be listed; then it undoes the blob's own mapping
/// elsewhere, and only then maps it.
pub proof fn law_placement_goes_in_order(
    t: TablesState,
    i: int,
    offset: u64,
    v: Result<u32, VirtioError>,
    stale: [u32; 8],
)
    requires
        t.wf(),
        t.host_visible is Some,
        0 <= i < t.blobs.len(),
    ensures
        ({
            let s = t.blobs[i];
            let id = s.resource_id;
            let len = (s.size + 4095) / 4096 * 4096;
            let ids = t.in_the_way(
                offset,
                crate::window::page_ceiling(s.size) as u64,
                id,
            );
            let (step, at, u) = MapBlobAt::Start.next(t, id, offset, v, stale);
            let fits = 0 < s.size <= 0x1000_0000 && offset % 4096 == 0 && offset + len
                <= t.window.reserve;
            let clear = ids.len() == 0 && !s.map_pending;
            &&& ids.len() > 8 ==> step == Next::<BlobMapPrep>::Done(Err(VirtioError::DeviceError))
                && u.blobs == t.blobs
            &&& 0 < ids.len() <= 8 ==> (step matches Next::Send(b) && is_command(
                b,
                0x209,
                0,
                ids[0] as int,
            )) && u == t && at == (MapBlobAt::Evicting { stale, n: ids.len() as usize, k: 0 })
            &&& clear && s.mapped && s.map_offset == offset ==> (step matches Next::Done(Ok(prep))
                && prep.gpa == (t.host_visible->0.base + offset) % 0x1_0000_0000_0000_0000)
            &&& clear && !(s.mapped && s.map_offset == offset) && !fits ==> step == Next::<
                BlobMapPrep,
            >::Done(Err(VirtioError::DeviceError)) && u == t
            &&& clear && s.mapped && s.map_offset != offset && fits ==> (step matches Next::Send(b)
                && is_command(b, 0x209, 0, id as int)) && at == (MapBlobAt::Moving {
                old_offset: s.map_offset,
                old_len: s.map_len,
                len: len as u64,
            })
            &&& clear && !s.mapped && fits ==> (step matches Next::Send(b) && is_command(
                b,
                0x208,
                0,
                id as int,
            ) && field64(b, 32) == offset) && at == (MapBlobAt::Mapping { len: len as u64 })
        }),
{
    let s = t.blobs[i];
    let id = s.resource_id;
    assert forall|k: int| 0 <= k < i implies !BlobSlot::named(id)(#[trigger] t.blobs[k]) by {
        assert(t.blobs[k].resource_id != t.blobs[i].resource_id);
    }
    lemma_first_index(t.blobs, BlobSlot::named(id), i);
    crate::promises::memory::law_placement_stays_in_the_reserve(t, i, offset);
    let ids = t.in_the_way(offset, crate::window::page_ceiling(s.size) as u64, id);
    if ids.len() > 0 {
        law_resource_command_on_the_wire(0x209, 0, ids[0]);
    }
    law_resource_command_on_the_wire(0x209, 0, id);
    law_map_command_on_the_wire(id, offset);
}

/// What follows within a placement: each listed mapping is marked as undone, and the
/// next one on the list is undone after it.
#[verifier::spinoff_prover]
pub proof fn law_placement_goes_on(
    t: TablesState,
    id: u32,
    offset: u64,
    v: Result<u32, VirtioError>,
    stale: [u32; 8],
    n: usize,
    k: usize,
)
    requires
        k + 1 < n <= 8,
    ensures
        ({
            let (step, at, u) = (MapBlobAt::Evicting { stale, n, k }).next(t, id, offset, v, stale);
            &&& step matches Next::Send(b) && is_command(b, 0x209, 0, stale@[k + 1] as int)
            &&& at == (MapBlobAt::Evicting { stale, n, k: (k + 1) as usize })
            &&& u == t.unmapped(stale@[k as int])
        }),
{
    law_resource_command_on_the_wire(0x209, 0, stale@[k + 1]);
}

/// A placement that moves a blob returns the range that was left before the new one is
/// mapped, at the offset that was asked for.
#[verifier::spinoff_prover]
pub proof fn law_placement_leaves_the_old_range(
    t: TablesState,
    id: u32,
    offset: u64,
    v: Result<u32, VirtioError>,
    stale: [u32; 8],
    old_offset: u64,
    old_len: u64,
    len: u64,
)
    ensures
        ({
            let moving = MapBlobAt::Moving { old_offset, old_len, len };
            let (step, at, u) = moving.next(t, id, offset, v, stale);
            &&& step matches Next::Send(b) && is_command(b, 0x208, 0, id as int) && field64(b, 32)
                == offset
            &&& at == (MapBlobAt::Mapping { len })
            &&& u.window == t.window.after_free(old_offset, old_len) && u.blobs == t.blobs
        }),
{
    law_map_command_on_the_wire(id, offset);
}

/// A granted placement lies at the offset that was asked for, with the caching that the
/// host answered, and a refused one ends with the refusal.
#[verifier::spinoff_prover]
pub proof fn law_placement_lies_where_asked(
    t: TablesState,
    id: u32,
    offset: u64,
    v: Result<u32, VirtioError>,
    stale: [u32; 8],
    len: u64,
)
    ensures
        (MapBlobAt::Mapping { len }).next(t, id, offset, v, stale).0 matches Next::Done(Ok(prep))
            ==> (v matches Ok(c) && prep.map_cache == c) && prep.size == len && (
        t.host_visible matches Some(w) ==> prep.gpa == (w.base + offset)
            % 0x1_0000_0000_0000_0000),
        v matches Err(e) ==> (MapBlobAt::Mapping { len }).next(t, id, offset, v, stale).0 == Next::<
            BlobMapPrep,
        >::Done(Err(e)),
{
}

/// A SET without a waiter that succeeds stores the resource that is shown and asks for a
/// refresh; a flush stores nothing but its end.
pub proof fn law_cells_of_scanout_commands(
    resource_id: u32,
    completion: u64,
    errors: u64,
    host_bound: u64,
    refresh: u64,
    wake: u64,
)
    ensures
        control_done(
            set_cells(resource_id, completion, errors, host_bound, refresh, wake),
            true,
        ) == seq![
            Action::Store { cell: host_bound, value: resource_id as u64 },
            Action::Store { cell: refresh, value: 1 },
            Action::Store { cell: completion, value: 0 },
            Action::Wake { event: wake },
        ],
        control_done(flush_cells(completion, errors, wake), true) == seq![
            Action::Store { cell: completion, value: 0 },
            Action::Wake { event: wake },
        ],
        control_done(
            set_cells(resource_id, completion, errors, host_bound, refresh, wake),
            false,
        ) == seq![
            Action::Increment { cell: errors },
            Action::Store { cell: completion, value: 0 },
            Action::Wake { event: wake },
        ],
{
    let s = set_cells(resource_id, completion, errors, host_bound, refresh, wake);
    assert(control_done(s, true) =~= seq![
        Action::Store { cell: host_bound, value: resource_id as u64 },
        Action::Store { cell: refresh, value: 1 },
        Action::Store { cell: completion, value: 0 },
        Action::Wake { event: wake },
    ]);
    assert(control_done(s, false) =~= seq![
        Action::Increment { cell: errors },
        Action::Store { cell: completion, value: 0 },
        Action::Wake { event: wake },
    ]);
    assert(control_done(flush_cells(completion, errors, wake), true) =~= seq![
        Action::Store { cell: completion, value: 0 },
        Action::Wake { event: wake },
    ]);
}

/// A register region is found where a mapping at its address covers it; a fresh mapping
/// is used unless one is known, and kept while there is room.
pub proof fn law_register_mappings_are_reused(
    entries: Seq<Mapping>,
    paddr: u64,
    size: usize,
    mapped: Option<usize>,
)
    ensures
        ({
            let r = MmioCache::found(entries, paddr, size);
            let its = |k: int|
                0 <= k < entries.len() && entries[k].paddr == paddr && entries[k].size >= size;
            let (what, after) = MmioCache::recorded(entries, paddr, size, mapped);
            &&& r is Some <==> exists|k: int| #[trigger] its(k)
            &&& r matches Some(va) ==> exists|k: int| #[trigger] its(k) && entries[k].va == va
            &&& mapped is None ==> what is Failed && after == entries
            &&& mapped is Some && r is Some ==> what == MmioInsert::Discard(r->0) && after
                == entries
            &&& mapped is Some && r is None ==> what == MmioInsert::Keep(mapped->0) && after
                == if entries.len() < 16 {
                entries.push(Mapping { paddr, va: mapped->0, size })
            } else {
                entries
            }
        }),
{
    let its = |k: int|
        0 <= k < entries.len() && entries[k].paddr == paddr && entries[k].size >= size;
    let p = MmioCache::covers(paddr, size);
    lemma_first_index_exists(entries, p);
    match first_index(entries, p) {
        Some(i) => {
            assert(p(entries[i]));
            assert(its(i));
        },
        None => {
            assert forall|k: int| !#[trigger] its(k) by {
                if 0 <= k < entries.len() {
                    assert(!p(entries[k]));
                }
            }
        },
    }
}

/// Each error of bring-up has the status that the platform expects of it.
pub proof fn law_errors_have_their_status(e: VirtioError)
    ensures
        e is OutOfMemory || e is MmioMapFailed ==> status_of(e) == Some(-0x3fffff66i32),
        e is CapNotFound || e is FeatureRejected || e is DeviceError ==> status_of(e) == Some(
            -0x3ffffe7bi32,
        ),
        e is QueueFull ==> status_of(e) == Some(-0x7fffffefi32),
        e is Timeout ==> status_of(e) == Some(-0x3fffff4bi32),
        e is NotImplemented ==> status_of(e) == Some(-0x3ffffffei32),
        e is NotOwned || e is PresentationSuperseded || e is PublicationBusy ==> status_of(
            e,
        ) is None,
{
}

/// The window hands out the first free range that is long enough, from its front, and
/// moves its mark only where there is none.
pub proof fn law_window_reuses_before_it_grows(s: WindowState, len: u64, k: int)
    requires
        s.wf(),
        len > 0,
        0 <= k < s.free.len(),
        s.free[k].len >= len,
        forall|j: int| 0 <= j < k ==> (#[trigger] s.free[j]).len < len,
    ensures
        s.after_alloc(len) matches Some((offset, t)) && offset == s.free[k].offset && t.next_offset
            == s.next_offset && t.reserve == s.reserve && t.window_len == s.window_len && t.started,
        s.free[k].len > len ==> (s.after_alloc(len) matches Some((_, t)) && t.free == s.free.update(
            k,
            WindowRange {
                offset: (s.free[k].offset + len) as u64,
                len: (s.free[k].len - len) as u64,
            },
        )),
{
    lemma_first_index(s.free, WindowState::fits(len), k);
}

/// A range that comes back lowers the mark where it ends there, joins a free neighbour
/// where it touches one, and is listed otherwise, 1024 at most; an empty range and one in
/// the reserve change nothing.
pub proof fn law_returned_range_is_free(s: WindowState, offset: u64, len: u64, k: int)
    requires
        s.wf(),
        s.issued(offset, len),
        len > 0,
    ensures
        ({
            let t = s.after_free(offset, len);
            let top = offset + len == s.next_offset;
            let touched = exists|j: int|
                0 <= j < s.free.len() && ((#[trigger] s.free[j]).offset + s.free[j].len == offset
                    || offset + len == s.free[j].offset);
            &&& top ==> t.next_offset <= offset
            &&& !top ==> t.next_offset == s.next_offset
            &&& !top && touched ==> t.free.len() == s.free.len()
            &&& !top && !touched && s.free.len() < 1024 ==> t.free == s.free.push(
                WindowRange { offset, len },
            )
            &&& !top && !touched && s.free.len() >= 1024 ==> t == s
        }),
        s.after_free(offset, 0) == s,
        k < s.reserve && 0 <= k <= u64::MAX ==> s.after_free(k as u64, len) == s,
{
    let p = WindowState::touches(offset, len);
    lemma_first_index_exists(s.free, p);
    if exists|j: int|
        0 <= j < s.free.len() && ((#[trigger] s.free[j]).offset + s.free[j].len == offset || offset
            + len == s.free[j].offset) {
        let j = choose|j: int|
            0 <= j < s.free.len() && ((#[trigger] s.free[j]).offset + s.free[j].len == offset
                || offset + len == s.free[j].offset);
        assert(p(s.free[j]));
    }
    if let Some(i) = first_index(s.free, p) {
        assert(p(s.free[i]));
        assert(s.free[i].offset + s.free[i].len == offset || offset + len == s.free[i].offset);
    }
    if offset + len == s.next_offset {
        let lowered = WindowState { next_offset: offset, ..s };
        assert(!s.available(offset as int));
        lemma_absorb_lowers(lowered);
    }
}

proof fn lemma_absorb_lowers(s: WindowState)
    requires
        forall|i: int| 0 <= i < s.free.len() ==> (#[trigger] s.free[i]).len > 0,
    ensures
        s.absorbed().next_offset <= s.next_offset,
    decreases s.free.len(),
{
    let p = WindowState::ends_at(s.next_offset as int);
    lemma_first_index_exists(s.free, p);
    if let Some(i) = first_index(s.free, p) {
        assert(p(s.free[i]));
        let t = WindowState {
            next_offset: s.free[i].offset,
            free: crate::seqs::swap_removed(s.free, i),
            ..s
        };
        assert forall|k: int| 0 <= k < t.free.len() implies (#[trigger] t.free[k]).len > 0 by {
            let src = if k == i {
                s.free.len() - 1
            } else {
                k
            };
            assert(t.free[k] == s.free[src]);
        }
        lemma_absorb_lowers(t);
    }
}

/// When an instance ends, nothing stays in flight or parked, no buffer is kept, no event
/// is registered, no copy is pending and no stream is registered; every buffer it had is
/// handed back.
pub proof fn law_end_leaves_nothing_behind(g: GpuState, i: int)
    requires
        g.wf(),
        0 <= i < g.queue.inflight.len(),
    ensures
        ({
            let (t, _) = g.torn_down();
            let all = g.queue.all_buffers();
            &&& t.queue.inflight.len() == 0 && t.queue.parked.len() == 0
            &&& t.queue.dma_pool.len() == 0 && t.queue.dma_pool_bytes == 0
            &&& t.queue.bind_cmd_pool.len() == 0
            &&& t.fences.events.len() == 0
            &&& t.blt.pending.len() == 0
            &&& forall|k: int| 0 <= k < 64 ==> !(#[trigger] t.streams.slots[k]).live
            &&& all.contains(g.queue.inflight[i].meta)
            &&& g.queue.inflight[i].venus matches Some(v) ==> all.contains(v)
            &&& forall|k: int|
                0 <= k < g.queue.dma_pool.len() ==> all.contains(#[trigger] g.queue.dma_pool[k])
            &&& forall|k: int|
                0 <= k < g.queue.bind_cmd_pool.len() ==> all.contains(
                    #[trigger] g.queue.bind_cmd_pool[k],
                )
        }),
{
    crate::lifecycle::law_teardown_signals_no_event(g, 0);
    let h = GpuState { blt: g.blt.aborted().0, ..g };
    assert forall|k: int| 0 <= k < 64 implies !(
    #[trigger] g.torn_down().0.streams.slots[k]).live by {
        crate::promises::stream_life::law_ended_streams_are_those_named(h.streams, None, 0, k);
    }
    let all = g.queue.all_buffers();
    let a = crate::queue::buffers_of(g.queue.inflight);
    let b = crate::queue::buffers_of(g.queue.parked);
    lemma_its_buffers(g.queue.inflight, i);
    let m = choose|m: int| 0 <= m < a.len() && a[m] == g.queue.inflight[i].meta;
    assert(all[m] == a[m]);
    if let Some(v) = g.queue.inflight[i].venus {
        let m = choose|m: int| 0 <= m < a.len() && a[m] == v;
        assert(all[m] == a[m]);
    }
    assert forall|k: int| 0 <= k < g.queue.dma_pool.len() implies all.contains(
        #[trigger] g.queue.dma_pool[k],
    ) by {
        assert(all[a.len() + b.len() + k] == g.queue.dma_pool[k]);
    }
    assert forall|k: int| 0 <= k < g.queue.bind_cmd_pool.len() implies all.contains(
        #[trigger] g.queue.bind_cmd_pool[k],
    ) by {
        assert(all[a.len() + b.len() + g.queue.dma_pool.len() + k] == g.queue.bind_cmd_pool[k]);
    }
}

proof fn lemma_its_buffers(s: Seq<crate::inflight::InFlight>, i: int)
    requires
        0 <= i < s.len(),
    ensures
        crate::queue::buffers_of(s).contains(s[i].meta),
        s[i].venus matches Some(v) ==> crate::queue::buffers_of(s).contains(v),
    decreases s.len(),
{
    let all = crate::queue::buffers_of(s);
    let front = crate::queue::buffers_of(s.drop_last());
    if i < s.len() - 1 {
        lemma_its_buffers(s.drop_last(), i);
        let m = choose|m: int| 0 <= m < front.len() && front[m] == s[i].meta;
        assert(all[m] == front[m]);
        if let Some(v) = s[i].venus {
            let m = choose|m: int| 0 <= m < front.len() && front[m] == v;
            assert(all[m] == front[m]);
        }
    } else {
        assert(all[front.len() as int] == s[i].meta);
        if let Some(v) = s[i].venus {
            assert(all[front.len() as int + 1] == v);
        }
    }
}

/// What follows the begin of a mapping: a blob that is being mapped is waited for, half a
/// minute at most; a refusal is reported and its range returned; a blob that went away
/// meanwhile is unmapped, and its range returned only then.
pub proof fn law_mapping_goes_on(
    t: TablesState,
    filter: crate::owner::OwnerFilter,
    id: u32,
    offset: u64,
    len: u64,
    busy: Budget,
    cache: u32,
    e: VirtioError,
    v: Result<u32, VirtioError>,
)
    requires
        busy.spent_ms < u64::MAX,
    ensures
        t.map_begun(filter, id).0 is Busy ==> (MapBlob::Begin { busy }).next(t, filter, id, v).0
            == if busy.spent_ms < busy.total_ms {
            Next::<BlobMapPrep>::Sleep
        } else {
            Next::<BlobMapPrep>::Done(Err(VirtioError::Timeout))
        },
        t.map_begun(filter, id).0 matches BlobMapBegin::Mapped(prep) ==> (MapBlob::Begin {
            busy,
        }).next(t, filter, id, v).0 == Next::Done(Ok(prep)),
        t.map_begun(filter, id).0 matches BlobMapBegin::Failed(why) ==> (MapBlob::Begin {
            busy,
        }).next(t, filter, id, v).0 == Next::<BlobMapPrep>::Done(Err(why)),
        ({
            let (step, _, u) = (MapBlob::Mapping { offset, len }).next(t, filter, id, Err(e));
            step == Next::<BlobMapPrep>::Done(Err(e)) && u.window == t.window.after_free(
                offset,
                len,
            )
        }),
        (forall|k: int|
            0 <= k < t.blobs.len() ==> !((#[trigger] t.blobs[k]).resource_id == id
                && t.blobs[k].map_pending && t.blobs[k].map_offset == offset)) ==> ({
            let (step, at, u) = (MapBlob::Mapping { offset, len }).next(t, filter, id, Ok(cache));
            &&& step matches Next::Send(b) && is_command(b, 0x209, 0, id as int)
            &&& at == (MapBlob::Undoing { offset, len })
            &&& u == t
        }),
        ({
            let (step, _, u) = (MapBlob::Undoing { offset, len }).next(t, filter, id, v);
            step == Next::<BlobMapPrep>::Done(Err(VirtioError::DeviceError)) && u.window
                == t.window.after_free(offset, len) && u.blobs == t.blobs
        }),
{
    law_resource_command_on_the_wire(0x209, 0, id);
    let p = BlobSlot::awaiting(id, offset);
    if forall|k: int|
        0 <= k < t.blobs.len() ==> !((#[trigger] t.blobs[k]).resource_id == id
            && t.blobs[k].map_pending && t.blobs[k].map_offset == offset) {
        lemma_no_first_index(t.blobs, p);
    }
}

} // verus!
