//! Which blobs and contexts exist, whose they are, and where the host maps them.
use crate::blob_map::lemma_map_begin_keeps_ranges;
use crate::ctrl::Budget;
use crate::error::VirtioError;
use crate::flows::{MapBlob, Next};
use crate::owner::{DeviceOwner, OwnerFilter};
use crate::promises::wire::{field32, field64, law_map_command_on_the_wire};
use crate::seqs::{first_index, lemma_first_index, lemma_first_index_exists, lemma_no_first_index};
use crate::tables::{ranges_apart, BlobMapBegin, BlobMapFinish, BlobRemapBegin, BlobSlot,
    ContextSlot, TablesState};
use crate::window::{WindowRange, WindowState};
use vstd::prelude::*;

verus! {

/// The caller may see a slot of this owner.
pub open spec fn may_see(filter: OwnerFilter, owner: Option<DeviceOwner>) -> bool {
    filter is Any || filter == OwnerFilter::Exactly(owner)
}

/// The blob is mapped or about to be, outside the reserve, over part of the range.
pub open spec fn occupies(t: TablesState, s: BlobSlot, offset: int, len: int) -> bool {
    (s.mapped || s.map_pending) && s.map_offset >= t.window.reserve && s.map_offset < offset + len
        && offset < s.map_offset + s.map_len
}

/// The blob of this id is the one at `i`.
proof fn lemma_only(t: TablesState, i: int)
    requires
        t.ids_distinct(),
        0 <= i < t.blobs.len(),
    ensures
        forall|k: int|
            0 <= k < t.blobs.len() && (#[trigger] t.blobs[k]).resource_id == t.blobs[i].resource_id
                ==> k == i,
        first_index(t.blobs, BlobSlot::named(t.blobs[i].resource_id)) == Some(i),
{
    assert forall|k: int|
        0 <= k < t.blobs.len() && (#[trigger] t.blobs[k]).resource_id
            == t.blobs[i].resource_id implies k == i by {
        if k < i {
            assert(t.blobs[k].resource_id != t.blobs[i].resource_id);
        } else if i < k {
            assert(t.blobs[i].resource_id != t.blobs[k].resource_id);
        }
    }
    lemma_first_index(t.blobs, BlobSlot::named(t.blobs[i].resource_id), i);
}

/// A mapping is begun for a blob that the caller may see and that is not mapped: the
/// range is its size in whole pages, lies in the window behind the reserve, and no
/// blob uses any of it. A blob that is mapped is answered with where it is; one that
/// is about to be is busy. No room is found only where there is none.
pub proof fn law_mapping_gets_free_room(
    t: TablesState,
    filter: OwnerFilter,
    i: int,
)
    requires
        t.wf(),
        0 <= i < t.blobs.len(),
    ensures
        ({
            let s = t.blobs[i];
            let (r, u) = t.map_begun(filter, s.resource_id);
            let usable = t.host_visible is Some && may_see(filter, s.owner);
            let idle = usable && !s.mapped && !s.map_pending;
            &&& !usable ==> r == BlobMapBegin::Failed(VirtioError::DeviceError) && u == t
            &&& usable && s.mapped ==> (r matches BlobMapBegin::Mapped(prep) && prep.size
                == s.map_len && prep.map_cache == s.map_cache && prep.gpa == (
            t.host_visible->0.base + s.map_offset) % 0x1_0000_0000_0000_0000) && u == t
            &&& usable && s.map_pending && !s.mapped ==> r is Busy && u == t
            &&& idle && (s.size == 0 || s.size > 0x1000_0000) ==> r == BlobMapBegin::Failed(
                VirtioError::DeviceError,
            ) && u == t
            &&& idle && 0 < s.size <= 0x1000_0000 ==> {
                let len = (s.size + 4095) / 4096 * 4096;
                let room = t.window.next_offset + len <= t.window.window_len || exists|k: int|
                    0 <= k < t.window.free.len() && (#[trigger] t.window.free[k]).len >= len;
                &&& room ==> r is Start
                &&& !room ==> r == BlobMapBegin::Failed(VirtioError::OutOfMemory) && u.blobs
                    == t.blobs && u.window == t.window
            }
            &&& r matches BlobMapBegin::Start { offset, len } ==> {
                &&& len == (s.size + 4095) / 4096 * 4096
                &&& len % 4096 == 0 && s.size <= len < s.size + 4096
                &&& t.window.reserve <= offset
                &&& offset + len <= t.window.window_len
                &&& forall|k: int|
                    0 <= k < t.blobs.len() ==> !occupies(
                        t,
                        #[trigger] t.blobs[k],
                        offset as int,
                        len as int,
                    )
                &&& u.blobs == t.blobs.update(
                    i,
                    BlobSlot { map_pending: true, map_offset: offset, map_len: len, ..s },
                )
                &&& u.host_visible == t.host_visible
                &&& u.resources == t.resources && u.contexts == t.contexts
            }
        }),
{
    let s = t.blobs[i];
    let (r, u) = t.map_begun(filter, s.resource_id);
    let p = BlobSlot::admitted(filter, s.resource_id);
    lemma_only(t, i);
    if may_see(filter, s.owner) {
        lemma_first_index(t.blobs, p, i);
    } else {
        assert forall|k: int| 0 <= k < t.blobs.len() implies !p(#[trigger] t.blobs[k]) by {}
        lemma_no_first_index(t.blobs, p);
    }
    assert(s.wf());
    let len = crate::window::page_ceiling(s.size) as u64;
    lemma_first_index_exists(t.window.free, WindowState::fits(len));
    if let BlobMapBegin::Start { offset, .. } = r {
        lemma_map_begin_keeps_ranges(t, i, len);
        crate::window::law_alloc_takes_available(t.window, len, offset as int);
        let slot = BlobSlot { map_pending: true, map_offset: offset, map_len: len, ..s };
        let (_, after) = t.window.after_alloc(len)->0;
        let v = TablesState {
            window: after,
            blobs: t.blobs.update(i, slot),
            ..t
        };
        assert(u.blobs == v.blobs && u.window == v.window);
        assert(v.window.reserve == t.window.reserve);
        assert forall|k: int| 0 <= k < t.blobs.len() implies !occupies(
            t,
            #[trigger] t.blobs[k],
            offset as int,
            len as int,
        ) by {
            if k < i {
                assert(ranges_apart(v.window.reserve, v.blobs[k], v.blobs[i]));
            } else if k > i {
                assert(ranges_apart(v.window.reserve, v.blobs[i], v.blobs[k]));
            }
        }
    }
    if exists|k: int| 0 <= k < t.window.free.len() && (#[trigger] t.window.free[k]).len >= len {
        let k = choose|k: int|
            0 <= k < t.window.free.len() && (#[trigger] t.window.free[k]).len >= len;
        assert(WindowState::fits(len)(t.window.free[k]));
    }
}

/// An id that no blob has is neither mapped, moved nor found.
pub proof fn law_unknown_blob_is_not_mapped(
    t: TablesState,
    filter: OwnerFilter,
    resource_id: u32,
    offset: u64,
)
    requires
        forall|k: int| 0 <= k < t.blobs.len() ==> (#[trigger] t.blobs[k]).resource_id != resource_id,
    ensures
        t.map_begun(filter, resource_id) == (BlobMapBegin::Failed(VirtioError::DeviceError), t),
        t.remap_begun(resource_id, offset) == (BlobRemapBegin::Failed(VirtioError::DeviceError), t),
        t.blob_found(resource_id) is None,
        t.unmapped(resource_id) == t,
        t.forgotten(resource_id) == (None::<(bool, u64, u64)>, t),
{
    lemma_no_first_index(t.blobs, BlobSlot::admitted(filter, resource_id));
    lemma_no_first_index(t.blobs, BlobSlot::named(resource_id));
    lemma_no_first_index(t.blobs, BlobSlot::mapped_as(resource_id));
    lemma_no_first_index(t.blobs, BlobSlot::driver_owned(resource_id));
}

/// A mapping that the host has granted lies where the host put it: at the window's
/// base plus the offset that was asked for. It is recorded, and every later answer
/// names the same place. One that it has not granted is undone.
pub proof fn law_mapping_lies_at_its_offset(
    t: TablesState,
    i: int,
    cache: Option<u32>,
    filter: OwnerFilter,
)
    requires
        t.wf(),
        t.host_visible is Some,
        0 <= i < t.blobs.len(),
        t.blobs[i].map_pending,
        may_see(filter, t.blobs[i].owner),
    ensures
        ({
            let s = t.blobs[i];
            let base = t.host_visible->0.base;
            let (r, u) = t.map_finished(s.resource_id, s.map_offset, s.map_len, cache);
            match cache {
                Some(c) => {
                    &&& r matches BlobMapFinish::Done(prep) && {
                        &&& base + s.map_offset <= u64::MAX ==> prep.gpa == base + s.map_offset
                        &&& prep.gpa == (base + s.map_offset) % 0x1_0000_0000_0000_0000
                        &&& prep.size == s.map_len
                        &&& prep.map_cache == c
                        &&& u.map_begun(filter, s.resource_id) == (BlobMapBegin::Mapped(prep), u)
                        &&& u.remap_begun(s.resource_id, s.map_offset) == (
                            BlobRemapBegin::Mapped(prep),
                            u,
                        )
                    }
                    &&& u.blobs == t.blobs.update(
                        i,
                        BlobSlot { map_pending: false, mapped: true, map_cache: c, ..s },
                    )
                    &&& u.window == t.window
                },
                None => {
                    &&& r is HostRejected
                    &&& u.blobs == t.blobs.update(
                        i,
                        BlobSlot { map_pending: false, map_offset: 0, map_len: 0, ..s },
                    )
                    &&& u.window == t.window.after_free(s.map_offset, s.map_len)
                },
            }
        }),
{
    let s = t.blobs[i];
    crate::blob_map::lemma_awaiting(t, i);
    assert(s.wf());
    let u = t.map_finished(s.resource_id, s.map_offset, s.map_len, cache).1;
    if let Some(c) = cache {
        let done = BlobSlot { map_pending: false, mapped: true, map_cache: c, ..s };
        assert(u.blobs[i] == done);
        assert forall|a: int, b: int| 0 <= a < b < u.blobs.len() implies (
        #[trigger] u.blobs[a]).resource_id != (#[trigger] u.blobs[b]).resource_id by {
            assert(t.blobs[a].resource_id != t.blobs[b].resource_id);
        }
        lemma_only(u, i);
        lemma_first_index(u.blobs, BlobSlot::admitted(filter, s.resource_id), i);
    }
}

/// The address that a caller is told is where the host was asked to map: the offset in
/// the map command, behind the window's base.
pub proof fn law_caller_is_told_where_the_host_maps(
    t: TablesState,
    filter: OwnerFilter,
    i: int,
    busy: Budget,
    v: Result<u32, VirtioError>,
    cache: u32,
)
    requires
        t.wf(),
        0 <= i < t.blobs.len(),
        (MapBlob::Begin { busy }).next(t, filter, t.blobs[i].resource_id, v).0 is Send,
    ensures
        ({
            let id = t.blobs[i].resource_id;
            let (sent, at, u) = (MapBlob::Begin { busy }).next(t, filter, id, v);
            let done = at.next(u, filter, id, Ok(cache)).0;
            let command = sent->Send_0;
            &&& field32(command, 0) == 0x208
            &&& field32(command, 24) == id
            &&& done matches Next::Done(Ok(prep)) && prep.gpa == (t.host_visible->0.base + field64(
                command,
                32,
            )) % 0x1_0000_0000_0000_0000 && prep.map_cache == cache && prep.size == (
            t.blobs[i].size + 4095) / 4096 * 4096
        }),
{
    let id = t.blobs[i].resource_id;
    law_mapping_gets_free_room(t, filter, i);
    if let BlobMapBegin::Start { offset, len } = t.map_begun(filter, id).0 {
        lemma_begun_is_finished(t, filter, i, cache);
        lemma_begun_is_sent(t, filter, id, busy, v);
        law_map_command_on_the_wire(id, offset);
    }
}

proof fn lemma_begun_is_sent(
    t: TablesState,
    filter: OwnerFilter,
    id: u32,
    busy: Budget,
    v: Result<u32, VirtioError>,
)
    requires
        t.map_begun(filter, id).0 is Start,
    ensures
        t.map_begun(filter, id).0 matches BlobMapBegin::Start { offset, len } && (MapBlob::Begin {
            busy,
        }).next(t, filter, id, v) == (
            Next::<crate::tables::BlobMapPrep>::Send(crate::protocol::map_blob_bytes(id, offset)),
            MapBlob::Mapping { offset, len },
            t.map_begun(filter, id).1,
        ),
{
}

proof fn lemma_begun_is_finished(t: TablesState, filter: OwnerFilter, i: int, cache: u32)
    requires
        t.wf(),
        0 <= i < t.blobs.len(),
        t.map_begun(filter, t.blobs[i].resource_id).0 is Start,
    ensures
        ({
            let id = t.blobs[i].resource_id;
            let u = t.map_begun(filter, id).1;
            t.map_begun(filter, id).0 matches BlobMapBegin::Start { offset, len } && (
            u.map_finished(id, offset, len, Some(cache)).0 matches BlobMapFinish::Done(prep)
                && prep.gpa == (t.host_visible->0.base + offset) % 0x1_0000_0000_0000_0000
                && prep.size == len && prep.map_cache == cache)
        }),
{
    let id = t.blobs[i].resource_id;
    let u = t.map_begun(filter, id).1;
    law_mapping_gets_free_room(t, filter, i);
    assert(t.host_visible is Some);
    assert forall|a: int, b: int| 0 <= a < b < u.blobs.len() implies (
    #[trigger] u.blobs[a]).resource_id != (#[trigger] u.blobs[b]).resource_id by {
        assert(t.blobs[a].resource_id != t.blobs[b].resource_id);
    }
    crate::blob_map::lemma_awaiting(u, i);
}

/// A blob is placed at a page of the reserve where all of it fits, and nowhere else; a
/// mapping elsewhere is handed back to be undone.
pub proof fn law_placement_stays_in_the_reserve(t: TablesState, i: int, offset: u64)
    requires
        t.wf(),
        0 <= i < t.blobs.len(),
    ensures
        ({
            let s = t.blobs[i];
            let (r, u) = t.remap_begun(s.resource_id, offset);
            let len = (s.size + 4095) / 4096 * 4096;
            let fits = 0 < s.size <= 0x1000_0000 && offset % 4096 == 0 && offset + len
                <= t.window.reserve;
            let here = s.mapped && s.map_offset == offset;
            &&& t.host_visible is None ==> r == BlobRemapBegin::Failed(VirtioError::DeviceError)
            &&& t.host_visible is Some && s.map_pending ==> r is Busy
            &&& t.host_visible is Some && !s.map_pending && here ==> (
            r matches BlobRemapBegin::Mapped(prep) && prep.gpa == (t.host_visible->0.base
                + s.map_offset) % 0x1_0000_0000_0000_0000 && prep.size == s.map_len
                && prep.map_cache == s.map_cache)
            &&& t.host_visible is Some && !s.map_pending && !here ==> (r is Start <==> fits) && (
            !fits ==> r == BlobRemapBegin::Failed(VirtioError::DeviceError))
            &&& r matches BlobRemapBegin::Start { old: prior, len: n } ==> {
                &&& n == len
                &&& prior == if s.mapped {
                    Some((s.map_offset, s.map_len))
                } else {
                    None
                }
                &&& u.blobs == t.blobs.update(
                    i,
                    BlobSlot {
                        map_pending: true,
                        mapped: false,
                        map_offset: offset,
                        map_len: n,
                        ..s
                    },
                )
                &&& u.window == t.window
            }
            &&& !(r is Start) ==> u == t
        }),
{
    lemma_only(t, i);
    assert(t.blobs[i].wf());
}

/// The blobs in the way of a placement are exactly those others that are mapped in the
/// reserve over part of it.
pub proof fn law_in_the_way_is_what_overlaps(t: TablesState, offset: u64, len: u64, keep: u32, id: u32)
    requires
        t.wf(),
        offset + len <= u64::MAX,
    ensures
        t.in_the_way(offset, len, keep).contains(id) <==> exists|i: int|
            0 <= i < t.blobs.len() && (#[trigger] t.blobs[i]).resource_id == id && id != keep
                && t.blobs[i].mapped && t.blobs[i].map_offset < t.window.reserve
                && t.blobs[i].map_offset < offset + len && offset < t.blobs[i].map_offset
                + t.blobs[i].map_len,
{
    let p = BlobSlot::in_the_way(offset, len, keep, t.window.reserve);
    let hits = t.blobs.filter(p);
    let ids = t.in_the_way(offset, len, keep);
    if ids.contains(id) {
        let k = choose|k: int| 0 <= k < ids.len() && ids[k] == id;
        assert(hits.contains(hits[k]));
        crate::blt_ops::lemma_filter_contains(t.blobs, p, hits[k]);
        let i = choose|i: int| 0 <= i < t.blobs.len() && t.blobs[i] == hits[k];
        assert(t.blobs[i].wf());
        assert(t.blobs[i].resource_id == id);
    }
    if exists|i: int|
        0 <= i < t.blobs.len() && (#[trigger] t.blobs[i]).resource_id == id && id != keep
            && t.blobs[i].mapped && t.blobs[i].map_offset < t.window.reserve
            && t.blobs[i].map_offset < offset + len && offset < t.blobs[i].map_offset
            + t.blobs[i].map_len {
        let i = choose|i: int|
            0 <= i < t.blobs.len() && (#[trigger] t.blobs[i]).resource_id == id && id != keep
                && t.blobs[i].mapped && t.blobs[i].map_offset < t.window.reserve
                && t.blobs[i].map_offset < offset + len && offset < t.blobs[i].map_offset
                + t.blobs[i].map_len;
        assert(t.blobs[i].wf());
        assert(t.blobs.contains(t.blobs[i]));
        crate::blt_ops::lemma_filter_contains(t.blobs, p, t.blobs[i]);
        let k = choose|k: int| 0 <= k < hits.len() && hits[k] == t.blobs[i];
        assert(ids[k] == id);
    }
}

/// What is said of a blob is what its slot holds: owner, size and mapping under its id;
/// and a blob is named at an offset exactly if one is mapped there.
pub proof fn law_lookups_find_the_blob(t: TablesState, i: int, offset: u64)
    requires
        t.wf(),
        0 <= i < t.blobs.len(),
    ensures
        ({
            let s = t.blobs[i];
            let u = t.unmapped(s.resource_id);
            &&& t.blob_found(s.resource_id) == Some((s.owner, s.size, s.mapped))
            &&& t.resid_at(offset) matches Some(id) ==> exists|k: int|
                0 <= k < t.blobs.len() && (#[trigger] t.blobs[k]).resource_id == id
                    && t.blobs[k].mapped && t.blobs[k].map_offset == offset
            &&& s.mapped && s.map_offset == offset ==> t.resid_at(offset) is Some
            &&& s.mapped ==> u == (TablesState {
                blobs: t.blobs.update(
                    i,
                    BlobSlot { mapped: false, map_offset: 0, map_len: 0, ..s },
                ),
                ..t
            })
            &&& !s.mapped ==> u == t
        }),
{
    let s = t.blobs[i];
    lemma_only(t, i);
    let p = BlobSlot::mapped_at(offset);
    lemma_first_index_exists(t.blobs, p);
    if let Some(k) = first_index(t.blobs, p) {
        assert(p(t.blobs[k]));
        assert(t.blobs[k].resource_id == t.resid_at(offset)->0);
    } else {
        assert(!p(t.blobs[i]));
    }
    let q = BlobSlot::mapped_as(s.resource_id);
    if s.mapped {
        lemma_first_index(t.blobs, q, i);
    } else {
        assert forall|k: int| 0 <= k < t.blobs.len() implies !q(#[trigger] t.blobs[k]) by {}
        lemma_no_first_index(t.blobs, q);
    }
}

/// A blob that is released is handed back with its mapping, to its owner and context
/// alone; it is not tracked afterwards and every other blob is.
pub proof fn law_released_blob_is_its_owners(
    t: TablesState,
    owner: DeviceOwner,
    ctx_id: u32,
    i: int,
)
    requires
        t.wf(),
        0 <= i < t.blobs.len(),
    ensures
        ({
            let s = t.blobs[i];
            let (r, u) = t.blob_taken(owner, ctx_id, s.resource_id);
            let theirs = s.owner == Some(owner) && s.ctx_id == ctx_id;
            &&& theirs ==> r == Some((s.resource_id, s.mapped, s.map_offset, s.map_len))
            &&& !theirs ==> r is None && u == t
            &&& theirs ==> u.blobs.len() == t.blobs.len() - 1 && u.window == t.window
                && u.resources == t.resources
            &&& theirs ==> forall|k: int|
                0 <= k < t.blobs.len() && k != i ==> u.blobs.contains(#[trigger] t.blobs[k])
            &&& theirs ==> forall|k: int|
                0 <= k < u.blobs.len() ==> (#[trigger] u.blobs[k]).resource_id != s.resource_id
            &&& t.forgotten(s.resource_id).0 == if s.owner is None {
                Some((s.mapped, s.map_offset, s.map_len))
            } else {
                None
            }
            &&& t.adopted(s.resource_id).0 <==> t.resources.contains(s.resource_id)
            &&& t.adopted(s.resource_id).1.blobs == if t.resources.contains(s.resource_id) {
                t.blobs.update(i, BlobSlot { owner: None, ..s })
            } else {
                t.blobs
            }
        }),
{
    let s = t.blobs[i];
    lemma_only(t, i);
    let p = BlobSlot::exact(Some(owner), ctx_id, s.resource_id);
    if s.owner == Some(owner) && s.ctx_id == ctx_id {
        lemma_first_index(t.blobs, p, i);
        let u = t.without_blob(i);
        assert forall|k: int| 0 <= k < t.blobs.len() && k != i implies u.blobs.contains(
            #[trigger] t.blobs[k],
        ) by {
            let dst = if k == t.blobs.len() - 1 {
                i
            } else {
                k
            };
            assert(u.blobs[dst] == t.blobs[k]);
        }
        assert forall|k: int| 0 <= k < u.blobs.len() implies (#[trigger] u.blobs[k]).resource_id
            != s.resource_id by {
            let src = if k == i {
                t.blobs.len() - 1
            } else {
                k
            };
            assert(u.blobs[k] == t.blobs[src]);
        }
    } else {
        assert forall|k: int| 0 <= k < t.blobs.len() implies !p(#[trigger] t.blobs[k]) by {}
        lemma_no_first_index(t.blobs, p);
    }
    let q = BlobSlot::driver_owned(s.resource_id);
    if s.owner is None {
        lemma_first_index(t.blobs, q, i);
    } else {
        assert forall|k: int| 0 <= k < t.blobs.len() implies !q(#[trigger] t.blobs[k]) by {}
        lemma_no_first_index(t.blobs, q);
    }
}

/// A sweep takes only what is the owner's, and stops only when nothing is.
pub proof fn law_sweep_takes_the_owners(t: TablesState, owner: Option<DeviceOwner>)
    ensures
        t.owner_blob_taken(owner).0 is None <==> forall|k: int|
            0 <= k < t.blobs.len() ==> (#[trigger] t.blobs[k]).owner != owner,
        t.owner_blob_taken(owner).0 matches Some((ctx_id, id, mapped, offset, len)) ==> exists|
            k: int,
        |
            0 <= k < t.blobs.len() && (#[trigger] t.blobs[k]).owner == owner && t.blobs[k].ctx_id
                == ctx_id && t.blobs[k].resource_id == id && t.blobs[k].mapped == mapped
                && t.blobs[k].map_offset == offset && t.blobs[k].map_len == len
                && t.owner_blob_taken(owner).1 == t.without_blob(k),
        t.context_taken(owner).0 is None <==> forall|k: int|
            0 <= k < t.contexts.len() ==> (#[trigger] t.contexts[k]).owner != owner,
        t.context_taken(owner).0 matches Some(id) ==> exists|k: int|
            0 <= k < t.contexts.len() && (#[trigger] t.contexts[k]).owner == owner
                && t.contexts[k].ctx_id == id && t.context_taken(owner).1 == t.without_context(k),
{
    let p = BlobSlot::owned_by(owner);
    lemma_first_index_exists(t.blobs, p);
    match first_index(t.blobs, p) {
        Some(k) => {
            assert(t.blobs[k].owner == owner);
        },
        None => {
            assert forall|k: int| 0 <= k < t.blobs.len() implies (#[trigger] t.blobs[k]).owner
                != owner by {
                assert(!p(t.blobs[k]));
            }
        },
    }
    let q = ContextSlot::owned_by(owner);
    lemma_first_index_exists(t.contexts, q);
    match first_index(t.contexts, q) {
        Some(k) => {
            assert(t.contexts[k].owner == owner);
        },
        None => {
            assert forall|k: int| 0 <= k < t.contexts.len() implies (
            #[trigger] t.contexts[k]).owner != owner by {
                assert(!q(t.contexts[k]));
            }
        },
    }
}

/// A context answers to its owner and id alone, and is destroyed once.
pub proof fn law_context_answers_to_its_owner(
    t: TablesState,
    owner: Option<DeviceOwner>,
    ctx_id: u32,
)
    ensures
        ({
            let (r, u) = t.context_untracked(owner, ctx_id);
            let theirs = exists|k: int|
                0 <= k < t.contexts.len() && (#[trigger] t.contexts[k]).owner == owner
                    && t.contexts[k].ctx_id == ctx_id;
            &&& r is Some <==> theirs
            &&& r matches Some(id) ==> id == ctx_id && exists|k: int|
                0 <= k < t.contexts.len() && (#[trigger] t.contexts[k]).owner == owner
                    && t.contexts[k].ctx_id == ctx_id && u == t.without_context(k)
            &&& r is None ==> u == t
            &&& crate::seqs::some(t.contexts, ContextSlot::named(owner, ctx_id)) <==> theirs
        }),
{
    let p = ContextSlot::named(owner, ctx_id);
    lemma_first_index_exists(t.contexts, p);
    match first_index(t.contexts, p) {
        Some(k) => {
            assert(p(t.contexts[k]));
            assert(t.contexts[k].owner == owner);
        },
        None => {
            assert forall|k: int| 0 <= k < t.contexts.len() implies !((
            #[trigger] t.contexts[k]).owner == owner && t.contexts[k].ctx_id == ctx_id) by {
                assert(!p(t.contexts[k]));
            }
        },
    }
}

/// A context is created under a new number and only if it can be tracked: 1024 at most,
/// with those still being created. The host's consent makes it its owner's; a refusal
/// leaves nothing but the number used up.
pub proof fn law_context_is_tracked_or_not_made(
    t: TablesState,
    owner: Option<DeviceOwner>,
    e: VirtioError,
)
    requires
        t.contexts.len() + t.contexts_reserved <= 1024,
    ensures
        ({
            let (r, u) = t.context_begun();
            &&& r is Ok <==> t.contexts.len() + t.contexts_reserved < 1024
            &&& r is Err ==> r == Err::<u32, VirtioError>(VirtioError::OutOfMemory)
            &&& u.contexts == t.contexts && u.blobs == t.blobs && u.resources == t.resources
            &&& t.next_ctx_id < u32::MAX ==> u.next_ctx_id == t.next_ctx_id + 1
            &&& r matches Ok(id) ==> {
                let (yes, v) = u.context_finished(owner, id, Ok(()));
                let (no, w) = u.context_finished(owner, id, Err(e));
                &&& id == t.next_ctx_id
                &&& u.contexts.len() + u.contexts_reserved <= 1024
                &&& yes == Ok::<u32, VirtioError>(id)
                &&& v.contexts == t.contexts.push(ContextSlot { owner, ctx_id: id })
                &&& v.contexts_reserved == t.contexts_reserved
                &&& no == Err::<u32, VirtioError>(e)
                &&& w == (TablesState { next_ctx_id: u.next_ctx_id, ..t })
            }
        }),
{
}

/// Resources and blobs are numbered and counted alike: 16384 resources and 8192 blobs at
/// most, with those still being created.
pub proof fn law_tables_are_bounded(t: TablesState, resource_id: u32, slot: BlobSlot, size: u64)
    ensures
        t.resource_room() <==> t.resources.len() + t.resources_reserved < 16384,
        t.blob_room() <==> t.blobs.len() + t.blobs_reserved < 8192,
        t.resource_numbered().0 == t.next_resource_id,
        t.next_resource_id < u32::MAX ==> t.resource_numbered().1.next_resource_id
            == t.next_resource_id + 1,
        t.resource_room() ==> t.resource_reserved().resources_reserved == t.resources_reserved + 1,
        t.resources_reserved > 0 ==> t.resource_committed(resource_id).resources
            == t.resources.push(resource_id) && t.resource_committed(
            resource_id,
        ).resources_reserved == t.resources_reserved - 1 && t.resource_cancelled() == (TablesState {
            resources_reserved: (t.resources_reserved - 1) as usize,
            ..t
        }),
        t.blobs_reserved > 0 ==> t.blob_committed(slot).blobs == t.blobs.push(slot)
            && t.blob_committed(slot).blobs_reserved == t.blobs_reserved - 1,
        (exists|k: int|
            0 <= k < t.blobs.len() && (#[trigger] t.blobs[k]).resource_id == resource_id)
            ==> t.blob_noted(resource_id, size) == t,
        (forall|k: int|
            0 <= k < t.blobs.len() ==> (#[trigger] t.blobs[k]).resource_id != resource_id)
            ==> t.blob_noted(resource_id, size).blobs == if t.blobs.len() + t.blobs_reserved
            < 8192 {
            t.blobs.push(
                BlobSlot {
                    owner: None,
                    ctx_id: 0,
                    resource_id,
                    size,
                    mapped: false,
                    map_pending: false,
                    map_cache: 0,
                    map_offset: 0,
                    map_len: 0,
                },
            )
        } else {
            t.blobs
        },
{
    let p = BlobSlot::named(resource_id);
    lemma_first_index_exists(t.blobs, p);
    if exists|k: int|
        0 <= k < t.blobs.len() && (#[trigger] t.blobs[k]).resource_id == resource_id {
        let k = choose|k: int|
            0 <= k < t.blobs.len() && (#[trigger] t.blobs[k]).resource_id == resource_id;
        assert(p(t.blobs[k]));
    }
    if forall|k: int|
        0 <= k < t.blobs.len() ==> (#[trigger] t.blobs[k]).resource_id != resource_id {
        lemma_no_first_index(t.blobs, p);
    }
}

/// A resource's life ends once: the first claim of a live one succeeds and takes it out,
/// a claim of a dead one is counted.
pub proof fn law_life_ends_once(t: TablesState, resource_id: u32)
    ensures
        ({
            let (first, u) = t.teardown_claimed(resource_id);
            &&& first <==> t.resources.contains(resource_id)
            &&& first ==> u.resources.len() == t.resources.len() - 1 && u.blobs == t.blobs
            &&& first ==> exists|k: int|
                0 <= k < t.resources.len() && #[trigger] t.resources[k] == resource_id
                    && u.resources == t.resources.update(k, t.resources.last()).drop_last()
            &&& !first ==> u.resources == t.resources && u.counters.take_live_misses
                == t.counters.take_live_misses.wrapping_add(1)
        }),
{
    let p = crate::tables::is_id(resource_id);
    lemma_first_index_exists(t.resources, p);
    match first_index(t.resources, p) {
        Some(k) => {
            assert(p(t.resources[k]));
        },
        None => {
            if t.resources.contains(resource_id) {
                let k = choose|k: int|
                    0 <= k < t.resources.len() && t.resources[k] == resource_id;
                assert(p(t.resources[k]));
            }
        },
    }
}

/// The reserve is set once, before any offset was handed out, and is what was asked for;
/// offsets are handed out behind it from then on.
pub proof fn law_reserve_is_set_once(t: TablesState, len: u64)
    ensures
        ({
            let (r, u) = t.window_reserved(len);
            let early = !t.window.reserve_set && !t.window.started && t.window.next_offset
                == t.window.reserve && t.window.free.len() == 0;
            &&& r <==> early
            &&& r ==> u.window == (WindowState {
                reserve: len,
                next_offset: len,
                reserve_set: true,
                ..t.window
            })
            &&& !r ==> u.window == t.window
            &&& u.blobs == t.blobs
        }),
{
}

/// What is reported as in use is what was handed out and not returned.
pub proof fn law_usage_is_what_is_handed_out(t: TablesState)
    requires
        t.wf(),
        t.blobs.len() <= u32::MAX,
        t.resources.len() <= u32::MAX,
        t.contexts.len() <= u32::MAX,
    ensures
        t.stats().blobs_live == t.blobs.len(),
        t.stats().resources_live == t.resources.len(),
        t.stats().contexts_live == t.contexts.len(),
        t.stats().window_len == t.window.window_len,
        t.window.free.len() == 0 ==> t.stats().window_used == t.window.next_offset,
        t.window.free.len() == 1 ==> t.stats().window_used == t.window.next_offset
            - t.window.free[0].len,
{
    if t.window.free.len() == 1 {
        assert(t.window.free.drop_last() =~= Seq::<WindowRange>::empty());
        assert(crate::window::sum_of(t.window.free.drop_last()) == 0);
        assert(t.window.free.last() == t.window.free[0]);
        assert(t.window.free[0].end() < t.window.next_offset);
    }
}

} // verus!
