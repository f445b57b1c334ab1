//! The bounded context, resource and blob tables, and blob mappings.
//!
//! A slot is reserved before the host is asked to create an object and committed
//! after it did, so every object that lives on the host is tracked.
use crate::blob_map::{lemma_tracked_wf, lemma_untracked_wf};
use crate::counters::{bump_high_water, raised, TableCounters, MAX_BLOBS, MAX_RESOURCES};
use crate::error::VirtioError;
use crate::gpu::{GpuState, VirtioGpu};
use crate::owner::{same_owner, DeviceOwner, OwnedCtx, OwnerFilter};
use crate::pci_caps::HostVisibleWindow;
use crate::seqs::{first_index, lemma_first_index_exists, position, some, swap_removed};
use crate::window::{page_ceiling, WindowAllocator, WindowState, BLOB_PAGE, MAX_BLOB_MAP_BYTES};
use vstd::prelude::*;

verus! {

/// Most contexts tracked at once.
pub const MAX_CONTEXTS: usize = 1024;

/// One tracked context.
#[derive(Clone, Copy, Debug)]
pub struct ContextSlot {
    /// The owning device, or `None` for the driver's own context.
    pub owner: Option<DeviceOwner>,
    pub ctx_id: u32,
}

/// One tracked blob.
#[derive(Clone, Copy, Debug)]
pub struct BlobSlot {
    /// The owning device, or `None` for the driver.
    pub owner: Option<DeviceOwner>,
    pub ctx_id: u32,
    pub resource_id: u32,
    /// Bytes.
    pub size: u64,
    /// The host maps the blob into the window.
    pub mapped: bool,
    /// A map request for this slot is on its way to the host.
    pub map_pending: bool,
    /// Host caching mode; meaningful once mapped.
    pub map_cache: u32,
    /// Window offset of the mapping.
    pub map_offset: u64,
    /// Page-rounded length of the mapping.
    pub map_len: u64,
}

/// A blob's range in guest-physical memory and the host's caching mode.
#[derive(Clone, Copy, Debug, PartialEq, Eq, Structural)]
pub struct BlobMapPrep {
    pub gpa: u64,
    pub size: u64,
    pub map_cache: u32,
}

/// Occupancy of the bounded tables.
#[derive(Clone, Copy, Debug, PartialEq, Eq, Structural)]
pub struct TableStats {
    pub blobs_live: u32,
    pub resources_live: u32,
    pub contexts_live: u32,
    /// Window bytes below the bump mark that are not free.
    pub window_used: u64,
    pub window_len: u64,
}

/// What [`VirtioGpu::blob_map_begin`] decided.
#[derive(Clone, Copy, Debug, PartialEq, Eq, Structural)]
pub enum BlobMapBegin {
    /// Already mapped.
    Mapped(BlobMapPrep),
    /// Range reserved: ask the host to map, then call `blob_map_finish`.
    Start { offset: u64, len: u64 },
    /// Another map request for this blob is on its way: retry later.
    Busy,
    Failed(VirtioError),
}

/// What [`VirtioGpu::blob_remap_begin`] decided.
#[derive(Clone, Copy, Debug, PartialEq, Eq)]
pub enum BlobRemapBegin {
    /// Already mapped at the requested offset.
    Mapped(BlobMapPrep),
    /// Reserved: unmap and return `old`, if any, map at the new offset, then call
    /// `blob_map_finish`.
    Start { old: Option<(u64, u64)>, len: u64 },
    /// Another map request for this blob is on its way: retry later.
    Busy,
    Failed(VirtioError),
}

/// What [`VirtioGpu::blob_map_finish`] recorded.
#[derive(Clone, Copy, Debug, PartialEq, Eq, Structural)]
pub enum BlobMapFinish {
    /// Mapping recorded.
    Done(BlobMapPrep),
    /// The host refused; the range is back with the allocator.
    HostRejected,
    /// The slot is gone: unmap and return the range.
    SlotGone,
}

impl ContextSlot {
    pub open spec fn named(owner: Option<DeviceOwner>, ctx_id: u32) -> spec_fn(ContextSlot) -> bool {
        |c: ContextSlot| c.ctx_id == ctx_id && c.owner == owner
    }

    pub open spec fn same_as(c: ContextSlot) -> spec_fn(ContextSlot) -> bool {
        |s: ContextSlot| s == c
    }

    pub open spec fn owned_by(owner: Option<DeviceOwner>) -> spec_fn(ContextSlot) -> bool {
        |c: ContextSlot| c.owner == owner
    }
}

impl BlobSlot {
    /// The slot uses its window range.
    pub open spec fn active(self) -> bool {
        self.mapped || self.map_pending
    }

    /// A mapping ends inside the offset space. A blob that is mapped, or about to
    /// be, uses its size in whole pages; it is not both.
    pub open spec fn wf(self) -> bool {
        &&& self.map_end() <= u64::MAX
        &&& self.active() ==> self.map_len == page_ceiling(self.size) && self.map_len > 0
        &&& !(self.mapped && self.map_pending)
    }

    pub open spec fn map_end(self) -> int {
        self.map_offset + self.map_len
    }

    pub open spec fn fresh(
        owner: Option<DeviceOwner>,
        ctx_id: u32,
        resource_id: u32,
        size: u64,
    ) -> BlobSlot {
        BlobSlot {
            owner,
            ctx_id,
            resource_id,
            size,
            mapped: false,
            map_pending: false,
            map_cache: 0,
            map_offset: 0,
            map_len: 0,
        }
    }

    pub open spec fn named(resource_id: u32) -> spec_fn(BlobSlot) -> bool {
        |s: BlobSlot| s.resource_id == resource_id
    }

    pub open spec fn admitted(owner: OwnerFilter, resource_id: u32) -> spec_fn(BlobSlot) -> bool {
        |s: BlobSlot| s.resource_id == resource_id && owner.admits(s.owner)
    }

    pub open spec fn exact(
        owner: Option<DeviceOwner>,
        ctx_id: u32,
        resource_id: u32,
    ) -> spec_fn(BlobSlot) -> bool {
        |s: BlobSlot| s.owner == owner && s.ctx_id == ctx_id && s.resource_id == resource_id
    }

    pub open spec fn same_as(b: BlobSlot) -> spec_fn(BlobSlot) -> bool {
        |s: BlobSlot| s == b
    }

    pub open spec fn owned_by(owner: Option<DeviceOwner>) -> spec_fn(BlobSlot) -> bool {
        |s: BlobSlot| s.owner == owner
    }

    pub open spec fn awaiting(resource_id: u32, offset: u64) -> spec_fn(BlobSlot) -> bool {
        |s: BlobSlot| s.resource_id == resource_id && s.map_pending && s.map_offset == offset
    }

    pub open spec fn driver_owned(resource_id: u32) -> spec_fn(BlobSlot) -> bool {
        |s: BlobSlot| s.owner is None && s.resource_id == resource_id
    }

    pub open spec fn mapped_as(resource_id: u32) -> spec_fn(BlobSlot) -> bool {
        |s: BlobSlot| s.resource_id == resource_id && s.mapped
    }

    pub open spec fn mapped_at(offset: u64) -> spec_fn(BlobSlot) -> bool {
        |s: BlobSlot| s.mapped && s.map_offset == offset
    }

    /// Mapped inside the reserve, over `[offset, offset + len)`, and not `keep`.
    pub open spec fn in_the_way(offset: u64, len: u64, keep: u32, reserve: u64) -> spec_fn(
        BlobSlot,
    ) -> bool {
        |s: BlobSlot|
            {
                &&& s.mapped
                &&& s.resource_id != keep
                &&& s.map_offset < reserve
                &&& s.map_offset < offset.saturating_add(len)
                &&& offset < s.map_offset.saturating_add(s.map_len)
            }
    }

    pub open spec fn prep(self, base: u64) -> BlobMapPrep {
        BlobMapPrep {
            gpa: base.wrapping_add(self.map_offset),
            size: self.map_len,
            map_cache: self.map_cache,
        }
    }
}

/// What a [`ResourceTables`] holds.
#[verifier::ext_equal]
pub struct TablesState {
    pub next_ctx_id: u32,
    pub next_resource_id: u32,
    pub host_visible: Option<HostVisibleWindow>,
    pub contexts: Seq<ContextSlot>,
    pub contexts_reserved: usize,
    pub resources: Seq<u32>,
    pub resources_reserved: usize,
    pub blobs: Seq<BlobSlot>,
    pub blobs_reserved: usize,
    pub window: WindowState,
    pub counters: TableCounters,
}

/// The tables of one device instance.
pub struct ResourceTables {
    pub next_ctx_id: u32,
    pub next_resource_id: u32,
    pub host_visible: Option<HostVisibleWindow>,
    pub contexts: Vec<ContextSlot>,
    /// Slots held for contexts whose creation is on its way to the host.
    pub contexts_reserved: usize,
    /// Every resource id that lives on the host.
    pub resources: Vec<u32>,
    pub resources_reserved: usize,
    pub blobs: Vec<BlobSlot>,
    pub blobs_reserved: usize,
    pub window: WindowAllocator,
    pub counters: TableCounters,
}

impl View for ResourceTables {
    type V = TablesState;

    open spec fn view(&self) -> TablesState {
        TablesState {
            next_ctx_id: self.next_ctx_id,
            next_resource_id: self.next_resource_id,
            host_visible: self.host_visible,
            contexts: self.contexts@,
            contexts_reserved: self.contexts_reserved,
            resources: self.resources@,
            resources_reserved: self.resources_reserved,
            blobs: self.blobs@,
            blobs_reserved: self.blobs_reserved,
            window: self.window@,
            counters: self.counters,
        }
    }
}

impl TablesState {
    /// What every operation keeps: the window and the ranges in it are consistent,
    /// every blob is, and no two blobs share an id.
    pub open spec fn wf(self) -> bool {
        &&& self.ranges_wf()
        &&& self.ids_distinct()
        &&& forall|i: int| 0 <= i < self.blobs.len() ==> (#[trigger] self.blobs[i]).wf()
    }

    /// No two blobs share an id.
    pub open spec fn ids_distinct(self) -> bool {
        forall|i: int, j: int|
            0 <= i < j < self.blobs.len() ==> (#[trigger] self.blobs[i]).resource_id != (
            #[trigger] self.blobs[j]).resource_id
    }

    /// The range may be returned: it is empty or reserved, so that nothing happens,
    /// or it is handed out and no blob uses it.
    pub open spec fn returnable(self, offset: u64, len: u64) -> bool {
        &&& offset + len <= u64::MAX
        &&& len == 0 || offset < self.window.reserve || self.unclaimed(offset, len)
    }

    /// The range is the one that a map request of the blob was begun with. If the
    /// blob is gone, nobody else has the range.
    pub open spec fn holds(self, resource_id: u32, offset: u64, len: u64) -> bool {
        &&& offset + len <= u64::MAX
        &&& match first_index(self.blobs, BlobSlot::awaiting(resource_id, offset)) {
            Some(i) => self.blobs[i].map_len == len,
            None => self.returnable(offset, len),
        }
    }

    /// Live objects and reservations together fit their tables.
    pub open spec fn within_capacity(self) -> bool {
        &&& self.contexts.len() + self.contexts_reserved <= MAX_CONTEXTS
        &&& self.resources.len() + self.resources_reserved <= MAX_RESOURCES
        &&& self.blobs.len() + self.blobs_reserved <= MAX_BLOBS
    }

    /// The window allocator is consistent, every blob that uses a range outside
    /// the reserve holds it from the allocator, and no two blobs share one.
    pub open spec fn ranges_wf(self) -> bool {
        &&& self.window.wf()
        &&& forall|i: int|
            0 <= i < self.blobs.len() && (#[trigger] self.blobs[i]).active()
                && self.blobs[i].map_offset >= self.window.reserve ==> {
                &&& self.blobs[i].map_len > 0
                &&& self.window.issued(self.blobs[i].map_offset, self.blobs[i].map_len)
            }
        &&& forall|i: int, j: int|
            0 <= i < j < self.blobs.len() ==> ranges_apart(
                self.window.reserve,
                #[trigger] self.blobs[i],
                #[trigger] self.blobs[j],
            )
    }

    /// The range is handed out and no blob uses it.
    pub open spec fn unclaimed(self, offset: u64, len: u64) -> bool {
        &&& self.window.issued(offset, len)
        &&& forall|i: int|
            0 <= i < self.blobs.len() && (#[trigger] self.blobs[i]).active()
                && self.blobs[i].map_offset >= self.window.reserve ==> self.blobs[i].map_end()
                <= offset || offset + len <= self.blobs[i].map_offset
    }

    pub open spec fn context_room(self) -> bool {
        self.contexts.len() + self.contexts_reserved < MAX_CONTEXTS
    }

    pub open spec fn resource_room(self) -> bool {
        self.resources.len() + self.resources_reserved < MAX_RESOURCES
    }

    pub open spec fn blob_room(self) -> bool {
        self.blobs.len() + self.blobs_reserved < MAX_BLOBS
    }

    pub open spec fn context_reserved(self) -> TablesState {
        TablesState { contexts_reserved: (self.contexts_reserved + 1) as usize, ..self }
    }

    pub open spec fn resource_reserved(self) -> TablesState {
        TablesState { resources_reserved: (self.resources_reserved + 1) as usize, ..self }
    }

    pub open spec fn blob_reserved(self) -> TablesState {
        TablesState { blobs_reserved: (self.blobs_reserved + 1) as usize, ..self }
    }

    pub open spec fn context_refused(self) -> TablesState {
        TablesState {
            counters: TableCounters {
                context_full_drops: self.counters.context_full_drops.wrapping_add(1),
                ..self.counters
            },
            ..self
        }
    }

    pub open spec fn resource_refused(self) -> TablesState {
        TablesState {
            counters: TableCounters {
                resource_full_rejects: self.counters.resource_full_rejects.wrapping_add(1),
                ..self.counters
            },
            ..self
        }
    }

    pub open spec fn blob_refused(self) -> TablesState {
        TablesState {
            counters: TableCounters {
                blob_full_rejects: self.counters.blob_full_rejects.wrapping_add(1),
                ..self.counters
            },
            ..self
        }
    }

    pub open spec fn context_cancelled(self) -> TablesState {
        TablesState { contexts_reserved: self.contexts_reserved.saturating_sub(1), ..self }
    }

    pub open spec fn resource_cancelled(self) -> TablesState {
        TablesState { resources_reserved: self.resources_reserved.saturating_sub(1), ..self }
    }

    pub open spec fn blob_cancelled(self) -> TablesState {
        TablesState { blobs_reserved: self.blobs_reserved.saturating_sub(1), ..self }
    }

    pub open spec fn context_committed(self, slot: ContextSlot) -> TablesState {
        TablesState { contexts: self.contexts.push(slot), ..self.context_cancelled() }
    }

    pub open spec fn resource_committed(self, resource_id: u32) -> TablesState {
        TablesState {
            resources: self.resources.push(resource_id),
            counters: TableCounters {
                resource_high_water: raised(
                    self.counters.resource_high_water,
                    self.resources.len() + 1,
                ),
                ..self.counters
            },
            ..self.resource_cancelled()
        }
    }

    pub open spec fn blob_tracked(self, slot: BlobSlot) -> TablesState {
        TablesState {
            blobs: self.blobs.push(slot),
            counters: TableCounters {
                blob_high_water: raised(self.counters.blob_high_water, self.blobs.len() + 1),
                ..self.counters
            },
            ..self
        }
    }

    pub open spec fn blob_committed(self, slot: BlobSlot) -> TablesState {
        self.blob_cancelled().blob_tracked(slot)
    }

    pub open spec fn without_context(self, i: int) -> TablesState {
        TablesState { contexts: swap_removed(self.contexts, i), ..self }
    }

    pub open spec fn without_blob(self, i: int) -> TablesState {
        TablesState { blobs: swap_removed(self.blobs, i), ..self }
    }

    pub open spec fn with_blob(self, i: int, slot: BlobSlot) -> TablesState {
        TablesState { blobs: self.blobs.update(i, slot), ..self }
    }

    pub open spec fn window_base(self) -> u64 {
        match self.host_visible {
            Some(w) => w.base,
            None => 0,
        }
    }

    /// `window.free(offset, len)`, with what it counts.
    pub open spec fn after_window_free(self, offset: u64, len: u64) -> TablesState {
        TablesState {
            window: self.window.after_free(offset, len),
            counters: if self.window.loses(offset, len) {
                (TableCounters {
                    window_range_drops: self.counters.window_range_drops.wrapping_add(1),
                    ..self.counters
                })
            } else {
                self.counters
            },
            ..self
        }
    }

    /// The answer to, and the tables after, a request to map a blob anywhere.
    pub open spec fn map_begun(self, owner: OwnerFilter, resource_id: u32) -> (
        BlobMapBegin,
        TablesState,
    ) {
        let failed = (BlobMapBegin::Failed(VirtioError::DeviceError), self);
        match (self.host_visible, first_index(self.blobs, BlobSlot::admitted(owner, resource_id))) {
            (Some(window), Some(i)) => {
                let s = self.blobs[i];
                let len = page_ceiling(s.size) as u64;
                if s.mapped {
                    (BlobMapBegin::Mapped(s.prep(window.base)), self)
                } else if s.map_pending {
                    (BlobMapBegin::Busy, self)
                } else if len == 0 || len > MAX_BLOB_MAP_BYTES {
                    failed
                } else {
                    match self.window.after_alloc(len) {
                        Some((offset, window)) => (
                            BlobMapBegin::Start { offset, len },
                            TablesState {
                                window,
                                blobs: self.blobs.update(
                                    i,
                                    BlobSlot {
                                        map_pending: true,
                                        map_offset: offset,
                                        map_len: len,
                                        ..s
                                    },
                                ),
                                ..self
                            },
                        ),
                        None => (
                            BlobMapBegin::Failed(VirtioError::OutOfMemory),
                            TablesState {
                                counters: TableCounters {
                                    window_alloc_rejects:
                                        self.counters.window_alloc_rejects.wrapping_add(1),
                                    ..self.counters
                                },
                                ..self
                            },
                        ),
                    }
                }
            },
            _ => failed,
        }
    }

    /// The answer to, and the tables after, the host's verdict on a map request.
    pub open spec fn map_finished(
        self,
        resource_id: u32,
        offset: u64,
        len: u64,
        cache: Option<u32>,
    ) -> (BlobMapFinish, TablesState) {
        match (first_index(self.blobs, BlobSlot::awaiting(resource_id, offset)), cache) {
            (Some(i), Some(c)) => (
                BlobMapFinish::Done(
                    BlobMapPrep {
                        gpa: self.window_base().wrapping_add(offset),
                        size: len,
                        map_cache: c,
                    },
                ),
                self.with_blob(
                    i,
                    BlobSlot { map_pending: false, mapped: true, map_cache: c, ..self.blobs[i] },
                ),
            ),
            (Some(i), None) => (
                BlobMapFinish::HostRejected,
                self.with_blob(
                    i,
                    BlobSlot { map_pending: false, map_offset: 0, map_len: 0, ..self.blobs[i] },
                ).after_window_free(offset, len),
            ),
            (None, Some(_)) => (BlobMapFinish::SlotGone, self),
            (None, None) => (BlobMapFinish::HostRejected, self.after_window_free(offset, len)),
        }
    }

    /// The answer to, and the tables after, a request to map a blob at `offset`.
    pub open spec fn remap_begun(self, resource_id: u32, offset: u64) -> (
        BlobRemapBegin,
        TablesState,
    ) {
        let failed = (BlobRemapBegin::Failed(VirtioError::DeviceError), self);
        match (self.host_visible, first_index(self.blobs, BlobSlot::named(resource_id))) {
            (Some(window), Some(i)) => {
                let s = self.blobs[i];
                let len = page_ceiling(s.size) as u64;
                if s.map_pending {
                    (BlobRemapBegin::Busy, self)
                } else if s.mapped && s.map_offset == offset {
                    (BlobRemapBegin::Mapped(s.prep(window.base)), self)
                } else if len == 0 || len > MAX_BLOB_MAP_BYTES || offset % BLOB_PAGE != 0 || offset
                    + len > self.window.reserve {
                    failed
                } else {
                    (
                        BlobRemapBegin::Start {
                            old: if s.mapped {
                                Some((s.map_offset, s.map_len))
                            } else {
                                None
                            },
                            len,
                        },
                        self.with_blob(
                            i,
                            BlobSlot {
                                map_pending: true,
                                mapped: false,
                                map_offset: offset,
                                map_len: len,
                                ..s
                            },
                        ),
                    )
                }
            },
            _ => failed,
        }
    }

    pub open spec fn in_the_way(self, offset: u64, len: u64, keep: u32) -> Seq<u32> {
        ids_of(self.blobs.filter(BlobSlot::in_the_way(offset, len, keep, self.window.reserve)))
    }
}

pub open spec fn ids_of(s: Seq<BlobSlot>) -> Seq<u32> {
    s.map_values(|b: BlobSlot| b.resource_id)
}

/// Two blobs that both use ranges outside the reserve use disjoint ones.
pub open spec fn ranges_apart(reserve: u64, a: BlobSlot, b: BlobSlot) -> bool {
    a.active() && b.active() && a.map_offset >= reserve && b.map_offset >= reserve ==> a.map_end()
        <= b.map_offset || b.map_end() <= a.map_offset
}

impl TablesState {
    /// The next context id is taken.
    pub open spec fn ctx_numbered(self) -> (u32, TablesState) {
        (
            self.next_ctx_id,
            TablesState { next_ctx_id: self.next_ctx_id.wrapping_add(1), ..self },
        )
    }

    /// The next resource id is taken.
    pub open spec fn resource_numbered(self) -> (u32, TablesState) {
        (
            self.next_resource_id,
            TablesState { next_resource_id: self.next_resource_id.wrapping_add(1), ..self },
        )
    }

    /// A context of its owner leaves the table.
    pub open spec fn context_untracked(self, owner: Option<DeviceOwner>, ctx_id: u32) -> (
        Option<u32>,
        TablesState,
    ) {
        match first_index(self.contexts, ContextSlot::named(owner, ctx_id)) {
            Some(i) => (Some(ctx_id), self.without_context(i)),
            None => (None, self),
        }
    }

    /// The next context of an owner leaves the table.
    pub open spec fn context_taken(self, owner: Option<DeviceOwner>) -> (Option<u32>, TablesState) {
        match first_index(self.contexts, ContextSlot::owned_by(owner)) {
            Some(i) => (Some(self.contexts[i].ctx_id), self.without_context(i)),
            None => (None, self),
        }
    }

    /// A blob of a device leaves the table.
    pub open spec fn blob_taken(self, owner: DeviceOwner, ctx_id: u32, resource_id: u32) -> (
        Option<(u32, bool, u64, u64)>,
        TablesState,
    ) {
        match first_index(self.blobs, BlobSlot::exact(Some(owner), ctx_id, resource_id)) {
            Some(i) => {
                let s = self.blobs[i];
                (Some((resource_id, s.mapped, s.map_offset, s.map_len)), self.without_blob(i))
            },
            None => (None, self),
        }
    }

    /// The next blob of an owner leaves the table.
    pub open spec fn owner_blob_taken(self, owner: Option<DeviceOwner>) -> (
        Option<(u32, u32, bool, u64, u64)>,
        TablesState,
    ) {
        match first_index(self.blobs, BlobSlot::owned_by(owner)) {
            Some(i) => {
                let s = self.blobs[i];
                (
                    Some((s.ctx_id, s.resource_id, s.mapped, s.map_offset, s.map_len)),
                    self.without_blob(i),
                )
            },
            None => (None, self),
        }
    }

    /// A blob of the driver is tracked, unless it is or the table is full.
    pub open spec fn blob_noted(self, resource_id: u32, size: u64) -> TablesState {
        if first_index(self.blobs, BlobSlot::named(resource_id)) is Some {
            self
        } else if !self.blob_room() {
            self.blob_refused()
        } else {
            self.blob_tracked(BlobSlot::fresh(None, 0, resource_id, size))
        }
    }

    /// Owner, size and mapping of a blob.
    pub open spec fn blob_found(self, resource_id: u32) -> Option<
        (Option<DeviceOwner>, u64, bool),
    > {
        match first_index(self.blobs, BlobSlot::named(resource_id)) {
            Some(i) => Some((self.blobs[i].owner, self.blobs[i].size, self.blobs[i].mapped)),
            None => None,
        }
    }

    /// The reserve is set, unless it is too late.
    pub open spec fn window_reserved(self, len: u64) -> (bool, TablesState) {
        if self.window.may_reserve() {
            (true, TablesState { window: self.window.reserved(len), ..self })
        } else {
            (
                false,
                TablesState {
                    counters: TableCounters {
                        window_reconfig_refused: self.counters.window_reconfig_refused.wrapping_add(
                            1,
                        ),
                        ..self.counters
                    },
                    ..self
                },
            )
        }
    }

    /// The blob that is mapped at an offset.
    pub open spec fn resid_at(self, offset: u64) -> Option<u32> {
        match first_index(self.blobs, BlobSlot::mapped_at(offset)) {
            Some(i) => Some(self.blobs[i].resource_id),
            None => None,
        }
    }

    /// A blob becomes the driver's, if its resource is live.
    pub open spec fn adopted(self, resource_id: u32) -> (bool, TablesState) {
        if !self.resources.contains(resource_id) {
            (
                false,
                TablesState {
                    counters: TableCounters {
                        adopt_dead_rejects: self.counters.adopt_dead_rejects.wrapping_add(1),
                        ..self.counters
                    },
                    ..self
                },
            )
        } else {
            (
                true,
                match first_index(self.blobs, BlobSlot::named(resource_id)) {
                    Some(i) => self.with_blob(i, BlobSlot { owner: None, ..self.blobs[i] }),
                    None => self,
                },
            )
        }
    }

    /// A blob of the driver leaves the table.
    pub open spec fn forgotten(self, resource_id: u32) -> (Option<(bool, u64, u64)>, TablesState) {
        match first_index(self.blobs, BlobSlot::driver_owned(resource_id)) {
            Some(i) => {
                let s = self.blobs[i];
                (Some((s.mapped, s.map_offset, s.map_len)), self.without_blob(i))
            },
            None => (None, self),
        }
    }

    /// Occupancy of the tables and of the window.
    pub open spec fn stats(self) -> TableStats {
        TableStats {
            blobs_live: self.blobs.len() as u32,
            resources_live: self.resources.len() as u32,
            contexts_live: self.contexts.len() as u32,
            window_used: (self.window.next_offset - self.window.free_bytes()) as u64,
            window_len: self.window.window_len,
        }
    }

    /// A context is about to be created: its id, if it can be tracked.
    pub open spec fn context_begun(self) -> (Result<u32, VirtioError>, TablesState) {
        let (id, t) = self.ctx_numbered();
        if t.context_room() {
            (Ok(id), t.context_reserved())
        } else {
            (Err(VirtioError::OutOfMemory), t.context_refused())
        }
    }

    /// The host has decided over a new context.
    pub open spec fn context_finished(
        self,
        owner: Option<DeviceOwner>,
        ctx_id: u32,
        verdict: Result<(), VirtioError>,
    ) -> (Result<u32, VirtioError>, TablesState) {
        match verdict {
            Ok(_) => (Ok(ctx_id), self.context_committed(ContextSlot { owner, ctx_id })),
            Err(e) => (Err(e), self.context_cancelled()),
        }
    }
}

impl TablesState {
    /// Empty tables over the announced window.
    pub open spec fn fresh(host_visible: Option<HostVisibleWindow>) -> TablesState {
        TablesState {
            next_ctx_id: 1,
            next_resource_id: 1,
            host_visible,
            contexts: Seq::empty(),
            contexts_reserved: 0,
            resources: Seq::empty(),
            resources_reserved: 0,
            blobs: Seq::empty(),
            blobs_reserved: 0,
            window: WindowState {
                window_len: match host_visible {
                    Some(w) => w.len,
                    None => 0,
                },
                reserve: 0,
                next_offset: 0,
                free: Seq::empty(),
                started: false,
                reserve_set: false,
            },
            counters: TableCounters::zero(),
        }
    }
}

impl ResourceTables {
    /// Empty tables over the announced window.
    pub fn new(host_visible: Option<HostVisibleWindow>) -> (r: Self)
        ensures
            r@ == TablesState::fresh(host_visible),
            r@.wf(),
            r@.within_capacity(),
            r@.ranges_wf(),
    {
        let window_len: u64 = match host_visible {
            Some(w) => w.len,
            None => 0,
        };
        ResourceTables {
            next_ctx_id: 1,
            next_resource_id: 1,
            host_visible,
            contexts: Vec::with_capacity(MAX_CONTEXTS),
            contexts_reserved: 0,
            resources: Vec::with_capacity(MAX_RESOURCES),
            resources_reserved: 0,
            blobs: Vec::with_capacity(MAX_BLOBS),
            blobs_reserved: 0,
            window: WindowAllocator::new(window_len),
            counters: TableCounters::new(),
        }
    }
}

impl VirtioGpu {
    /// A fresh context id.
    pub fn alloc_ctx_id(&mut self) -> (r: u32)
        ensures
            r == old(self)@.tables.ctx_numbered().0,
            final(self)@ == (GpuState { tables: old(self)@.tables.ctx_numbered().1, ..old(self)@ }),
            final(self)@.follows(old(self)@),
    {
        let id: u32 = self.tables.next_ctx_id;
        self.tables.next_ctx_id = id.wrapping_add(1);
        id
    }

    /// A fresh resource id.
    pub fn alloc_resource_id(&mut self) -> (r: u32)
        ensures
            r == old(self)@.tables.resource_numbered().0,
            final(self)@ == (GpuState { tables: old(self)@.tables.resource_numbered().1, ..old(self)@ }),
            final(self)@.follows(old(self)@),
    {
        let id: u32 = self.tables.next_resource_id;
        self.tables.next_resource_id = id.wrapping_add(1);
        id
    }

    /// Reserve a tracking slot for a context about to be created; `false` if the
    /// table is full, and the creation must not go ahead.
    pub fn reserve_context_slot(&mut self) -> (r: bool)
        ensures
            r == old(self)@.tables.context_room(),
            final(self)@ == (GpuState {
                tables: if r {
                    old(self)@.tables.context_reserved()
                } else {
                    old(self)@.tables.context_refused()
                },
                ..old(self)@
            }),
            final(self)@.follows(old(self)@),
    {
        let live: usize = self.tables.contexts.len();
        if live >= MAX_CONTEXTS || self.tables.contexts_reserved >= MAX_CONTEXTS - live {
            self.tables.counters.context_full_drops =
                self.tables.counters.context_full_drops.wrapping_add(1);
            return false;
        }
        self.tables.contexts_reserved = self.tables.contexts_reserved + 1;
        true
    }

    /// Turn a reservation into a tracked context.
    pub fn commit_context(&mut self, owner: Option<DeviceOwner>, ctx_id: u32)
        ensures
            final(self)@ == (GpuState {
                tables: old(self)@.tables.context_committed(ContextSlot { owner, ctx_id }),
                ..old(self)@
            }),
            final(self)@.follows(old(self)@),
    {
        self.tables.contexts_reserved = self.tables.contexts_reserved.saturating_sub(1);
        self.tables.contexts.push(ContextSlot { owner, ctx_id });
    }

    /// Give a reservation back after a failed creation.
    pub fn cancel_context_reservation(&mut self)
        ensures
            final(self)@ == (GpuState {
                tables: old(self)@.tables.context_cancelled(),
                ..old(self)@
            }),
            final(self)@.follows(old(self)@),
    {
        self.tables.contexts_reserved = self.tables.contexts_reserved.saturating_sub(1);
    }

    /// `ctx_id` as a context of `owner`, or `None` if `owner` tracks no such one.
    pub fn resolve_owned_ctx(&self, owner: Option<DeviceOwner>, ctx_id: u32) -> (r: Option<
        OwnedCtx,
    >)
        ensures
            r is Some <==> exists|i: int|
                0 <= i < self@.tables.contexts.len() && ContextSlot::named(owner, ctx_id)(
                    #[trigger] self@.tables.contexts[i],
                ),
            r is Some ==> r->0.spec_id() == ctx_id,
    {
        let named = |c: &ContextSlot| -> (b: bool)
            ensures
                b == ContextSlot::named(owner, ctx_id)(*c),
            { c.ctx_id == ctx_id && same_owner(c.owner, owner) };
        let found = position(
            &self.tables.contexts,
            named,
            Ghost(ContextSlot::named(owner, ctx_id)),
        );
        proof {
            lemma_first_index_exists(self@.tables.contexts, ContextSlot::named(owner, ctx_id));
        }
        match found {
            Some(i) => Some(OwnedCtx::resolved(self.tables.contexts[i].ctx_id)),
            None => None,
        }
    }

    /// Stop tracking `ctx_id`, but only for its owner.
    pub fn untrack_owned_context(&mut self, owner: Option<DeviceOwner>, ctx_id: u32) -> (r: Option<
        u32,
    >)
        ensures
            r == old(self)@.tables.context_untracked(owner, ctx_id).0,
            final(self)@ == (GpuState { tables: old(self)@.tables.context_untracked(owner, ctx_id).1, ..old(self)@ }),
            final(self)@.follows(old(self)@),
    {
        let named = |c: &ContextSlot| -> (b: bool)
            ensures
                b == ContextSlot::named(owner, ctx_id)(*c),
            { c.ctx_id == ctx_id && same_owner(c.owner, owner) };
        match position(
            &self.tables.contexts,
            named,
            Ghost(ContextSlot::named(owner, ctx_id)),
        ) {
            Some(i) => Some(self.tables.contexts.swap_remove(i).ctx_id),
            None => None,
        }
    }

    /// Stop tracking one context of `owner` and return its id.
    pub fn take_context_for_owner(&mut self, owner: Option<DeviceOwner>) -> (r: Option<u32>)
        ensures
            r == old(self)@.tables.context_taken(owner).0,
            final(self)@ == (GpuState { tables: old(self)@.tables.context_taken(owner).1, ..old(self)@ }),
            final(self)@.follows(old(self)@),
    {
        let owned = |c: &ContextSlot| -> (b: bool)
            ensures
                b == ContextSlot::owned_by(owner)(*c),
            { same_owner(c.owner, owner) };
        match position(&self.tables.contexts, owned, Ghost(ContextSlot::owned_by(owner))) {
            Some(i) => Some(self.tables.contexts.swap_remove(i).ctx_id),
            None => None,
        }
    }

    /// Reserve a slot for a resource about to be created; `false` if the table is
    /// full, and the creation must not go ahead.
    pub fn reserve_resource_slot(&mut self) -> (r: bool)
        ensures
            r == old(self)@.tables.resource_room(),
            final(self)@ == (GpuState {
                tables: if r {
                    old(self)@.tables.resource_reserved()
                } else {
                    old(self)@.tables.resource_refused()
                },
                ..old(self)@
            }),
            final(self)@.follows(old(self)@),
    {
        let live: usize = self.tables.resources.len();
        if live >= MAX_RESOURCES || self.tables.resources_reserved >= MAX_RESOURCES - live {
            self.tables.counters.resource_full_rejects =
                self.tables.counters.resource_full_rejects.wrapping_add(1);
            return false;
        }
        self.tables.resources_reserved = self.tables.resources_reserved + 1;
        true
    }

    /// Turn a reservation into a live resource.
    pub fn commit_resource(&mut self, resource_id: u32)
        ensures
            final(self)@ == (GpuState {
                tables: old(self)@.tables.resource_committed(resource_id),
                ..old(self)@
            }),
            final(self)@.follows(old(self)@),
    {
        self.tables.resources_reserved = self.tables.resources_reserved.saturating_sub(1);
        self.tables.resources.push(resource_id);
        bump_high_water(&mut self.tables.counters.resource_high_water, self.tables.resources.len());
    }

    /// Give a reservation back after a failed creation.
    pub fn cancel_resource_reservation(&mut self)
        ensures
            final(self)@ == (GpuState {
                tables: old(self)@.tables.resource_cancelled(),
                ..old(self)@
            }),
            final(self)@.follows(old(self)@),
    {
        self.tables.resources_reserved = self.tables.resources_reserved.saturating_sub(1);
    }

    /// Reserve a slot for a blob about to be created; `false` if the table is
    /// full, and the creation must not go ahead.
    pub fn reserve_blob_slot(&mut self) -> (r: bool)
        ensures
            r == old(self)@.tables.blob_room(),
            final(self)@ == (GpuState {
                tables: if r {
                    old(self)@.tables.blob_reserved()
                } else {
                    old(self)@.tables.blob_refused()
                },
                ..old(self)@
            }),
            final(self)@.follows(old(self)@),
    {
        let live: usize = self.tables.blobs.len();
        if live >= MAX_BLOBS || self.tables.blobs_reserved >= MAX_BLOBS - live {
            self.tables.counters.blob_full_rejects =
                self.tables.counters.blob_full_rejects.wrapping_add(1);
            return false;
        }
        self.tables.blobs_reserved = self.tables.blobs_reserved + 1;
        true
    }

    /// Turn a reservation into a tracked, unmapped blob. No blob has its id yet.
    pub fn commit_blob(
        &mut self,
        owner: Option<DeviceOwner>,
        ctx_id: u32,
        resource_id: u32,
        size: u64,
    )
        requires
            !some(old(self)@.tables.blobs, BlobSlot::named(resource_id)),
        ensures
            final(self)@ == (GpuState {
                tables: old(self)@.tables.blob_committed(
                    BlobSlot::fresh(owner, ctx_id, resource_id, size),
                ),
                ..old(self)@
            }),
            old(self)@.tables.wf() ==> final(self)@.tables.wf(),
            final(self)@.follows(old(self)@),
    {
        self.tables.blobs_reserved = self.tables.blobs_reserved.saturating_sub(1);
        self.tables.blobs.push(
            BlobSlot {
                owner,
                ctx_id,
                resource_id,
                size,
                mapped: false,
                map_pending: false,
                map_cache: 0,
                map_offset: 0,
                map_len: 0,
            },
        );
        bump_high_water(&mut self.tables.counters.blob_high_water, self.tables.blobs.len());
        proof {
            if old(self)@.tables.wf() {
                assert(self@.tables.blobs.drop_last() =~= old(self)@.tables.blobs);
                lemma_tracked_wf(old(self)@.tables, self@.tables);
            }
        }
    }

    /// Give a reservation back after a failed creation.
    pub fn cancel_blob_reservation(&mut self)
        ensures
            final(self)@ == (GpuState {
                tables: old(self)@.tables.blob_cancelled(),
                ..old(self)@
            }),
            final(self)@.follows(old(self)@),
    {
        self.tables.blobs_reserved = self.tables.blobs_reserved.saturating_sub(1);
    }

    /// Stop tracking a blob of a device and return
    /// `(resource_id, mapped, map_offset, map_len)`. The driver's own blobs are
    /// out of reach: `owner` is a device.
    pub fn take_blob_matching(&mut self, owner: DeviceOwner, ctx_id: u32, resource_id: u32) -> (r:
        Option<(u32, bool, u64, u64)>)
        ensures
            r == old(self)@.tables.blob_taken(owner, ctx_id, resource_id).0,
            final(self)@ == (GpuState { tables: old(self)@.tables.blob_taken(owner, ctx_id, resource_id).1, ..old(self)@ }),
            old(self)@.tables.wf() ==> final(self)@.tables.wf() && (r matches Some(taken)
                ==> taken.1 ==> final(self)@.tables.returnable(taken.2, taken.3)),
            final(self)@.follows(old(self)@),
    {
        let exact = |s: &BlobSlot| -> (b: bool)
            ensures
                b == BlobSlot::exact(Some(owner), ctx_id, resource_id)(*s),
            {
                same_owner(s.owner, Some(owner)) && s.ctx_id == ctx_id && s.resource_id
                    == resource_id
            };
        match position(
            &self.tables.blobs,
            exact,
            Ghost(BlobSlot::exact(Some(owner), ctx_id, resource_id)),
        ) {
            Some(i) => {
                let slot: BlobSlot = self.tables.blobs.swap_remove(i);
                proof {
                    if old(self)@.tables.wf() {
                        lemma_untracked_wf(old(self)@.tables, self@.tables, i as int);
                    }
                }
                Some((slot.resource_id, slot.mapped, slot.map_offset, slot.map_len))
            },
            None => None,
        }
    }

    /// Stop tracking one blob of `owner` and return
    /// `(ctx_id, resource_id, mapped, map_offset, map_len)`.
    pub fn take_blob_for_owner(&mut self, owner: Option<DeviceOwner>) -> (r: Option<
        (u32, u32, bool, u64, u64),
    >)
        ensures
            r == old(self)@.tables.owner_blob_taken(owner).0,
            final(self)@ == (GpuState { tables: old(self)@.tables.owner_blob_taken(owner).1, ..old(self)@ }),
            old(self)@.tables.wf() ==> final(self)@.tables.wf() && (r matches Some(taken)
                ==> taken.2 ==> final(self)@.tables.returnable(taken.3, taken.4)),
            final(self)@.follows(old(self)@),
    {
        let owned = |s: &BlobSlot| -> (b: bool)
            ensures
                b == BlobSlot::owned_by(owner)(*s),
            { same_owner(s.owner, owner) };
        match position(&self.tables.blobs, owned, Ghost(BlobSlot::owned_by(owner))) {
            Some(i) => {
                let slot: BlobSlot = self.tables.blobs.swap_remove(i);
                proof {
                    if old(self)@.tables.wf() {
                        lemma_untracked_wf(old(self)@.tables, self@.tables, i as int);
                    }
                }
                Some((slot.ctx_id, slot.resource_id, slot.mapped, slot.map_offset, slot.map_len))
            },
            None => None,
        }
    }

    /// Whether the resource lives on the host.
    pub fn resource_is_live(&self, resource_id: u32) -> (r: bool)
        ensures
            r == self@.tables.resources.contains(resource_id),
    {
        let same = |x: &u32| -> (b: bool)
            ensures
                b == is_id(resource_id)(*x),
            { *x == resource_id };
        proof {
            lemma_first_index_exists(self@.tables.resources, is_id(resource_id));
        }
        position(&self.tables.resources, same, Ghost(is_id(resource_id))).is_some()
    }

    /// Claim the teardown of a live resource; later claims of the same life fail
    /// and are counted.
    pub fn take_live_resource(&mut self, resource_id: u32) -> (r: bool)
        ensures
            r == old(self)@.tables.teardown_claimed(resource_id).0,
            final(self)@ == (GpuState { tables: old(self)@.tables.teardown_claimed(resource_id).1, ..old(self)@ }),
            r == old(self)@.tables.resources.contains(resource_id),
            final(self)@.follows(old(self)@),
    {
        let same = |x: &u32| -> (b: bool)
            ensures
                b == is_id(resource_id)(*x),
            { *x == resource_id };
        proof {
            lemma_first_index_exists(self@.tables.resources, is_id(resource_id));
        }
        match position(&self.tables.resources, same, Ghost(is_id(resource_id))) {
            Some(i) => {
                let _ = self.tables.resources.swap_remove(i);
                true
            },
            None => {
                self.tables.counters.take_live_misses =
                    self.tables.counters.take_live_misses.wrapping_add(1);
                false
            },
        }
    }

    /// Track a driver-owned blob by its size; nothing happens if the resource is
    /// tracked already, and a full table is counted.
    pub fn note_blob_size(&mut self, resource_id: u32, size: u64)
        ensures
            final(self)@ == (GpuState {
                tables: old(self)@.tables.blob_noted(resource_id, size),
                ..old(self)@
            }),
            old(self)@.tables.wf() ==> final(self)@.tables.wf(),
            final(self)@.follows(old(self)@),
    {
        let named = |s: &BlobSlot| -> (b: bool)
            ensures
                b == BlobSlot::named(resource_id)(*s),
            { s.resource_id == resource_id };
        if position(&self.tables.blobs, named, Ghost(BlobSlot::named(resource_id))).is_some() {
            return ;
        }
        let live: usize = self.tables.blobs.len();
        if live >= MAX_BLOBS || self.tables.blobs_reserved >= MAX_BLOBS - live {
            self.tables.counters.blob_full_rejects =
                self.tables.counters.blob_full_rejects.wrapping_add(1);
            return ;
        }
        self.tables.blobs.push(
            BlobSlot {
                owner: None,
                ctx_id: 0,
                resource_id,
                size,
                mapped: false,
                map_pending: false,
                map_cache: 0,
                map_offset: 0,
                map_len: 0,
            },
        );
        bump_high_water(&mut self.tables.counters.blob_high_water, self.tables.blobs.len());
        proof {
            lemma_first_index_exists(old(self)@.tables.blobs, BlobSlot::named(resource_id));
            if old(self)@.tables.wf() {
                assert(self@.tables.blobs.drop_last() =~= old(self)@.tables.blobs);
                lemma_tracked_wf(old(self)@.tables, self@.tables);
            }
        }
    }

    /// `(owner, size, mapped)` of a tracked blob.
    pub fn blob_lookup(&self, resource_id: u32) -> (r: Option<(Option<DeviceOwner>, u64, bool)>)
        ensures
            r == self@.tables.blob_found(resource_id),
    {
        let named = |s: &BlobSlot| -> (b: bool)
            ensures
                b == BlobSlot::named(resource_id)(*s),
            { s.resource_id == resource_id };
        match position(&self.tables.blobs, named, Ghost(BlobSlot::named(resource_id))) {
            Some(i) => {
                let s: BlobSlot = self.tables.blobs[i];
                Some((s.owner, s.size, s.mapped))
            },
            None => None,
        }
    }
}

pub open spec fn is_id(resource_id: u32) -> spec_fn(u32) -> bool {
    |x: u32| x == resource_id
}

/// A reservation that was granted, its commit and its cancellation keep the
/// tables within capacity, and a commit uses exactly the room it reserved.
pub proof fn law_reservations_keep_capacity(
    t: TablesState,
    context: ContextSlot,
    resource_id: u32,
    blob: BlobSlot,
)
    requires
        t.within_capacity(),
    ensures
        t.context_room() ==> t.context_reserved().within_capacity(),
        t.resource_room() ==> t.resource_reserved().within_capacity(),
        t.blob_room() ==> t.blob_reserved().within_capacity(),
        t.contexts_reserved > 0 ==> t.context_committed(context).within_capacity(),
        t.resources_reserved > 0 ==> t.resource_committed(resource_id).within_capacity(),
        t.blobs_reserved > 0 ==> t.blob_committed(blob).within_capacity(),
        t.context_cancelled().within_capacity(),
        t.resource_cancelled().within_capacity(),
        t.blob_cancelled().within_capacity(),
{
}

/// Giving a granted reservation back restores the tables.
pub proof fn law_cancel_undoes_reserve(t: TablesState)
    ensures
        t.context_room() ==> t.context_reserved().context_cancelled() == t,
        t.resource_room() ==> t.resource_reserved().resource_cancelled() == t,
        t.blob_room() ==> t.blob_reserved().blob_cancelled() == t,
{
}

/// A committed context resolves for its owner.
pub proof fn law_committed_context_resolves(t: TablesState, slot: ContextSlot)
    ensures
        exists|i: int|
            0 <= i < t.context_committed(slot).contexts.len() && ContextSlot::named(
                slot.owner,
                slot.ctx_id,
            )(#[trigger] t.context_committed(slot).contexts[i]),
{
    let u = t.context_committed(slot);
    assert(u.contexts[t.contexts.len() as int] == slot);
}

/// The teardown of a resource is claimed once per commit: a claim leaves one
/// occurrence less, so with a single occurrence the next claim fails.
pub proof fn law_teardown_is_claimed_once(resources: Seq<u32>, resource_id: u32)
    requires
        resources.no_duplicates(),
        resources.contains(resource_id),
    ensures
        first_index(resources, is_id(resource_id)) is Some,
        !swap_removed(resources, first_index(resources, is_id(resource_id))->0).contains(
            resource_id,
        ),
        swap_removed(
            resources,
            first_index(resources, is_id(resource_id))->0,
        ).no_duplicates(),
{
    lemma_first_index_exists(resources, is_id(resource_id));
    let k = choose|k: int| 0 <= k < resources.len() && resources[k] == resource_id;
    let i = first_index(resources, is_id(resource_id))->0;
    let after = swap_removed(resources, i);
    assert forall|a: int| 0 <= a < after.len() implies after[a] != resource_id by {
        assert(after[a] == resources[if a == i { resources.len() - 1 } else { a }]);
    }
}

/// A device can neither release nor reclaim a blob that the driver owns: every
/// search for a device's blob passes over it.
pub proof fn law_driver_blobs_are_out_of_reach(
    t: TablesState,
    owner: DeviceOwner,
    ctx_id: u32,
    resource_id: u32,
)
    ensures
        first_index(t.blobs, BlobSlot::exact(Some(owner), ctx_id, resource_id)) matches Some(i)
            ==> t.blobs[i].owner is Some,
        first_index(t.blobs, BlobSlot::owned_by(Some(owner))) matches Some(i)
            ==> t.blobs[i].owner is Some,
{
    lemma_first_index_exists(t.blobs, BlobSlot::exact(Some(owner), ctx_id, resource_id));
    lemma_first_index_exists(t.blobs, BlobSlot::owned_by(Some(owner)));
}

} // verus!
