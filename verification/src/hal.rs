//! Device-visible buffers, bounds-checked spans of them, and the cache of mapped
//! device registers.
use crate::seqs::{first_index, lemma_first_index, lemma_first_index_exists, position};
use vstd::prelude::*;

verus! {

pub const PAGE_SIZE: usize = 4096;

/// Device register regions that the cache can hold.
pub const MAX_MMIO: usize = 16;

/// Marker of the platform's memory services.
#[derive(Clone, Copy, Debug)]
pub struct WdkHal;

/// A physically contiguous buffer: where it lies, how many pages it has, and how
/// many of its bytes are in use.
#[derive(Debug, PartialEq, Eq, Structural)]
pub struct DmaBuffer {
    pub pa: u64,
    pub pages: usize,
    pub len: usize,
}

/// A part of a [`DmaBuffer`].
#[derive(Clone, Copy, Debug, PartialEq, Eq, Structural)]
pub struct DmaSpan {
    pub pa: u64,
    pub offset: usize,
    pub len: usize,
}

impl DmaSpan {
    pub open spec fn nothing() -> DmaSpan {
        DmaSpan { pa: 0, offset: 0, len: 0 }
    }

    /// The span of no bytes.
    pub fn empty() -> (r: DmaSpan)
        ensures
            r == DmaSpan::nothing(),
    {
        DmaSpan { pa: 0, offset: 0, len: 0 }
    }

    /// The span lies inside the used bytes of `buf`.
    pub open spec fn inside(self, buf: DmaBuffer) -> bool {
        self.pa == buf.pa && self.offset + self.len <= buf.len
    }
}

impl DmaBuffer {
    pub open spec fn same_as(b: DmaBuffer) -> spec_fn(DmaBuffer) -> bool {
        |x: DmaBuffer| x == b
    }

    pub open spec fn bytes(self) -> int {
        self.pages * PAGE_SIZE
    }

    /// The buffer's size can be computed and covers what is in use.
    pub open spec fn wf(self) -> bool {
        &&& self.len <= self.bytes() <= usize::MAX
        &&& self.pages > 0
    }

    /// Pages that `len` bytes need.
    pub fn pages_for(len: usize) -> (r: usize)
        ensures
            r == (len + PAGE_SIZE - 1) / PAGE_SIZE as int,
    {
        if len % PAGE_SIZE == 0 {
            len / PAGE_SIZE
        } else {
            len / PAGE_SIZE + 1
        }
    }

    /// Describe an allocation of `len` bytes at `pa`; `None` for no bytes, for a
    /// failed allocation (`pa` 0), and where the page-rounded size has no `usize`.
    pub fn new(len: usize, pa: u64) -> (r: Option<Self>)
        ensures
            r is Some <==> len > 0 && pa != 0 && (len + PAGE_SIZE - 1) / PAGE_SIZE as int
                * PAGE_SIZE <= usize::MAX,
            r matches Some(b) ==> b.wf() && b.pa == pa && b.len == len && b.pages == (len
                + PAGE_SIZE - 1) / PAGE_SIZE as int,
    {
        let pages: usize = Self::pages_for(len);
        if len == 0 || pa == 0 || pages > usize::MAX / PAGE_SIZE {
            return None;
        }
        Some(DmaBuffer { pa, pages, len })
    }

    /// Guest-physical address.
    pub fn physical_address(&self) -> (r: u64)
        ensures
            r == self.pa,
    {
        self.pa
    }

    /// Bytes of the whole allocation.
    pub fn capacity(&self) -> (r: usize)
        requires
            self.wf(),
        ensures
            r == self.bytes(),
    {
        self.pages * PAGE_SIZE
    }

    /// Reuse the buffer for `len` bytes; `false` if they do not fit.
    pub fn reset(&mut self, len: usize) -> (r: bool)
        requires
            old(self).wf(),
        ensures
            r <==> 0 < len <= old(self).bytes(),
            *final(self) == if r {
                (DmaBuffer { len, ..*old(self) })
            } else {
                *old(self)
            },
            final(self).wf(),
    {
        if len == 0 || len > self.capacity() {
            return false;
        }
        self.len = len;
        true
    }

    pub open spec fn span_of(self, offset: int, len: usize) -> Option<DmaSpan> {
        if 0 <= offset && offset + len <= self.len {
            Some(DmaSpan { pa: self.pa, offset: offset as usize, len })
        } else {
            None
        }
    }

    /// The `len` bytes at `offset`, or `None` if they are not all in use.
    pub fn span(&self, offset: usize, len: usize) -> (r: Option<DmaSpan>)
        ensures
            r == self.span_of(offset as int, len),
    {
        match offset.checked_add(len) {
            Some(end) => if end > self.len {
                None
            } else {
                Some(DmaSpan { pa: self.pa, offset, len })
            },
            None => None,
        }
    }
}

/// A span never leaves the buffer it was taken from.
pub proof fn law_span_stays_inside(buf: DmaBuffer, offset: int, len: usize)
    requires
        buf.span_of(offset, len) is Some,
    ensures
        buf.span_of(offset, len)->0.inside(buf),
{
}

/// One mapped device register region.
#[derive(Clone, Copy, Debug, PartialEq, Eq, Structural)]
pub struct Mapping {
    pub paddr: u64,
    pub va: usize,
    pub size: usize,
}

/// Mapped device register regions, kept for the driver's lifetime and reused.
pub struct MmioCache {
    pub entries: Vec<Mapping>,
    /// Mappings that could not be kept.
    pub full: u32,
    /// Mappings that the platform refused.
    pub map_fails: u32,
}

/// What to do with a fresh mapping.
#[derive(Clone, Copy, Debug, PartialEq, Eq, Structural)]
pub enum MmioInsert {
    /// The fresh mapping is in use.
    Keep(usize),
    /// Another mapping was cached meanwhile: undo the fresh one, use that.
    Discard(usize),
    /// The platform refused to map.
    Failed,
}

impl MmioCache {
    pub open spec fn covers(paddr: u64, size: usize) -> spec_fn(Mapping) -> bool {
        |m: Mapping| m.paddr == paddr && m.size >= size
    }

    pub open spec fn wf(self) -> bool {
        self.entries@.len() <= MAX_MMIO
    }

    /// Where the region is mapped already.
    pub open spec fn found(entries: Seq<Mapping>, paddr: u64, size: usize) -> Option<usize> {
        match first_index(entries, Self::covers(paddr, size)) {
            Some(i) => Some(entries[i].va),
            None => None,
        }
    }

    /// What to do with a fresh mapping, and the mappings after it.
    pub open spec fn recorded(
        entries: Seq<Mapping>,
        paddr: u64,
        size: usize,
        mapped: Option<usize>,
    ) -> (MmioInsert, Seq<Mapping>) {
        match (mapped, Self::found(entries, paddr, size)) {
            (None, _) => (MmioInsert::Failed, entries),
            (Some(_), Some(known)) => (MmioInsert::Discard(known), entries),
            (Some(va), None) => (
                MmioInsert::Keep(va),
                if entries.len() < MAX_MMIO {
                    entries.push(Mapping { paddr, va, size })
                } else {
                    entries
                },
            ),
        }
    }

    pub fn new() -> (r: Self)
        ensures
            r.entries@.len() == 0,
            r.full == 0,
            r.map_fails == 0,
            r.wf(),
    {
        MmioCache { entries: Vec::new(), full: 0, map_fails: 0 }
    }

    /// The address at which the region is mapped already.
    pub fn lookup(&self, paddr: u64, size: usize) -> (r: Option<usize>)
        ensures
            r == Self::found(self.entries@, paddr, size),
    {
        let covers = |m: &Mapping| -> (b: bool)
            ensures
                b == Self::covers(paddr, size)(*m),
            { m.paddr == paddr && m.size >= size };
        match position(&self.entries, covers, Ghost(Self::covers(paddr, size))) {
            Some(i) => Some(self.entries[i].va),
            None => None,
        }
    }

    /// Record a mapping made for a region that `lookup` did not find; `None` if
    /// the platform refused it. A mapping that the full cache cannot keep stays
    /// valid and is counted.
    pub fn try_mmio_map(&mut self, paddr: u64, size: usize, mapped: Option<usize>) -> (r:
        MmioInsert)
        requires
            old(self).wf(),
        ensures
            final(self).wf(),
            r == Self::recorded(old(self).entries@, paddr, size, mapped).0,
            final(self).entries@ == Self::recorded(old(self).entries@, paddr, size, mapped).1,
            final(self).full == if r is Keep && old(self).entries@.len() >= MAX_MMIO {
                old(self).full.wrapping_add(1)
            } else {
                old(self).full
            },
            final(self).map_fails == if r is Failed {
                old(self).map_fails.wrapping_add(1)
            } else {
                old(self).map_fails
            },
    {
        let va: usize = match mapped {
            Some(va) => va,
            None => {
                self.map_fails = self.map_fails.wrapping_add(1);
                return MmioInsert::Failed;
            },
        };
        if let Some(known) = self.lookup(paddr, size) {
            return MmioInsert::Discard(known);
        }
        if self.entries.len() < MAX_MMIO {
            self.entries.push(Mapping { paddr, va, size });
        } else {
            self.full = self.full.wrapping_add(1);
        }
        MmioInsert::Keep(va)
    }

    /// Forget every mapping and return them, to be undone.
    pub fn unmap_all(&mut self) -> (r: Vec<Mapping>)
        ensures
            r@ == old(self).entries@,
            final(self).entries@.len() == 0,
            final(self).full == old(self).full,
            final(self).map_fails == old(self).map_fails,
    {
        let mut taken: Vec<Mapping> = Vec::new();
        std::mem::swap(&mut taken, &mut self.entries);
        taken
    }
}

/// A mapping that was kept serves every later request for its region.
pub proof fn law_kept_mapping_is_reused(entries: Seq<Mapping>, m: Mapping, size: usize)
    requires
        first_index(entries, MmioCache::covers(m.paddr, size)) is None,
        size <= m.size,
    ensures
        first_index(entries.push(m), MmioCache::covers(m.paddr, size)) == Some(
            entries.len() as int,
        ),
{
    let p = MmioCache::covers(m.paddr, size);
    lemma_first_index_exists(entries, p);
    lemma_first_index(entries.push(m), p, entries.len() as int);
}

} // verus!
