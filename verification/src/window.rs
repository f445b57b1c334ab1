//! Offsets inside the host-visible memory window.
//!
//! A bump mark and a coalescing free list share the window with a reserved
//! prefix, whose offsets this allocator neither hands out nor takes back.
use crate::counters::TableCounters;
use crate::error::VirtioError;
use crate::seqs::{first_index, lemma_first_index_exists, position, swap_removed};
use vstd::prelude::*;

verus! {

/// Granularity of blob window offsets and sizes.
pub const BLOB_PAGE: u64 = 4096;

/// Most ranges on the free list; a range returned beyond that is dropped.
pub const MAX_WINDOW_RANGES: usize = 1024;

/// Largest blob that can be mapped.
pub const MAX_BLOB_MAP_BYTES: u64 = 0x1000_0000;

/// `n` rounded up to a multiple of the page size, or the largest such multiple
/// below 2^64 where there is none.
pub open spec fn page_ceiling(n: u64) -> int {
    if n <= 0xffff_ffff_ffff_f000 {
        (n + 4095) / 4096 * 4096
    } else {
        0xffff_ffff_ffff_f000
    }
}

/// Round `n` up to a whole number of pages, saturating.
pub fn round_up_page(n: u64) -> (r: u64)
    ensures
        r == page_ceiling(n),
{
    if n <= 0xffff_ffff_ffff_f000 {
        (n + (BLOB_PAGE - 1)) / BLOB_PAGE * BLOB_PAGE
    } else {
        0xffff_ffff_ffff_f000
    }
}

/// The rounded size is page-aligned, covers the size wherever a multiple can,
/// and wastes less than a page.
pub proof fn law_page_ceiling(n: u64)
    ensures
        page_ceiling(n) % 4096 == 0,
        n <= 0xffff_ffff_ffff_f000 ==> n <= page_ceiling(n) < n + 4096,
        page_ceiling(n) == 0 <==> n == 0,
{
}

/// A span of window offsets.
#[derive(Clone, Copy, Debug, PartialEq, Eq, Structural)]
pub struct WindowRange {
    pub offset: u64,
    pub len: u64,
}

impl WindowRange {
    pub open spec fn end(self) -> int {
        self.offset + self.len
    }

    pub open spec fn holds(self, x: int) -> bool {
        self.offset <= x < self.end()
    }
}

/// What a [`WindowAllocator`] holds.
#[verifier::ext_equal]
pub struct WindowState {
    pub window_len: u64,
    pub reserve: u64,
    pub next_offset: u64,
    pub free: Seq<WindowRange>,
    pub started: bool,
    pub reserve_set: bool,
}

impl WindowState {
    /// No offset was ever issued, and nothing was freed.
    pub open spec fn pristine(self) -> bool {
        !self.started && self.next_offset == self.reserve && self.free.len() == 0
    }

    /// The reserve may still be set.
    pub open spec fn may_reserve(self) -> bool {
        !self.reserve_set && self.pristine()
    }

    /// The first `len` bytes are reserved.
    pub open spec fn reserved(self, len: u64) -> WindowState {
        WindowState { reserve: len, next_offset: len, reserve_set: true, ..self }
    }

    /// No free range runs past the last offset.
    pub open spec fn bounded(self) -> bool {
        forall|i: int| 0 <= i < self.free.len() ==> (#[trigger] self.free[i]).end() <= u64::MAX
    }

    /// Free ranges are not empty, lie between the reserve and the bump mark, do
    /// not end at it, and are pairwise disjoint. Once an offset was issued, the
    /// mark lies inside the window. Nothing is reserved until it is set.
    pub open spec fn wf(self) -> bool {
        &&& self.reserve <= self.next_offset
        &&& self.next_offset <= self.window_len || self.next_offset == self.reserve
        &&& self.free.len() <= MAX_WINDOW_RANGES
        &&& !self.reserve_set ==> self.reserve == 0
        &&& forall|i: int|
            0 <= i < self.free.len() ==> {
                let r = #[trigger] self.free[i];
                r.len > 0 && self.reserve <= r.offset && r.end() < self.next_offset
            }
        &&& forall|i: int, j: int|
            0 <= i < j < self.free.len() ==> disjoint(
                #[trigger] self.free[i],
                #[trigger] self.free[j],
            )
    }

    /// Offset `x` is not handed out.
    pub open spec fn available(self, x: int) -> bool {
        self.next_offset <= x || exists|i: int|
            0 <= i < self.free.len() && (#[trigger] self.free[i]).holds(x)
    }

    /// Every offset of the range is handed out by this allocator.
    pub open spec fn issued(self, offset: u64, len: u64) -> bool {
        &&& self.reserve <= offset
        &&& forall|x: int| offset <= x < offset + len ==> !#[trigger] self.available(x)
    }

    pub open spec fn fits(len: u64) -> spec_fn(WindowRange) -> bool {
        |r: WindowRange| r.len >= len
    }

    pub open spec fn ends_at(end: int) -> spec_fn(WindowRange) -> bool {
        |r: WindowRange| r.end() == end
    }

    pub open spec fn touches(offset: u64, len: u64) -> spec_fn(WindowRange) -> bool {
        |r: WindowRange| r.end() == offset || offset + len == r.offset
    }

    /// The first free range that fits serves the request from its front; with
    /// none, the bump mark does, as far as the window reaches.
    pub open spec fn after_alloc(self, len: u64) -> Option<(u64, WindowState)> {
        match first_index(self.free, Self::fits(len)) {
            Some(i) => {
                let r = self.free[i];
                let rest = WindowRange { offset: (r.offset + len) as u64, len: (r.len - len) as u64 };
                Some(
                    (
                        r.offset,
                        WindowState {
                            free: if r.len == len {
                                swap_removed(self.free, i)
                            } else {
                                self.free.update(i, rest)
                            },
                            started: true,
                            ..self
                        },
                    ),
                )
            },
            None => if self.next_offset + len <= self.window_len {
                Some(
                    (
                        self.next_offset,
                        WindowState {
                            next_offset: (self.next_offset + len) as u64,
                            started: true,
                            ..self
                        },
                    ),
                )
            } else {
                None
            },
        }
    }

    /// Lower the bump mark over every free range that ends at it.
    pub open spec fn absorbed(self) -> WindowState
        decreases self.free.len(),
    {
        match first_index(self.free, Self::ends_at(self.next_offset as int)) {
            Some(i) => if 0 <= i < self.free.len() {
                WindowState {
                    next_offset: self.free[i].offset,
                    free: swap_removed(self.free, i),
                    ..self
                }.absorbed()
            } else {
                self
            },
            None => self,
        }
    }

    /// A returned range is dropped when it is empty or reserved; else it lowers
    /// the bump mark, extends the first free range it touches, or is listed. With
    /// the list full it is lost.
    pub open spec fn after_free(self, offset: u64, len: u64) -> WindowState {
        if len == 0 || offset < self.reserve {
            self
        } else if offset + len == self.next_offset {
            WindowState { next_offset: offset, ..self }.absorbed()
        } else {
            match first_index(self.free, Self::touches(offset, len)) {
                Some(i) => {
                    let r = self.free[i];
                    let joined = WindowRange {
                        offset: if r.end() == offset { r.offset } else { offset },
                        len: (r.len + len) as u64,
                    };
                    WindowState { free: self.free.update(i, joined), ..self }
                },
                None => if self.free.len() < MAX_WINDOW_RANGES {
                    WindowState { free: self.free.push(WindowRange { offset, len }), ..self }
                } else {
                    self
                },
            }
        }
    }

    /// The range is lost because the free list is full.
    pub open spec fn loses(self, offset: u64, len: u64) -> bool {
        &&& len != 0
        &&& offset >= self.reserve
        &&& offset + len != self.next_offset
        &&& first_index(self.free, Self::touches(offset, len)) is None
        &&& self.free.len() >= MAX_WINDOW_RANGES
    }

    pub open spec fn free_bytes(self) -> int {
        sum_of(self.free)
    }
}

pub open spec fn disjoint(a: WindowRange, b: WindowRange) -> bool {
    a.end() <= b.offset || b.end() <= a.offset
}

/// Total length of `s`.
pub open spec fn sum_of(s: Seq<WindowRange>) -> int
    decreases s.len(),
{
    if s.len() == 0 {
        0
    } else {
        sum_of(s.drop_last()) + s.last().len
    }
}

/// Allocator of offsets inside the host-visible window.
pub struct WindowAllocator {
    /// Bytes of the window; 0 if the device exposes none.
    pub window_len: u64,
    /// The first `reserve` bytes belong to the memory manager's own segment.
    pub reserve: u64,
    /// Bump mark.
    pub next_offset: u64,
    /// Returned ranges below the bump mark.
    pub free_ranges: Vec<WindowRange>,
    /// An offset was once issued.
    pub started: bool,
    /// The reserve was set.
    pub reserve_set: bool,
}

impl View for WindowAllocator {
    type V = WindowState;

    open spec fn view(&self) -> WindowState {
        WindowState {
            window_len: self.window_len,
            reserve: self.reserve,
            next_offset: self.next_offset,
            free: self.free_ranges@,
            started: self.started,
            reserve_set: self.reserve_set,
        }
    }
}

impl WindowAllocator {
    /// An allocator with nothing reserved, issued or freed.
    pub fn new(window_len: u64) -> (r: Self)
        ensures
            r@ == (WindowState {
                window_len,
                reserve: 0,
                next_offset: 0,
                free: Seq::<WindowRange>::empty(),
                started: false,
                reserve_set: false,
            }),
            r@.wf(),
    {
        WindowAllocator {
            window_len,
            reserve: 0,
            next_offset: 0,
            free_ranges: Vec::with_capacity(MAX_WINDOW_RANGES),
            started: false,
            reserve_set: false,
        }
    }

    /// Whether no offset was ever issued and nothing was freed.
    pub fn is_pristine(&self) -> (r: bool)
        ensures
            r == self@.pristine(),
    {
        !self.started && self.next_offset == self.reserve && self.free_ranges.len() == 0
    }

    /// Bytes below the bump mark that are not listed as free.
    pub fn used(&self) -> (r: u64)
        requires
            self@.wf(),
        ensures
            r == self@.next_offset - self@.free_bytes(),
            self@.reserve <= r,
    {
        proof {
            lemma_sum_bound(self@.free, self@.reserve as int, self@.next_offset as int);
        }
        let mut free: u64 = 0;
        let mut i: usize = 0;
        while i < self.free_ranges.len()
            invariant
                i <= self.free_ranges.len(),
                free == sum_of(self.free_ranges@.take(i as int)),
                sum_of(self.free_ranges@) <= u64::MAX,
            decreases self.free_ranges.len() - i,
        {
            proof {
                lemma_sum_take(self.free_ranges@, i + 1);
                assert(self.free_ranges@.take(i + 1).drop_last() =~= self.free_ranges@.take(
                    i as int,
                ));
            }
            free = free + self.free_ranges[i].len;
            i += 1;
        }
        proof {
            assert(self.free_ranges@.take(i as int) =~= self.free_ranges@);
        }
        self.next_offset.saturating_sub(free)
    }

    /// Hand out `len` bytes: the first free range that fits, else the bump mark.
    pub fn alloc_range(&mut self, len: u64, counters: &mut TableCounters) -> (r: Result<u64, VirtioError>)
        requires
            old(self)@.bounded(),
        ensures
            match old(self)@.after_alloc(len) {
                Some((offset, after)) => {
                    &&& r == Ok::<u64, VirtioError>(offset)
                    &&& final(self)@ == after
                    &&& *final(counters) == *old(counters)
                },
                None => {
                    &&& r == Err::<u64, VirtioError>(VirtioError::OutOfMemory)
                    &&& final(self)@ == old(self)@
                    &&& *final(counters) == (TableCounters {
                        window_alloc_rejects: old(counters).window_alloc_rejects.wrapping_add(1),
                        ..*old(counters)
                    })
                },
            },
            final(self)@.bounded(),
            old(self)@.wf() && len > 0 ==> final(self)@.wf(),
    {
        let ghost before = self@;
        let wide = |r: &WindowRange| -> (b: bool)
            ensures
                b == WindowState::fits(len)(*r),
            { r.len >= len };
        let found = position(&self.free_ranges, wide, Ghost(WindowState::fits(len)));
        if let Some(idx) = found {
            let range: WindowRange = self.free_ranges[idx];
            assert(range.end() <= u64::MAX);
            self.started = true;
            if range.len == len {
                let _ = self.free_ranges.swap_remove(idx);
                assert(self.free_ranges@ == swap_removed(before.free, idx as int));
            } else {
                self.free_ranges.set(
                    idx,
                    WindowRange { offset: range.offset + len, len: range.len - len },
                );
            }
            proof {
                if before.wf() && len > 0 {
                    law_alloc_keeps_wf(before, len);
                }
            }
            return Ok(range.offset);
        }
        let offset: u64 = self.next_offset;
        if let Some(end) = offset.checked_add(len) {
            if end <= self.window_len {
                self.next_offset = end;
                self.started = true;
                return Ok(offset);
            }
        }
        counters.window_alloc_rejects = counters.window_alloc_rejects.wrapping_add(1);
        Err(VirtioError::OutOfMemory)
    }

    /// Take a range back. What the free list cannot hold is lost and counted.
    pub fn free(&mut self, offset: u64, len: u64, counters: &mut TableCounters)
        requires
            old(self)@.bounded(),
            offset + len <= u64::MAX,
        ensures
            final(self)@ == old(self)@.after_free(offset, len),
            *final(counters) == if old(self)@.loses(offset, len) {
                (TableCounters {
                    window_range_drops: old(counters).window_range_drops.wrapping_add(1),
                    ..*old(counters)
                })
            } else {
                *old(counters)
            },
            final(self)@.bounded(),
            old(self)@.wf() && old(self)@.issued(offset, len) ==> final(self)@.wf(),
    {
        let ghost before = self@;
        proof {
            if before.wf() && before.issued(offset, len) {
                law_free_keeps_wf(before, offset, len);
            }
        }
        if len == 0 || offset < self.reserve {
            return ;
        }
        if offset + len == self.next_offset {
            self.next_offset = offset;
            let ghost target = self@.absorbed();
            loop
                invariant
                    self@.bounded(),
                    self@.absorbed() == target,
                ensures
                    self@ == target,
                    self@.bounded(),
                decreases self.free_ranges.len(),
            {
                let next: u64 = self.next_offset;
                let below = |r: &WindowRange| -> (b: bool)
                    ensures
                        b == WindowState::ends_at(next as int)(*r),
                    { r.offset.checked_add(r.len) == Some(next) };
                let found = position(
                    &self.free_ranges,
                    below,
                    Ghost(WindowState::ends_at(next as int)),
                );
                match found {
                    Some(idx) => {
                        let ghost pre = self@;
                        let range: WindowRange = self.free_ranges.swap_remove(idx);
                        self.next_offset = range.offset;
                        assert(self@ == (WindowState {
                            next_offset: pre.free[idx as int].offset,
                            free: swap_removed(pre.free, idx as int),
                            ..pre
                        }));
                    },
                    None => {
                        break ;
                    },
                }
            }
            return ;
        }
        let near = (|r: &WindowRange| -> (b: bool)
                ensures b == WindowState::touches(offset, len)(*r)
                {
                    r.offset.checked_add(r.len) == Some(offset) || offset.checked_add(len) == Some(
                        r.offset,
                    )
                });
        let found = position(&self.free_ranges, near, Ghost(WindowState::touches(offset, len)));
        match found {
            Some(idx) => {
                let range: WindowRange = self.free_ranges[idx];
                assert(range.end() <= u64::MAX);
                if range.offset + range.len == offset {
                    self.free_ranges.set(
                        idx,
                        WindowRange { offset: range.offset, len: range.len + len },
                    );
                } else {
                    self.free_ranges.set(idx, WindowRange { offset, len: range.len + len });
                }
            },
            None => {
                if self.free_ranges.len() < MAX_WINDOW_RANGES {
                    self.free_ranges.push(WindowRange { offset, len });
                } else {
                    counters.window_range_drops = counters.window_range_drops.wrapping_add(1);
                }
            },
        }
    }
}

proof fn lemma_sum_take(s: Seq<WindowRange>, n: int)
    requires
        0 <= n <= s.len(),
    ensures
        0 <= sum_of(s.take(n)) <= sum_of(s),
    decreases s.len(),
{
    if n == s.len() {
        assert(s.take(n) =~= s);
        lemma_sum_nonneg(s);
    } else {
        lemma_sum_take(s.drop_last(), n);
        assert(s.drop_last().take(n) =~= s.take(n));
    }
}

proof fn lemma_sum_nonneg(s: Seq<WindowRange>)
    ensures
        sum_of(s) >= 0,
    decreases s.len(),
{
    if s.len() > 0 {
        lemma_sum_nonneg(s.drop_last());
    }
}

proof fn lemma_sum_remove(s: Seq<WindowRange>, i: int)
    requires
        0 <= i < s.len(),
    ensures
        sum_of(s) == sum_of(s.remove(i)) + s[i].len,
    decreases s.len(),
{
    if i == s.len() - 1 {
        assert(s.remove(i) =~= s.drop_last());
    } else {
        lemma_sum_remove(s.drop_last(), i);
        assert(s.remove(i).drop_last() =~= s.drop_last().remove(i));
    }
}

proof fn lemma_topmost(s: Seq<WindowRange>) -> (m: int)
    requires
        s.len() > 0,
    ensures
        0 <= m < s.len(),
        forall|k: int| 0 <= k < s.len() ==> (#[trigger] s[k]).offset <= s[m].offset,
    decreases s.len(),
{
    if s.len() == 1 {
        0
    } else {
        let t = s.drop_last();
        let m = lemma_topmost(t);
        let top = if s.last().offset > s[m].offset {
            s.len() - 1
        } else {
            m
        };
        assert forall|k: int| 0 <= k < s.len() implies (#[trigger] s[k]).offset
            <= s[top].offset by {
            if k < s.len() - 1 {
                assert(t[k] == s[k]);
            }
        }
        top
    }
}

/// Disjoint non-empty ranges between `lo` and `hi` hold at most `hi - lo` bytes.
proof fn lemma_sum_bound(s: Seq<WindowRange>, lo: int, hi: int)
    requires
        lo <= hi,
        forall|i: int|
            0 <= i < s.len() ==> (#[trigger] s[i]).len > 0 && lo <= s[i].offset && s[i].end() <= hi,
        forall|i: int, j: int|
            0 <= i < j < s.len() ==> disjoint(#[trigger] s[i], #[trigger] s[j]),
    ensures
        0 <= sum_of(s) <= hi - lo,
    decreases s.len(),
{
    if s.len() > 0 {
        let m = lemma_topmost(s);
        lemma_sum_remove(s, m);
        let t = s.remove(m);
        assert forall|i: int| 0 <= i < t.len() implies (#[trigger] t[i]).len > 0 && lo
            <= t[i].offset && t[i].end() <= s[m].offset by {
            let src = if i < m {
                i
            } else {
                i + 1
            };
            assert(t[i] == s[src]);
            assert(disjoint(s[src], s[m]));
        }
        lemma_sum_bound(t, lo, s[m].offset as int);
    }
}

/// An allocation keeps the allocator consistent.
pub proof fn law_alloc_keeps_wf(s: WindowState, len: u64)
    requires
        s.wf(),
        len > 0,
    ensures
        s.after_alloc(len) matches Some(r) ==> r.1.wf(),
{
    lemma_first_index_exists(s.free, WindowState::fits(len));
}

proof fn lemma_absorb_keeps_wf(s: WindowState)
    requires
        s.reserve <= s.next_offset,
        s.next_offset <= s.window_len || s.next_offset == s.reserve,
        s.free.len() <= MAX_WINDOW_RANGES,
        !s.reserve_set ==> s.reserve == 0,
        forall|i: int|
            0 <= i < s.free.len() ==> {
                let r = #[trigger] s.free[i];
                r.len > 0 && s.reserve <= r.offset && r.end() <= s.next_offset
            },
        forall|i: int, j: int|
            0 <= i < j < s.free.len() ==> disjoint(#[trigger] s.free[i], #[trigger] s.free[j]),
    ensures
        s.absorbed().wf(),
    decreases s.free.len(),
{
    lemma_first_index_exists(s.free, WindowState::ends_at(s.next_offset as int));
    match first_index(s.free, WindowState::ends_at(s.next_offset as int)) {
        Some(i) => {
            let t = WindowState {
                next_offset: s.free[i].offset,
                free: swap_removed(s.free, i),
                ..s
            };
            assert forall|k: int| 0 <= k < t.free.len() implies {
                let r = #[trigger] t.free[k];
                r.len > 0 && t.reserve <= r.offset && r.end() <= t.next_offset
            } by {
                let src = if k == i {
                    s.free.len() - 1
                } else {
                    k
                };
                assert(t.free[k] == s.free[src]);
                assert(disjoint(s.free[src], s.free[i]));
            }
            lemma_absorb_keeps_wf(t);
        },
        None => {
            assert forall|k: int| 0 <= k < s.free.len() implies (#[trigger] s.free[k]).end()
                < s.next_offset by {
                assert(!WindowState::ends_at(s.next_offset as int)(s.free[k]));
            }
        },
    }
}

/// Taking back a range that was handed out keeps the allocator consistent.
pub proof fn law_free_keeps_wf(s: WindowState, offset: u64, len: u64)
    requires
        s.wf(),
        s.issued(offset, len),
    ensures
        s.after_free(offset, len).wf(),
{
    if len != 0 {
        assert(!s.available(offset as int));
        assert(!s.available(offset + len - 1));
        let mine = WindowRange { offset, len };
        assert forall|k: int| 0 <= k < s.free.len() implies disjoint(
            #[trigger] s.free[k],
            mine,
        ) by {
            let r = s.free[k];
            if !disjoint(r, mine) {
                let x = if r.offset >= offset {
                    r.offset as int
                } else {
                    offset as int
                };
                assert(r.holds(x));
                assert(s.available(x));
                assert(!s.available(x));
            }
        }
        if offset + len == s.next_offset {
            lemma_absorb_keeps_wf(WindowState { next_offset: offset, ..s });
        } else {
            lemma_first_index_exists(s.free, WindowState::touches(offset, len));
        }
    }
}

/// An allocation takes offsets that were available, outside the reserve and
/// inside the window, and makes exactly those unavailable: no two ranges that
/// are handed out at the same time share an offset.
pub proof fn law_alloc_takes_available(s: WindowState, len: u64, x: int)
    requires
        s.wf(),
        len > 0,
        s.after_alloc(len) is Some,
    ensures
        ({
            let (offset, t) = s.after_alloc(len)->0;
            &&& s.reserve <= offset
            &&& offset + len <= s.window_len
            &&& offset <= x < offset + len ==> s.available(x)
            &&& t.available(x) <==> s.available(x) && !(offset <= x < offset + len)
            &&& t.issued(offset, len)
        }),
{
    lemma_first_index_exists(s.free, WindowState::fits(len));
    let (offset, t) = s.after_alloc(len)->0;
    lemma_alloc_point(s, len, x);
    assert forall|y: int| offset <= y < offset + len implies !#[trigger] t.available(y) by {
        lemma_alloc_point(s, len, y);
    }
}

proof fn lemma_alloc_point(s: WindowState, len: u64, x: int)
    requires
        s.wf(),
        len > 0,
        s.after_alloc(len) is Some,
    ensures
        ({
            let (offset, t) = s.after_alloc(len)->0;
            &&& offset <= x < offset + len ==> s.available(x)
            &&& t.available(x) <==> s.available(x) && !(offset <= x < offset + len)
        }),
{
    lemma_first_index_exists(s.free, WindowState::fits(len));
    let (offset, t) = s.after_alloc(len)->0;
    match first_index(s.free, WindowState::fits(len)) {
        Some(i) => {
            let r = s.free[i];
            if offset <= x < offset + len {
                assert(s.free[i].holds(x));
            }
            if t.available(x) && x < t.next_offset {
                let k = choose|k: int| 0 <= k < t.free.len() && (#[trigger] t.free[k]).holds(x);
                let src = if r.len == len && k == i {
                    s.free.len() - 1
                } else {
                    k
                };
                assert(s.free[src].holds(x));
                if src != i {
                    assert(disjoint(s.free[src], s.free[i]));
                }
            }
            if s.available(x) && x < s.next_offset && !(offset <= x < offset + len) {
                let k = choose|k: int| 0 <= k < s.free.len() && (#[trigger] s.free[k]).holds(x);
                let dst = if r.len == len && k == s.free.len() - 1 {
                    i
                } else {
                    k
                };
                assert(t.free[dst].holds(x));
            }
        },
        None => {
            assert(t.free == s.free);
        },
    }
}

proof fn lemma_absorb_keeps_available(s: WindowState, x: int)
    requires
        s.bounded(),
    ensures
        s.absorbed().available(x) <==> s.available(x),
    decreases s.free.len(),
{
    lemma_first_index_exists(s.free, WindowState::ends_at(s.next_offset as int));
    if let Some(i) = first_index(s.free, WindowState::ends_at(s.next_offset as int)) {
        let t = WindowState { next_offset: s.free[i].offset, free: swap_removed(s.free, i), ..s };
        assert forall|k: int| 0 <= k < t.free.len() implies (#[trigger] t.free[k]).end()
            <= u64::MAX by {
            let src = if k == i {
                s.free.len() - 1
            } else {
                k
            };
            assert(t.free[k] == s.free[src]);
        }
        lemma_absorb_keeps_available(t, x);
        if s.available(x) && x < t.next_offset {
            let k = choose|k: int| 0 <= k < s.free.len() && (#[trigger] s.free[k]).holds(x);
            let dst = if k == s.free.len() - 1 {
                i
            } else {
                k
            };
            assert(t.free[dst].holds(x));
        }
        if t.available(x) && x < s.next_offset {
            if x < t.next_offset {
                let k = choose|k: int| 0 <= k < t.free.len() && (#[trigger] t.free[k]).holds(x);
                let src = if k == i {
                    s.free.len() - 1
                } else {
                    k
                };
                assert(s.free[src].holds(x));
            } else {
                assert(s.free[i].holds(x));
            }
        }
    }
}

/// A returned range makes exactly its own offsets available, unless it is
/// reserved or lost to a full free list, in which case nothing changes.
pub proof fn law_free_returns_exactly(s: WindowState, offset: u64, len: u64, x: int)
    requires
        s.bounded(),
        offset + len <= u64::MAX,
    ensures
        s.after_free(offset, len).available(x) <==> s.available(x) || (offset >= s.reserve
            && !s.loses(offset, len) && offset <= x < offset + len),
        offset < s.reserve || s.loses(offset, len) ==> s.after_free(offset, len) == s,
{
    let t = s.after_free(offset, len);
    if len != 0 && offset >= s.reserve {
        if offset + len == s.next_offset {
            let lowered = WindowState { next_offset: offset, ..s };
            assert forall|k: int| 0 <= k < lowered.free.len() implies (
            #[trigger] lowered.free[k]).end() <= u64::MAX by {
                assert(lowered.free[k] == s.free[k]);
            }
            lemma_absorb_keeps_available(lowered, x);
            if s.available(x) && x < s.next_offset {
                let k = choose|k: int| 0 <= k < s.free.len() && (#[trigger] s.free[k]).holds(x);
                assert(lowered.free[k].holds(x));
            }
            if lowered.available(x) && x < offset {
                let k = choose|k: int|
                    0 <= k < lowered.free.len() && (#[trigger] lowered.free[k]).holds(x);
                assert(s.free[k].holds(x));
            }
        } else {
            lemma_first_index_exists(s.free, WindowState::touches(offset, len));
            if s.available(x) && x < s.next_offset {
                let k = choose|k: int| 0 <= k < s.free.len() && (#[trigger] s.free[k]).holds(x);
                assert(t.free[k].holds(x));
            }
            if t.available(x) && x < t.next_offset {
                let k = choose|k: int| 0 <= k < t.free.len() && (#[trigger] t.free[k]).holds(x);
                if k < s.free.len() && s.free[k].holds(x) {
                    assert(s.available(x));
                }
            }
            if offset <= x < offset + len && !s.loses(offset, len) {
                match first_index(s.free, WindowState::touches(offset, len)) {
                    Some(i) => {
                        assert(t.free[i].holds(x));
                    },
                    None => {
                        assert(t.free[s.free.len() as int].holds(x));
                    },
                }
            }
        }
    }
}

proof fn lemma_absorb_keeps_reserve(s: WindowState)
    ensures
        s.absorbed().reserve == s.reserve,
        s.absorbed().window_len == s.window_len,
        s.absorbed().started == s.started,
        s.absorbed().reserve_set == s.reserve_set,
    decreases s.free.len(),
{
    lemma_first_index_exists(s.free, WindowState::ends_at(s.next_offset as int));
    if let Some(i) = first_index(s.free, WindowState::ends_at(s.next_offset as int)) {
        lemma_absorb_keeps_reserve(
            WindowState { next_offset: s.free[i].offset, free: swap_removed(s.free, i), ..s },
        );
    }
}

/// Taking a range back changes neither the reserve nor the window, and does not
/// open the reserve to change again.
pub proof fn law_free_keeps_reserve(s: WindowState, offset: u64, len: u64)
    ensures
        s.after_free(offset, len).reserve == s.reserve,
        s.after_free(offset, len).window_len == s.window_len,
        s.after_free(offset, len).started == s.started,
        s.after_free(offset, len).reserve_set == s.reserve_set,
{
    lemma_absorb_keeps_reserve(WindowState { next_offset: offset, ..s });
}

/// The reserve can be set once, and only while nothing was ever issued: after it
/// is set, or after an allocation, it never can be again.
pub proof fn law_reserve_is_settled(s: WindowState, len: u64, n: u64)
    ensures
        s.may_reserve() ==> !s.reserved(len).may_reserve() && s.reserved(len).reserve == len,
        s.after_alloc(n) matches Some(r) ==> !r.1.may_reserve(),
        s.started || s.reserve_set ==> !s.after_free(len, n).may_reserve(),
{
    law_free_keeps_reserve(s, len, n);
}

/// Returning a fresh allocation makes available exactly what was available
/// before it. The range is never lost, however full the free list is: it lowers
/// the mark, rejoins the range it was cut from, or finds the place of the range
/// it was.
pub proof fn law_free_undoes_alloc(s: WindowState, len: u64, x: int)
    requires
        s.wf(),
        len > 0,
        s.after_alloc(len) is Some,
    ensures
        ({
            let (offset, t) = s.after_alloc(len)->0;
            &&& !t.loses(offset, len)
            &&& t.after_free(offset, len).available(x) <==> s.available(x)
        }),
{
    let (offset, t) = s.after_alloc(len)->0;
    lemma_first_index_exists(s.free, WindowState::fits(len));
    lemma_first_index_exists(t.free, WindowState::touches(offset, len));
    if let Some(i) = first_index(s.free, WindowState::fits(len)) {
        if s.free[i].len != len {
            assert(WindowState::touches(offset, len)(t.free[i]));
        }
    }
    law_alloc_takes_available(s, len, x);
    law_alloc_keeps_wf(s, len);
    law_free_returns_exactly(t, offset, len, x);
}

/// Once every issued offset has come back, the mark stands at the reserve and
/// nothing is listed: no space is lost to fragments.
pub proof fn law_all_returned_is_whole(s: WindowState)
    requires
        s.wf(),
        forall|x: int| s.reserve <= x ==> s.available(x),
    ensures
        s.next_offset == s.reserve,
        s.free.len() == 0,
{
    if s.reserve < s.next_offset {
        assert(s.available(s.next_offset - 1));
        let k = choose|k: int|
            0 <= k < s.free.len() && (#[trigger] s.free[k]).holds(s.next_offset - 1);
        assert(s.free[k].end() < s.next_offset);
    }
    if s.free.len() > 0 {
        assert(s.free[0].len > 0);
    }
}

} // verus!
