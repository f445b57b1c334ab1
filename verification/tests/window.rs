use helios_virtio::counters::TableCounters;
use helios_virtio::error::VirtioError;
use helios_virtio::window::{round_up_page, WindowAllocator, WindowRange, MAX_WINDOW_RANGES};

#[test]
fn sizes_round_up_to_pages() {
    assert_eq!(round_up_page(0), 0);
    assert_eq!(round_up_page(1), 4096);
    assert_eq!(round_up_page(4096), 4096);
    assert_eq!(round_up_page(4097), 8192);
}

#[test]
fn the_bump_mark_moves_until_the_window_is_full() {
    let mut c = TableCounters::new();
    let mut w = WindowAllocator::new(0x3000);
    assert!(w.is_pristine());
    assert_eq!(w.alloc_range(0x1000, &mut c), Ok(0));
    assert_eq!(w.alloc_range(0x2000, &mut c), Ok(0x1000));
    assert_eq!(w.used(), 0x3000);
    assert!(!w.is_pristine());
    assert_eq!(w.alloc_range(1, &mut c), Err(VirtioError::OutOfMemory));
    assert_eq!(c.window_alloc_rejects, 1);
}

#[test]
fn a_request_that_leaves_the_address_space_is_refused() {
    let mut c = TableCounters::new();
    let mut w = WindowAllocator::new(u64::MAX);
    assert_eq!(w.alloc_range(0x1000, &mut c), Ok(0));
    assert_eq!(w.alloc_range(u64::MAX, &mut c), Err(VirtioError::OutOfMemory));
}

#[test]
fn the_first_range_that_fits_is_reused() {
    let mut c = TableCounters::new();
    let mut w = WindowAllocator::new(0x10000);
    for _ in 0..6 {
        assert!(w.alloc_range(0x1000, &mut c).is_ok());
    }
    w.free(0x1000, 0x1000, &mut c);
    w.free(0x3000, 0x1000, &mut c);
    assert_eq!(w.used(), 0x4000);
    // Both fit: the first is taken whole.
    assert_eq!(w.alloc_range(0x1000, &mut c), Ok(0x1000));
    assert_eq!(w.free_ranges, vec![WindowRange { offset: 0x3000, len: 0x1000 }]);
    // Only a part of the range is taken.
    assert_eq!(w.alloc_range(0x400, &mut c), Ok(0x3000));
    assert_eq!(w.free_ranges, vec![WindowRange { offset: 0x3400, len: 0xc00 }]);
    // Nothing fits: the mark moves.
    assert_eq!(w.alloc_range(0x1000, &mut c), Ok(0x6000));
}

#[test]
fn neighbours_merge_on_either_side() {
    let mut c = TableCounters::new();
    let mut w = WindowAllocator::new(0x10000);
    for _ in 0..6 {
        assert!(w.alloc_range(0x1000, &mut c).is_ok());
    }
    w.free(0x2000, 0x1000, &mut c);
    w.free(0x3000, 0x1000, &mut c);
    assert_eq!(w.free_ranges, vec![WindowRange { offset: 0x2000, len: 0x2000 }]);
    w.free(0x1000, 0x1000, &mut c);
    assert_eq!(w.free_ranges, vec![WindowRange { offset: 0x1000, len: 0x3000 }]);
}

#[test]
fn freeing_the_top_lowers_the_mark_through_free_neighbours() {
    let mut c = TableCounters::new();
    let mut w = WindowAllocator::new(0x10000);
    for _ in 0..4 {
        assert!(w.alloc_range(0x1000, &mut c).is_ok());
    }
    w.free(0, 0x1000, &mut c);
    w.free(0x2000, 0x1000, &mut c);
    w.free(0x3000, 0x1000, &mut c);
    assert_eq!(w.next_offset, 0x2000);
    assert_eq!(w.free_ranges, vec![WindowRange { offset: 0, len: 0x1000 }]);
    w.free(0x1000, 0x1000, &mut c);
    assert_eq!(w.next_offset, 0);
    assert_eq!(w.free_ranges, vec![]);
    // Offsets were issued once, and that is not forgotten.
    assert!(!w.is_pristine());
}

#[test]
fn freeing_undoes_an_allocation() {
    let mut c = TableCounters::new();
    let mut w = WindowAllocator::new(0x10000);
    assert_eq!(w.alloc_range(0x1000, &mut c), Ok(0));
    assert_eq!(w.alloc_range(0x3000, &mut c), Ok(0x1000));
    let used = w.used();
    assert_eq!(w.alloc_range(0x2000, &mut c), Ok(0x4000));
    w.free(0x4000, 0x2000, &mut c);
    assert_eq!(w.used(), used);
    assert_eq!(w.alloc_range(0x2000, &mut c), Ok(0x4000));
}

#[test]
fn reserved_and_empty_ranges_are_never_listed() {
    let mut c = TableCounters::new();
    let mut w = WindowAllocator::new(0x10000);
    w.reserve = 0x4000;
    w.next_offset = 0x4000;
    assert_eq!(w.alloc_range(0x1000, &mut c), Ok(0x4000));
    w.free(0x1000, 0x1000, &mut c);
    w.free(0x4000, 0, &mut c);
    assert!(w.free_ranges.is_empty());
    assert_eq!(w.next_offset, 0x5000);
}

#[test]
fn a_full_free_list_loses_and_counts() {
    let mut c = TableCounters::new();
    let mut w = WindowAllocator::new(u64::MAX);
    for _ in 0..(2 * MAX_WINDOW_RANGES as u64 + 4) {
        assert!(w.alloc_range(0x1000, &mut c).is_ok());
    }
    for i in 0..MAX_WINDOW_RANGES as u64 {
        w.free(2 * i * 0x1000, 0x1000, &mut c);
    }
    assert_eq!(w.free_ranges.len(), MAX_WINDOW_RANGES);
    assert_eq!(c.window_range_drops, 0);
    w.free(2 * MAX_WINDOW_RANGES as u64 * 0x1000, 0x1000, &mut c);
    assert_eq!(w.free_ranges.len(), MAX_WINDOW_RANGES);
    assert_eq!(c.window_range_drops, 1);
}

#[test]
fn a_full_free_list_takes_back_what_it_gave() {
    let mut c = TableCounters::new();
    let mut w = WindowAllocator::new(u64::MAX);
    for _ in 0..(2 * MAX_WINDOW_RANGES as u64) {
        assert!(w.alloc_range(0x2000, &mut c).is_ok());
    }
    for i in 0..MAX_WINDOW_RANGES as u64 {
        w.free(2 * i * 0x2000, 0x2000, &mut c);
    }
    assert_eq!(w.free_ranges.len(), MAX_WINDOW_RANGES);
    let used = w.used();
    // Part of a range, a whole one, and one from the mark.
    for len in [0x1000, 0x2000, 0x4000] {
        let offset = w.alloc_range(len, &mut c).unwrap();
        assert_eq!(w.used(), used + len);
        w.free(offset, len, &mut c);
        assert_eq!(w.used(), used);
    }
    assert_eq!(c.window_range_drops, 0);
}
