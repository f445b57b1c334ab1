use helios_virtio::hal::{DmaBuffer, DmaSpan, Mapping, MmioCache, MmioInsert, MAX_MMIO};
use helios_virtio::inflight::Chain;

fn buffer(len: usize) -> DmaBuffer {
    DmaBuffer::new(len, 0x10_0000).unwrap()
}

#[test]
fn allocations_are_whole_pages() {
    assert_eq!(DmaBuffer::pages_for(0), 0);
    assert_eq!(DmaBuffer::pages_for(1), 1);
    assert_eq!(DmaBuffer::pages_for(4096), 1);
    assert_eq!(DmaBuffer::pages_for(4097), 2);
    let b = buffer(4097);
    assert_eq!(b.capacity(), 8192);
    assert_eq!(b.physical_address(), 0x10_0000);
}

#[test]
fn no_bytes_or_no_memory_is_no_buffer() {
    assert!(DmaBuffer::new(0, 0x1000).is_none());
    assert!(DmaBuffer::new(64, 0).is_none());
    assert!(DmaBuffer::new(usize::MAX, 0x1000).is_none());
}

#[test]
fn a_buffer_is_reused_within_its_capacity() {
    let mut b = buffer(64);
    assert!(!b.reset(0));
    assert!(!b.reset(4097));
    assert_eq!(b.len, 64);
    assert!(b.reset(4096));
    assert_eq!(b.len, 4096);
}

#[test]
fn spans_stay_inside() {
    let b = buffer(64);
    assert_eq!(b.span(16, 48), Some(DmaSpan { pa: 0x10_0000, offset: 16, len: 48 }));
    assert_eq!(b.span(64, 0), Some(DmaSpan { pa: 0x10_0000, offset: 64, len: 0 }));
    assert_eq!(b.span(16, 49), None);
    assert_eq!(b.span(usize::MAX, 2), None);
}

#[test]
fn chains_lay_out_their_spans() {
    let meta = buffer(56);
    let spans = Chain::Meta1 { in0_len: 32 }.spans(&meta, &None, 24).unwrap();
    assert_eq!(spans.count, 1);
    assert_eq!(spans.first.offset, 0);
    assert_eq!(spans.first.len, 32);
    assert_eq!(spans.resp.offset, 32);
    assert_eq!(spans.resp.len, 24);
    assert!(Chain::Meta1 { in0_len: 33 }.spans(&meta, &None, 24).is_none());

    let spans = Chain::Meta2 { in0_len: 8, in1_len: 24 }.spans(&meta, &None, 24).unwrap();
    assert_eq!(spans.count, 2);
    assert_eq!(spans.second.offset, 8);
    assert_eq!(spans.second.len, 24);
    assert_eq!(spans.resp.offset, 32);

    let venus = Some(DmaBuffer::new(100, 0x20_0000).unwrap());
    let spans =
        Chain::MetaPlusVenus { hdr_len: 32, venus_len: 100 }.spans(&meta, &venus, 24).unwrap();
    assert_eq!(spans.count, 2);
    assert_eq!(spans.second.pa, 0x20_0000);
    assert_eq!(spans.second.len, 100);
    assert_eq!(spans.resp.offset, 32);
    assert!(Chain::MetaPlusVenus { hdr_len: 32, venus_len: 101 }.spans(&meta, &venus, 24).is_none());
    assert!(Chain::MetaPlusVenus { hdr_len: 32, venus_len: 100 }.spans(&meta, &None, 24).is_none());
}

#[test]
fn a_mapping_is_reused() {
    let mut c = MmioCache::new();
    assert_eq!(c.lookup(0xfe00_0000, 16), None);
    assert_eq!(c.try_mmio_map(0xfe00_0000, 4096, Some(0x7000)), MmioInsert::Keep(0x7000));
    assert_eq!(c.lookup(0xfe00_0000, 16), Some(0x7000));
    assert_eq!(c.lookup(0xfe00_0000, 4097), None);
    assert_eq!(c.lookup(0xfe00_1000, 16), None);
    // Somebody else mapped the region meanwhile.
    assert_eq!(c.try_mmio_map(0xfe00_0000, 16, Some(0x9000)), MmioInsert::Discard(0x7000));
    assert_eq!(c.unmap_all(), vec![Mapping { paddr: 0xfe00_0000, va: 0x7000, size: 4096 }]);
    assert_eq!(c.lookup(0xfe00_0000, 16), None);
}

#[test]
fn failures_and_overflows_are_counted() {
    let mut c = MmioCache::new();
    assert_eq!(c.try_mmio_map(0x1000, 16, None), MmioInsert::Failed);
    assert_eq!(c.map_fails, 1);
    for i in 0..MAX_MMIO {
        assert_eq!(c.try_mmio_map(0x1000 * (i as u64 + 1), 16, Some(i + 1)), MmioInsert::Keep(i + 1));
    }
    assert_eq!(c.full, 0);
    assert_eq!(c.try_mmio_map(0xff000, 16, Some(99)), MmioInsert::Keep(99));
    assert_eq!(c.full, 1);
    assert_eq!(c.lookup(0xff000, 16), None);
}
