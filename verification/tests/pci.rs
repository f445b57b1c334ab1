use helios_virtio::config::DxgkConfigAccess;
use helios_virtio::pci_caps::{
    map_isr_status_register, scan_host_visible_window, HostVisibleWindow,
};

/// Configuration space with a capability list that starts at 0x40.
fn config() -> [u32; 64] {
    let mut d = [0u32; 64];
    d[1] = 0x0010_0000;
    d[13] = 0x40;
    d
}

fn cap(next: u32, cfg_type: u32) -> u32 {
    0x09 | (next << 8) | (cfg_type << 24)
}

/// A shared-memory capability at `at`.
fn shared(d: &mut [u32; 64], at: usize, next: u32, bar: u32, id: u32, off: u64, len: u64) {
    d[at / 4] = cap(next, 8);
    d[at / 4 + 1] = bar | (id << 8);
    d[at / 4 + 2] = off as u32;
    d[at / 4 + 3] = len as u32;
    d[at / 4 + 4] = (off >> 32) as u32;
    d[at / 4 + 5] = (len >> 32) as u32;
}

#[test]
fn a_register_is_the_dword_that_holds_it() {
    let mut d = [0u32; 64];
    d[1] = 0x1234_5678;
    let access = DxgkConfigAccess::new(d);
    assert_eq!(access.read_word(4), 0x1234_5678);
    assert_eq!(access.read_word(7), 0x1234_5678);
    assert_eq!(access.read_word(8), 0);
}

#[test]
fn window_in_a_wide_bar() {
    let mut d = config();
    d[8] = 0xe000_000c;
    d[9] = 0x3;
    shared(&mut d, 0x40, 0, 4, 1, 0x1_0000_1000, 0x2_0000_0000);
    assert_eq!(
        scan_host_visible_window(&DxgkConfigAccess::new(d)),
        Some(HostVisibleWindow { base: 0x4_e000_1000, len: 0x2_0000_0000 })
    );
}

#[test]
fn window_in_a_narrow_bar() {
    let mut d = config();
    d[4] = 0xf000_0000;
    d[5] = 0xffff_ffff;
    shared(&mut d, 0x40, 0, 0, 1, 0x2000, 0x10000);
    assert_eq!(
        scan_host_visible_window(&DxgkConfigAccess::new(d)),
        Some(HostVisibleWindow { base: 0xf000_2000, len: 0x10000 })
    );
}

#[test]
fn other_shared_regions_are_skipped() {
    let mut d = config();
    d[4] = 0xf000_0000;
    shared(&mut d, 0x40, 0x60, 0, 2, 0x2000, 0x10000);
    shared(&mut d, 0x60, 0, 0, 1, 0x4000, 0x8000);
    assert_eq!(
        scan_host_visible_window(&DxgkConfigAccess::new(d)),
        Some(HostVisibleWindow { base: 0xf000_4000, len: 0x8000 })
    );
}

#[test]
fn an_io_bar_or_an_unknown_bar_has_no_window() {
    let mut d = config();
    d[4] = 0xf001;
    shared(&mut d, 0x40, 0, 0, 1, 0, 0x1000);
    assert_eq!(scan_host_visible_window(&DxgkConfigAccess::new(d)), None);
    let mut d = config();
    shared(&mut d, 0x40, 0, 6, 1, 0, 0x1000);
    assert_eq!(scan_host_visible_window(&DxgkConfigAccess::new(d)), None);
}

#[test]
fn no_capability_list_announces_nothing() {
    let mut d = config();
    d[1] = 0;
    d[4] = 0xf000_0000;
    shared(&mut d, 0x40, 0, 0, 1, 0, 0x1000);
    assert_eq!(scan_host_visible_window(&DxgkConfigAccess::new(d)), None);
    assert_eq!(map_isr_status_register(&DxgkConfigAccess::new(d)), None);
}

#[test]
fn a_list_that_does_not_end_is_given_up() {
    let mut d = config();
    d[16] = cap(0x40, 1);
    assert_eq!(scan_host_visible_window(&DxgkConfigAccess::new(d)), None);
    assert_eq!(map_isr_status_register(&DxgkConfigAccess::new(d)), None);
}

#[test]
fn a_capability_that_leaves_configuration_space_is_refused() {
    let mut d = config();
    d[13] = 0xec;
    d[4] = 0xf000_0000;
    d[0xec / 4] = cap(0, 8);
    d[0xec / 4 + 1] = 1 << 8;
    assert_eq!(scan_host_visible_window(&DxgkConfigAccess::new(d)), None);
    d[0xec / 4] = cap(0, 3);
    assert_eq!(map_isr_status_register(&DxgkConfigAccess::new(d)), None);
}

#[test]
fn a_capability_may_end_with_configuration_space() {
    let mut d = config();
    d[13] = 0xe8;
    d[4] = 0xf000_0000;
    shared(&mut d, 0xe8, 0, 0, 1, 0x2000, 0x3_0000_0000);
    assert_eq!(
        scan_host_visible_window(&DxgkConfigAccess::new(d)),
        Some(HostVisibleWindow { base: 0xf000_2000, len: 0x3_0000_0000 })
    );
    d[0xe8 / 4] = cap(0, 3);
    assert_eq!(map_isr_status_register(&DxgkConfigAccess::new(d)), Some(0xf000_2000));
}

#[test]
fn isr_register_is_found_behind_other_capabilities() {
    let mut d = config();
    d[5] = 0xfe00_0000;
    d[16] = cap(0x50, 1);
    d[20] = cap(0, 3);
    d[21] = 1;
    d[22] = 0x1000;
    assert_eq!(map_isr_status_register(&DxgkConfigAccess::new(d)), Some(0xfe00_1000));
}
