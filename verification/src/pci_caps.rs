//! PCI capability walking: the host-visible blob window and the ISR-status
//! register.
use crate::config::DxgkConfigAccess;
use vstd::prelude::*;

verus! {

/// Command (low half) and status (high half) registers.
pub const PCI_CFG_STATUS: u8 = 0x04;

/// Status bit: a capability list is present.
pub const PCI_STATUS_CAP_LIST: u32 = 0x10;

/// First capability offset (low byte).
pub const PCI_CFG_CAP_PTR: u8 = 0x34;

/// BAR 0; BAR `n` follows at `4 * n`.
pub const PCI_CFG_BAR0: u8 = 0x10;

/// Vendor-specific capability id.
pub const PCI_CAP_ID_VNDR: u32 = 0x09;

/// The virtio ISR-status capability type.
pub const VIRTIO_PCI_CAP_ISR_CFG: u32 = 3;

/// The virtio shared-memory capability type.
pub const VIRTIO_PCI_CAP_SHARED_MEMORY_CFG: u32 = 8;

/// Shared-memory id of the host-visible window.
pub const VIRTIO_GPU_SHM_ID_HOST_VISIBLE: u32 = 1;

/// Bytes of the largest capability structure that a walk reads.
pub const VIRTIO_PCI_CAP64_BYTES: u8 = 24;

/// Bytes of configuration space.
pub const CONFIG_BYTES: u16 = 256;

/// Steps after which a walk gives up on a list that does not end.
pub const CAP_WALK_LIMIT: u32 = 48;

/// Bytes of the ISR-status register that are mapped.
pub const ISR_MAP_BYTES: usize = 16;

/// The host-visible memory window.
#[derive(Clone, Copy, Debug, PartialEq, Eq, Structural)]
pub struct HostVisibleWindow {
    /// Guest-physical base.
    pub base: u64,
    /// Length in bytes.
    pub len: u64,
}

pub open spec fn word(cfg: Seq<u32>, off: int) -> u32 {
    cfg[off / 4]
}

pub open spec fn has_cap_list(cfg: Seq<u32>) -> bool {
    (word(cfg, 0x04) >> 16) & PCI_STATUS_CAP_LIST != 0
}

/// Capability pointers are dword-aligned; the low two bits are reserved.
pub open spec fn first_cap(cfg: Seq<u32>) -> u8 {
    (word(cfg, 0x34) & 0xff) as u8 & 0xfc
}

pub open spec fn next_cap(cfg: Seq<u32>, cap: u8) -> u8 {
    ((word(cfg, cap as int) >> 8) & 0xff) as u8 & 0xfc
}

/// The capability at `cap` is a virtio capability of type `cfg_type`.
pub open spec fn is_virtio_cap(cfg: Seq<u32>, cap: u8, cfg_type: u32) -> bool {
    &&& word(cfg, cap as int) & 0xff == PCI_CAP_ID_VNDR
    &&& (word(cfg, cap as int) >> 24) & 0xff == cfg_type
}

/// Two dwords as one 64-bit value.
pub open spec fn wide(lo: u32, hi: u32) -> u64 {
    lo as u64 | ((hi as u64) << 32)
}

/// The base that memory BAR `bar` was assigned; I/O BARs and unknown BARs have
/// none, and a 64-bit BAR takes its upper half from the next register.
pub open spec fn bar_base_of(cfg: Seq<u32>, bar: u16) -> Option<u64> {
    let reg = 0x10 + bar * 4;
    let lo = word(cfg, reg);
    if bar > 5 || lo & 1 != 0 {
        None
    } else if (lo >> 1) & 3 == 2 {
        Some(wide(lo & 0xffff_fff0, word(cfg, reg + 4)))
    } else {
        Some((lo & 0xffff_fff0) as u64)
    }
}

/// Every field of the structure at `cap` lies inside configuration space.
pub open spec fn cap_fits_at(cap: u8) -> bool {
    cap + VIRTIO_PCI_CAP64_BYTES <= CONFIG_BYTES
}

/// The window that the walk from `cap` finds within `steps` capabilities.
pub open spec fn window_from(cfg: Seq<u32>, cap: u8, steps: nat) -> Option<HostVisibleWindow>
    decreases steps,
{
    if steps == 0 || cap == 0 {
        None
    } else if is_virtio_cap(cfg, cap, VIRTIO_PCI_CAP_SHARED_MEMORY_CFG) {
        if !cap_fits_at(cap) {
            None
        } else if (word(cfg, cap + 4) >> 8) & 0xff == VIRTIO_GPU_SHM_ID_HOST_VISIBLE {
            match bar_base_of(cfg, (word(cfg, cap + 4) & 0xff) as u16) {
                Some(base) => Some(
                    HostVisibleWindow {
                        base: base.wrapping_add(wide(word(cfg, cap + 8), word(cfg, cap + 16))),
                        len: wide(word(cfg, cap + 12), word(cfg, cap + 20)),
                    },
                ),
                None => None,
            }
        } else {
            window_from(cfg, next_cap(cfg, cap), (steps - 1) as nat)
        }
    } else {
        window_from(cfg, next_cap(cfg, cap), (steps - 1) as nat)
    }
}

/// The host-visible window that configuration space announces.
pub open spec fn window_of(cfg: Seq<u32>) -> Option<HostVisibleWindow> {
    if has_cap_list(cfg) {
        window_from(cfg, first_cap(cfg), CAP_WALK_LIMIT as nat)
    } else {
        None
    }
}

/// The physical address of the ISR-status register found from `cap`.
pub open spec fn isr_from(cfg: Seq<u32>, cap: u8, steps: nat) -> Option<u64>
    decreases steps,
{
    if steps == 0 || cap == 0 {
        None
    } else if is_virtio_cap(cfg, cap, VIRTIO_PCI_CAP_ISR_CFG) {
        if !cap_fits_at(cap) {
            None
        } else {
            match bar_base_of(cfg, (word(cfg, cap + 4) & 0xff) as u16) {
                Some(base) => Some(base.wrapping_add(word(cfg, cap + 8) as u64)),
                None => None,
            }
        }
    } else {
        isr_from(cfg, next_cap(cfg, cap), (steps - 1) as nat)
    }
}

/// The physical address of the ISR-status register.
pub open spec fn isr_of(cfg: Seq<u32>) -> Option<u64> {
    if has_cap_list(cfg) {
        isr_from(cfg, first_cap(cfg), CAP_WALK_LIMIT as nat)
    } else {
        None
    }
}

fn cap_fits(cap: u8) -> (r: bool)
    ensures
        r == cap_fits_at(cap),
{
    cap as u16 + VIRTIO_PCI_CAP64_BYTES as u16 <= CONFIG_BYTES
}

fn bar_base(access: &DxgkConfigAccess, bar: u16) -> (r: Option<u64>)
    ensures
        r == bar_base_of(access@, bar),
{
    if bar > 5 {
        return None;
    }
    let reg: u8 = PCI_CFG_BAR0 + (bar as u8) * 4;
    let lo: u32 = access.read_word(reg);
    if lo & 0x1 != 0 {
        return None;
    }
    let base: u64 = (lo & 0xffff_fff0) as u64;
    if (lo >> 1) & 0x3 == 0x2 {
        Some(base | ((access.read_word(reg + 4) as u64) << 32))
    } else {
        Some(base)
    }
}

/// Walk the capability list for the host-visible shared-memory window.
pub fn scan_host_visible_window(access: &DxgkConfigAccess) -> (r: Option<HostVisibleWindow>)
    ensures
        r == window_of(access@),
{
    if (access.read_word(PCI_CFG_STATUS) >> 16) & PCI_STATUS_CAP_LIST == 0 {
        return None;
    }
    let mut cap: u8 = (access.read_word(PCI_CFG_CAP_PTR) & 0xff) as u8 & 0xfc;
    let mut left: u32 = CAP_WALK_LIMIT;
    while left > 0
        invariant
            window_of(access@) == window_from(access@, cap, left as nat),
        ensures
            window_of(access@) is None,
        decreases left,
    {
        if cap == 0 {
            break ;
        }
        let d0: u32 = access.read_word(cap);
        let cap_next: u8 = ((d0 >> 8) & 0xff) as u8 & 0xfc;
        if d0 & 0xff == PCI_CAP_ID_VNDR && (d0 >> 24) & 0xff == VIRTIO_PCI_CAP_SHARED_MEMORY_CFG {
            if !cap_fits(cap) {
                break ;
            }
            let d1: u32 = access.read_word(cap + 4);
            if (d1 >> 8) & 0xff == VIRTIO_GPU_SHM_ID_HOST_VISIBLE {
                let off: u64 = access.read_word(cap + 8) as u64 | ((access.read_word(cap + 16)
                    as u64) << 32);
                let len: u64 = access.read_word(cap + 12) as u64 | ((access.read_word(cap + 20)
                    as u64) << 32);
                return match bar_base(access, (d1 & 0xff) as u16) {
                    Some(base) => Some(HostVisibleWindow { base: base.wrapping_add(off), len }),
                    None => None,
                };
            }
        }
        cap = cap_next;
        left = left - 1;
    }
    None
}

/// Walk the capability list for the ISR-status register: the physical address to
/// map, or `None` if the device announces none.
pub fn map_isr_status_register(access: &DxgkConfigAccess) -> (r: Option<u64>)
    ensures
        r == isr_of(access@),
{
    if (access.read_word(PCI_CFG_STATUS) >> 16) & PCI_STATUS_CAP_LIST == 0 {
        return None;
    }
    let mut cap: u8 = (access.read_word(PCI_CFG_CAP_PTR) & 0xff) as u8 & 0xfc;
    let mut left: u32 = CAP_WALK_LIMIT;
    while left > 0
        invariant
            isr_of(access@) == isr_from(access@, cap, left as nat),
        ensures
            isr_of(access@) is None,
        decreases left,
    {
        if cap == 0 {
            break ;
        }
        let d0: u32 = access.read_word(cap);
        let cap_next: u8 = ((d0 >> 8) & 0xff) as u8 & 0xfc;
        if d0 & 0xff == PCI_CAP_ID_VNDR && (d0 >> 24) & 0xff == VIRTIO_PCI_CAP_ISR_CFG {
            if !cap_fits(cap) {
                break ;
            }
            let bar: u16 = (access.read_word(cap + 4) & 0xff) as u16;
            let offset: u64 = access.read_word(cap + 8) as u64;
            return match bar_base(access, bar) {
                Some(base) => Some(base.wrapping_add(offset)),
                None => None,
            };
        }
        cap = cap_next;
        left = left - 1;
    }
    None
}

/// A device without a capability list announces neither the window nor the
/// ISR-status register.
pub proof fn law_no_cap_list_no_caps(cfg: Seq<u32>)
    requires
        !has_cap_list(cfg),
    ensures
        window_of(cfg) is None,
        isr_of(cfg) is None,
{
}

} // verus!
