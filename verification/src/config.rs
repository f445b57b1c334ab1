//! PCI configuration space of the device, as 64 little-endian dwords.
use vstd::prelude::*;

verus! {

/// A snapshot of the device's 256-byte PCI configuration space.
#[derive(Clone, Copy)]
pub struct DxgkConfigAccess {
    dwords: [u32; 64],
}

impl View for DxgkConfigAccess {
    type V = Seq<u32>;

    closed spec fn view(&self) -> Seq<u32> {
        self.dwords@
    }
}

impl DxgkConfigAccess {
    /// Wrap the dwords read from the device's configuration space.
    pub fn new(dwords: [u32; 64]) -> (r: Self)
        ensures
            r@ == dwords@,
    {
        DxgkConfigAccess { dwords }
    }

    /// The dword that holds byte `register_offset`.
    pub fn read_word(&self, register_offset: u8) -> (r: u32)
        ensures
            r == self@[register_offset as int / 4],
    {
        let i: usize = register_offset as usize / 4;
        self.dwords[i]
    }
}

} // verus!
