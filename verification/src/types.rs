//! Plain address and identifier types shared by the whole kernel library.
use vstd::prelude::*;

verus! {

/// A raw 64-bit address (physical or virtual, depending on context).
pub type Address = u64;

/// The identifier of a CPU core.
pub type CpuId = u32;

/// A physical memory address.
#[derive(Clone, Copy, Debug, PartialEq, Eq, Structural)]
pub struct PhysicalAddress(pub Address);

/// A virtual memory address.
#[derive(Clone, Copy, Debug, PartialEq, Eq, Structural)]
pub struct VirtualAddress(pub Address);

impl PhysicalAddress {
    /// The address `bytes` bytes above this one.
    pub fn offset(self, bytes: usize) -> (r: PhysicalAddress)
        requires
            self.0 + bytes <= u64::MAX,
        ensures
            r.0 == self.0 + bytes,
    {
        PhysicalAddress(self.0 + bytes as u64)
    }
}

impl VirtualAddress {
    /// The address `bytes` bytes above this one.
    pub fn offset(self, bytes: usize) -> (r: VirtualAddress)
        requires
            self.0 + bytes <= u64::MAX,
        ensures
            r.0 == self.0 + bytes,
    {
        VirtualAddress(self.0 + bytes as u64)
    }

    /// The address `bytes` bytes below this one.
    pub fn offset_down(self, bytes: usize) -> (r: VirtualAddress)
        requires
            self.0 >= bytes,
        ensures
            r.0 == self.0 - bytes,
    {
        VirtualAddress(self.0 - bytes as u64)
    }
}

} // verus!
