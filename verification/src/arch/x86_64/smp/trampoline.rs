//! The real-mode code that takes an application processor to long mode, copied below
//! 1 MiB: where it lives, the start-up vector that names it, and the addresses that are
//! patched into it once it is moved there.
use vstd::prelude::*;
use crate::types::Address;

verus! {

/// The trampoline must lie in the first MiB, which real mode reaches.
pub const TRAMPOLINE_LIMIT: Address = 0x10_0000;

/// The trampoline starts on a page boundary: the start-up vector is its page number.
pub const TRAMPOLINE_ALIGNMENT: Address = 4096;

/// The bytes of a far jump's target: a 32-bit offset and a 16-bit selector.
pub const FAR_JUMP_TARGET_SIZE: u32 = 6;

/// The trampoline, copied to `address`.
pub struct Trampoline {
    address: Address,
}

impl Trampoline {
    pub closed spec fn address_spec(&self) -> Address {
        self.address
    }

    pub closed spec fn wf(&self) -> bool {
        self.address < TRAMPOLINE_LIMIT && self.address % TRAMPOLINE_ALIGNMENT == 0
    }

    /// The trampoline at `address`, a page of the first MiB.
    pub fn new(address: Address) -> (r: Self)
        requires
            address < TRAMPOLINE_LIMIT,
            address % TRAMPOLINE_ALIGNMENT == 0,
        ensures
            r.wf(),
            r.address_spec() == address,
    {
        Trampoline { address }
    }

    /// The start-up vector that makes a processor run the trampoline: its page number,
    /// which fits the vector's byte.
    pub fn get_vector(&self) -> (r: Address)
        requires
            self.wf(),
        ensures
            r == self.address_spec() / TRAMPOLINE_ALIGNMENT,
            r < 256,
    {
        self.address / 4096
    }

    /// The target of a far jump whose target field is `jump_offset` bytes into the
    /// trampoline: the instruction right after the field, where the trampoline now lies.
    pub fn relocated_jump(&self, jump_offset: u32) -> (r: u32)
        requires
            self.wf(),
            jump_offset + FAR_JUMP_TARGET_SIZE + TRAMPOLINE_LIMIT <= u32::MAX,
        ensures
            r == self.address_spec() + jump_offset + FAR_JUMP_TARGET_SIZE,
    {
        self.address as u32 + jump_offset + FAR_JUMP_TARGET_SIZE
    }

    /// The address, where the trampoline now lies, of its descriptor table, which starts
    /// `gdt_start_offset` bytes into it.
    pub fn relocated_gdt_start(&self, gdt_start_offset: u16) -> (r: u32)
        requires
            self.wf(),
        ensures
            r == self.address_spec() + gdt_start_offset,
    {
        gdt_start_offset as u32 + self.address as u32
    }

    /// Where the byte `offset` bytes into the trampoline now lies.
    pub fn to_target_vector(&self, offset: Address) -> (r: Address)
        requires
            self.wf(),
            offset < TRAMPOLINE_LIMIT,
        ensures
            r == self.address_spec() + offset,
    {
        self.address + offset
    }
}

} // verus!
