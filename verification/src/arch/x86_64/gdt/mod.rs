//! Global descriptor table layout.
use vstd::prelude::*;
use x86_64::structures::gdt::Descriptor;

verus! {

/// The interrupt stacks of each CPU, in the order of the task state segment's table.
#[derive(Clone, Copy, Debug, PartialEq, Eq, Structural)]
pub enum ExceptionStackIndex {
    DoubleFaultStackIndex,
    NmiStackIndex,
    DebugStackIndex,
    MceStackIndex,
}

impl ExceptionStackIndex {
    /// The position of this stack in the interrupt stack table.
    pub open spec fn spec_index(self) -> nat {
        match self {
            ExceptionStackIndex::DoubleFaultStackIndex => 0,
            ExceptionStackIndex::NmiStackIndex => 1,
            ExceptionStackIndex::DebugStackIndex => 2,
            ExceptionStackIndex::MceStackIndex => 3,
        }
    }

    /// The position of this stack in the interrupt stack table.
    pub fn index(self) -> (r: usize)
        ensures
            r == self.spec_index(),
    {
        match self {
            ExceptionStackIndex::DoubleFaultStackIndex => 0,
            ExceptionStackIndex::NmiStackIndex => 1,
            ExceptionStackIndex::DebugStackIndex => 2,
            ExceptionStackIndex::MceStackIndex => 3,
        }
    }
}

pub const RING_0_CODE_SELECTOR: u16 = 0x08;
pub const RING_0_DATA_SELECTOR: u16 = 0x10;
pub const RING_3_CODE_SELECTOR: u16 = 0x18;
pub const RING_3_DATA_SELECTOR: u16 = 0x20;
pub const TSS_SELECTOR: u16 = 0x28;

/// null + (kernel + user)(code + data) + tss descriptors = 5 * 8 + 16
pub const GDT_SIZE: usize = 56;

/// The descriptor word of the 64-bit kernel code segment.
pub const KERNEL_CODE_DESCRIPTOR: u64 = 0x00af9b000000ffff;

/// The descriptor word of the kernel data segment.
pub const KERNEL_DATA_DESCRIPTOR: u64 = 0x00cf93000000ffff;

/// The descriptor word of the 64-bit ring 3 code segment.
pub const USER_CODE_DESCRIPTOR: u64 = 0x00affb000000ffff;

/// The descriptor word of the ring 3 data segment.
pub const USER_DATA_DESCRIPTOR: u64 = 0x00cff3000000ffff;

/// `Descriptor::kernel_code_segment` of `x86_64`: a code or data descriptor whose word
/// is the crate's 64-bit kernel code flags, 0x00af9b000000ffff.
#[verifier::external_body]
fn kernel_code_segment() -> (r: u64)
    ensures
        r == KERNEL_CODE_DESCRIPTOR,
{
    match Descriptor::kernel_code_segment() {
        Descriptor::UserSegment(word) => word,
        Descriptor::SystemSegment(low, _) => low,
    }
}

/// `Descriptor::kernel_data_segment` of `x86_64`: a code or data descriptor whose word
/// is the crate's kernel data flags, 0x00cf93000000ffff.
#[verifier::external_body]
fn kernel_data_segment() -> (r: u64)
    ensures
        r == KERNEL_DATA_DESCRIPTOR,
{
    match Descriptor::kernel_data_segment() {
        Descriptor::UserSegment(word) => word,
        Descriptor::SystemSegment(low, _) => low,
    }
}

/// `Descriptor::user_code_segment` of `x86_64`: a code or data descriptor whose word is
/// the crate's 64-bit ring 3 code flags, 0x00affb000000ffff.
#[verifier::external_body]
fn user_code_segment() -> (r: u64)
    ensures
        r == USER_CODE_DESCRIPTOR,
{
    match Descriptor::user_code_segment() {
        Descriptor::UserSegment(word) => word,
        Descriptor::SystemSegment(low, _) => low,
    }
}

/// `Descriptor::user_data_segment` of `x86_64`: a code or data descriptor whose word is
/// the crate's ring 3 data flags, 0x00cff3000000ffff.
#[verifier::external_body]
fn user_data_segment() -> (r: u64)
    ensures
        r == USER_DATA_DESCRIPTOR,
{
    match Descriptor::user_data_segment() {
        Descriptor::UserSegment(word) => word,
        Descriptor::SystemSegment(low, _) => low,
    }
}

/// The words of a CPU's global descriptor table, in selector order: the null descriptor,
/// the kernel code and data segments, the ring 3 code and data segments, and the two
/// words `tss` of the descriptor of the CPU's task state segment.  Each selector picks
/// the word at its index (the selector divided by 8), and the words fill `GDT_SIZE`
/// bytes.
pub fn gdt_words(tss: (u64, u64)) -> (r: Vec<u64>)
    ensures
        r@ == seq![
            0u64,
            KERNEL_CODE_DESCRIPTOR,
            KERNEL_DATA_DESCRIPTOR,
            USER_CODE_DESCRIPTOR,
            USER_DATA_DESCRIPTOR,
            tss.0,
            tss.1,
        ],
        r.len() * 8 == GDT_SIZE,
        r@[(RING_0_CODE_SELECTOR / 8) as int] == KERNEL_CODE_DESCRIPTOR,
        r@[(RING_0_DATA_SELECTOR / 8) as int] == KERNEL_DATA_DESCRIPTOR,
        r@[(RING_3_CODE_SELECTOR / 8) as int] == USER_CODE_DESCRIPTOR,
        r@[(RING_3_DATA_SELECTOR / 8) as int] == USER_DATA_DESCRIPTOR,
        r@[(TSS_SELECTOR / 8) as int] == tss.0,
        r@[(TSS_SELECTOR / 8) as int + 1] == tss.1,
{
    let mut words: Vec<u64> = Vec::new();
    words.push(0);
    words.push(kernel_code_segment());
    words.push(kernel_data_segment());
    words.push(user_code_segment());
    words.push(user_data_segment());
    words.push(tss.0);
    words.push(tss.1);
    words
}

} // verus!
