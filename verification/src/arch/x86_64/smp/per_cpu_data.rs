//! Per-CPU Data
//!
//! Each CPU (the BSP and each AP) has a well known region of memory which holds its
//! state, its descriptor tables, its exception stacks and its kernel stack.  The extents
//! of the region are computed from the CPU's identifier.
//!
//! ```text
//!  PerCpuData
//! |-----------|   <----- Stack Base, expanding down
//! | Cpu Stack |
//! |-----------|   <----- Top of stack
//!    Unmapped     <----- Allows for page fault on stack overflow
//! |-----------|
//! |  CpuState |
//! |-----------|
//! ```
use vstd::prelude::*;
use crate::types::{Address, CpuId, VirtualAddress};
use crate::arch::x86_64::gdt::{ExceptionStackIndex, GDT_SIZE};

verus! {

/// The address of the first CPU's region.
pub const ALLOCATION_BASE: Address = 0xFFFF_FFF0_0000_0000;

/// The size of each CPU's region.
pub const ALLOCATION_SIZE: usize = 1024 * 1024;

/// The size of each CPU's kernel stack.
pub const STACK_SIZE: usize = ALLOCATION_SIZE - 20 * 4096;

pub const EXCEPTION_STACK_SIZE: usize = 16384;

/// The offset of the descriptor table within a CPU's region.
pub const GDT_OFFSET: usize = 0x1000;

/// The offset of the first exception stack within a CPU's region.
pub const EXCEPTION_STACKS_OFFSET: usize = 0x2000;

/// The address of the region of CPU `id`.
pub open spec fn region_base(id: CpuId) -> int {
    ALLOCATION_BASE + id * ALLOCATION_SIZE
}

/// Whether the region of CPU `id`, up to its end, lies in the address space.
pub open spec fn region_fits(id: CpuId) -> bool {
    region_base(id) + ALLOCATION_SIZE <= u64::MAX
}

/// Whether the region of CPU `id` lies in the address space: the regions of CPUs 0 to
/// 65534 do.
pub fn cpu_region_fits(id: CpuId) -> (r: bool)
    ensures
        r == region_fits(id),
{
    proof {
        assert(region_fits(id) <==> id < 65535) by (nonlinear_arith)
            requires
                region_base(id) == ALLOCATION_BASE + id * ALLOCATION_SIZE,
                ALLOCATION_BASE == 0xFFFF_FFF0_0000_0000u64,
                ALLOCATION_SIZE == 0x10_0000usize,
        ;
    }
    id < 65535
}

pub fn get_base(id: CpuId) -> (r: VirtualAddress)
    requires
        region_base(id) <= u64::MAX,
    ensures
        r.0 == region_base(id),
{
    VirtualAddress(ALLOCATION_BASE + (id as u64) * (ALLOCATION_SIZE as u64))
}

/// The stack starts at the top of the region and expands down.
pub fn get_stack_base(id: CpuId) -> (r: VirtualAddress)
    requires
        region_fits(id),
    ensures
        r.0 == region_base(id) + ALLOCATION_SIZE,
{
    get_base(id).offset(ALLOCATION_SIZE)
}

pub fn get_exception_stack_base(id: CpuId, which: ExceptionStackIndex) -> (r: VirtualAddress)
    requires
        region_fits(id),
    ensures
        r.0 == region_base(id) + EXCEPTION_STACKS_OFFSET + which.spec_index()
            * EXCEPTION_STACK_SIZE,
{
    get_base(id).offset(EXCEPTION_STACKS_OFFSET + which.index() * EXCEPTION_STACK_SIZE)
}

pub fn get_tss_base(id: CpuId) -> (r: VirtualAddress)
    requires
        region_fits(id),
    ensures
        r.0 == region_base(id) + GDT_OFFSET + GDT_SIZE,
{
    get_gdt_base(id).offset(GDT_SIZE)
}

pub fn get_gdt_base(id: CpuId) -> (r: VirtualAddress)
    requires
        region_fits(id),
    ensures
        r.0 == region_base(id) + GDT_OFFSET,
{
    get_base(id).offset(GDT_OFFSET)
}

pub fn get_stack_top(id: CpuId) -> (r: VirtualAddress)
    requires
        region_fits(id),
    ensures
        r.0 == region_base(id) + ALLOCATION_SIZE - STACK_SIZE,
{
    get_stack_base(id).offset_down(STACK_SIZE)
}

/// The CPU state is at the bottom of the region.
pub fn get_cpu_state_base(id: CpuId) -> (r: VirtualAddress)
    requires
        region_base(id) <= u64::MAX,
    ensures
        r.0 == region_base(id),
{
    get_base(id)
}

/// Each CPU's areas lie in its own region, in this order and without overlap: its state
/// at the bottom, its descriptor table and task state segment, its exception stacks
/// (one of each kind), then its kernel stack, which grows down from the region's end; the
/// regions of distinct CPUs do not overlap.
pub proof fn law_per_cpu_layout(a: CpuId, b: CpuId)
    requires
        a < b,
    ensures
        region_base(a) + ALLOCATION_SIZE <= region_base(b),
        region_base(a) < region_base(a) + GDT_OFFSET,
        region_base(a) + GDT_OFFSET + GDT_SIZE <= region_base(a) + EXCEPTION_STACKS_OFFSET,
        forall|which: ExceptionStackIndex|
            region_base(a) + EXCEPTION_STACKS_OFFSET + (#[trigger] which.spec_index() + 1)
                * EXCEPTION_STACK_SIZE <= region_base(a) + ALLOCATION_SIZE - STACK_SIZE,
        region_base(a) + ALLOCATION_SIZE - STACK_SIZE < region_base(a) + ALLOCATION_SIZE,
{
    assert(a * ALLOCATION_SIZE + ALLOCATION_SIZE <= b * ALLOCATION_SIZE) by (nonlinear_arith)
        requires
            a < b,
    ;
}

} // verus!
