//! The state the scheduler keeps of each task.
use vstd::prelude::*;
use crate::arch::x86_64::util::register_snapshot::{RegisterSnapshot, zeroed_registers};
use crate::types::{Address, VirtualAddress};

verus! {

/// The flags a task starts with: interrupts enabled.
pub const INITIAL_RFLAGS: u64 = 0x202;

/// A task's saved state.
#[derive(Clone, Copy, Debug, PartialEq, Eq, Structural)]
pub struct Task {
    pub registers: RegisterSnapshot,
    pub rip: u64,
    pub rflags: u64,
    /// The physical address of the task's top-level page table, with its flags.
    pub cr3: u64,
    pub kernel_stack_pointer: VirtualAddress,
    pub id: u64,
}

impl Task {
    /// A kernel task that starts at `entry` on the stack of `stack_size` bytes at `stack`,
    /// in the kernel's address space, whose page table is `kernel_cr3`.
    pub fn new_kernel_task(entry: Address, stack: VirtualAddress, stack_size: usize, kernel_cr3: u64) -> (r: Self)
        requires
            stack.0 + stack_size <= u64::MAX,
        ensures
            r.id == 0,
            r.registers == zeroed_registers(),
            r.rip == entry,
            r.rflags == INITIAL_RFLAGS,
            r.cr3 == kernel_cr3,
            r.kernel_stack_pointer.0 == stack.0 + stack_size,
    {
        Task {
            id: 0,
            registers: RegisterSnapshot::default(),
            rip: entry,
            rflags: INITIAL_RFLAGS,
            cr3: kernel_cr3,
            kernel_stack_pointer: stack.offset(stack_size),
        }
    }
}

} // verus!
