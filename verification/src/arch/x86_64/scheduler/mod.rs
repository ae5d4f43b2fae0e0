//! The tasks the x86_64 scheduler runs.
use vstd::prelude::*;
use crate::arch::x86_64::util::register_snapshot::{RegisterSnapshot, zeroed_registers};
use crate::errors::ErrCode;
use crate::page_based_list::{PageBasedList, node_size_of};
use crate::pager::Pager;
use crate::types::VirtualAddress;
use self::task::{Task, INITIAL_RFLAGS};

pub mod task;

verus! {

/// The state of the task that is running when the scheduler starts: the kernel, in its
/// own address space, whose registers are saved the first time it yields.
pub open spec fn kernel_task(kernel_cr3: u64) -> Task {
    Task {
        id: 0,
        registers: zeroed_registers(),
        rip: 0,
        rflags: INITIAL_RFLAGS,
        cr3: kernel_cr3,
        kernel_stack_pointer: VirtualAddress(0),
    }
}

/// The tasks to run, kept in a list whose nodes live in pages of `P`.
pub struct Scheduler<'a, P: Pager + ?Sized> {
    pub tasks: PageBasedList<'a, Task, P>,
}

impl<'a, P: Pager + ?Sized> Scheduler<'a, P> {
    pub open spec fn wf(&self) -> bool {
        self.tasks.wf()
    }

    /// A scheduler whose only task is the running kernel, whose page table is
    /// `kernel_cr3`; its node is the head of the task list.
    pub fn new(pager: &'a P, kernel_cr3: u64) -> (r: Result<Self, ErrCode>)
        requires
            node_size_of::<Task>() <= pager.page_size(),
        ensures
            r matches Ok(s) ==> {
                &&& s.wf()
                &&& s.tasks.pager_spec() == pager
                &&& s.tasks.items() == seq![kernel_task(kernel_cr3)]
            },
    {
        let tasks = PageBasedList::new(pager)?;
        let mut scheduler = Scheduler { tasks };
        scheduler.add_task(
            Task {
                id: 0,
                registers: RegisterSnapshot::default(),
                rip: 0,
                rflags: INITIAL_RFLAGS,
                cr3: kernel_cr3,
                kernel_stack_pointer: VirtualAddress(0),
            },
        )?;
        Ok(scheduler)
    }

    /// Adds `task` to the tasks to run, at the head of the list.
    pub fn add_task(&mut self, task: Task) -> (r: Result<(), ErrCode>)
        requires
            old(self).wf(),
            old(self).tasks.items().len() < usize::MAX,
        ensures
            final(self).wf(),
            final(self).tasks.pager_spec() == old(self).tasks.pager_spec(),
            r is Ok ==> final(self).tasks.items() == seq![task] + old(self).tasks.items(),
            r is Err ==> *final(self) == *old(self),
            old(self).tasks.free_nodes().len() > 0 ==> r is Ok,
    {
        self.tasks.add(task)
    }
}

} // verus!
