//! TaskMap
//!
//! Maps a task handle to the task structure that holds all that is needed to suspend the
//! task and later resume it.  The task structures form an array mapped on demand, and the
//! handles freed out of order are kept on a stack for reuse.
use vstd::prelude::*;
use vstd::layout::size_of;
use crate::arch::x86_64::util::register_snapshot::RegisterSnapshot;
use crate::errors::{ErrCode, PagerError};
use crate::pager::Pager;
use crate::pager::on_demand_array::OnDemandArray;
use crate::pager::on_demand_stack::OnDemandStack;
use crate::types::{Address, PhysicalAddress, VirtualAddress};

verus! {

pub const TASK_MAP_BASE_ADDRESS: Address = 0xFFFF_FFF0_1000_0000;

/// 1M for now; can likely support more.
pub const TASK_MAP_MAX_TASKS: usize = 1_048_576;

pub type TaskHandle = u32;

/// The bytes of a task's kernel stack.
pub const KERNEL_STACK_SIZE: usize = 16384;

/// The bytes of a task's I/O permission bitmap.
pub const IO_BITMAP_SIZE: usize = 8193;

/// The byte a fresh kernel stack is filled with, so that its use can be told apart.
pub const KERNEL_STACK_FILL: u8 = 0xa5;

/// Everything needed to suspend a task and resume it.
pub struct Task {
    pub kernel_stack: [u8; KERNEL_STACK_SIZE],
    pub io_bitmap: [u8; IO_BITMAP_SIZE],
    pub cr3: PhysicalAddress,
    pub gs_base: VirtualAddress,
    pub registers: RegisterSnapshot,
}

impl Task {
    /// Prepares a task structure that has just been handed out: every byte of its kernel
    /// stack is set to `KERNEL_STACK_FILL`, and its I/O permission bitmap grants no port
    /// (every byte 0).  The other fields are left as they are.
    pub fn construct(&mut self)
        ensures
            forall|i: int| 0 <= i < KERNEL_STACK_SIZE ==> #[trigger] final(self).kernel_stack[i]
                == KERNEL_STACK_FILL,
            forall|i: int| 0 <= i < IO_BITMAP_SIZE ==> #[trigger] final(self).io_bitmap[i] == 0u8,
            final(self).cr3 == old(self).cr3,
            final(self).gs_base == old(self).gs_base,
            final(self).registers == old(self).registers,
    {
        let mut i: usize = 0;
        while i < KERNEL_STACK_SIZE
            invariant
                i <= KERNEL_STACK_SIZE,
                forall|j: int| 0 <= j < i ==> #[trigger] self.kernel_stack[j] == KERNEL_STACK_FILL,
                self.io_bitmap == old(self).io_bitmap,
                self.cr3 == old(self).cr3,
                self.gs_base == old(self).gs_base,
                self.registers == old(self).registers,
            decreases KERNEL_STACK_SIZE - i,
        {
            self.kernel_stack[i] = KERNEL_STACK_FILL;
            i = i + 1;
        }
        let mut k: usize = 0;
        while k < IO_BITMAP_SIZE
            invariant
                k <= IO_BITMAP_SIZE,
                forall|j: int| 0 <= j < KERNEL_STACK_SIZE ==> #[trigger] self.kernel_stack[j]
                    == KERNEL_STACK_FILL,
                forall|j: int| 0 <= j < k ==> #[trigger] self.io_bitmap[j] == 0u8,
                self.cr3 == old(self).cr3,
                self.gs_base == old(self).gs_base,
                self.registers == old(self).registers,
            decreases IO_BITMAP_SIZE - k,
        {
            self.io_bitmap[k] = 0;
            k = k + 1;
        }
    }
}

/// The task structures and free handles of the system.
pub struct TaskMap<'a, P: Pager + ?Sized> {
    tasks: OnDemandArray<'a, Task, P>,
    free_stack: OnDemandStack<'a, TaskHandle, P>,
    next_handle: TaskHandle,
}

/// Every task structure of an array of `max_handles` from `array_base`, and every slot of
/// a stack of `max_handles` handles from `free_stack_base`, lies in the address space.
pub open spec fn task_map_fits<P: Pager + ?Sized>(
    pager: &P,
    array_base: VirtualAddress,
    free_stack_base: VirtualAddress,
    max_handles: nat,
) -> bool {
    let page_size = pager.page_size() as nat;
    let task_pages = crate::pager::element_page_count(size_of::<Task>(), page_size);
    let handle_pages = crate::pager::element_page_count(size_of::<TaskHandle>(), page_size);
    &&& array_base.0 + size_of::<Task>() * max_handles + task_pages * page_size <= u64::MAX
    &&& size_of::<Task>() * max_handles <= usize::MAX
    &&& task_pages * page_size <= usize::MAX
    &&& task_pages <= usize::MAX
    &&& free_stack_base.0 + size_of::<TaskHandle>() * max_handles + handle_pages * page_size
        <= u64::MAX
    &&& size_of::<TaskHandle>() * max_handles <= usize::MAX
    &&& handle_pages * page_size <= usize::MAX
    &&& handle_pages <= usize::MAX
}

impl<'a, P: Pager + ?Sized> TaskMap<'a, P> {
    pub closed spec fn tasks(&self) -> OnDemandArray<'a, Task, P> {
        self.tasks
    }

    /// The handles freed out of order, the most recently freed last.
    pub closed spec fn free_handles(&self) -> Seq<TaskHandle> {
        self.free_stack.view()
    }

    /// The handle after the highest one handed out.
    pub closed spec fn next_handle_spec(&self) -> nat {
        self.next_handle as nat
    }

    pub closed spec fn wf(&self) -> bool {
        &&& self.free_stack.wf()
        &&& self.tasks.num_items_spec() == self.free_stack.max_items_spec()
        &&& self.tasks.num_items_spec() <= u32::MAX
        &&& self.next_handle <= self.tasks.num_items_spec()
        &&& forall|i: int|
            0 <= i < self.free_stack.view().len() ==> #[trigger] self.free_stack.view()[i]
                < self.tasks.num_items_spec()
        &&& self.tasks.pager_spec() == self.free_stack.pager_spec()
        &&& task_map_fits(
            self.tasks.pager_spec(),
            self.tasks.base_address_spec(),
            self.free_stack.base_address_spec(),
            self.tasks.num_items_spec(),
        )
    }

    /// The number of task structures.
    pub open spec fn capacity(&self) -> nat {
        self.tasks().num_items_spec()
    }

    /// The address of the task structure of `handle`.
    pub open spec fn task_address(&self, handle: int) -> int {
        self.tasks().element_address(handle)
    }

    proof fn lemma_fits(&self, i: int)
        requires
            self.wf(),
            0 <= i < self.capacity(),
        ensures
            self.tasks.element_fits(i),
            self.free_stack.slot_fits(i),
    {
        let n = self.tasks.num_items_spec();
        let st = size_of::<Task>();
        let sh = size_of::<TaskHandle>();
        assert(st * (i + 1) <= st * n) by (nonlinear_arith)
            requires
                0 <= i < n,
        ;
        assert(sh * (i + 1) <= sh * n) by (nonlinear_arith)
            requires
                0 <= i < n,
        ;
        assert(st * i + st == st * (i + 1)) by (nonlinear_arith);
        assert(sh * i + sh == sh * (i + 1)) by (nonlinear_arith);
        let ps = self.tasks.pager_spec().page_size() as nat;
        crate::pager::lemma_spanned_page_count_bound(self.tasks.element_address(i), st, ps);
        crate::pager::lemma_spanned_page_count_bound(self.free_stack.slot_address(i), sh, ps);
        let tp = self.tasks.pages_for(i);
        let tb = crate::pager::element_page_count(st, ps);
        let hp = self.free_stack.pages_for(i);
        let hb = crate::pager::element_page_count(sh, ps);
        assert(tp * ps <= tb * ps) by (nonlinear_arith)
            requires
                tp <= tb,
        ;
        assert(hp * ps <= hb * ps) by (nonlinear_arith)
            requires
                hp <= hb,
        ;
    }

    /// Creates a task map of `max_handles` task structures from `array_base`, with its
    /// stack of free handles from `free_stack_base`; nothing is mapped yet.
    pub fn new(
        pager: &'a P,
        array_base: VirtualAddress,
        free_stack_base: VirtualAddress,
        max_handles: usize,
    ) -> (r: Result<TaskMap<'a, P>, ErrCode>)
        requires
            max_handles <= u32::MAX,
            task_map_fits(pager, array_base, free_stack_base, max_handles as nat),
        ensures
            r matches Ok(m) && {
                &&& m.wf()
                &&& m.capacity() == max_handles
                &&& m.tasks().base_address_spec() == array_base
                &&& m.tasks().pager_spec() == pager
                &&& m.free_handles() == Seq::<TaskHandle>::empty()
                &&& m.next_handle_spec() == 0
            },
    {
        Ok(
            TaskMap {
                tasks: OnDemandArray::new(pager, array_base, max_handles),
                free_stack: OnDemandStack::new(pager, free_stack_base, max_handles),
                next_handle: 0,
            },
        )
    }

    /// The address of the task structure of `handle`, mapped if need be.
    pub fn get_task(&self, handle: TaskHandle) -> (r: Result<VirtualAddress, ErrCode>)
        requires
            self.wf(),
        ensures
            handle >= self.capacity() ==> r == Err::<VirtualAddress, ErrCode>(
                ErrCode::OutOfBounds,
            ),
            handle < self.capacity() ==> match r {
                Ok(addr) => addr.0 == self.task_address(handle as int),
                Err(e) => !(e matches ErrCode::Pager(PagerError::VirtualAddressAlreadyMapped(_))),
            },
    {
        proof {
            if (handle as int) < self.capacity() {
                self.lemma_fits(handle as int);
            }
        }
        self.tasks.get(handle as usize)
    }

    /// Hands out a task structure: that of the most recently freed handle if there is
    /// one, else that of the next handle never handed out.  Fails with `OutOfHandles` when
    /// every handle is taken or the next task structure cannot be mapped.
    pub fn new_task(&mut self) -> (r: Result<VirtualAddress, ErrCode>)
        requires
            old(self).wf(),
        ensures
            final(self).wf(),
            final(self).capacity() == old(self).capacity(),
            final(self).tasks() == old(self).tasks(),
            old(self).free_handles().len() > 0 ==> {
                let handle = old(self).free_handles().last();
                &&& final(self).free_handles() == old(self).free_handles().drop_last()
                &&& final(self).next_handle_spec() == old(self).next_handle_spec()
                &&& (r matches Ok(addr) ==> addr.0 == old(self).task_address(handle as int))
            },
            old(self).free_handles().len() == 0 ==> {
                &&& final(self).free_handles() == old(self).free_handles()
                &&& old(self).next_handle_spec() >= old(self).capacity() ==> r == Err::<
                    VirtualAddress,
                    ErrCode,
                >(ErrCode::OutOfHandles) && final(self).next_handle_spec()
                    == old(self).next_handle_spec()
                &&& r matches Ok(addr) ==> addr.0 == old(self).task_address(
                    old(self).next_handle_spec() as int,
                ) && final(self).next_handle_spec() == old(self).next_handle_spec() + 1
                &&& r is Err ==> r == Err::<VirtualAddress, ErrCode>(ErrCode::OutOfHandles)
                    && final(self).next_handle_spec() == old(self).next_handle_spec()
            },
    {
        if let Ok(handle) = self.free_stack.pop() {
            proof {
                assert(handle == old(self).free_handles().last());
                assert(old(self).free_handles()[old(self).free_handles().len() - 1] == handle);
                assert forall|i: int| 0 <= i < self.free_stack.view().len() implies #[trigger] self.free_stack.view()[i]
                    < self.tasks.num_items_spec() by {
                    assert(self.free_stack.view()[i] == old(self).free_handles()[i]);
                }
                self.lemma_fits(handle as int);
            }
            let task = self.tasks.get_mut(handle as usize)?;
            return Ok(task);
        } else {
            proof {
                if (self.next_handle as int) < self.capacity() {
                    self.lemma_fits(self.next_handle as int);
                }
            }
            if let Ok(task) = self.tasks.get_mut(self.next_handle as usize) {
                self.next_handle = self.next_handle + 1;
                return Ok(task);
            } else {
                return Err(ErrCode::OutOfHandles);
            }
        }
    }

    /// Frees `handle`: the highest handle handed out is taken back directly, any other is
    /// kept for reuse.  Handle 0 and handles never handed out are refused with
    /// `InvalidHandle`.
    pub fn free_task(&mut self, handle: TaskHandle) -> (r: Result<(), ErrCode>)
        requires
            old(self).wf(),
        ensures
            final(self).wf(),
            final(self).capacity() == old(self).capacity(),
            final(self).tasks() == old(self).tasks(),
            handle == 0 || handle >= old(self).next_handle_spec() ==> r == Err::<(), ErrCode>(
                ErrCode::InvalidHandle,
            ) && final(self).free_handles() == old(self).free_handles()
                && final(self).next_handle_spec() == old(self).next_handle_spec(),
            handle != 0 && handle + 1 == old(self).next_handle_spec() ==> r == Ok::<(), ErrCode>(())
                && final(self).free_handles() == old(self).free_handles()
                && final(self).next_handle_spec() == handle,
            handle != 0 && handle + 1 < old(self).next_handle_spec() ==> {
                &&& final(self).next_handle_spec() == old(self).next_handle_spec()
                &&& r is Ok ==> final(self).free_handles() == old(self).free_handles().push(
                    handle,
                )
                &&& r is Err ==> final(self).free_handles() == old(self).free_handles()
                &&& old(self).free_handles().len() >= old(self).capacity() ==> r == Err::<
                    (),
                    ErrCode,
                >(ErrCode::OutOfBounds)
            },
    {
        if handle == 0 || handle >= self.next_handle {
            return Err(ErrCode::InvalidHandle);
        }
        if handle == self.next_handle - 1 {
            self.next_handle = self.next_handle - 1;
        } else {
            proof {
                if (self.free_stack.view().len() as int) < self.capacity() {
                    self.lemma_fits(self.free_stack.view().len() as int);
                }
            }
            self.free_stack.push(handle)?;
            proof {
                assert forall|i: int| 0 <= i < self.free_stack.view().len() implies #[trigger] self.free_stack.view()[i]
                    < self.tasks.num_items_spec() by {
                    if i < old(self).free_handles().len() {
                        assert(self.free_stack.view()[i] == old(self).free_handles()[i]);
                    }
                }
            }
        }
        Ok(())
    }
}

/// A handle freed out of order is the next one handed out, and handing it out leaves
/// the free handles as they were before it was freed.
pub proof fn law_freed_handle_is_reused<'a, P: Pager + ?Sized>(
    before: TaskMap<'a, P>,
    freed: TaskMap<'a, P>,
    after: TaskMap<'a, P>,
    handle: TaskHandle,
)
    requires
        freed.free_handles() == before.free_handles().push(handle),
        after.free_handles() == freed.free_handles().drop_last(),
    ensures
        freed.free_handles().len() > 0,
        freed.free_handles().last() == handle,
        after.free_handles() == before.free_handles(),
{
    assert(before.free_handles().push(handle).drop_last() =~= before.free_handles());
}

} // verus!
