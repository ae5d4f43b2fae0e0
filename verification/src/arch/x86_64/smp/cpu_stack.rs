use vstd::prelude::*;
use crate::errors::ErrCode;
use crate::pager::Pager;
use crate::types::{CpuId, VirtualAddress};
use super::per_cpu_data::{self, region_base, region_fits, ALLOCATION_SIZE, STACK_SIZE};

verus! {

/// The kernel stack of one CPU.
pub struct CpuStack {
    pub base: VirtualAddress,
}

impl CpuStack {
    /// Maps the pages of the stack of CPU `id` (the pages from its lowest address up, as
    /// many whole pages as the stack holds) and gives the stack; the error of the pager
    /// when it cannot map them.
    pub fn new<P: Pager + ?Sized>(pager: &P, id: CpuId) -> (r: Result<CpuStack, ErrCode>)
        requires
            region_fits(id),
            pager.page_size() > 0,
        ensures
            r matches Ok(stack) ==> stack.base.0 == region_base(id) + ALLOCATION_SIZE,
    {
        let stack_top = per_cpu_data::get_stack_top(id);
        let num_pages = stack_page_count(pager.get_page_size());
        Self::from_mapping(id, pager.allocate_virtual(num_pages, stack_top))
    }

    /// The stack of CPU `id` once the pager has answered the request to map it: the stack
    /// when the pages are mapped, else the pager's error.
    pub fn from_mapping(id: CpuId, answer: Result<VirtualAddress, ErrCode>) -> (r: Result<
        CpuStack,
        ErrCode,
    >)
        requires
            region_fits(id),
        ensures
            answer is Ok ==> (r matches Ok(stack) && stack.base.0 == region_base(id)
                + ALLOCATION_SIZE),
            answer matches Err(e) ==> r == Err::<CpuStack, ErrCode>(e),
    {
        match answer {
            Ok(_) => Ok(Self::get(id)),
            Err(e) => Err(e),
        }
    }

    /// The stack of CPU `id`.
    pub fn get(id: CpuId) -> (r: CpuStack)
        requires
            region_fits(id),
        ensures
            r.base.0 == region_base(id) + ALLOCATION_SIZE,
    {
        CpuStack { base: per_cpu_data::get_stack_base(id) }
    }

    /// The top of the stack, its lowest address: the stack grows down from its base.
    pub fn get_top(&self) -> (r: VirtualAddress)
        requires
            self.base.0 >= STACK_SIZE,
        ensures
            r.0 == self.base.0 - STACK_SIZE,
    {
        self.base.offset_down(STACK_SIZE)
    }
}

/// The number of whole pages of `page_size` bytes that a CPU's stack holds.
pub fn stack_page_count(page_size: usize) -> (r: usize)
    requires
        page_size > 0,
    ensures
        r == STACK_SIZE / page_size,
{
    STACK_SIZE / page_size
}

} // verus!
