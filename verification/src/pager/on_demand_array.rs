//! An array in virtual memory whose pages are mapped when an element is first reached.
use vstd::prelude::*;
use vstd::layout::size_of;
use core::marker::PhantomData;
use crate::errors::{ErrCode, PagerError};
use crate::types::VirtualAddress;
use super::{Pager, pages_spanned, spanned_page_count};

verus! {

/// An array of `num_items` elements of `T` from `base_address` on, mapped on demand by
/// `pager`.
pub struct OnDemandArray<'a, T, P: Pager + ?Sized> {
    pager: &'a P,
    base_address: VirtualAddress,
    num_items: usize,
    _phantom: PhantomData<T>,
}

impl<'a, T, P: Pager + ?Sized> OnDemandArray<'a, T, P> {
    pub closed spec fn pager_spec(&self) -> &'a P {
        self.pager
    }

    pub closed spec fn base_address_spec(&self) -> VirtualAddress {
        self.base_address
    }

    pub closed spec fn num_items_spec(&self) -> nat {
        self.num_items as nat
    }

    /// The address of element `i`.
    pub open spec fn element_address(&self, i: int) -> int {
        self.base_address_spec().0 + size_of::<T>() * i
    }

    /// The number of pages mapped to reach element `i`: those it touches.
    pub open spec fn pages_for(&self, i: int) -> nat {
        spanned_page_count(
            self.element_address(i),
            size_of::<T>(),
            self.pager_spec().page_size() as nat,
        )
    }

    /// Element `i`, and the pages mapped to reach it, lie in the address space.
    pub open spec fn element_fits(&self, i: int) -> bool {
        &&& self.element_address(i) + size_of::<T>() <= u64::MAX
        &&& self.element_address(i) + self.pages_for(i)
            * self.pager_spec().page_size() <= u64::MAX
        &&& self.pages_for(i) * self.pager_spec().page_size() <= usize::MAX
        &&& size_of::<T>() * (i + 1) <= usize::MAX
        &&& self.pages_for(i) <= usize::MAX
    }

    /// Creates the array; nothing is mapped yet.
    pub fn new(pager: &'a P, base_address: VirtualAddress, num_items: usize) -> (r: Self)
        ensures
            r.pager_spec() == pager,
            r.base_address_spec() == base_address,
            r.num_items_spec() == num_items,
    {
        OnDemandArray { pager, base_address, num_items, _phantom: PhantomData }
    }

    /// The address of element `i` and the number of pages to map for it.
    pub fn element_mapping(&self, i: usize) -> (r: (VirtualAddress, usize))
        requires
            self.element_fits(i as int),
        ensures
            r.0.0 == self.element_address(i as int),
            r.1 == self.pages_for(i as int),
    {
        proof {
            let sz = size_of::<T>();
            assert(sz * i <= sz * (i + 1)) by (nonlinear_arith);
            assert(size_of::<T>() * i <= self.element_address(i as int) - self.base_address.0);
        }
        let offset = core::mem::size_of::<T>() * i;
        let base = self.base_address.offset(offset);
        let num_pages = pages_spanned(self.pager, base, core::mem::size_of::<T>());
        (base, num_pages)
    }

    /// Maps element `i` if need be, and returns its address.  Fails with `OutOfBounds`
    /// past the last element, and with the pager's error when it cannot map the element.
    pub fn get_mut(&self, i: usize) -> (r: Result<VirtualAddress, ErrCode>)
        requires
            i < self.num_items_spec() ==> self.element_fits(i as int),
        ensures
            i >= self.num_items_spec() ==> r == Err::<VirtualAddress, ErrCode>(ErrCode::OutOfBounds),
            i < self.num_items_spec() ==> match r {
                Ok(addr) => addr.0 == self.element_address(i as int),
                Err(e) => !(e matches ErrCode::Pager(PagerError::VirtualAddressAlreadyMapped(_))),
            },
    {
        if i >= self.num_items {
            return Err(ErrCode::OutOfBounds);
        }
        let (base, num_pages) = self.element_mapping(i);
        mapped_element(base, self.pager.ensure_mapped_range(base, num_pages))
    }

    /// Same as `get_mut`.
    pub fn get(&self, i: usize) -> (r: Result<VirtualAddress, ErrCode>)
        requires
            i < self.num_items_spec() ==> self.element_fits(i as int),
        ensures
            i >= self.num_items_spec() ==> r == Err::<VirtualAddress, ErrCode>(ErrCode::OutOfBounds),
            i < self.num_items_spec() ==> match r {
                Ok(addr) => addr.0 == self.element_address(i as int),
                Err(e) => !(e matches ErrCode::Pager(PagerError::VirtualAddressAlreadyMapped(_))),
            },
    {
        match self.get_mut(i) {
            Ok(r) => Ok(r),
            Err(e) => Err(e),
        }
    }
}

/// The element at `addr` once the pager has answered `answer` to the request to map
/// it: its address when mapped, else the pager's error.
pub fn mapped_element(addr: VirtualAddress, answer: Result<(), ErrCode>) -> (r: Result<
    VirtualAddress,
    ErrCode,
>)
    ensures
        answer is Ok ==> r == Ok::<VirtualAddress, ErrCode>(addr),
        answer matches Err(e) ==> r == Err::<VirtualAddress, ErrCode>(e),
{
    match answer {
        Ok(_) => Ok(addr),
        Err(e) => Err(e),
    }
}

} // verus!
