//! A stack in virtual memory whose pages are mapped as it grows.
use vstd::prelude::*;
use vstd::layout::size_of;
use crate::errors::{ErrCode, PagerError};
use crate::types::VirtualAddress;
use super::{Pager, pages_spanned, spanned_page_count};

verus! {

/// A stack of at most `max_items` elements of `T` from `base_address` up, whose pages are
/// mapped by `pager` as elements are pushed.
pub struct OnDemandStack<'a, T: Copy, P: Pager + ?Sized> {
    pager: &'a P,
    base_address: VirtualAddress,
    max_items: usize,
    num_items: usize,
    items: Vec<T>,
}

impl<'a, T: Copy, P: Pager + ?Sized> OnDemandStack<'a, T, P> {
    pub closed spec fn wf(&self) -> bool {
        self.num_items == self.items@.len()
    }

    /// The elements, in the order they were pushed.
    pub closed spec fn view(&self) -> Seq<T> {
        self.items@
    }

    pub closed spec fn pager_spec(&self) -> &'a P {
        self.pager
    }

    pub closed spec fn base_address_spec(&self) -> VirtualAddress {
        self.base_address
    }

    pub closed spec fn max_items_spec(&self) -> nat {
        self.max_items as nat
    }

    /// The address of slot `i`.
    pub open spec fn slot_address(&self, i: int) -> int {
        self.base_address_spec().0 + size_of::<T>() * i
    }

    /// The number of pages mapped to reach slot `i`: those it touches.
    pub open spec fn pages_for(&self, i: int) -> nat {
        spanned_page_count(self.slot_address(i), size_of::<T>(), self.pager_spec().page_size() as nat)
    }

    /// Slot `i`, and the pages mapped to reach it, lie in the address space.
    pub open spec fn slot_fits(&self, i: int) -> bool {
        &&& self.slot_address(i) + size_of::<T>() <= u64::MAX
        &&& self.slot_address(i) + self.pages_for(i) * self.pager_spec().page_size()
            <= u64::MAX
        &&& self.pages_for(i) * self.pager_spec().page_size() <= usize::MAX
        &&& size_of::<T>() * (i + 1) <= usize::MAX
        &&& self.pages_for(i) <= usize::MAX
    }

    /// Creates an empty stack; nothing is mapped yet.
    pub fn new(pager: &'a P, base_address: VirtualAddress, max_items: usize) -> (r: Self)
        ensures
            r.wf(),
            r.view() == Seq::<T>::empty(),
            r.pager_spec() == pager,
            r.base_address_spec() == base_address,
            r.max_items_spec() == max_items,
    {
        OnDemandStack { pager, base_address, max_items, num_items: 0, items: Vec::new() }
    }

    /// Pushes `item`, after mapping its slot.  Fails with `OutOfBounds` when full, and
    /// with the pager's error when the slot cannot be mapped; a failed push changes
    /// nothing.
    pub fn push(&mut self, item: T) -> (r: Result<(), ErrCode>)
        requires
            old(self).wf(),
            old(self).view().len() < old(self).max_items_spec() ==> old(self).slot_fits(
                old(self).view().len() as int,
            ),
        ensures
            final(self).wf(),
            final(self).pager_spec() == old(self).pager_spec(),
            final(self).base_address_spec() == old(self).base_address_spec(),
            final(self).max_items_spec() == old(self).max_items_spec(),
            old(self).view().len() >= old(self).max_items_spec() ==> r == Err::<(), ErrCode>(
                ErrCode::OutOfBounds,
            ),
            r is Ok ==> final(self).view() == old(self).view().push(item),
            r is Err ==> final(self).view() == old(self).view(),
            old(self).view().len() < old(self).max_items_spec() ==> !(r matches Err(
                ErrCode::Pager(PagerError::VirtualAddressAlreadyMapped(_)),
            )),
    {
        if self.num_items >= self.max_items {
            return Err(ErrCode::OutOfBounds);
        }
        let (addr, num_pages) = self.slot_mapping(self.num_items);
        let answer = self.pager.ensure_mapped_range(addr, num_pages);
        self.push_mapped(item, answer)
    }

    /// The address of slot `n` and the number of pages to map for it.
    pub fn slot_mapping(&self, n: usize) -> (r: (VirtualAddress, usize))
        requires
            self.slot_fits(n as int),
        ensures
            r.0.0 == self.slot_address(n as int),
            r.1 == self.pages_for(n as int),
    {
        proof {
            let sz = size_of::<T>();
            assert(sz * n <= sz * (n + 1)) by (nonlinear_arith);
            assert(size_of::<T>() * n <= self.slot_address(n as int) - self.base_address.0);
        }
        let offset = core::mem::size_of::<T>() * n;
        let addr = self.base_address.offset(offset);
        let num_pages = pages_spanned(self.pager, addr, core::mem::size_of::<T>());
        (addr, num_pages)
    }

    /// Pushes `item` once the pager has answered `answer` to the request to map its
    /// slot: pushed when the slot is mapped, else the pager's error and no change.
    pub fn push_mapped(&mut self, item: T, answer: Result<(), ErrCode>) -> (r: Result<(), ErrCode>)
        requires
            old(self).wf(),
            old(self).view().len() < old(self).max_items_spec(),
        ensures
            final(self).wf(),
            final(self).pager_spec() == old(self).pager_spec(),
            final(self).base_address_spec() == old(self).base_address_spec(),
            final(self).max_items_spec() == old(self).max_items_spec(),
            answer is Ok ==> r == Ok::<(), ErrCode>(()) && final(self).view() == old(
                self,
            ).view().push(item),
            answer matches Err(e) ==> r == Err::<(), ErrCode>(e) && final(self).view() == old(
                self,
            ).view(),
    {
        match answer {
            Ok(_) => {
                self.items.push(item);
                self.num_items = self.num_items + 1;
                Ok(())
            },
            Err(e) => Err(e),
        }
    }

    /// Pops the most recently pushed element; fails with `OutOfBounds` when empty.
    pub fn pop(&mut self) -> (r: Result<T, ErrCode>)
        requires
            old(self).wf(),
        ensures
            final(self).wf(),
            final(self).pager_spec() == old(self).pager_spec(),
            final(self).base_address_spec() == old(self).base_address_spec(),
            final(self).max_items_spec() == old(self).max_items_spec(),
            old(self).view().len() == 0 ==> r == Err::<T, ErrCode>(ErrCode::OutOfBounds)
                && final(self).view() == old(self).view(),
            old(self).view().len() > 0 ==> r == Ok::<T, ErrCode>(old(self).view().last())
                && final(self).view() == old(self).view().drop_last(),
    {
        if self.num_items == 0 {
            return Err(ErrCode::OutOfBounds);
        }
        self.num_items = self.num_items - 1;
        match self.items.pop() {
            Some(item) => Ok(item),
            None => Err(ErrCode::OutOfBounds),
        }
    }
}

/// A successful push followed by a pop gives back the item pushed and the stack as it was.
pub proof fn law_push_then_pop<'a, T: Copy, P: Pager + ?Sized>(
    before: OnDemandStack<'a, T, P>,
    pushed: OnDemandStack<'a, T, P>,
    popped: OnDemandStack<'a, T, P>,
    item: T,
    result: Result<T, ErrCode>,
)
    requires
        pushed.view() == before.view().push(item),
        pushed.view().len() > 0 ==> result == Ok::<T, ErrCode>(pushed.view().last())
            && popped.view() == pushed.view().drop_last(),
    ensures
        result == Ok::<T, ErrCode>(item),
        popped.view() == before.view(),
{
    assert(before.view().push(item).drop_last() =~= before.view());
}

/// After `items` have been pushed, one by one, onto a stack that held what `before` holds,
/// a pop gives back the last of them and leaves `before` followed by the others; so
/// `items.len()` pops give the items back in reverse order and leave the stack as it was.
pub proof fn law_pops_undo_pushes<'a, T: Copy, P: Pager + ?Sized>(
    before: OnDemandStack<'a, T, P>,
    items: Seq<T>,
    stack: OnDemandStack<'a, T, P>,
    popped: OnDemandStack<'a, T, P>,
    result: Result<T, ErrCode>,
)
    requires
        items.len() > 0,
        stack.view() == before.view() + items,
        stack.view().len() > 0 ==> result == Ok::<T, ErrCode>(stack.view().last())
            && popped.view() == stack.view().drop_last(),
    ensures
        result == Ok::<T, ErrCode>(items.last()),
        popped.view() == before.view() + items.drop_last(),
{
    assert((before.view() + items).drop_last() =~= before.view() + items.drop_last());
}

/// `n` successful pushes followed by `n` pops: when `pushes` goes from `before` by a push
/// of each of `items` in turn that returned `Ok`, and `pops` goes on from the last of
/// them by `n` pops that returned `results`, the pops give the items back last first
/// and leave the stack as it was.
pub proof fn law_n_pops_undo_n_pushes<'a, T: Copy, P: Pager + ?Sized>(
    items: Seq<T>,
    pushes: Seq<OnDemandStack<'a, T, P>>,
    pops: Seq<OnDemandStack<'a, T, P>>,
    results: Seq<Result<T, ErrCode>>,
)
    requires
        pushes.len() == items.len() + 1,
        pops.len() == items.len() + 1,
        results.len() == items.len(),
        pops[0] == pushes[items.len() as int],
        forall|j: int|
            0 <= j < items.len() ==> (#[trigger] pushes[j + 1]).view() == pushes[j].view().push(
                items[j],
            ),
        forall|j: int|
            0 <= j < items.len() ==> (#[trigger] pops[j]).view().len() > 0 ==> results[j]
                == Ok::<T, ErrCode>(pops[j].view().last()) && pops[j + 1].view() == pops[j].view().drop_last(),
    ensures
        forall|j: int|
            0 <= j < items.len() ==> #[trigger] results[j] == Ok::<T, ErrCode>(
                items[items.len() - 1 - j],
            ),
        pops[items.len() as int].view() == pushes[0].view(),
{
    let n = items.len() as int;
    lemma_after_pushes(items, pushes, n);
    assert forall|j: int| 0 <= j <= n implies #[trigger] pops[j].view() == pushes[0].view()
        + items.take(n - j) by {
        lemma_after_pops(items, pushes, pops, results, j);
    }
    assert forall|j: int| 0 <= j < n implies #[trigger] results[j] == Ok::<T, ErrCode>(
        items[n - 1 - j],
    ) by {
        assert(pops[j].view() == pushes[0].view() + items.take(n - j));
    }
    assert(pops[n].view() == pushes[0].view() + items.take(0));
    assert(pushes[0].view() + items.take(0) =~= pushes[0].view());
}

/// After the first `j` pushes, the stack holds what it held followed by the first `j`
/// items.
proof fn lemma_after_pushes<'a, T: Copy, P: Pager + ?Sized>(
    items: Seq<T>,
    pushes: Seq<OnDemandStack<'a, T, P>>,
    j: int,
)
    requires
        pushes.len() == items.len() + 1,
        0 <= j <= items.len(),
        forall|j: int|
            0 <= j < items.len() ==> (#[trigger] pushes[j + 1]).view() == pushes[j].view().push(
                items[j],
            ),
    ensures
        pushes[j].view() == pushes[0].view() + items.take(j),
    decreases j,
{
    if j == 0 {
        assert(pushes[0].view() + items.take(0) =~= pushes[0].view());
    } else {
        lemma_after_pushes(items, pushes, j - 1);
        assert(pushes[j].view() == pushes[j - 1].view().push(items[j - 1]));
        assert(pushes[0].view() + items.take(j) =~= (pushes[0].view() + items.take(j - 1)).push(
            items[j - 1],
        ));
    }
}

/// After the first `j` pops, the stack holds what it held before the pushes followed by
/// all but the last `j` items.
proof fn lemma_after_pops<'a, T: Copy, P: Pager + ?Sized>(
    items: Seq<T>,
    pushes: Seq<OnDemandStack<'a, T, P>>,
    pops: Seq<OnDemandStack<'a, T, P>>,
    results: Seq<Result<T, ErrCode>>,
    j: int,
)
    requires
        pushes.len() == items.len() + 1,
        pops.len() == items.len() + 1,
        results.len() == items.len(),
        0 <= j <= items.len(),
        pops[0] == pushes[items.len() as int],
        pushes[items.len() as int].view() == pushes[0].view() + items.take(items.len() as int),
        forall|j: int|
            0 <= j < items.len() ==> (#[trigger] pops[j]).view().len() > 0 ==> results[j]
                == Ok::<T, ErrCode>(pops[j].view().last()) && pops[j + 1].view() == pops[j].view().drop_last(),
    ensures
        pops[j].view() == pushes[0].view() + items.take(items.len() - j),
    decreases j,
{
    let n = items.len() as int;
    if j > 0 {
        lemma_after_pops(items, pushes, pops, results, j - 1);
        let v = pushes[0].view() + items.take(n - (j - 1));
        assert(pops[j - 1].view() == v);
        assert(v.len() > 0);
        assert(v.drop_last() =~= pushes[0].view() + items.take(n - j));
    }
}

} // verus!
