//! A stack of the available pages of one size, which borrows a page of a larger size
//! when it runs out and cuts it into pages of its own size.
//!
//! The allocated pages are kept on a second stack.  Both stacks live in one memory block
//! of `page_count` entries, the available stack growing up from its start and the
//! allocated stack growing down from its end: a page is on one of them at a time, so
//! together they never hold more than `page_count` pages.
use vstd::prelude::*;
use vstd::layout::size_of;
use crate::stack::{Stack, SimpleStack, EXPAND_UP, EXPAND_DOWN};
use crate::types::Address;

verus! {

broadcast use vstd::layout::layout_of_primitives;

/// A source of pages of a larger size.
pub trait PageBorrower {
    /// A page, as its address and its size, or none.
    fn borrow_page(&self) -> Option<(Address, usize)>;

    /// The page that holds `address`, as its address and its size, or none.
    fn borrow_specific(&self, address: Address) -> Option<(Address, usize)>;
}

/// Maps the memory that holds the stacks.
pub trait PageMapper {
    /// Makes sure the memory from `base` to `end` is mapped: `Ok(true)` when it had to be
    /// mapped, `Ok(false)` when it was already, `Err` when it cannot be.
    fn ensure_mapped(&self, base: Address, end: Address) -> Result<bool, ()>;
}

/// The pages of `page_size` bytes that a borrowed block of `count` pages at `base` is
/// cut into, in ascending order.
pub open spec fn cut_pages(base: int, count: nat, page_size: int) -> Seq<Address> {
    Seq::new(count, |i: int| (base + i * page_size) as Address)
}

/// The pages that a borrowed block of `count` pages at `base` is cut into, but for
/// `skipped`, in ascending order.
pub open spec fn cut_pages_except(base: int, count: nat, page_size: int, skipped: Address) -> Seq<
    Address,
> {
    cut_pages(base, count, page_size).filter(other_than(skipped))
}

/// Whether a page is other than `skipped`.
pub open spec fn other_than(skipped: Address) -> spec_fn(Address) -> bool {
    |p: Address| p != skipped
}

/// The allocated and the available pages.
pub struct Stacks {
    pub allocated_pages: Stack<Address, EXPAND_DOWN>,
    pub available_pages: Stack<Address, EXPAND_UP>,
}

impl Stacks {
    pub open spec fn wf(&self) -> bool {
        &&& self.allocated_pages.wf()
        &&& self.available_pages.wf()
        &&& self.allocated_pages.capacity_spec() == self.available_pages.capacity_spec()
        &&& self.allocated_pages.view().len() + self.available_pages.view().len()
            <= self.available_pages.capacity_spec()
    }

    /// Two empty stacks of `page_count` entries sharing the block at `stack_base`: the
    /// available stack grows up from its start, the allocated stack down from its end.
    fn new(stack_base: Address, page_count: usize) -> (r: Self)
        requires
            page_count * size_of::<Address>() <= isize::MAX,
            stack_base + page_count * size_of::<Address>() <= u64::MAX,
        ensures
            r.wf(),
            r.allocated_pages.view() == Seq::<Address>::empty(),
            r.available_pages.view() == Seq::<Address>::empty(),
            r.available_pages.capacity_spec() == page_count,
            r.available_pages.base_address_spec() == stack_base,
            r.allocated_pages.base_address_spec() == stack_base,
    {
        Stacks {
            allocated_pages: Stack::<Address, EXPAND_DOWN>::new(stack_base, vec![0; page_count]),
            available_pages: Stack::<Address, EXPAND_UP>::new(stack_base, vec![0; page_count]),
        }
    }
}

/// The pages of `PAGE_SIZE` bytes, borrowed from `borrower` when there are none left.
pub struct PageStack<'a, MAPPER: PageMapper, const PAGE_SIZE: usize> {
    pub stacks: Stacks,
    borrower: Option<&'a dyn PageBorrower>,
    mapper: MAPPER,
}

impl<'a, MAPPER: PageMapper, const PAGE_SIZE: usize> PageStack<'a, MAPPER, PAGE_SIZE> {
    pub closed spec fn wf(&self) -> bool {
        self.stacks.wf()
    }

    /// The available pages, the next one to be allocated last.
    pub closed spec fn available(&self) -> Seq<Address> {
        self.stacks.available_pages.view()
    }

    /// The allocated pages, in the order they were allocated.
    pub closed spec fn allocated(&self) -> Seq<Address> {
        self.stacks.allocated_pages.view()
    }

    pub closed spec fn capacity(&self) -> nat {
        self.stacks.available_pages.capacity_spec()
    }

    /// The start of the block both stacks live in.
    pub closed spec fn stack_base(&self) -> Address {
        self.stacks.available_pages.base_address_spec()
    }

    /// The start of the block of the allocated stack, which grows down from the block's
    /// end.
    pub closed spec fn allocated_block(&self) -> Address {
        self.stacks.allocated_pages.base_address_spec()
    }

    /// Whether a borrowed block of `page_size` bytes at `page_addr` can be taken: its
    /// pages fit the room left in the stacks and lie in the address space.
    pub open spec fn block_fits(&self, page_addr: Address, page_size: usize) -> bool {
        &&& self.allocated().len() + self.available().len() + (page_size / PAGE_SIZE)
            <= self.capacity()
        &&& page_addr + ((page_size / PAGE_SIZE)) * PAGE_SIZE <= u64::MAX
    }

    pub closed spec fn has_borrower(&self) -> bool {
        self.borrower is Some
    }

    /// A page stack of room for `page_count` pages whose stacks live at `stack_base`,
    /// with nothing to borrow from.
    pub fn new(mapper: MAPPER, stack_base: Address, page_count: usize) -> (r: Self)
        requires
            page_count * size_of::<Address>() <= isize::MAX,
            stack_base + page_count * size_of::<Address>() <= u64::MAX,
        ensures
            r.wf(),
            r.stack_base() == stack_base,
            r.allocated_block() == stack_base,
            r.available() == Seq::<Address>::empty(),
            r.allocated() == Seq::<Address>::empty(),
            r.capacity() == page_count,
            !r.has_borrower(),
    {
        PageStack { stacks: Stacks::new(stack_base, page_count), borrower: None, mapper }
    }

    /// Borrows from `borrower` from now on.
    pub fn set_borrow_source(&mut self, borrower: &'a dyn PageBorrower)
        ensures
            final(self).wf() == old(self).wf(),
            final(self).available() == old(self).available(),
            final(self).allocated() == old(self).allocated(),
            final(self).capacity() == old(self).capacity(),
            final(self).has_borrower(),
    {
        self.borrower = Some(borrower);
    }

    /// Pushes the `count` pages of `PAGE_SIZE` bytes from `base` up on the available
    /// stack.
    fn push_cut_pages(&mut self, base: Address, count: usize)
        requires
            old(self).wf(),
            PAGE_SIZE > 0,
            old(self).allocated().len() + old(self).available().len() + count
                <= old(self).capacity(),
            base + count * PAGE_SIZE <= u64::MAX,
        ensures
            final(self).wf(),
            final(self).has_borrower() == old(self).has_borrower(),
            final(self).capacity() == old(self).capacity(),
            final(self).allocated() == old(self).allocated(),
            final(self).stack_base() == old(self).stack_base(),
            final(self).available() == old(self).available() + cut_pages(
                base as int,
                count as nat,
                PAGE_SIZE as int,
            ),
    {
        let mut i: usize = 0;
        while i < count
            invariant
                self.wf(),
                PAGE_SIZE > 0,
                i <= count,
                self.has_borrower() == old(self).has_borrower(),
                self.capacity() == old(self).capacity(),
                self.allocated() == old(self).allocated(),
                self.stack_base() == old(self).stack_base(),
                self.available() == old(self).available() + cut_pages(
                    base as int,
                    i as nat,
                    PAGE_SIZE as int,
                ),
                old(self).allocated().len() + old(self).available().len() + count
                    <= old(self).capacity(),
                base + count * PAGE_SIZE <= u64::MAX,
            decreases count - i,
        {
            assert(i * PAGE_SIZE <= count * PAGE_SIZE) by (nonlinear_arith)
                requires
                    i <= count,
            ;
            let page = base + (i as u64) * (PAGE_SIZE as u64);
            self.stacks.available_pages.push(page);
            i = i + 1;
            assert(cut_pages(base as int, i as nat, PAGE_SIZE as int) =~= cut_pages(
                base as int,
                (i - 1) as nat,
                PAGE_SIZE as int,
            ).push(page));
        }
    }

    /// The stack memory to map before the pages of a borrowed block of `page_size` bytes
    /// at `page_addr` are pushed: from the top of the available stack to the end of the
    /// entries the pages take.  None when the block does not fit.
    pub fn borrowed_block_range(&self, page_addr: Address, page_size: usize) -> (r: Option<
        (Address, Address),
    >)
        requires
            self.wf(),
            PAGE_SIZE > 0,
        ensures
            self.block_fits(page_addr, page_size) ==> r == Some(
                (
                    (self.stack_base() + self.available().len() * size_of::<Address>()) as Address,
                    (self.stack_base() + (self.available().len() + (page_size / PAGE_SIZE))
                        * size_of::<Address>()) as Address,
                ),
            ),
            !self.block_fits(page_addr, page_size) ==> r is None,
    {
        let num_pages = page_size / PAGE_SIZE;
        let capacity = self.stacks.available_pages.capacity();
        let limit = self.stacks.available_pages.limit();
        let used = self.stacks.allocated_pages.len() + self.stacks.available_pages.len();
        if num_pages > capacity - used || (num_pages as u64) > (u64::MAX - page_addr) / (
        PAGE_SIZE as u64) {
            proof {
                if num_pages > (u64::MAX - page_addr) / (PAGE_SIZE as int) {
                    assert(num_pages * PAGE_SIZE > u64::MAX - page_addr) by (nonlinear_arith)
                        requires
                            num_pages > (u64::MAX - page_addr) / (PAGE_SIZE as int),
                            PAGE_SIZE > 0,
                    ;
                }
            }
            return None;
        }
        proof {
            assert(num_pages * PAGE_SIZE <= u64::MAX - page_addr) by (nonlinear_arith)
                requires
                    num_pages <= (u64::MAX - page_addr) / (PAGE_SIZE as int),
                    PAGE_SIZE > 0,
            ;
            let l = self.available().len();
            assert((l + num_pages) * size_of::<Address>() <= self.capacity() * size_of::<
                Address,
            >()) by (nonlinear_arith)
                requires
                    l + num_pages <= self.capacity(),
            ;
            assert((l + num_pages) * size_of::<Address>() == l * size_of::<Address>() + num_pages
                * size_of::<Address>()) by (nonlinear_arith);
        }
        let top_of_stack = self.stacks.available_pages.top();
        let new_top = top_of_stack + (num_pages as u64) * (core::mem::size_of::<Address>() as u64);
        assert(new_top <= limit);
        Some((top_of_stack, new_top))
    }

    /// Takes a borrowed block of `page_size` bytes at `page_addr` once the mapper has
    /// answered `mapped` for the stack memory its pages take: when the block fits and the
    /// memory is mapped, its pages become available, in ascending order; otherwise
    /// nothing changes.
    pub fn take_borrowed_block(&mut self, page_addr: Address, page_size: usize, mapped: Result<
        bool,
        (),
    >)
        requires
            old(self).wf(),
            PAGE_SIZE > 0,
        ensures
            final(self).wf(),
            final(self).capacity() == old(self).capacity(),
            final(self).has_borrower() == old(self).has_borrower(),
            final(self).stack_base() == old(self).stack_base(),
            final(self).allocated() == old(self).allocated(),
            old(self).block_fits(page_addr, page_size) && mapped is Ok ==> final(self).available()
                == old(self).available() + cut_pages(
                page_addr as int,
                (page_size / PAGE_SIZE) as nat,
                PAGE_SIZE as int,
            ),
            !(old(self).block_fits(page_addr, page_size) && mapped is Ok) ==> final(
            self).available() == old(self).available(),
    {
        if mapped.is_err() {
            return ;
        }
        let num_pages = page_size / PAGE_SIZE;
        let capacity = self.stacks.available_pages.capacity();
        let used = self.stacks.allocated_pages.len() + self.stacks.available_pages.len();
        if num_pages > capacity - used || (num_pages as u64) > (u64::MAX - page_addr) / (
        PAGE_SIZE as u64) {
            proof {
                if num_pages > (u64::MAX - page_addr) / (PAGE_SIZE as int) {
                    assert(num_pages * PAGE_SIZE > u64::MAX - page_addr) by (nonlinear_arith)
                        requires
                            num_pages > (u64::MAX - page_addr) / (PAGE_SIZE as int),
                            PAGE_SIZE > 0,
                    ;
                }
            }
            return ;
        }
        proof {
            assert(num_pages * PAGE_SIZE <= u64::MAX - page_addr) by (nonlinear_arith)
                requires
                    num_pages <= (u64::MAX - page_addr) / (PAGE_SIZE as int),
                    PAGE_SIZE > 0,
            ;
        }
        self.push_cut_pages(page_addr, num_pages);
    }

    /// Allocates the most recently made available page.  When none is available, a page
    /// is borrowed and cut into pages of this size first, once the memory of the stack
    /// that takes them is mapped; a borrowed block that does not fit the stacks, or whose
    /// stack memory cannot be mapped, is not taken.
    pub fn allocate_page(&mut self) -> (r: Option<Address>)
        requires
            old(self).wf(),
            PAGE_SIZE > 0,
        ensures
            final(self).wf(),
            final(self).capacity() == old(self).capacity(),
            final(self).has_borrower() == old(self).has_borrower(),
            old(self).available().len() > 0 ==> {
                &&& r == Some(old(self).available().last())
                &&& final(self).available() == old(self).available().drop_last()
                &&& final(self).allocated() == old(self).allocated().push(
                    old(self).available().last(),
                )
            },
            old(self).available().len() == 0 ==> match r {
                None => final(self).available() == old(self).available() && final(self).allocated() == old(self).allocated(),
                Some(page) => exists|base: Address, count: nat|
                    {
                        &&& #[trigger] cut_pages(base as int, count, PAGE_SIZE as int).len() > 0
                        &&& page == cut_pages(base as int, count, PAGE_SIZE as int).last()
                        &&& final(self).available() == cut_pages(
                            base as int,
                            count,
                            PAGE_SIZE as int,
                        ).drop_last()
                        &&& final(self).allocated() == old(self).allocated().push(page)
                    },
            },
            old(self).available().len() == 0 && !old(self).has_borrower() ==> r is None,
    {
        if self.stacks.available_pages.is_empty() {
            if let Some(borrower) = self.borrower {
                if let Some((page_addr, page_size)) = borrower.borrow_page() {
                    if let Some((top_of_stack, new_top)) = self.borrowed_block_range(
                        page_addr,
                        page_size,
                    ) {
                        let mapped = self.mapper.ensure_mapped(top_of_stack, new_top);
                        self.take_borrowed_block(page_addr, page_size, mapped);
                        proof {
                            if self.available().len() > 0 {
                                assert(self.available() =~= cut_pages(
                                    page_addr as int,
                                    (page_size / PAGE_SIZE) as nat,
                                    PAGE_SIZE as int,
                                ));
                            }
                        }
                    }
                }
            }
        }
        if self.stacks.available_pages.is_empty() {
            None
        } else {
            let page = self.stacks.available_pages.pop().unwrap();
            self.stacks.allocated_pages.push(page);
            Some(page)
        }
    }

    /// Allocates the available page `page_addr`.  When it is not available, the block
    /// that holds it is borrowed and its other pages are made available, and nothing is
    /// allocated; a block that does not fit the stacks is not taken.
    pub fn allocate_specific(&mut self, page_addr: Address) -> (r: Option<Address>)
        requires
            old(self).wf(),
            PAGE_SIZE > 0,
        ensures
            final(self).wf(),
            final(self).capacity() == old(self).capacity(),
            final(self).has_borrower() == old(self).has_borrower(),
            old(self).available().contains(page_addr) ==> {
                &&& r == Some(page_addr)
                &&& final(self).allocated() == old(self).allocated().push(page_addr)
                &&& exists|i: int|
                    {
                        &&& 0 <= i < old(self).available().len()
                        &&& #[trigger] old(self).available()[i] == page_addr
                        &&& forall|j: int| 0 <= j < i ==> old(self).available()[j] != page_addr
                        &&& final(self).available() == old(self).available().update(
                            i,
                            old(self).available().last(),
                        ).drop_last()
                    }
            },
            !old(self).available().contains(page_addr) ==> {
                &&& r is None
                &&& final(self).allocated() == old(self).allocated()
                &&& final(self).available() == old(self).available() || exists|
                    base: Address,
                    size: usize,
                |
                    {
                        &&& old(self).block_fits(base, size)
                        &&& final(self).available() == old(self).available()
                            + #[trigger] cut_pages_except(
                            base as int,
                            (size / PAGE_SIZE) as nat,
                            PAGE_SIZE as int,
                            page_addr,
                        )
                    }
            },
            !old(self).available().contains(page_addr) && !old(self).has_borrower() ==> final(self).available() == old(self).available(),
    {
        match self.stacks.available_pages.find(page_addr) {
            Some(index) => {
                self.stacks.available_pages.remove_index(index);
                self.stacks.allocated_pages.push(page_addr);
                return Some(page_addr);
            },
            None => {
                proof {
                    assert(!old(self).available().contains(page_addr));
                }
                if let Some(borrower) = self.borrower {
                    let block = borrower.borrow_specific(page_addr);
                    self.take_specific_block(page_addr, block);
                }
            },
        }
        None
    }

    /// Takes the block `block` that the borrower handed out when `page_addr` was asked
    /// for: when it fits, all its pages but `page_addr` become available, in ascending
    /// order; no block, or one that does not fit, changes nothing.
    pub fn take_specific_block(&mut self, page_addr: Address, block: Option<(Address, usize)>)
        requires
            old(self).wf(),
            PAGE_SIZE > 0,
        ensures
            final(self).wf(),
            final(self).capacity() == old(self).capacity(),
            final(self).has_borrower() == old(self).has_borrower(),
            final(self).allocated() == old(self).allocated(),
            block is None ==> final(self).available() == old(self).available(),
            block matches Some((base, size)) ==> {
                &&& old(self).block_fits(base, size) ==> final(self).available() == old(
                    self,
                ).available() + cut_pages_except(
                    base as int,
                    (size / PAGE_SIZE) as nat,
                    PAGE_SIZE as int,
                    page_addr,
                )
                &&& !old(self).block_fits(base, size) ==> final(self).available() == old(
                    self,
                ).available()
            },
    {
        if let Some((base_address, size)) = block {
            let num_pages = size / PAGE_SIZE;
            let capacity = self.stacks.available_pages.capacity();
            let used = self.stacks.allocated_pages.len() + self.stacks.available_pages.len();
            let room = capacity - used;
            if num_pages <= room && (num_pages as u64) <= (u64::MAX - base_address) / (
            PAGE_SIZE as u64) {
                proof {
                    assert(num_pages * PAGE_SIZE <= u64::MAX - base_address) by (nonlinear_arith)
                        requires
                            num_pages <= (u64::MAX - base_address) / (PAGE_SIZE as int),
                            PAGE_SIZE > 0,
                    ;
                }
                self.push_cut_pages_except(base_address, num_pages, page_addr);
            } else {
                proof {
                    if num_pages > (u64::MAX - base_address) / (PAGE_SIZE as int) {
                        assert(num_pages * PAGE_SIZE > u64::MAX - base_address)
                            by (nonlinear_arith)
                            requires
                                num_pages > (u64::MAX - base_address) / (PAGE_SIZE as int),
                                PAGE_SIZE > 0,
                        ;
                    }
                }
            }
        }
    }

    /// Pushes the `count` pages of `PAGE_SIZE` bytes from `base` up, but for `skipped`, on
    /// the available stack.
    fn push_cut_pages_except(&mut self, base: Address, count: usize, skipped: Address)
        requires
            old(self).wf(),
            PAGE_SIZE > 0,
            old(self).allocated().len() + old(self).available().len() + count
                <= old(self).capacity(),
            base + count * PAGE_SIZE <= u64::MAX,
        ensures
            final(self).wf(),
            final(self).has_borrower() == old(self).has_borrower(),
            final(self).capacity() == old(self).capacity(),
            final(self).allocated() == old(self).allocated(),
            final(self).available() == old(self).available() + cut_pages_except(
                base as int,
                count as nat,
                PAGE_SIZE as int,
                skipped,
            ),
    {
        let ghost keep = other_than(skipped);
        let mut i: usize = 0;
        proof {
            assert(cut_pages(base as int, 0, PAGE_SIZE as int) =~= Seq::<Address>::empty());
            reveal(Seq::filter);
            assert(cut_pages(base as int, 0, PAGE_SIZE as int).filter(keep) =~= Seq::<
                Address,
            >::empty());
            assert(self.available() + Seq::<Address>::empty() =~= self.available());
        }
        while i < count
            invariant
                self.wf(),
                PAGE_SIZE > 0,
                i <= count,
                self.has_borrower() == old(self).has_borrower(),
                self.capacity() == old(self).capacity(),
                self.allocated() == old(self).allocated(),
                keep == other_than(skipped),
                self.available() == old(self).available() + cut_pages(
                    base as int,
                    i as nat,
                    PAGE_SIZE as int,
                ).filter(keep),
                cut_pages(base as int, i as nat, PAGE_SIZE as int).filter(keep).len() <= i,
                old(self).allocated().len() + old(self).available().len() + count
                    <= old(self).capacity(),
                base + count * PAGE_SIZE <= u64::MAX,
            decreases count - i,
        {
            assert(i * PAGE_SIZE <= count * PAGE_SIZE) by (nonlinear_arith)
                requires
                    i <= count,
            ;
            let page = base + (i as u64) * (PAGE_SIZE as u64);
            let ghost before = cut_pages(base as int, i as nat, PAGE_SIZE as int);
            let ghost after = cut_pages(base as int, (i + 1) as nat, PAGE_SIZE as int);
            assert(after =~= before.push(page));
            assert(after.drop_last() =~= before);
            if page != skipped {
                self.stacks.available_pages.push(page);
                proof {
                    reveal(Seq::filter);
                    assert(after.filter(keep) == before.filter(keep).push(page));
                    assert(self.available() =~= old(self).available() + after.filter(keep));
                }
            } else {
                proof {
                    reveal(Seq::filter);
                    assert(after.filter(keep) == before.filter(keep));
                }
            }
            i = i + 1;
        }
    }

    /// Returns `page_addr` to the available pages; only a stack that has allocated
    /// nothing can take it, and then there is nothing to return.
    pub fn deallocate_page(&mut self, _page_addr: Address)
        requires
            old(self).wf(),
            old(self).allocated().len() == 0,
        ensures
            final(self).wf() == old(self).wf(),
            final(self).available() == old(self).available(),
            final(self).allocated() == old(self).allocated(),
            final(self).capacity() == old(self).capacity(),
            final(self).has_borrower() == old(self).has_borrower(),
    {
        if self.stacks.allocated_pages.is_empty() {
            return ;
        }
    }
}

impl<'a, MAPPER: PageMapper, const PAGE_SIZE: usize> PageBorrower for PageStack<
    'a,
    MAPPER,
    PAGE_SIZE,
> {
    fn borrow_page(&self) -> (r: Option<(Address, usize)>)
        ensures
            r is None,
    {
        None
    }

    fn borrow_specific(&self, _address: Address) -> (r: Option<(Address, usize)>)
        ensures
            r is None,
    {
        None
    }
}

/// The pages a borrowed block gives when one of its pages was asked for: each lies in
/// the block, on a page boundary from its base, and none is the page asked for; every
/// other page of the block is among them; and there are no more of them than the block
/// has pages.
pub proof fn law_block_pages_except(base: Address, count: nat, page_size: int, skipped: Address)
    requires
        page_size > 0,
        base + count * page_size <= u64::MAX,
    ensures
        forall|k: int|
            #![trigger cut_pages_except(base as int, count, page_size, skipped)[k]]
            0 <= k < cut_pages_except(base as int, count, page_size, skipped).len() ==> {
                let page = cut_pages_except(base as int, count, page_size, skipped)[k];
                &&& base <= page
                &&& page + page_size <= base + count * page_size
                &&& (page - base) % page_size == 0
                &&& page != skipped
            },
        forall|j: int|
            0 <= j < count && (base + j * page_size) as Address != skipped ==> cut_pages_except(
                base as int,
                count,
                page_size,
                skipped,
            ).contains(#[trigger] ((base + j * page_size) as Address)),
        cut_pages_except(base as int, count, page_size, skipped).len() <= count,
{
    broadcast use vstd::seq_lib::group_filter_ensures;

    let all = cut_pages(base as int, count, page_size);
    let kept = cut_pages_except(base as int, count, page_size, skipped);
    assert forall|j: int| 0 <= j < count implies #[trigger] all[j] == (base + j * page_size) as Address
        && base + j * page_size + page_size <= base + count * page_size by {
        assert(j * page_size + page_size <= count * page_size) by (nonlinear_arith)
            requires
                0 <= j < count,
                page_size > 0,
        ;
        assert(j * page_size >= 0) by (nonlinear_arith)
            requires
                0 <= j,
                page_size > 0,
        ;
    }
    assert forall|k: int| 0 <= k < kept.len() implies ({
        let page = #[trigger] kept[k];
        &&& base <= page
        &&& page + page_size <= base + count * page_size
        &&& (page - base) % page_size == 0
        &&& page != skipped
    }) by {
        let page = kept[k];
        assert(kept.contains(page));
        all.lemma_filter_contains_rev(other_than(skipped), page);
        let j = choose|j: int| 0 <= j < all.len() && all[j] == page;
        assert(all[j] == (base + j * page_size) as Address);
        vstd::arithmetic::div_mod::lemma_mod_multiples_basic(j, page_size);
        assert((page - base) == j * page_size);
    }
    assert forall|j: int|
        0 <= j < count && (base + j * page_size) as Address != skipped implies kept.contains(
        #[trigger] ((base + j * page_size) as Address),
    ) by {
        assert(all[j] == (base + j * page_size) as Address);
        assert(other_than(skipped)(all[j]));
    }
}

} // verus!
