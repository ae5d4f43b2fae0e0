//! Page Stack
//!
//! Manages the available pages of one page size.  Each page stack is paired with an
//! aggregator, indexed by the next larger page size, which counts the pages allocated from,
//! and available in, each larger page.  When returning a page makes all the pages of its
//! larger page available, they are all removed from the stack and the larger page is handed
//! back to the caller, to be returned to the larger page stack.
//!
//! The 1GB page stack has no larger page stack, and never aggregates.
use vstd::prelude::*;
use crate::stack::{Stack, SimpleStack, EXPAND_UP};
use crate::types::Address;
use super::address_aggregator::{
    AddressAggregator,
    PageAggregator,
    PageBucket,
    ADDRESSES_PER_PAGE,
    bucket_allocated,
    bucket_deallocated,
    returning_completes,
};
use super::PAGE_SIZE_1GB;

verus! {

broadcast use vstd::layout::layout_of_primitives;

/// The index of the larger page of `aggregate_size` bytes that holds `addr`.
pub open spec fn larger_page_of(addr: Address, aggregate_size: nat) -> int {
    addr as int / aggregate_size as int
}

/// Whether `addr` lies in larger page `index`.
pub open spec fn in_larger_page(aggregate_size: nat, index: int) -> spec_fn(Address) -> bool {
    |addr: Address| larger_page_of(addr, aggregate_size) == index
}

/// Whether `addr` lies outside larger page `index`.
pub open spec fn outside_larger_page(aggregate_size: nat, index: int) -> spec_fn(Address) -> bool {
    |addr: Address| larger_page_of(addr, aggregate_size) != index
}

/// The number of pages of `pages` that lie in larger page `index`.
pub open spec fn count_in_larger_page(pages: Seq<Address>, aggregate_size: nat, index: int) -> nat {
    pages.filter(in_larger_page(aggregate_size, index)).len()
}

/// The address of the page that holds `page_addr`, for pages of `page_size` bytes.
pub open spec fn page_aligned(page_addr: Address, page_size: usize) -> Address {
    page_addr & !((page_size as u64 - 1) as u64)
}

/// The stack and counts after the top page is allocated.
pub open spec fn stack_after_allocate(pages: Seq<Address>, buckets: Seq<PageBucket>, aggregate_size: nat) -> (Seq<Address>, Seq<PageBucket>) {
    if pages.len() == 0 {
        (pages, buckets)
    } else {
        let b = larger_page_of(pages.last(), aggregate_size);
        (pages.drop_last(), buckets.update(b, bucket_allocated(buckets[b])))
    }
}

/// The stack and counts after `page` (already aligned) is returned to a stack of pages
/// smaller than 1GB: once its larger page is complete, all the pages of the larger page
/// leave the stack.
pub open spec fn stack_after_deallocate(
    pages: Seq<Address>,
    buckets: Seq<PageBucket>,
    aggregate_size: nat,
    page: Address,
) -> (Seq<Address>, Seq<PageBucket>) {
    let b = larger_page_of(page, aggregate_size);
    let pushed = pages.push(page);
    (
        if returning_completes(buckets[b]) {
            pushed.filter(outside_larger_page(aggregate_size, b))
        } else {
            pushed
        },
        buckets.update(b, bucket_deallocated(buckets[b])),
    )
}

/// The page stack of pages of `PAGE_SIZE` bytes; `AGGREGATE_PAGE_SIZE` is the size of
/// the next larger page, `ADDRESSES_PER_PAGE` times larger.
pub struct PageStack<const PAGE_SIZE: usize, const AGGREGATE_PAGE_SIZE: usize> {
    pub available_pages: Stack<Address, EXPAND_UP>,
    pub aggregate_map: PageAggregator<AGGREGATE_PAGE_SIZE>,
}

impl<const PAGE_SIZE: usize, const AGGREGATE_PAGE_SIZE: usize> PageStack<
    PAGE_SIZE,
    AGGREGATE_PAGE_SIZE,
> {
    pub open spec fn wf(&self) -> bool {
        &&& self.available_pages.wf()
        &&& PAGE_SIZE > 0
        &&& AGGREGATE_PAGE_SIZE == PAGE_SIZE * ADDRESSES_PER_PAGE
        &&& self.aggregate_map.aggregator_wf()
        &&& self.aggregate_map.buckets().len() * AGGREGATE_PAGE_SIZE <= u64::MAX
    }

    /// The available pages, in the order they were pushed.
    pub open spec fn pages(&self) -> Seq<Address> {
        self.available_pages.view()
    }

    /// The counts of the larger pages.
    pub open spec fn buckets(&self) -> Seq<PageBucket> {
        self.aggregate_map.buckets()
    }

    /// The counts agree with the stack: every page on the stack belongs to a counted
    /// larger page, each larger page counts as available exactly the pages of it on the
    /// stack, and no larger page counts more pages than it holds.
    pub open spec fn counts_consistent(&self) -> bool {
        &&& forall|i: int|
            0 <= i < self.pages().len() ==> 0 <= #[trigger] larger_page_of(
                self.pages()[i],
                AGGREGATE_PAGE_SIZE as nat,
            ) < self.buckets().len()
        &&& forall|b: int|
            0 <= b < self.buckets().len() ==> {
                &&& #[trigger] self.buckets()[b].available == count_in_larger_page(
                    self.pages(),
                    AGGREGATE_PAGE_SIZE as nat,
                    b,
                )
                &&& self.buckets()[b].allocated + self.buckets()[b].available
                    <= ADDRESSES_PER_PAGE
            }
    }

    /// Allocating the top page cannot overflow or underflow its counts.
    pub open spec fn allocation_possible(&self) -> bool {
        self.pages().len() > 0 ==> {
            let b = larger_page_of(self.pages().last(), AGGREGATE_PAGE_SIZE as nat);
            &&& 0 <= b < self.buckets().len()
            &&& self.buckets()[b].allocated < u16::MAX
            &&& self.buckets()[b].available >= 1
        }
    }

    /// Returning `page_addr` cannot overflow or underflow its counts.
    pub open spec fn deallocation_possible(&self, page_addr: Address) -> bool {
        let b = larger_page_of(page_aligned(page_addr, PAGE_SIZE), AGGREGATE_PAGE_SIZE as nat);
        &&& 0 <= b < self.buckets().len()
        &&& self.buckets()[b].allocated >= 1
        &&& self.buckets()[b].available < u16::MAX
        &&& returning_completes(self.buckets()[b]) ==> self.buckets()[b].allocated == 1
    }

    /// When the counts agree with the stack, allocating the top page never overflows or
    /// underflows a count.
    pub proof fn lemma_consistent_allocation_possible(&self)
        requires
            self.wf(),
            self.counts_consistent(),
        ensures
            self.allocation_possible(),
    {
        let agg = AGGREGATE_PAGE_SIZE as nat;
        let pages = self.pages();
        if pages.len() > 0 {
            let last = pages.last();
            let b = larger_page_of(last, agg);
            assert(0 <= larger_page_of(pages[pages.len() - 1], agg) < self.buckets().len());
            assert(pages =~= pages.drop_last().push(last));
            lemma_count_push(pages.drop_last(), agg, last);
            assert(self.buckets()[b].available == count_in_larger_page(pages, agg, b));
        }
    }

    /// Creates a page stack of room for `page_count` pages, with memory at `stack_base`,
    /// holding `pages`.
    pub fn new(stack_base: Address, page_count: usize, pages: &[Address]) -> (r: Self)
        requires
            PAGE_SIZE > 0,
            AGGREGATE_PAGE_SIZE == PAGE_SIZE * ADDRESSES_PER_PAGE,
            page_count * 8 <= isize::MAX,
            stack_base + page_count * 8 <= u64::MAX,
            ((page_count + ADDRESSES_PER_PAGE - 1) / ADDRESSES_PER_PAGE as int)
                * AGGREGATE_PAGE_SIZE <= u64::MAX,
            pages@.len() <= page_count,
            forall|i: int|
                0 <= i < pages@.len() ==> 0 <= #[trigger] larger_page_of(
                    pages@[i],
                    AGGREGATE_PAGE_SIZE as nat,
                ) < (page_count + ADDRESSES_PER_PAGE - 1) / ADDRESSES_PER_PAGE as int,
            forall|b: int|
                #![trigger count_in_larger_page(pages@, AGGREGATE_PAGE_SIZE as nat, b)]
                count_in_larger_page(pages@, AGGREGATE_PAGE_SIZE as nat, b) <= u16::MAX,
        ensures
            r.wf(),
            r.pages() == pages@,
            r.available_pages.capacity_spec() == page_count,
            r.available_pages.base_address_spec() == stack_base,
            r.buckets().len() == (page_count + ADDRESSES_PER_PAGE - 1) / ADDRESSES_PER_PAGE as int,
            forall|b: int|
                0 <= b < r.buckets().len() ==> #[trigger] r.buckets()[b] == (PageBucket {
                    allocated: 0,
                    available: count_in_larger_page(pages@, AGGREGATE_PAGE_SIZE as nat, b) as u16,
                }),
            (forall|b: int|
                #![trigger count_in_larger_page(pages@, AGGREGATE_PAGE_SIZE as nat, b)]
                count_in_larger_page(pages@, AGGREGATE_PAGE_SIZE as nat, b)
                    <= ADDRESSES_PER_PAGE) ==> r.counts_consistent(),
    {
        let memory = vec![0u64; page_count];
        let mut available_pages = Stack::<Address, EXPAND_UP>::new(stack_base, memory);
        let num_buckets = (page_count + (ADDRESSES_PER_PAGE - 1)) / ADDRESSES_PER_PAGE;
        let mut aggregate_map = PageAggregator::<AGGREGATE_PAGE_SIZE>::new(num_buckets);
        let ghost agg = AGGREGATE_PAGE_SIZE as nat;

        let mut i: usize = 0;
        while i < pages.len()
            invariant
                0 <= i <= pages@.len(),
                pages@.len() <= page_count,
                PAGE_SIZE > 0,
                AGGREGATE_PAGE_SIZE == PAGE_SIZE * ADDRESSES_PER_PAGE,
                agg == AGGREGATE_PAGE_SIZE,
                available_pages.wf(),
                available_pages.capacity_spec() == page_count,
                available_pages.base_address_spec() == stack_base,
                available_pages.view() == pages@.subrange(0, i as int),
                aggregate_map.aggregator_wf(),
                aggregate_map.buckets().len() == num_buckets,
                num_buckets == (page_count + ADDRESSES_PER_PAGE - 1) / ADDRESSES_PER_PAGE as int,
                forall|j: int|
                    0 <= j < pages@.len() ==> 0 <= #[trigger] larger_page_of(pages@[j], agg)
                        < num_buckets,
                forall|b: int|
                    #![trigger count_in_larger_page(pages@, agg, b)]
                    count_in_larger_page(pages@, agg, b) <= u16::MAX,
                forall|b: int|
                    0 <= b < num_buckets ==> #[trigger] aggregate_map.buckets()[b] == (PageBucket {
                        allocated: 0,
                        available: count_in_larger_page(
                            pages@.subrange(0, i as int),
                            agg,
                            b,
                        ) as u16,
                    }),
            decreases pages@.len() - i,
        {
            let page = pages[i];
            let ghost prefix = pages@.subrange(0, i as int);
            let ghost b = larger_page_of(page, agg);
            proof {
                assert(pages@.subrange(0, i + 1) =~= prefix.push(page));
                lemma_count_push(prefix, agg, page);
                lemma_count_prefix(pages@, agg, b, i + 1);
                assert(aggregate_map.buckets()[b].available == count_in_larger_page(prefix, agg, b));
            }
            available_pages.push(page);
            aggregate_map.mark_available(page);
            i = i + 1;
            proof {
                assert forall|c: int| 0 <= c < num_buckets implies #[trigger] aggregate_map.buckets()[c]
                    == PageBucket {
                    allocated: 0,
                    available: count_in_larger_page(pages@.subrange(0, i as int), agg, c) as u16,
                } by {
                    lemma_count_push(prefix, agg, page);
                    if c == b {
                        lemma_count_prefix(pages@, agg, b, i as int);
                    }
                }
            }
        }
        proof {
            assert(pages@.subrange(0, pages@.len() as int) =~= pages@);
            assert(num_buckets * AGGREGATE_PAGE_SIZE <= u64::MAX);
        }
        let r = PageStack { available_pages, aggregate_map };
        proof {
            if forall|b: int|
                #![trigger count_in_larger_page(pages@, agg, b)]
                count_in_larger_page(pages@, agg, b) <= ADDRESSES_PER_PAGE {
                assert forall|b: int| 0 <= b < r.buckets().len() implies {
                    &&& #[trigger] r.buckets()[b].available == count_in_larger_page(
                        r.pages(),
                        agg,
                        b,
                    )
                    &&& r.buckets()[b].allocated + r.buckets()[b].available
                        <= ADDRESSES_PER_PAGE
                } by {
                    assert(count_in_larger_page(pages@, agg, b) <= ADDRESSES_PER_PAGE);
                }
            }
        }
        r
    }

    pub fn len(&self) -> (r: usize)
        requires
            self.wf(),
        ensures
            r == self.pages().len(),
    {
        self.available_pages.len()
    }

    /// Takes the most recently returned page off the stack.
    pub fn allocate_page(&mut self) -> (r: Option<Address>)
        requires
            old(self).wf(),
            old(self).allocation_possible(),
        ensures
            final(self).wf(),
            r == (if old(self).pages().len() == 0 {
                None
            } else {
                Some(old(self).pages().last())
            }),
            (final(self).pages(), final(self).buckets()) == stack_after_allocate(
                old(self).pages(),
                old(self).buckets(),
                AGGREGATE_PAGE_SIZE as nat,
            ),
            final(self).available_pages.capacity_spec() == old(
                self,
            ).available_pages.capacity_spec(),
            old(self).counts_consistent() ==> final(self).counts_consistent(),
    {
        if self.available_pages.is_empty() {
            None
        } else {
            let ghost old_pages = self.pages();
            let page = match self.available_pages.pop() {
                Some(p) => p,
                None => { return None; },
            };
            self.aggregate_map.allocate(page);
            proof {
                let agg = AGGREGATE_PAGE_SIZE as nat;
                if old(self).counts_consistent() {
                    assert(old_pages =~= old_pages.drop_last().push(page));
                    lemma_count_push(old_pages.drop_last(), agg, page);
                    assert forall|i: int| 0 <= i < self.pages().len() implies 0
                        <= #[trigger] larger_page_of(self.pages()[i], agg)
                        < self.buckets().len() by {
                        assert(self.pages()[i] == old_pages[i]);
                    }
                }
            }
            Some(page)
        }
    }

    /// Returns a page to the stack (aligned down to the page size).  When that completes
    /// the larger page that holds it, every page of the larger page leaves the stack and
    /// the larger page's address is returned, to be handed to the larger page stack.
    pub fn deallocate_page(&mut self, page_addr: Address) -> (r: Option<Address>)
        requires
            old(self).wf(),
            old(self).pages().len() < old(self).available_pages.capacity_spec(),
            PAGE_SIZE != PAGE_SIZE_1GB ==> old(self).deallocation_possible(page_addr),
        ensures
            final(self).wf(),
            final(self).available_pages.capacity_spec() == old(
                self,
            ).available_pages.capacity_spec(),
            PAGE_SIZE == PAGE_SIZE_1GB ==> {
                &&& r is None
                &&& final(self).pages() == old(self).pages().push(page_aligned(page_addr, PAGE_SIZE))
                &&& final(self).buckets() == old(self).buckets()
            },
            PAGE_SIZE != PAGE_SIZE_1GB ==> {
                let page = page_aligned(page_addr, PAGE_SIZE);
                let b = larger_page_of(page, AGGREGATE_PAGE_SIZE as nat);
                &&& (final(self).pages(), final(self).buckets()) == stack_after_deallocate(
                    old(self).pages(),
                    old(self).buckets(),
                    AGGREGATE_PAGE_SIZE as nat,
                    page,
                )
                &&& r == (if returning_completes(old(self).buckets()[b]) {
                    Some((b * AGGREGATE_PAGE_SIZE) as Address)
                } else {
                    None
                })
                &&& old(self).counts_consistent() ==> final(self).counts_consistent()
                &&& r is None ==> final(self).pages().len() == old(self).pages().len() + 1
                &&& old(self).counts_consistent() && r is Some ==> final(self).pages().len()
                    == old(self).pages().len() + 1 - ADDRESSES_PER_PAGE
            },
    {
        // align the page address to the page size, just in case
        let page_addr = page_addr & !(PAGE_SIZE as Address - 1);
        let ghost agg = AGGREGATE_PAGE_SIZE as nat;
        let ghost old_pages = self.pages();
        let ghost pushed = old_pages.push(page_addr);

        self.available_pages.push(page_addr);

        let mut result = None;
        if PAGE_SIZE != PAGE_SIZE_1GB {
            result = self.aggregate_map.deallocate(page_addr);

            if let Some(bigger_page) = result {
                let bigger_page_size = AGGREGATE_PAGE_SIZE as Address;
                let ghost b = larger_page_of(page_addr, agg);
                let ghost saved_map = self.aggregate_map;
                proof {
                    assert(b >= 0);
                    lemma_larger_page_bounds(b, agg, self.buckets().len());
                }

                // move every page outside the larger page below every page in it,
                // keeping their order, then cut the pages of the larger page off
                let n = self.available_pages.len();
                let mut kept: usize = 0;
                let mut i: usize = 0;
                while i < n
                    invariant
                        self.available_pages.wf(),
                        self.available_pages.view().len() == n,
                        self.available_pages.capacity_spec() == old(
                            self,
                        ).available_pages.capacity_spec(),
                        self.available_pages.base_address_spec() == old(
                            self,
                        ).available_pages.base_address_spec(),
                        n == pushed.len(),
                        n <= self.available_pages.capacity_spec(),
                        self.aggregate_map == saved_map,
                        b >= 0,
                        agg > 0,
                        bigger_page == b * agg,
                        bigger_page_size == agg,
                        bigger_page + bigger_page_size <= u64::MAX,
                        0 <= kept <= i <= n,
                        self.available_pages.view().subrange(0, kept as int) == pushed.subrange(
                            0,
                            i as int,
                        ).filter(outside_larger_page(agg, b)),
                        forall|j: int|
                            kept <= j < i ==> larger_page_of(
                                #[trigger] self.available_pages.view()[j],
                                agg,
                            ) == b,
                        self.available_pages.view().subrange(i as int, n as int)
                            == pushed.subrange(i as int, n as int),
                    decreases n - i,
                {
                    let page = self.available_pages.get_unchecked(i);
                    let ghost before = self.available_pages.view();
                    proof {
                        assert(page == before[i as int]);
                        assert(before.subrange(i as int, n as int)[0] == page);
                        assert(pushed[i as int] == page);
                        assert(pushed.subrange(0, i + 1) =~= pushed.subrange(0, i as int).push(
                            page,
                        ));
                        pushed.subrange(0, i as int).lemma_filter_push(
                            page,
                            outside_larger_page(agg, b),
                        );
                        lemma_larger_page_range(page, agg, b);
                    }
                    let is_within = page >= bigger_page && page < bigger_page + bigger_page_size;
                    if !is_within {
                        self.available_pages.swap(kept, i);
                        proof {
                            let after = self.available_pages.view();
                            assert(after.subrange(0, kept + 1) =~= before.subrange(
                                0,
                                kept as int,
                            ).push(page));
                            assert(after.subrange(i + 1, n as int) =~= before.subrange(
                                i + 1,
                                n as int,
                            ));
                            assert(before.subrange(i + 1, n as int) =~= before.subrange(
                                i as int,
                                n as int,
                            ).subrange(1, n - i));
                            assert(pushed.subrange(i + 1, n as int) =~= pushed.subrange(
                                i as int,
                                n as int,
                            ).subrange(1, n - i));
                            assert forall|j: int| kept + 1 <= j < i + 1 implies larger_page_of(
                                #[trigger] after[j],
                                agg,
                            ) == b by {
                                if j == i {
                                    assert(after[j] == before[kept as int]);
                                } else {
                                    assert(after[j] == before[j]);
                                }
                            }
                        }
                        kept = kept + 1;
                    } else {
                        proof {
                            assert(before.subrange(i + 1, n as int) =~= before.subrange(
                                i as int,
                                n as int,
                            ).subrange(1, n - i));
                            assert(pushed.subrange(i + 1, n as int) =~= pushed.subrange(
                                i as int,
                                n as int,
                            ).subrange(1, n - i));
                        }
                    }
                    i = i + 1;
                }
                self.available_pages.truncate(kept);
                proof {
                    assert(pushed.subrange(0, n as int) =~= pushed);
                    assert(self.pages() == pushed.filter(outside_larger_page(agg, b)));
                }
            }
        }
        proof {
            if PAGE_SIZE != PAGE_SIZE_1GB {
                self.lemma_deallocate_counts(old(self).pages(), old(self).buckets(), page_addr, result);
            }
        }
        result
    }

    /// The counts stay consistent across a return of `page`.
    proof fn lemma_deallocate_counts(
        &self,
        old_pages: Seq<Address>,
        old_buckets: Seq<PageBucket>,
        page: Address,
        result: Option<Address>,
    )
        requires
            self.wf(),
            old_buckets.len() == self.buckets().len(),
            0 <= larger_page_of(page, AGGREGATE_PAGE_SIZE as nat) < old_buckets.len(),
            old_buckets[larger_page_of(page, AGGREGATE_PAGE_SIZE as nat)].allocated >= 1,
            (self.pages(), self.buckets()) == stack_after_deallocate(
                old_pages,
                old_buckets,
                AGGREGATE_PAGE_SIZE as nat,
                page,
            ),
            result is Some <==> returning_completes(
                old_buckets[larger_page_of(page, AGGREGATE_PAGE_SIZE as nat)],
            ),
        ensures
            ({
                let consistent_before = {
                    &&& forall|i: int|
                        0 <= i < old_pages.len() ==> 0 <= #[trigger] larger_page_of(
                            old_pages[i],
                            AGGREGATE_PAGE_SIZE as nat,
                        ) < old_buckets.len()
                    &&& forall|b: int|
                        0 <= b < old_buckets.len() ==> {
                            &&& #[trigger] old_buckets[b].available == count_in_larger_page(
                                old_pages,
                                AGGREGATE_PAGE_SIZE as nat,
                                b,
                            )
                            &&& old_buckets[b].allocated + old_buckets[b].available
                                <= ADDRESSES_PER_PAGE
                        }
                };
                consistent_before ==> self.counts_consistent() && (result is Some
                    ==> self.pages().len() == old_pages.len() + 1 - ADDRESSES_PER_PAGE)
            }),
    {
        let agg = AGGREGATE_PAGE_SIZE as nat;
        let pb = larger_page_of(page, agg);
        let pushed = old_pages.push(page);
        if forall|i: int|
            0 <= i < old_pages.len() ==> 0 <= #[trigger] larger_page_of(old_pages[i], agg)
                < old_buckets.len() {
            if forall|b: int|
                0 <= b < old_buckets.len() ==> {
                    &&& #[trigger] old_buckets[b].available == count_in_larger_page(
                        old_pages,
                        agg,
                        b,
                    )
                    &&& old_buckets[b].allocated + old_buckets[b].available
                        <= ADDRESSES_PER_PAGE
                } {
                assert(old_buckets[pb].available == count_in_larger_page(old_pages, agg, pb));
                lemma_count_push(old_pages, agg, page);
                assert forall|i: int| 0 <= i < pushed.len() implies 0 <= #[trigger] larger_page_of(
                    pushed[i],
                    agg,
                ) < old_buckets.len() by {
                    if i < old_pages.len() {
                        assert(pushed[i] == old_pages[i]);
                    }
                }
                if result is Some {
                    let kept = pushed.filter(outside_larger_page(agg, pb));
                    assert forall|i: int| 0 <= i < kept.len() implies 0 <= #[trigger] larger_page_of(
                        kept[i],
                        agg,
                    ) < old_buckets.len() by {
                        lemma_filter_element(pushed, outside_larger_page(agg, pb), i);
                    }
                    assert forall|b: int| 0 <= b < self.buckets().len() implies {
                        &&& #[trigger] self.buckets()[b].available == count_in_larger_page(
                            self.pages(),
                            agg,
                            b,
                        )
                        &&& self.buckets()[b].allocated + self.buckets()[b].available
                            <= ADDRESSES_PER_PAGE
                    } by {
                        lemma_count_after_removal(pushed, agg, pb, b);
                    }
                    lemma_count_split(pushed, agg, pb);
                } else {
                    assert forall|b: int| 0 <= b < self.buckets().len() implies {
                        &&& #[trigger] self.buckets()[b].available == count_in_larger_page(
                            self.pages(),
                            agg,
                            b,
                        )
                        &&& self.buckets()[b].allocated + self.buckets()[b].available
                            <= ADDRESSES_PER_PAGE
                    } by {
                        assert(old_buckets[b].available == count_in_larger_page(old_pages, agg, b));
                    }
                }
            }
        }
    }
}

/// Pushing a page adds one to the count of its larger page only.
pub proof fn lemma_count_push(pages: Seq<Address>, agg: nat, page: Address)
    ensures
        forall|b: int|
            #[trigger] count_in_larger_page(pages.push(page), agg, b) == count_in_larger_page(
                pages,
                agg,
                b,
            ) + (if larger_page_of(page, agg) == b {
                1int
            } else {
                0int
            }),
{
    assert forall|b: int|
        #[trigger] count_in_larger_page(pages.push(page), agg, b) == count_in_larger_page(
            pages,
            agg,
            b,
        ) + (if larger_page_of(page, agg) == b {
            1int
        } else {
            0int
        }) by {
        pages.lemma_filter_push(page, in_larger_page(agg, b));
    }
}

/// A prefix holds no more pages of a larger page than the whole sequence.
pub proof fn lemma_count_prefix(pages: Seq<Address>, agg: nat, b: int, i: int)
    requires
        0 <= i <= pages.len(),
    ensures
        count_in_larger_page(pages.subrange(0, i), agg, b) <= count_in_larger_page(pages, agg, b),
    decreases pages.len() - i,
{
    if i < pages.len() {
        lemma_count_prefix(pages, agg, b, i + 1);
        assert(pages.subrange(0, i + 1) =~= pages.subrange(0, i).push(pages[i]));
        lemma_count_push(pages.subrange(0, i), agg, pages[i]);
    } else {
        assert(pages.subrange(0, i) =~= pages);
    }
}

/// Every element of a filtered sequence is an element of the sequence.
pub proof fn lemma_filter_element(s: Seq<Address>, p: spec_fn(Address) -> bool, i: int)
    requires
        0 <= i < s.filter(p).len(),
    ensures
        s.contains(s.filter(p)[i]),
        p(s.filter(p)[i]),
    decreases s.len(),
{
    reveal(Seq::filter);
    if s.len() > 0 {
        let rest = s.drop_last().filter(p);
        if i < rest.len() {
            lemma_filter_element(s.drop_last(), p, i);
            let j = choose|j: int| 0 <= j < s.drop_last().len() && s.drop_last()[j] == rest[i];
            assert(s[j] == rest[i]);
        } else {
            assert(s[s.len() - 1] == s.last());
        }
    }
}

/// Removing the pages of larger page `removed` leaves the counts of the other larger
/// pages unchanged and empties that of `removed`.
pub proof fn lemma_count_after_removal(pages: Seq<Address>, agg: nat, removed: int, b: int)
    ensures
        count_in_larger_page(pages.filter(outside_larger_page(agg, removed)), agg, b) == (if b
            == removed {
            0
        } else {
            count_in_larger_page(pages, agg, b)
        }),
    decreases pages.len(),
{
    if pages.len() > 0 {
        let init = pages.drop_last();
        let last = pages.last();
        assert(pages =~= init.push(last));
        lemma_count_after_removal(init, agg, removed, b);
        init.lemma_filter_push(last, outside_larger_page(agg, removed));
        lemma_count_push(init, agg, last);
        lemma_count_push(init.filter(outside_larger_page(agg, removed)), agg, last);
    } else {
        reveal(Seq::filter);
    }
}

/// A sequence splits into its pages outside larger page `b` and those inside it.
pub proof fn lemma_count_split(pages: Seq<Address>, agg: nat, b: int)
    ensures
        pages.filter(outside_larger_page(agg, b)).len() + count_in_larger_page(pages, agg, b)
            == pages.len(),
    decreases pages.len(),
{
    if pages.len() > 0 {
        let init = pages.drop_last();
        let last = pages.last();
        assert(pages =~= init.push(last));
        lemma_count_split(init, agg, b);
        init.lemma_filter_push(last, outside_larger_page(agg, b));
        lemma_count_push(init, agg, last);
    } else {
        reveal(Seq::filter);
    }
}

/// An address lies in larger page `b` exactly when it is in `[b * agg, (b + 1) * agg)`.
pub proof fn lemma_larger_page_range(addr: Address, agg: nat, b: int)
    requires
        agg > 0,
        b >= 0,
    ensures
        (b * agg <= addr < b * agg + agg) <==> larger_page_of(addr, agg) == b,
{
    let a = addr as int;
    let d = agg as int;
    let q = a / d;
    assert(q * d <= a < q * d + d) by (nonlinear_arith)
        requires
            d > 0,
            a >= 0,
            q == a / d,
    ;
    if b * d <= a < b * d + d {
        assert(q == b) by (nonlinear_arith)
            requires
                q * d <= a < q * d + d,
                b * d <= a < b * d + d,
                d > 0,
        ;
    }
}

/// The larger pages counted lie in the address space.
proof fn lemma_larger_page_bounds(b: int, agg: nat, len: nat)
    requires
        0 <= b < len,
        len * agg <= u64::MAX,
    ensures
        b * agg + agg <= u64::MAX,
{
    assert(b * agg + agg <= len * agg) by (nonlinear_arith)
        requires
            0 <= b < len,
    ;
}

/// Allocating a page and returning it restores the stack and the counts, unless the
/// return completes the page's larger page.
pub proof fn law_allocate_then_deallocate(
    pages: Seq<Address>,
    buckets: Seq<PageBucket>,
    aggregate_size: nat,
)
    requires
        pages.len() > 0,
        0 <= larger_page_of(pages.last(), aggregate_size) < buckets.len(),
        buckets[larger_page_of(pages.last(), aggregate_size)].available >= 1,
        buckets[larger_page_of(pages.last(), aggregate_size)].allocated < u16::MAX,
    ensures
        ({
            let (p1, b1) = stack_after_allocate(pages, buckets, aggregate_size);
            let (p2, b2) = stack_after_deallocate(p1, b1, aggregate_size, pages.last());
            !returning_completes(b1[larger_page_of(pages.last(), aggregate_size)]) ==> p2
                == pages && b2 == buckets
        }),
{
    let b = larger_page_of(pages.last(), aggregate_size);
    let (p1, b1) = stack_after_allocate(pages, buckets, aggregate_size);
    assert(p1.push(pages.last()) =~= pages);
    if !returning_completes(b1[b]) {
        assert(b1.update(b, bucket_deallocated(b1[b])) =~= buckets);
    }
}

/// When a returned page completes its larger page, no page of that larger page is left
/// on the stack, every other page stays (in the order it had), and the stack is what it
/// held plus the returned page, less the pages of the larger page.
pub proof fn law_completed_larger_page_leaves_the_stack(
    pages: Seq<Address>,
    buckets: Seq<PageBucket>,
    aggregate_size: nat,
    page: Address,
)
    requires
        returning_completes(buckets[larger_page_of(page, aggregate_size)]),
    ensures
        ({
            let b = larger_page_of(page, aggregate_size);
            let pushed = pages.push(page);
            let after = stack_after_deallocate(pages, buckets, aggregate_size, page).0;
            &&& after == pushed.filter(outside_larger_page(aggregate_size, b))
            &&& forall|k: int|
                0 <= k < after.len() ==> larger_page_of(#[trigger] after[k], aggregate_size) != b
            &&& forall|k: int|
                0 <= k < pushed.len() && larger_page_of(#[trigger] pushed[k], aggregate_size) != b
                    ==> after.contains(pushed[k])
            &&& after.len() + count_in_larger_page(pushed, aggregate_size, b) == pushed.len()
        }),
{
    broadcast use vstd::seq_lib::group_filter_ensures;

    let b = larger_page_of(page, aggregate_size);
    lemma_filter_split(pages.push(page), aggregate_size, b);
}

/// The pages of a sequence split between those in larger page `b` and the others.
proof fn lemma_filter_split(pages: Seq<Address>, aggregate_size: nat, b: int)
    ensures
        pages.filter(outside_larger_page(aggregate_size, b)).len() + pages.filter(
            in_larger_page(aggregate_size, b),
        ).len() == pages.len(),
    decreases pages.len(),
{
    if pages.len() > 0 {
        let rest = pages.drop_last();
        lemma_filter_split(rest, aggregate_size, b);
        assert(rest.push(pages.last()) =~= pages);
        rest.lemma_filter_push(pages.last(), outside_larger_page(aggregate_size, b));
        rest.lemma_filter_push(pages.last(), in_larger_page(aggregate_size, b));
    }
}

} // verus!
