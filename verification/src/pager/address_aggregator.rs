//! Address Aggregator
//!
//! Tracks the pages allocated from, and available in, each larger page, so that it is
//! known when all the pages of a larger page have been returned and the larger page can
//! go back to the larger page stack.
use vstd::prelude::*;
use crate::types::Address;

verus! {

/// The number of pages of one size that make up a page of the next size.
pub const ADDRESSES_PER_PAGE: usize = 512;

/// Counts of the pages of one larger page.
#[derive(Clone, Copy, Debug, PartialEq, Eq, Structural)]
pub struct PageBucket {
    pub allocated: u16,
    pub available: u16,
}

/// The bucket after one of its pages is marked available.
pub open spec fn bucket_marked_available(b: PageBucket) -> PageBucket {
    PageBucket { allocated: b.allocated, available: (b.available + 1) as u16 }
}

/// The bucket after one of its pages is marked allocated.
pub open spec fn bucket_marked_allocated(b: PageBucket) -> PageBucket {
    PageBucket { allocated: (b.allocated + 1) as u16, available: b.available }
}

/// The bucket after one of its available pages is allocated.
pub open spec fn bucket_allocated(b: PageBucket) -> PageBucket {
    PageBucket { allocated: (b.allocated + 1) as u16, available: (b.available - 1) as u16 }
}

/// The bucket after one of its allocated pages is returned, before aggregation.
pub open spec fn bucket_returned(b: PageBucket) -> PageBucket {
    PageBucket { allocated: (b.allocated - 1) as u16, available: (b.available + 1) as u16 }
}

/// Whether returning a page to bucket `b` completes its larger page.
pub open spec fn returning_completes(b: PageBucket) -> bool {
    b.available + 1 == ADDRESSES_PER_PAGE
}

/// The bucket after one of its allocated pages is returned: once all its pages are
/// available, they are handed over as one larger page and the bucket is emptied.
pub open spec fn bucket_deallocated(b: PageBucket) -> PageBucket {
    if returning_completes(b) {
        PageBucket { allocated: 0, available: 0 }
    } else {
        bucket_returned(b)
    }
}

/// Keeps per-larger-page counts of the pages allocated and available.
pub trait AddressAggregator {
    spec fn aggregator_wf(&self) -> bool;

    /// The counts, indexed by larger page.
    spec fn buckets(&self) -> Seq<PageBucket>;

    /// The index of the larger page that holds `page_addr`.
    spec fn bucket_of(page_addr: Address) -> int;

    /// The size of a larger page.
    spec fn aggregate_page_size() -> nat;

    fn mark_available(&mut self, page_addr: Address)
        requires
            old(self).aggregator_wf(),
            0 <= Self::bucket_of(page_addr) < old(self).buckets().len(),
            old(self).buckets()[Self::bucket_of(page_addr)].available < u16::MAX,
        ensures
            final(self).aggregator_wf(),
            final(self).buckets() == old(self).buckets().update(
                Self::bucket_of(page_addr),
                bucket_marked_available(old(self).buckets()[Self::bucket_of(page_addr)]),
            ),
    ;

    fn mark_allocated(&mut self, page_addr: Address)
        requires
            old(self).aggregator_wf(),
            0 <= Self::bucket_of(page_addr) < old(self).buckets().len(),
            old(self).buckets()[Self::bucket_of(page_addr)].allocated < u16::MAX,
        ensures
            final(self).aggregator_wf(),
            final(self).buckets() == old(self).buckets().update(
                Self::bucket_of(page_addr),
                bucket_marked_allocated(old(self).buckets()[Self::bucket_of(page_addr)]),
            ),
    ;

    fn allocate(&mut self, page_addr: Address)
        requires
            old(self).aggregator_wf(),
            0 <= Self::bucket_of(page_addr) < old(self).buckets().len(),
            old(self).buckets()[Self::bucket_of(page_addr)].allocated < u16::MAX,
            old(self).buckets()[Self::bucket_of(page_addr)].available >= 1,
        ensures
            final(self).aggregator_wf(),
            final(self).buckets() == old(self).buckets().update(
                Self::bucket_of(page_addr),
                bucket_allocated(old(self).buckets()[Self::bucket_of(page_addr)]),
            ),
    ;

    /// Returns a page; when that makes all the pages of its larger page available,
    /// the address of the larger page, which can then be returned as a whole.
    fn deallocate(&mut self, page_addr: Address) -> (r: Option<Address>)
        requires
            old(self).aggregator_wf(),
            0 <= Self::bucket_of(page_addr) < old(self).buckets().len(),
            old(self).buckets()[Self::bucket_of(page_addr)].allocated >= 1,
            old(self).buckets()[Self::bucket_of(page_addr)].available < u16::MAX,
            returning_completes(old(self).buckets()[Self::bucket_of(page_addr)]) ==> old(
                self,
            ).buckets()[Self::bucket_of(page_addr)].allocated == 1,
        ensures
            final(self).aggregator_wf(),
            final(self).buckets() == old(self).buckets().update(
                Self::bucket_of(page_addr),
                bucket_deallocated(old(self).buckets()[Self::bucket_of(page_addr)]),
            ),
            r == (if returning_completes(old(self).buckets()[Self::bucket_of(page_addr)]) {
                Some((Self::bucket_of(page_addr) * Self::aggregate_page_size()) as Address)
            } else {
                None
            }),
    ;
}

/// Tracks, for each larger page of `PAGE_SIZE` bytes, the pages allocated from it and
/// the pages still available in it.
pub struct PageAggregator<const PAGE_SIZE: usize> {
    pub aggregate_map: Vec<PageBucket>,
}

impl<const PAGE_SIZE: usize> PageAggregator<PAGE_SIZE> {
    /// Creates an aggregator of `num_buckets` larger pages, all counts zero.
    pub fn new(num_buckets: usize) -> (r: Self)
        requires
            PAGE_SIZE > 0,
        ensures
            r.aggregator_wf(),
            r.buckets() == Seq::new(
                num_buckets as nat,
                |i: int| PageBucket { allocated: 0, available: 0 },
            ),
    {
        let mut aggregate_map: Vec<PageBucket> = Vec::new();
        let mut i: usize = 0;
        while i < num_buckets
            invariant
                i <= num_buckets,
                aggregate_map@ == Seq::new(
                    i as nat,
                    |k: int| PageBucket { allocated: 0, available: 0 },
                ),
            decreases num_buckets - i,
        {
            aggregate_map.push(PageBucket { allocated: 0, available: 0 });
            i = i + 1;
            assert(aggregate_map@ =~= Seq::new(
                i as nat,
                |k: int| PageBucket { allocated: 0, available: 0 },
            ));
        }
        PageAggregator { aggregate_map }
    }

    fn index_of(&self, page_addr: Address) -> (r: usize)
        requires
            self.aggregator_wf(),
            0 <= Self::bucket_of(page_addr) < self.buckets().len(),
        ensures
            r == Self::bucket_of(page_addr),
    {
        let q = page_addr / PAGE_SIZE as u64;
        assert(q == Self::bucket_of(page_addr));
        assert(q < self.aggregate_map.len());
        q as usize
    }
}

impl<const PAGE_SIZE: usize> AddressAggregator for PageAggregator<PAGE_SIZE> {
    open spec fn aggregator_wf(&self) -> bool {
        PAGE_SIZE > 0
    }

    open spec fn buckets(&self) -> Seq<PageBucket> {
        self.aggregate_map@
    }

    open spec fn bucket_of(page_addr: Address) -> int {
        page_addr as int / PAGE_SIZE as int
    }

    open spec fn aggregate_page_size() -> nat {
        PAGE_SIZE as nat
    }

    fn mark_available(&mut self, page_addr: Address) {
        let agg_index = self.index_of(page_addr);
        let mut bucket = self.aggregate_map[agg_index];
        bucket.available = bucket.available + 1;
        self.aggregate_map.set(agg_index, bucket);
    }

    fn mark_allocated(&mut self, page_addr: Address) {
        let agg_index = self.index_of(page_addr);
        let mut bucket = self.aggregate_map[agg_index];
        bucket.allocated = bucket.allocated + 1;
        self.aggregate_map.set(agg_index, bucket);
    }

    fn allocate(&mut self, page_addr: Address) {
        let agg_index = self.index_of(page_addr);
        let mut bucket = self.aggregate_map[agg_index];
        bucket.allocated = bucket.allocated + 1;
        bucket.available = bucket.available - 1;
        self.aggregate_map.set(agg_index, bucket);
    }

    fn deallocate(&mut self, page_addr: Address) -> (r: Option<Address>) {
        let agg_index = self.index_of(page_addr);
        let mut bucket = self.aggregate_map[agg_index];
        bucket.allocated = bucket.allocated - 1;
        bucket.available = bucket.available + 1;

        if bucket.available as usize == ADDRESSES_PER_PAGE {
            // all the pages which make up the larger page are here: remove them all
            bucket.available = 0;
            self.aggregate_map.set(agg_index, bucket);
            // and hand the larger page on
            proof {
                let p = PAGE_SIZE as int;
                let a = page_addr as int;
                assert((a / p) * p <= a) by (nonlinear_arith)
                    requires
                        p > 0,
                        a >= 0,
                ;
            }
            let agg_page_addr = (agg_index as Address) * PAGE_SIZE as Address;
            return Some(agg_page_addr);
        }
        self.aggregate_map.set(agg_index, bucket);
        None
    }
}

/// Allocating a page of a larger page and returning it restores the larger page's
/// counts, unless the return completes the larger page, which then empties.
pub proof fn law_allocate_then_deallocate_bucket(b: PageBucket)
    requires
        b.available >= 1,
        b.allocated < u16::MAX,
    ensures
        !returning_completes(bucket_allocated(b)) ==> bucket_deallocated(bucket_allocated(b))
            == b,
        returning_completes(bucket_allocated(b)) ==> bucket_deallocated(bucket_allocated(b))
            == (PageBucket { allocated: 0, available: 0 }),
{
}

} // verus!
