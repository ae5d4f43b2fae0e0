//! Iterates the pages of a memory map in their largest possible page sizes.
//!
//! Each region of the map decomposes, from its first 4KB boundary up, into pages: at each
//! address the largest page (1GB, 2MB or 4KB) that is aligned there and fits below the
//! region's end.  Only whole aligned pages inside a region are ever yielded.
//! A page iterator yields the pages of one size, optionally only those of regions of one
//! type, at or above a base address, and outside an excluded range.
use vstd::prelude::*;
use crate::types::Address;
use super::{
    PAGE_SIZE_4KB,
    PAGE_SIZE_2MB,
    PAGE_SIZE_1GB,
    is_4kb_aligned,
    is_2mb_aligned,
    is_1gb_aligned,
    next_4kb_page,
    next_2mb_page,
    next_1gb_page,
};

verus! {

/// The kind of memory a region holds.
#[derive(Clone, Copy, Debug, PartialEq, Eq, Structural)]
pub enum MemoryRegionType {
    Available,
    Reserved,
    Kernel,
    Module,
    Other(u32),
}

/// A region of memory, from `start` up to (not including) `end`.
#[derive(Clone, Copy, Debug, PartialEq, Eq, Structural)]
pub struct MemoryRegion {
    pub region_type: MemoryRegionType,
    pub start: Address,
    pub end: Address,
}

impl MemoryRegion {
    pub fn get_type(&self) -> (r: MemoryRegionType)
        ensures
            r == self.region_type,
    {
        self.region_type
    }

    pub fn get_address_range(&self) -> (r: (Address, Address))
        ensures
            r == (self.start, self.end),
    {
        (self.start, self.end)
    }
}

/// The memory map handed over by the boot loader: a list of regions.
pub struct MemoryMap {
    regions: Vec<MemoryRegion>,
}

impl MemoryMap {
    pub closed spec fn view(&self) -> Seq<MemoryRegion> {
        self.regions@
    }

    pub fn new() -> (r: MemoryMap)
        ensures
            r@ == Seq::<MemoryRegion>::empty(),
    {
        MemoryMap { regions: Vec::new() }
    }

    pub fn add_region(&mut self, region_type: MemoryRegionType, start: Address, end: Address)
        ensures
            final(self)@ == old(self)@.push(MemoryRegion { region_type, start, end }),
    {
        self.regions.push(MemoryRegion { region_type, start, end });
    }

    pub fn get_num_regions(&self) -> (r: usize)
        ensures
            r == self@.len(),
    {
        self.regions.len()
    }

    pub fn get_memory_region(&self, i: usize) -> (r: Option<MemoryRegion>)
        ensures
            r == (if i < self@.len() {
                Some(self@[i as int])
            } else {
                None
            }),
    {
        if i < self.regions.len() {
            Some(self.regions[i])
        } else {
            None
        }
    }
}

/// Whether a page of `size` bytes is aligned at `cur` and ends at or below `end`.
pub open spec fn page_fits(cur: int, end: int, size: int) -> bool {
    cur % size == 0 && cur + size <= end
}

/// The size of the largest page that is aligned at `cur` and fits below `end` (0 if none).
pub open spec fn largest_page_size(cur: int, end: int) -> int {
    if page_fits(cur, end, PAGE_SIZE_1GB as int) {
        PAGE_SIZE_1GB as int
    } else if page_fits(cur, end, PAGE_SIZE_2MB as int) {
        PAGE_SIZE_2MB as int
    } else if page_fits(cur, end, PAGE_SIZE_4KB as int) {
        PAGE_SIZE_4KB as int
    } else {
        0
    }
}

/// A region's memory decomposes into largest possible pages.
pub open spec fn decompose(cur: int, end: int) -> Seq<(int, int)>
    decreases end - cur,
{
    let size = largest_page_size(cur, end);
    if size <= 0 {
        Seq::empty()
    } else {
        seq![(cur, size)] + decompose(cur + size, end)
    }
}

/// The first 4KB page boundary at or above `addr`.
pub open spec fn first_4kb_boundary(addr: int) -> int {
    if addr % PAGE_SIZE_4KB as int == 0 {
        addr
    } else {
        addr - addr % PAGE_SIZE_4KB as int + PAGE_SIZE_4KB
    }
}

/// The regions of a map the page iterator can walk: each ends at least a 1GB page below
/// the top of the address space, so that no page boundary computed in it overflows.
pub open spec fn walkable(regions: Seq<MemoryRegion>) -> bool {
    forall|i: int| 0 <= i < regions.len() ==> (#[trigger] regions[i]).end + PAGE_SIZE_1GB <= u64::MAX
}

/// An iterator over the pages of one size of a memory map.
pub struct PageIterator<'a> {
    mmap: &'a MemoryMap,
    page_size: Address,
    current_region: usize,
    current_page: Option<Address>,
    region_type: Option<MemoryRegionType>,
    base_address: Option<Address>,
    exclude_page_range: Option<(Address, Address)>,
}

impl<'a> PageIterator<'a> {
    pub closed spec fn regions(&self) -> Seq<MemoryRegion> {
        self.mmap@
    }

    pub closed spec fn page_size_spec(&self) -> int {
        self.page_size as int
    }

    pub closed spec fn region_type_spec(&self) -> Option<MemoryRegionType> {
        self.region_type
    }

    pub closed spec fn base_address_spec(&self) -> Option<Address> {
        self.base_address
    }

    pub closed spec fn exclude_spec(&self) -> Option<(Address, Address)> {
        self.exclude_page_range
    }

    /// The region the next search starts in.
    pub closed spec fn current_region_spec(&self) -> int {
        self.current_region as int
    }

    /// Where the next search starts within its region (the region's first 4KB boundary if
    /// none).
    pub closed spec fn current_page_spec(&self) -> Option<Address> {
        self.current_page
    }

    /// The iterator's map is walkable, and a position it has reached is 4KB-aligned.
    pub open spec fn iterator_wf(&self) -> bool {
        &&& walkable(self.regions())
        &&& self.current_page_spec() matches Some(p) ==> p as int % PAGE_SIZE_4KB as int == 0
    }

    /// Whether a page at `addr` passes the base-address and excluded-range filters.
    pub open spec fn passes(&self, addr: int) -> bool {
        &&& (self.base_address_spec() matches Some(b) ==> addr >= b)
        &&& (self.exclude_spec() matches Some(range) ==> !(range.0 <= addr < range.1))
    }

    /// Whether region `r` is walked at all.
    pub open spec fn type_matches(&self, r: MemoryRegion) -> bool {
        self.region_type_spec() matches Some(t) ==> r.region_type == t
    }

    /// The pages this iterator yields from region `region`, walking it from `cur` up to
    /// `end`: the pages of its decomposition of the iterator's size that pass the filters.
    pub open spec fn region_pages(&self, region: int, cur: int, end: int) -> Seq<(int, int)>
        decreases end - cur,
    {
        let size = largest_page_size(cur, end);
        if size <= 0 {
            Seq::empty()
        } else if size == self.page_size_spec() && self.passes(cur) {
            seq![(region, cur)] + self.region_pages(region, cur + size, end)
        } else {
            self.region_pages(region, cur + size, end)
        }
    }

    /// The (region, page) pairs the iterator yields from region `i` on, the first walked
    /// region starting at `start` if given.
    pub open spec fn candidates(&self, i: int, start: Option<Address>) -> Seq<(int, int)>
        decreases self.regions().len() - i,
    {
        if i < 0 || i >= self.regions().len() {
            Seq::empty()
        } else if !self.type_matches(self.regions()[i]) {
            self.candidates(i + 1, start)
        } else {
            let w = match start {
                Some(sp) => sp as int,
                None => first_4kb_boundary(self.regions()[i].start as int),
            };
            self.region_pages(i, w, self.regions()[i].end as int) + self.candidates(i + 1, None)
        }
    }

    /// The pages still to be yielded.
    pub open spec fn remaining(&self) -> Seq<(int, int)> {
        self.candidates(self.current_region_spec(), self.current_page_spec())
    }

    /// An iterator over the pages of `page_size` bytes of `mmap`.
    pub fn new(mmap: &'a MemoryMap, page_size: usize) -> (r: Self)
        ensures
            r.regions() == mmap@,
            r.page_size_spec() == page_size,
            r.region_type_spec() is None,
            r.base_address_spec() is None,
            r.exclude_spec() is None,
            r.current_region_spec() == 0,
            r.current_page_spec() is None,
    {
        PageIterator {
            mmap,
            page_size: page_size as Address,
            current_region: 0,
            current_page: None,
            region_type: None,
            base_address: None,
            exclude_page_range: None,
        }
    }

    /// Only regions of `region_type` are walked.
    pub fn with_region_type(self, region_type: MemoryRegionType) -> (r: Self)
        ensures
            r.region_type_spec() == Some(region_type),
            r.regions() == self.regions(),
            r.page_size_spec() == self.page_size_spec(),
            r.base_address_spec() == self.base_address_spec(),
            r.exclude_spec() == self.exclude_spec(),
            r.current_region_spec() == self.current_region_spec(),
            r.current_page_spec() == self.current_page_spec(),
    {
        let mut r = self;
        r.region_type = Some(region_type);
        r
    }

    /// Only pages at or above `base_address` are yielded.
    pub fn with_base_address(self, base_address: Address) -> (r: Self)
        ensures
            r.base_address_spec() == Some(base_address),
            r.regions() == self.regions(),
            r.page_size_spec() == self.page_size_spec(),
            r.region_type_spec() == self.region_type_spec(),
            r.exclude_spec() == self.exclude_spec(),
            r.current_region_spec() == self.current_region_spec(),
            r.current_page_spec() == self.current_page_spec(),
    {
        let mut r = self;
        r.base_address = Some(base_address);
        r
    }

    /// Pages from `start` up to (not including) `end` are not yielded.
    pub fn excluding_range(self, start: Address, end: Address) -> (r: Self)
        ensures
            r.exclude_spec() == Some((start, end)),
            r.regions() == self.regions(),
            r.page_size_spec() == self.page_size_spec(),
            r.region_type_spec() == self.region_type_spec(),
            r.base_address_spec() == self.base_address_spec(),
            r.current_region_spec() == self.current_region_spec(),
            r.current_page_spec() == self.current_page_spec(),
    {
        let mut r = self;
        r.exclude_page_range = Some((start, end));
        r
    }

    fn passes_filters(&self, addr: Address) -> (r: bool)
        ensures
            r == self.passes(addr as int),
    {
        if let Some(base_address) = self.base_address {
            if addr < base_address {
                return false;
            }
        }
        if let Some(exclude_page_range) = self.exclude_page_range {
            if addr >= exclude_page_range.0 && addr < exclude_page_range.1 {
                return false;
            }
        }
        true
    }

    /// The number of pages the iterator yields from its start, whatever its position.
    pub fn get_count(&self) -> (r: usize)
        requires
            walkable(self.regions()),
            self.candidates(0, None).len() <= usize::MAX,
        ensures
            r == self.candidates(0, None).len(),
    {
        let mut current_region: usize = 0;
        let mut current_page: Option<Address> = None;
        let mut count: usize = 0;
        loop
            invariant
                walkable(self.regions()),
                current_page matches Some(p) ==> p as int % PAGE_SIZE_4KB as int == 0,
                count + self.candidates(current_region as int, current_page).len()
                    == self.candidates(0, None).len(),
                self.candidates(0, None).len() <= usize::MAX,
            ensures
                count == self.candidates(0, None).len(),
            decreases self.candidates(current_region as int, current_page).len(),
        {
            let (region, page, result) = self.iterate(current_region, current_page);
            if result.is_none() {
                break;
            }
            count = count + 1;
            current_region = region;
            current_page = Some(page);
        }
        count
    }

    /// Where the next search starts within its region, if set.
    pub fn get_current(&self) -> (r: Option<Address>)
        ensures
            r == self.current_page_spec(),
    {
        self.current_page
    }

    /// Finds the first page to yield from region `current_region` on, walking the first
    /// walked region from `start_page` if given; returns its region, the position after it,
    /// and the page.
    fn iterate(&self, current_region: usize, start_page: Option<Address>) -> (r: (
        usize,
        Address,
        Option<Address>,
    ))
        requires
            walkable(self.regions()),
            start_page matches Some(p) ==> p as int % PAGE_SIZE_4KB as int == 0,
        ensures
            match r.2 {
                None => self.candidates(current_region as int, start_page).len() == 0 && r.0
                    == 0 && r.1 == 0,
                Some(page) => {
                    let c = self.candidates(current_region as int, start_page);
                    &&& c.len() > 0
                    &&& c[0] == (r.0 as int, page as int)
                    &&& r.1 == page + self.page_size_spec()
                    &&& r.1 as int % PAGE_SIZE_4KB as int == 0
                    &&& self.candidates(r.0 as int, Some(r.1)) == c.drop_first()
                },
            },
    {
        let mut walk_start = start_page;
        let num_regions = self.mmap.get_num_regions();
        let ghost all = self.candidates(current_region as int, walk_start);

        let mut i: usize = current_region;
        while i < num_regions
            invariant
                walkable(self.regions()),
                num_regions == self.regions().len(),
                walk_start matches Some(p) ==> p as int % PAGE_SIZE_4KB as int == 0,
                all == self.candidates(i as int, walk_start),
                all == self.candidates(current_region as int, start_page),
            decreases num_regions - i,
        {
            let region = match self.mmap.get_memory_region(i) {
                Some(region) => region,
                None => { return (0, 0, None); },
            };
            if let Some(region_type) = self.region_type {
                if region.get_type() != region_type {
                    i = i + 1;
                    continue;
                }
            }
            let (start, end) = region.get_address_range();
            if walk_start.is_none() && start >= end {
                proof {
                    assert(self.regions()[i as int] == region);
                    lemma_region_pages_past_end(*self, i as int, first_4kb_boundary(start as int), end as int);
                    assert(all =~= self.candidates(i + 1, None));
                }
                i = i + 1;
                continue;
            }
            let mut current = match walk_start {
                Some(sp) => {
                    walk_start = None;
                    sp
                },
                None => first_page_boundary(start, end),
            };
            proof {
                assert(self.regions()[i as int] == region);
                assert(all == self.region_pages(i as int, current as int, end as int)
                    + self.candidates(i + 1, None));
            }

            // if a base address was specified, skip past any regions before it
            if let Some(base_address) = self.base_address {
                if end < base_address {
                    proof {
                        self.lemma_region_pages_below_base(i as int, current as int, end as int);
                        assert(all =~= self.candidates(i + 1, None));
                    }
                    i = i + 1;
                    continue;
                }
            }

            while current < end && current + PAGE_SIZE_4KB as Address <= end
                invariant
                    walkable(self.regions()),
                    num_regions == self.regions().len(),
                    i < num_regions,
                    self.regions()[i as int] == region,
                    end == region.end,
                    end + PAGE_SIZE_1GB <= u64::MAX,
                    walk_start is None,
                    self.type_matches(region),
                    current as int % PAGE_SIZE_4KB as int == 0,
                    all == self.region_pages(i as int, current as int, end as int)
                        + self.candidates(i + 1, None),
                    all == self.candidates(current_region as int, start_page),
                decreases end - current,
            {
                let ghost start_cur = current;
                // take any 1gb pages
                while is_1gb_aligned(current) && next_1gb_page(current) <= end
                    invariant
                        end + PAGE_SIZE_1GB <= u64::MAX,
                        current <= end,
                        current >= start_cur,
                        current as int % PAGE_SIZE_4KB as int == 0,
                        self.type_matches(region),
                        self.regions()[i as int] == region,
                        end == region.end,
                        i < num_regions,
                        num_regions == self.regions().len(),
                        all == self.region_pages(i as int, current as int, end as int)
                            + self.candidates(i + 1, None),
                        all == self.candidates(current_region as int, start_page),
                    decreases end - current,
                {
                    let next = next_1gb_page(current);
                    proof {
                        lemma_fits_1gb(current as int, end as int);
                    }
                    if self.page_size == PAGE_SIZE_1GB as Address && self.passes_filters(current) {
                        proof {
                            self.lemma_found(i as int, current as int, next as int, end as int, all);
                        }
                        return (i, next, Some(current));
                    }
                    current = next;
                }

                // take any 2mb pages, until a 1gb page fits
                while is_2mb_aligned(current) && next_2mb_page(current) <= end && !(
                is_1gb_aligned(current) && next_1gb_page(current) <= end)
                    invariant
                        end + PAGE_SIZE_1GB <= u64::MAX,
                        current <= end,
                        current >= start_cur,
                        current == start_cur ==> !page_fits(
                            current as int,
                            end as int,
                            PAGE_SIZE_1GB as int,
                        ),
                        current as int % PAGE_SIZE_4KB as int == 0,
                        self.type_matches(region),
                        self.regions()[i as int] == region,
                        end == region.end,
                        i < num_regions,
                        num_regions == self.regions().len(),
                        all == self.region_pages(i as int, current as int, end as int)
                            + self.candidates(i + 1, None),
                        all == self.candidates(current_region as int, start_page),
                    decreases end - current,
                {
                    let next = next_2mb_page(current);
                    proof {
                        lemma_fits_2mb(current as int, end as int);
                    }
                    if self.page_size == PAGE_SIZE_2MB as Address && self.passes_filters(current) {
                        proof {
                            self.lemma_found(i as int, current as int, next as int, end as int, all);
                        }
                        return (i, next, Some(current));
                    }
                    current = next;
                }

                let ghost c4 = current;
                proof {
                    if current == start_cur && current < end && current + PAGE_SIZE_4KB as int
                        <= end {
                        lemma_fits_1gb_fits_2mb(current as int, end as int);
                    }
                }
                // take any 4kb pages, until a 2mb page fits
                while is_4kb_aligned(current) && next_4kb_page(current) <= end && !(
                is_2mb_aligned(current) && next_2mb_page(current) <= end)
                    invariant
                        end + PAGE_SIZE_1GB <= u64::MAX,
                        current <= end,
                        current >= c4,
                        c4 >= start_cur,
                        current as int % PAGE_SIZE_4KB as int == 0,
                        self.type_matches(region),
                        self.regions()[i as int] == region,
                        end == region.end,
                        i < num_regions,
                        num_regions == self.regions().len(),
                        all == self.region_pages(i as int, current as int, end as int)
                            + self.candidates(i + 1, None),
                        all == self.candidates(current_region as int, start_page),
                    decreases end - current,
                {
                    let next = next_4kb_page(current);
                    proof {
                        lemma_fits_4kb(current as int, end as int);
                    }
                    if self.page_size == PAGE_SIZE_4KB as Address && self.passes_filters(current) {
                        proof {
                            self.lemma_found(i as int, current as int, next as int, end as int, all);
                        }
                        return (i, next, Some(current));
                    }
                    current = next;
                }
                assert(current > start_cur);
            }
            proof {
                lemma_nothing_fits(current as int, end as int);
                assert(self.region_pages(i as int, current as int, end as int) =~= Seq::<
                    (int, int),
                >::empty());
                assert(all =~= self.candidates(i + 1, None));
            }
            i = i + 1;
        }
        return (0, 0, None);
    }

    /// The page at `cur`, of the iterator's size and passing the filters, is the first one
    /// yielded; what follows it is the walk from `next`.
    proof fn lemma_found(&self, i: int, cur: int, next: int, end: int, all: Seq<(int, int)>)
        requires
            0 <= i < self.regions().len(),
            self.type_matches(self.regions()[i]),
            next == cur + self.page_size_spec(),
            largest_page_size(cur, end) == self.page_size_spec(),
            self.page_size_spec() > 0,
            self.passes(cur),
            all == self.region_pages(i, cur, end) + self.candidates(i + 1, None),
            end == self.regions()[i].end,
            next % PAGE_SIZE_4KB as int == 0,
            next >= 0,
        ensures
            all.len() > 0,
            all[0] == (i, cur),
            self.candidates(i, Some(next as Address)) == all.drop_first(),
    {
        assert(self.region_pages(i, cur, end) == seq![(i, cur)] + self.region_pages(i, next, end));
        assert(all.drop_first() =~= self.region_pages(i, next, end) + self.candidates(i + 1, None));
        assert(all[0] == (i, cur));
    }

    /// A region that ends below the base address yields nothing.
    proof fn lemma_region_pages_below_base(&self, i: int, cur: int, end: int)
        requires
            self.base_address_spec() matches Some(b) && end < b,
        ensures
            self.region_pages(i, cur, end) == Seq::<(int, int)>::empty(),
        decreases end - cur,
    {
        let size = largest_page_size(cur, end);
        if size > 0 {
            self.lemma_region_pages_below_base(i, cur + size, end);
        }
    }

    /// The next page, or `None` once all pages have been yielded; an exhausted iterator
    /// stays exhausted.
    pub fn next(&mut self) -> (r: Option<Address>)
        requires
            old(self).iterator_wf(),
        ensures
            final(self).iterator_wf(),
            final(self).regions() == old(self).regions(),
            final(self).page_size_spec() == old(self).page_size_spec(),
            final(self).region_type_spec() == old(self).region_type_spec(),
            final(self).base_address_spec() == old(self).base_address_spec(),
            final(self).exclude_spec() == old(self).exclude_spec(),
            old(self).remaining().len() == 0 ==> r is None && final(self).remaining().len() == 0,
            old(self).remaining().len() > 0 ==> r == Some(old(self).remaining()[0].1 as Address),
            old(self).remaining().len() > 0 ==> final(self).remaining() == old(
                self,
            ).remaining().drop_first(),
    {
        let (region, page, result) = self.iterate(self.current_region, self.current_page);
        let ghost before = *self;
        if result.is_some() {
            self.current_region = region;
            self.current_page = Some(page);
            proof {
                lemma_candidates_same(before, *self, region as int, Some(page));
            }
        } else {
            self.current_region = self.mmap.get_num_regions();
            self.current_page = None;
        }
        result
    }
}

/// The walk of region `region` from `cur` to `end` yields pages of the iterator's size,
/// each aligned to that size, at or above `cur`, ending at or below `end` and passing the
/// filters, in ascending order.
proof fn lemma_region_pages_shape(it: PageIterator, region: int, cur: int, end: int)
    ensures
        forall|k: int|
            #![trigger it.region_pages(region, cur, end)[k]]
            0 <= k < it.region_pages(region, cur, end).len() ==> {
                let p = it.region_pages(region, cur, end)[k];
                &&& p.0 == region
                &&& cur <= p.1
                &&& p.1 % it.page_size_spec() == 0
                &&& p.1 + it.page_size_spec() <= end
                &&& it.passes(p.1)
            },
        forall|k1: int, k2: int|
            #![trigger it.region_pages(region, cur, end)[k1], it.region_pages(region, cur, end)[k2]]
            0 <= k1 < k2 < it.region_pages(region, cur, end).len() ==> it.region_pages(
                region,
                cur,
                end,
            )[k1].1 < it.region_pages(region, cur, end)[k2].1,
        it.region_pages(region, cur, end).len() > 0 ==> it.page_size_spec() > 0,
    decreases end - cur,
{
    let size = largest_page_size(cur, end);
    if size > 0 {
        lemma_region_pages_shape(it, region, cur + size, end);
        let rest = it.region_pages(region, cur + size, end);
        let all = it.region_pages(region, cur, end);
        if size == it.page_size_spec() && it.passes(cur) {
            assert(all == seq![(region, cur)] + rest);
            assert forall|k: int| 0 < k < all.len() implies #[trigger] all[k] == rest[k - 1] by {}
            assert forall|k1: int, k2: int| 0 <= k1 < k2 < all.len() implies #[trigger] all[k1].1
                < #[trigger] all[k2].1 by {
                if k1 > 0 {
                    assert(all[k1] == rest[k1 - 1]);
                }
                assert(all[k2] == rest[k2 - 1]);
            }
        } else {
            assert(all == rest);
        }
    }
}

/// A page iterator walks, from region `i` on, only whole pages of its size: each aligned
/// to that size and lying inside a region of the iterator's type, at or above the
/// region's start and ending at or below its end, and each passing the base-address
/// and excluded-range filters.  The pages come region by region in the map's order, and
/// in ascending order within a region.  From region 0 this is what a fresh iterator
/// yields, one page per call of `next`, and what `get_count` counts.
pub proof fn law_walk_yields_whole_pages_in_order(it: PageIterator, i: int)
    requires
        0 <= i,
    ensures
        forall|k: int|
            #![trigger it.candidates(i, None)[k]]
            0 <= k < it.candidates(i, None).len() ==> {
                let p = it.candidates(i, None)[k];
                let region = it.regions()[p.0];
                &&& i <= p.0 < it.regions().len()
                &&& it.type_matches(region)
                &&& it.passes(p.1)
                &&& p.1 % it.page_size_spec() == 0
                &&& region.start <= p.1
                &&& p.1 + it.page_size_spec() <= region.end
            },
        forall|k1: int, k2: int|
            #![trigger it.candidates(i, None)[k1], it.candidates(i, None)[k2]]
            0 <= k1 < k2 < it.candidates(i, None).len() ==> {
                let p1 = it.candidates(i, None)[k1];
                let p2 = it.candidates(i, None)[k2];
                p1.0 < p2.0 || (p1.0 == p2.0 && p1.1 < p2.1)
            },
        it.candidates(i, None).len() > 0 ==> it.page_size_spec() > 0,
    decreases it.regions().len() - i,
{
    if i < it.regions().len() {
        law_walk_yields_whole_pages_in_order(it, i + 1);
        let all = it.candidates(i, None);
        let later = it.candidates(i + 1, None);
        if it.type_matches(it.regions()[i]) {
            let region = it.regions()[i];
            let w = first_4kb_boundary(region.start as int);
            assert(w >= region.start);
            lemma_region_pages_shape(it, i, w, region.end as int);
            let here = it.region_pages(i, w, region.end as int);
            assert(all == here + later);
            assert forall|k: int| 0 <= k < all.len() implies #[trigger] all[k] == (if k < here.len() {
                here[k]
            } else {
                later[k - here.len()]
            }) by {}
            assert forall|k: int| 0 <= k < all.len() implies ({
                let p = #[trigger] all[k];
                let r = it.regions()[p.0];
                &&& i <= p.0 < it.regions().len()
                &&& it.type_matches(r)
                &&& it.passes(p.1)
                &&& p.1 % it.page_size_spec() == 0
                &&& r.start <= p.1
                &&& p.1 + it.page_size_spec() <= r.end
            }) by {
                if k < here.len() {
                    assert(all[k] == here[k]);
                } else {
                    assert(all[k] == later[k - here.len()]);
                }
            }
            assert forall|k1: int, k2: int| 0 <= k1 < k2 < all.len() implies ({
                let p1 = #[trigger] all[k1];
                let p2 = #[trigger] all[k2];
                p1.0 < p2.0 || (p1.0 == p2.0 && p1.1 < p2.1)
            }) by {
                if k2 < here.len() {
                    assert(all[k1] == here[k1]);
                    assert(all[k2] == here[k2]);
                } else if k1 < here.len() {
                    assert(all[k1] == here[k1]);
                    assert(all[k2] == later[k2 - here.len()]);
                } else {
                    assert(all[k1] == later[k1 - here.len()]);
                    assert(all[k2] == later[k2 - here.len()]);
                }
            }
        } else {
            assert(all == later);
        }
    }
}

/// Whether the aligned page of `size` bytes that holds `addr` reaches outside the span
/// from `start` up to `end`.
pub open spec fn block_outside(addr: int, start: int, end: int, size: int) -> bool {
    addr - addr % size < start || addr - addr % size + size > end
}

/// Along the walk of a span from `start` to `end`: wherever the walk stands inside an
/// aligned larger page (2MB or 1GB) rather than at its start, that larger page reaches
/// outside the span.
spec fn larger_pages_outside(cur: int, start: int, end: int) -> bool {
    &&& (cur % PAGE_SIZE_2MB as int == 0 || block_outside(cur, start, end, PAGE_SIZE_2MB as int))
    &&& (cur % PAGE_SIZE_1GB as int == 0 || block_outside(cur, start, end, PAGE_SIZE_1GB as int))
}

/// A multiple of `big`, itself `k` times `small`, is a multiple of `small`.
proof fn lemma_multiple_of_multiple(x: int, small: int, big: int, k: int)
    requires
        small > 0,
        k >= 1,
        big == k * small,
        x % big == 0,
    ensures
        x % small == 0,
{
    assert(big > 0) by (nonlinear_arith)
        requires
            small > 0,
            k >= 1,
            big == k * small,
    ;
    vstd::arithmetic::div_mod::lemma_fundamental_div_mod(x, big);
    let q = x / big;
    assert(x == (q * k) * small) by (nonlinear_arith)
        requires
            x == big * q + x % big,
            x % big == 0,
            big == k * small,
    ;
    vstd::arithmetic::div_mod::lemma_mod_multiples_basic(q * k, small);
}

/// The next multiple of `m` after a multiple of `m` is a multiple of `m`.
proof fn lemma_next_multiple(x: int, m: int)
    requires
        m > 0,
        x % m == 0,
    ensures
        (x + m) % m == 0,
{
    vstd::arithmetic::div_mod::lemma_fundamental_div_mod(x, m);
    let q = x / m;
    assert(x + m == (q + 1) * m) by (nonlinear_arith)
        requires
            x == m * q + x % m,
            x % m == 0,
    ;
    vstd::arithmetic::div_mod::lemma_mod_multiples_basic(q + 1, m);
}

/// A step of `s` bytes from an address aligned to `s` either lands on a boundary of the
/// larger size `big` (`k` times `s`) or stays in the aligned `big` page it started in.
proof fn lemma_step_in_block(cur: int, s: int, big: int, k: int)
    requires
        s > 0,
        k >= 1,
        big == k * s,
        cur >= 0,
        cur % s == 0,
    ensures
        (cur + s) % big == 0 || (cur + s) - (cur + s) % big == cur - cur % big,
{
    assert(big > 0) by (nonlinear_arith)
        requires
            s > 0,
            k >= 1,
            big == k * s,
    ;
    vstd::arithmetic::div_mod::lemma_fundamental_div_mod(cur, big);
    vstd::arithmetic::div_mod::lemma_fundamental_div_mod(cur, s);
    vstd::arithmetic::div_mod::lemma_mod_pos_bound(cur, big);
    let q = cur / big;
    let r = cur % big;
    let m = cur / s;
    let t = m - k * q;
    assert(r == s * t) by (nonlinear_arith)
        requires
            cur == s * m + cur % s,
            cur % s == 0,
            cur == big * q + r,
            big == k * s,
            t == m - k * q,
    ;
    assert(0 <= t < k) by (nonlinear_arith)
        requires
            r == s * t,
            0 <= r < big,
            big == k * s,
            s > 0,
    ;
    if t + 1 == k {
        assert(cur + s == (q + 1) * big) by (nonlinear_arith)
            requires
                cur == big * q + r,
                r == s * t,
                t + 1 == k,
                big == k * s,
        ;
        vstd::arithmetic::div_mod::lemma_mod_multiples_basic(q + 1, big);
    } else {
        assert(r + s < big) by (nonlinear_arith)
            requires
                r == s * t,
                t + 1 < k,
                big == k * s,
                s > 0,
        ;
        vstd::arithmetic::div_mod::lemma_fundamental_div_mod_converse(cur + s, big, q, r + s);
    }
}

/// The walk from `cur` to `end` takes the largest page at each step, so no page it yields
/// of a size below 2MB (or below 1GB) lies in an aligned 2MB (or 1GB) page that fits
/// wholly between `start` and `end`.
proof fn lemma_region_pages_largest(it: PageIterator, region: int, start: int, cur: int, end: int)
    requires
        cur >= 0,
        larger_pages_outside(cur, start, end),
    ensures
        forall|k: int|
            #![trigger it.region_pages(region, cur, end)[k]]
            0 <= k < it.region_pages(region, cur, end).len() ==> {
                let p = it.region_pages(region, cur, end)[k];
                &&& it.page_size_spec() < PAGE_SIZE_2MB ==> block_outside(
                    p.1,
                    start,
                    end,
                    PAGE_SIZE_2MB as int,
                )
                &&& it.page_size_spec() < PAGE_SIZE_1GB ==> block_outside(
                    p.1,
                    start,
                    end,
                    PAGE_SIZE_1GB as int,
                )
            },
    decreases end - cur,
{
    let size = largest_page_size(cur, end);
    if size > 0 {
        let next = cur + size;
        let mb2 = PAGE_SIZE_2MB as int;
        let gb1 = PAGE_SIZE_1GB as int;
        // the larger pages around `next`
        if size == gb1 {
            lemma_next_multiple(cur, gb1);
            lemma_multiple_of_multiple(next, mb2, gb1, 512);
        } else if size == mb2 {
            lemma_next_multiple(cur, mb2);
            lemma_step_in_block(cur, mb2, gb1, 512);
        } else {
            lemma_step_in_block(cur, PAGE_SIZE_4KB as int, mb2, 512);
            lemma_step_in_block(cur, PAGE_SIZE_4KB as int, gb1, 262144);
        }
        assert(larger_pages_outside(next, start, end));
        lemma_region_pages_largest(it, region, start, next, end);
        let rest = it.region_pages(region, next, end);
        let all = it.region_pages(region, cur, end);
        if size == it.page_size_spec() && it.passes(cur) {
            assert(all == seq![(region, cur)] + rest);
            assert forall|k: int| 0 < k < all.len() implies #[trigger] all[k] == rest[k - 1] by {}
        } else {
            assert(all == rest);
        }
    }
}

/// The walk of a region starts where no aligned larger page is entered half-way.
proof fn lemma_walk_starts_outside(w: int, end: int)
    requires
        w >= 0,
    ensures
        larger_pages_outside(w, w, end),
{
    vstd::arithmetic::div_mod::lemma_mod_pos_bound(w, PAGE_SIZE_2MB as int);
    vstd::arithmetic::div_mod::lemma_mod_pos_bound(w, PAGE_SIZE_1GB as int);
}

/// Largest pages first: a page the iterator yields from region `i` on never lies in an
/// aligned page of a larger size (2MB, 1GB) that fits wholly in the region's span of
/// whole pages, from its first 4KB boundary to its end; the walk yields such a larger
/// page as one page instead.
pub proof fn law_walk_yields_largest_pages(it: PageIterator, i: int)
    requires
        0 <= i,
    ensures
        forall|k: int|
            #![trigger it.candidates(i, None)[k]]
            0 <= k < it.candidates(i, None).len() ==> {
                let p = it.candidates(i, None)[k];
                let region = it.regions()[p.0];
                let w = first_4kb_boundary(region.start as int);
                &&& it.page_size_spec() < PAGE_SIZE_2MB ==> block_outside(
                    p.1,
                    w,
                    region.end as int,
                    PAGE_SIZE_2MB as int,
                )
                &&& it.page_size_spec() < PAGE_SIZE_1GB ==> block_outside(
                    p.1,
                    w,
                    region.end as int,
                    PAGE_SIZE_1GB as int,
                )
            },
    decreases it.regions().len() - i,
{
    if i < it.regions().len() {
        law_walk_yields_largest_pages(it, i + 1);
        law_walk_yields_whole_pages_in_order(it, i + 1);
        let all = it.candidates(i, None);
        let later = it.candidates(i + 1, None);
        if it.type_matches(it.regions()[i]) {
            let region = it.regions()[i];
            let w = first_4kb_boundary(region.start as int);
            lemma_walk_starts_outside(w, region.end as int);
            lemma_region_pages_largest(it, i, w, w, region.end as int);
            lemma_region_pages_shape(it, i, w, region.end as int);
            let here = it.region_pages(i, w, region.end as int);
            assert(all == here + later);
            assert forall|k: int| 0 <= k < all.len() implies ({
                let p = #[trigger] all[k];
                let r = it.regions()[p.0];
                let wr = first_4kb_boundary(r.start as int);
                &&& it.page_size_spec() < PAGE_SIZE_2MB ==> block_outside(
                    p.1,
                    wr,
                    r.end as int,
                    PAGE_SIZE_2MB as int,
                )
                &&& it.page_size_spec() < PAGE_SIZE_1GB ==> block_outside(
                    p.1,
                    wr,
                    r.end as int,
                    PAGE_SIZE_1GB as int,
                )
            }) by {
                if k < here.len() {
                    assert(all[k] == here[k]);
                } else {
                    assert(all[k] == later[k - here.len()]);
                }
            }
        } else {
            assert(all == later);
        }
    }
}

/// No page twice: when the regions of the map do not overlap, the walk from region `i`
/// on never yields the same address twice.
pub proof fn law_walk_yields_no_page_twice(it: PageIterator, i: int)
    requires
        0 <= i,
        forall|a: int, b: int|
            0 <= a < b < it.regions().len() ==> #[trigger] it.regions()[a].end <= #[trigger] it.regions()[b].start
                || it.regions()[b].end <= it.regions()[a].start,
    ensures
        forall|k1: int, k2: int|
            #![trigger it.candidates(i, None)[k1], it.candidates(i, None)[k2]]
            0 <= k1 < k2 < it.candidates(i, None).len() ==> it.candidates(i, None)[k1].1
                != it.candidates(i, None)[k2].1,
{
    law_walk_yields_whole_pages_in_order(it, i);
    let c = it.candidates(i, None);
    assert forall|k1: int, k2: int| 0 <= k1 < k2 < c.len() implies #[trigger] c[k1].1
        != #[trigger] c[k2].1 by {
        let p1 = c[k1];
        let p2 = c[k2];
        if p1.0 != p2.0 {
            let r1 = it.regions()[p1.0];
            let r2 = it.regions()[p2.0];
            assert(r1.end <= r2.start || r2.end <= r1.start);
        }
    }
}

/// What `get_count` counts is what a fresh iterator built alike yields: `new` and the
/// filters leave an iterator at its start, where the pages still to come are the whole
/// walk of the map, whatever position the counted iterator has reached.
pub proof fn law_count_is_what_a_fresh_iterator_yields(counted: PageIterator, fresh: PageIterator)
    requires
        fresh.regions() == counted.regions(),
        fresh.page_size_spec() == counted.page_size_spec(),
        fresh.region_type_spec() == counted.region_type_spec(),
        fresh.base_address_spec() == counted.base_address_spec(),
        fresh.exclude_spec() == counted.exclude_spec(),
        fresh.current_region_spec() == 0,
        fresh.current_page_spec() is None,
    ensures
        fresh.remaining() == counted.candidates(0, None),
{
    lemma_candidates_same(fresh, counted, 0, None);
}

/// Successive calls of `next`: when each of `states` goes to the next by a call of
/// `next` that returned the matching entry of `results`, the calls yield the pages still
/// to come at the start, one per call in order, and `None` from then on.
pub proof fn law_next_calls_yield_the_remaining_pages(
    states: Seq<PageIterator>,
    results: Seq<Option<Address>>,
)
    requires
        states.len() == results.len() + 1,
        forall|j: int|
            0 <= j < results.len() ==> {
                &&& (#[trigger] states[j]).remaining().len() == 0 ==> results[j] is None
                    && states[j + 1].remaining().len() == 0
                &&& states[j].remaining().len() > 0 ==> results[j] == Some(
                    states[j].remaining()[0].1 as Address,
                ) && states[j + 1].remaining() == states[j].remaining().drop_first()
            },
    ensures
        forall|j: int|
            0 <= j < results.len() ==> #[trigger] results[j] == if j < states[0].remaining().len() {
                Some(states[0].remaining()[j].1 as Address)
            } else {
                None::<Address>
            },
{
    let first = states[0].remaining();
    assert forall|j: int| 0 <= j < results.len() implies #[trigger] results[j] == if j
        < first.len() {
        Some(first[j].1 as Address)
    } else {
        None::<Address>
    } by {
        lemma_remaining_after_calls(states, results, j);
        assert(states[j].remaining().len() > 0 ==> states[j].remaining()[0] == first[j]);
    }
}

/// After `j` calls of `next`, the pages still to come are those at the start less the
/// first `j`.
proof fn lemma_remaining_after_calls(states: Seq<PageIterator>, results: Seq<Option<Address>>, j: int)
    requires
        states.len() == results.len() + 1,
        0 <= j <= results.len(),
        forall|j: int|
            0 <= j < results.len() ==> {
                &&& (#[trigger] states[j]).remaining().len() == 0 ==> results[j] is None
                    && states[j + 1].remaining().len() == 0
                &&& states[j].remaining().len() > 0 ==> results[j] == Some(
                    states[j].remaining()[0].1 as Address,
                ) && states[j + 1].remaining() == states[j].remaining().drop_first()
            },
    ensures
        j <= states[0].remaining().len() ==> states[j].remaining() == states[0].remaining().skip(j),
        j >= states[0].remaining().len() ==> states[j].remaining().len() == 0,
    decreases j,
{
    if j > 0 {
        lemma_remaining_after_calls(states, results, j - 1);
        let prev = states[j - 1];
        let first = states[0].remaining();
        if j - 1 < first.len() {
            assert(prev.remaining() == first.skip(j - 1));
            assert(prev.remaining().drop_first() =~= first.skip(j));
        }
    }
}

/// What an iterator yields depends only on its map, its page size and its filters.
proof fn lemma_candidates_same(a: PageIterator, b: PageIterator, i: int, start: Option<Address>)
    requires
        a.regions() == b.regions(),
        a.page_size_spec() == b.page_size_spec(),
        a.region_type_spec() == b.region_type_spec(),
        a.base_address_spec() == b.base_address_spec(),
        a.exclude_spec() == b.exclude_spec(),
    ensures
        a.candidates(i, start) == b.candidates(i, start),
    decreases a.regions().len() - i,
{
    if 0 <= i < a.regions().len() {
        lemma_candidates_same(a, b, i + 1, start);
        lemma_candidates_same(a, b, i + 1, None);
        let w = match start {
            Some(sp) => sp as int,
            None => first_4kb_boundary(a.regions()[i].start as int),
        };
        lemma_region_pages_same(a, b, i, w, a.regions()[i].end as int);
    }
}

proof fn lemma_region_pages_same(a: PageIterator, b: PageIterator, region: int, cur: int, end: int)
    requires
        a.page_size_spec() == b.page_size_spec(),
        a.base_address_spec() == b.base_address_spec(),
        a.exclude_spec() == b.exclude_spec(),
    ensures
        a.region_pages(region, cur, end) == b.region_pages(region, cur, end),
    decreases end - cur,
{
    let size = largest_page_size(cur, end);
    if size > 0 {
        lemma_region_pages_same(a, b, region, cur + size, end);
    }
}

/// Where the walk of a region starts: its first 4KB boundary, for a region that is not
/// empty.
fn first_page_boundary(start: Address, end: Address) -> (r: Address)
    requires
        start < end,
        end + PAGE_SIZE_1GB <= u64::MAX,
    ensures
        r == first_4kb_boundary(start as int),
        r as int % PAGE_SIZE_4KB as int == 0,
{
    if is_4kb_aligned(start) {
        start
    } else {
        let r = next_4kb_page(start);
        proof {
            let k = start as int / PAGE_SIZE_4KB as int;
            vstd::arithmetic::div_mod::lemma_fundamental_div_mod(start as int, PAGE_SIZE_4KB as int);
            assert(r == (k + 1) * PAGE_SIZE_4KB) by (nonlinear_arith)
                requires
                    start == PAGE_SIZE_4KB * k + start as int % PAGE_SIZE_4KB as int,
                    r == start - start as int % PAGE_SIZE_4KB as int + PAGE_SIZE_4KB,
            ;
            vstd::arithmetic::div_mod::lemma_mod_multiples_basic(k + 1, PAGE_SIZE_4KB as int);
        }
        r
    }
}

/// A walk that starts at or past a region's end yields nothing.
proof fn lemma_region_pages_past_end(it: PageIterator, i: int, cur: int, end: int)
    requires
        cur >= end,
    ensures
        it.region_pages(i, cur, end) == Seq::<(int, int)>::empty(),
{
}

/// A 1GB page that fits is the largest page there.
proof fn lemma_fits_1gb(cur: int, end: int)
    requires
        page_fits(cur, end, PAGE_SIZE_1GB as int),
    ensures
        largest_page_size(cur, end) == PAGE_SIZE_1GB,
{
}

/// A 2MB page that fits, where no 1GB page does, is the largest page there.
proof fn lemma_fits_2mb(cur: int, end: int)
    requires
        page_fits(cur, end, PAGE_SIZE_2MB as int),
        !page_fits(cur, end, PAGE_SIZE_1GB as int),
    ensures
        largest_page_size(cur, end) == PAGE_SIZE_2MB,
{
}

/// A 4KB page that fits, where no 2MB page does, is the largest page there.
proof fn lemma_fits_4kb(cur: int, end: int)
    requires
        page_fits(cur, end, PAGE_SIZE_4KB as int),
        !page_fits(cur, end, PAGE_SIZE_2MB as int),
    ensures
        largest_page_size(cur, end) == PAGE_SIZE_4KB,
{
    lemma_fits_1gb_fits_2mb(cur, end);
}

/// Where a 1GB page fits, so does a 2MB page.
proof fn lemma_fits_1gb_fits_2mb(cur: int, end: int)
    ensures
        page_fits(cur, end, PAGE_SIZE_1GB as int) ==> page_fits(cur, end, PAGE_SIZE_2MB as int),
{
    if page_fits(cur, end, PAGE_SIZE_1GB as int) {
        let k = cur / PAGE_SIZE_1GB as int;
        vstd::arithmetic::div_mod::lemma_fundamental_div_mod(cur, PAGE_SIZE_1GB as int);
        assert(cur == k * PAGE_SIZE_1GB);
        vstd::arithmetic::mul::lemma_mul_is_associative(k, 512, PAGE_SIZE_2MB as int);
        assert(cur == (k * 512) * PAGE_SIZE_2MB);
        vstd::arithmetic::div_mod::lemma_mod_multiples_basic(k * 512, PAGE_SIZE_2MB as int);
    }
}

/// Below the end of the walk, no page fits.
proof fn lemma_nothing_fits(cur: int, end: int)
    requires
        !(cur < end && cur + PAGE_SIZE_4KB <= end),
    ensures
        largest_page_size(cur, end) == 0,
{
}

} // verus!
