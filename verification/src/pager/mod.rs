//! The architecture-independent pager interface, and structures built on it.
use vstd::prelude::*;
use crate::errors::{ErrCode, PagerError};
use crate::types::{Address, PhysicalAddress, VirtualAddress};

pub mod address_aggregator;
pub mod page_stack;
pub mod test_helpers;
pub mod page_iterator;
pub mod on_demand_array;
pub mod on_demand_stack;

verus! {

pub const PAGE_SIZE_4KB: usize = 4096;
pub const PAGE_SIZE_2MB: usize = 2 * 1024 * 1024;
pub const PAGE_SIZE_1GB: usize = 1024 * 1024 * 1024;

pub fn is_4kb_aligned(addr: Address) -> (r: bool)
    ensures
        r == (addr % PAGE_SIZE_4KB as u64 == 0),
{
    addr % PAGE_SIZE_4KB as u64 == 0
}

pub fn is_2mb_aligned(addr: Address) -> (r: bool)
    ensures
        r == (addr % PAGE_SIZE_2MB as u64 == 0),
{
    addr % PAGE_SIZE_2MB as u64 == 0
}

pub fn is_1gb_aligned(addr: Address) -> (r: bool)
    ensures
        r == (addr % PAGE_SIZE_1GB as u64 == 0),
{
    addr % PAGE_SIZE_1GB as u64 == 0
}

/// The first 4KB page boundary above `addr`.
pub fn next_4kb_page(addr: Address) -> (r: Address)
    requires
        addr + PAGE_SIZE_4KB <= u64::MAX,
    ensures
        r == addr - addr as int % PAGE_SIZE_4KB as int + PAGE_SIZE_4KB,
{
    let rem = addr % PAGE_SIZE_4KB as u64;
    proof {
        lemma_mod_le(addr as int, PAGE_SIZE_4KB as int);
    }
    addr - rem + PAGE_SIZE_4KB as u64
}

/// The first 2MB page boundary above `addr`.
pub fn next_2mb_page(addr: Address) -> (r: Address)
    requires
        addr + PAGE_SIZE_2MB <= u64::MAX,
    ensures
        r == addr - addr as int % PAGE_SIZE_2MB as int + PAGE_SIZE_2MB,
{
    let rem = addr % PAGE_SIZE_2MB as u64;
    proof {
        lemma_mod_le(addr as int, PAGE_SIZE_2MB as int);
    }
    addr - rem + PAGE_SIZE_2MB as u64
}

/// The first 1GB page boundary above `addr`.
pub fn next_1gb_page(addr: Address) -> (r: Address)
    requires
        addr + PAGE_SIZE_1GB <= u64::MAX,
    ensures
        r == addr - addr as int % PAGE_SIZE_1GB as int + PAGE_SIZE_1GB,
{
    let rem = addr % PAGE_SIZE_1GB as u64;
    proof {
        lemma_mod_le(addr as int, PAGE_SIZE_1GB as int);
    }
    addr - rem + PAGE_SIZE_1GB as u64
}

/// A remainder never exceeds the number divided.
pub proof fn lemma_mod_le(x: int, d: int)
    requires
        x >= 0,
        d > 0,
    ensures
        0 <= x % d <= x,
        x % d < d,
{
    vstd::arithmetic::div_mod::lemma_fundamental_div_mod(x, d);
    vstd::arithmetic::div_mod::lemma_div_pos_is_pos(x, d);
    vstd::arithmetic::div_mod::lemma_mod_pos_bound(x, d);
    let q = x / d;
    assert(d * q >= 0) by (nonlinear_arith)
        requires
            d > 0,
            q >= 0,
    ;
}

/// The base-2 logarithm of `n`, rounded down (0 for 0 and 1).
pub open spec fn floor_log2(n: nat) -> nat
    decreases n,
{
    if n <= 1 {
        0
    } else {
        1 + floor_log2(n / 2)
    }
}

/// The rounded-down logarithm never exceeds its argument.
pub proof fn lemma_floor_log2_le(n: nat)
    ensures
        floor_log2(n) <= n,
        n >= 2 ==> floor_log2(n) >= 1,
    decreases n,
{
    if n > 1 {
        lemma_floor_log2_le(n / 2);
    }
}

/// Below `2^k`, the rounded-down logarithm is below `k`.
pub proof fn lemma_floor_log2_below(n: nat, k: nat)
    requires
        1 <= k,
        n < vstd::arithmetic::power2::pow2(k),
    ensures
        floor_log2(n) < k,
    decreases n,
{
    if n > 1 {
        vstd::arithmetic::power2::lemma_pow2_unfold(k);
        vstd::arithmetic::power2::lemma2_to64();
        lemma_floor_log2_below(n / 2, (k - 1) as nat);
    }
}

/// The rounded-down logarithm of a 64-bit value is below 64.
pub proof fn lemma_floor_log2_u64(n: nat)
    requires
        n <= u64::MAX,
    ensures
        floor_log2(n) < 64,
{
    vstd::arithmetic::power2::lemma2_to64();
    lemma_floor_log2_below(n, 64);
}

/// The number of pages that the `size` bytes from `addr` touch: from the page of the
/// first byte to the page of the last, pages being found by shifting an address down by
/// the logarithm of the page size.  An element of no bytes takes the page at `addr`.
pub open spec fn spanned_page_count(addr: int, size: nat, page_size: nat) -> nat {
    let k = floor_log2(page_size) as u64;
    if size == 0 {
        1
    } else {
        ((((addr + size - 1) as u64) >> k) - ((addr as u64) >> k) + 1) as nat
    }
}

/// The most pages an element of `elem_size` bytes can touch, wherever it lies: its size
/// shifted down by the logarithm of the page size, plus two.
pub open spec fn element_page_count(elem_size: nat, page_size: nat) -> nat {
    ((elem_size as u64) >> (floor_log2(page_size) as u64)) as nat + 2
}

/// The number of pages of `pager` that the `size` bytes from `addr` touch.
pub fn pages_spanned<P: Pager + ?Sized>(pager: &P, addr: VirtualAddress, size: usize) -> (r: usize)
    requires
        addr.0 + size <= u64::MAX,
        spanned_page_count(addr.0 as int, size as nat, pager.page_size() as nat) <= usize::MAX,
    ensures
        r == spanned_page_count(addr.0 as int, size as nat, pager.page_size() as nat),
{
    if size == 0 {
        return 1;
    }
    let log2 = pager.get_page_size_log2();
    proof {
        lemma_floor_log2_u64(pager.page_size() as nat);
    }
    let k = log2 as u64;
    let last = addr.0 + (size as u64) - 1;
    let first = addr.0;
    assert(first >> k <= last >> k) by (bit_vector)
        requires
            first <= last,
            k < 64,
    ;
    let n = (last >> k) - (first >> k) + 1;
    n as usize
}

/// An element never touches more pages than `element_page_count` allows.
pub proof fn lemma_spanned_page_count_bound(addr: int, size: nat, page_size: nat)
    requires
        0 <= addr,
        addr + size <= u64::MAX,
        page_size <= u64::MAX,
    ensures
        spanned_page_count(addr, size, page_size) <= element_page_count(size, page_size),
{
    let k = floor_log2(page_size);
    lemma_floor_log2_u64(page_size);
    if size > 0 {
        let last = (addr + size - 1) as u64;
        let first = addr as u64;
        let sz = size as u64;
        vstd::bits::lemma_u64_shr_is_div(last, k as u64);
        vstd::bits::lemma_u64_shr_is_div(first, k as u64);
        vstd::bits::lemma_u64_shr_is_div(sz, k as u64);
        vstd::arithmetic::power2::lemma_pow2_pos(k);
        let d = vstd::arithmetic::power2::pow2(k) as int;
        let qa = first as int / d;
        let qs = (size - 1) as int / d;
        vstd::arithmetic::div_mod::lemma_fundamental_div_mod(first as int, d);
        vstd::arithmetic::div_mod::lemma_fundamental_div_mod((size - 1) as int, d);
        vstd::arithmetic::div_mod::lemma_mod_pos_bound(first as int, d);
        vstd::arithmetic::div_mod::lemma_mod_pos_bound((size - 1) as int, d);
        vstd::arithmetic::div_mod::lemma_fundamental_div_mod(last as int, d);
        vstd::arithmetic::div_mod::lemma_mod_pos_bound(last as int, d);
        assert(last as int / d < qa + qs + 2) by (nonlinear_arith)
            requires
                d > 0,
                first == d * qa + first as int % d,
                0 <= first as int % d < d,
                (size - 1) as int == d * qs + (size - 1) as int % d,
                0 <= (size - 1) as int % d < d,
                last == first + (size - 1),
                last == d * (last as int / d) + last as int % d,
                0 <= last as int % d < d,
        ;
        vstd::arithmetic::div_mod::lemma_div_is_ordered((size - 1) as int, size as int, d);
        assert(first as int / d <= last as int / d) by {
            vstd::arithmetic::div_mod::lemma_div_is_ordered(first as int, last as int, d);
        }
    }
}

/// Whether `r` is the outcome of making sure one page is mapped, given what the pager
/// answered to the request to map it: an "already mapped" answer counts as success.
pub open spec fn mapping_outcome(answer: Result<VirtualAddress, ErrCode>) -> Result<(), ErrCode> {
    match answer {
        Ok(_) => Ok(()),
        Err(ErrCode::Pager(PagerError::VirtualAddressAlreadyMapped(_))) => Ok(()),
        Err(e) => Err(e),
    }
}

/// Turns the pager's answer to a one-page mapping request into the outcome of
/// `ensure_mapped`.
pub fn map_answer_outcome(answer: Result<VirtualAddress, ErrCode>) -> (r: Result<(), ErrCode>)
    ensures
        r == mapping_outcome(answer),
{
    match answer {
        Ok(_) => Ok(()),
        Err(ErrCode::Pager(PagerError::VirtualAddressAlreadyMapped(_))) => Ok(()),
        Err(e) => Err(e),
    }
}

/// A page allocator and mapper.  Implementations decide what their calls return; the
/// page size is a constant of each pager, and so are its translations between physical
/// and virtual addresses while structures hold it (`virtual_address_of`,
/// `physical_address_of`).
pub trait Pager {
    /// The page size of this pager.
    spec fn page_size(&self) -> usize;

    fn get_page_size(&self) -> (r: usize)
        ensures
            r == self.page_size(),
    ;

    /// The base-2 logarithm of the page size, rounded down.
    fn get_page_size_log2(&self) -> (r: usize)
        ensures
            r == floor_log2(self.page_size() as nat),
    {
        let page_size = self.get_page_size();
        proof {
            lemma_floor_log2_le(page_size as nat);
        }
        let mut log2: usize = 0;
        let mut size: usize = page_size;
        while size > 1
            invariant
                log2 + floor_log2(size as nat) == floor_log2(page_size as nat),
                floor_log2(page_size as nat) <= page_size,
                page_size == self.page_size(),
            decreases size,
        {
            assert(size >> 1 == size / 2) by (bit_vector);
            size = size >> 1;
            log2 = log2 + 1;
        }
        log2
    }

    /// The mask of the offset bits within a page.
    fn get_page_mask(&self) -> (r: usize)
        requires
            self.page_size() >= 1,
        ensures
            r == self.page_size() - 1,
    {
        self.get_page_size() - 1
    }

    fn allocate_physical(&self) -> Result<PhysicalAddress, ErrCode>;

    fn free_physical(&self, addr: PhysicalAddress) -> Result<(), ErrCode>;

    fn allocate_virtual(&self, num: usize, to_addr: VirtualAddress) -> Result<
        VirtualAddress,
        ErrCode,
    >;

    fn free_virtual(&self, num: usize, base_addr: VirtualAddress) -> Result<(), ErrCode>;

    fn map_physical_to_virtual(&self, phys: PhysicalAddress, virt: VirtualAddress) -> Result<
        (),
        ErrCode,
    >;

    /// How the pager translates physical address `addr`: the virtual address it is seen
    /// at, or why there is none.  A pager's translations stay the same while it is lent
    /// to the structures that use it.
    spec fn virtual_address_of(&self, addr: PhysicalAddress) -> Result<VirtualAddress, ErrCode>;

    /// How the pager translates virtual address `addr`: the physical address behind it,
    /// or why there is none.
    spec fn physical_address_of(&self, addr: VirtualAddress) -> Result<PhysicalAddress, ErrCode>;

    fn get_virtual_address(&self, addr: PhysicalAddress) -> (r: Result<VirtualAddress, ErrCode>)
        ensures
            r == self.virtual_address_of(addr),
    ;

    fn get_physical_address(&self, addr: VirtualAddress) -> (r: Result<PhysicalAddress, ErrCode>)
        ensures
            r == self.physical_address_of(addr),
    ;

    /// Makes sure the page at `virtual_addr` is mapped; a page that is mapped already
    /// counts as success.
    fn ensure_mapped(&self, virtual_addr: VirtualAddress) -> (r: Result<(), ErrCode>)
        ensures
            !(r matches Err(ErrCode::Pager(PagerError::VirtualAddressAlreadyMapped(_)))),
    {
        map_answer_outcome(self.allocate_virtual(1, virtual_addr))
    }

    /// Makes sure the `num_pages` pages from `virtual_addr` up are mapped, stopping at the
    /// first failure.
    fn ensure_mapped_range(&self, virtual_addr: VirtualAddress, num_pages: usize) -> (r: Result<
        (),
        ErrCode,
    >)
        requires
            virtual_addr.0 + num_pages * self.page_size() <= u64::MAX,
            num_pages * self.page_size() <= usize::MAX,
        ensures
            !(r matches Err(ErrCode::Pager(PagerError::VirtualAddressAlreadyMapped(_)))),
        default_ensures
            num_pages == 0 ==> r == Ok::<(), ErrCode>(()),
    {
        let page_size = self.get_page_size();
        let mut i: usize = 0;
        while i < num_pages
            invariant
                i <= num_pages,
                page_size == self.page_size(),
                virtual_addr.0 + num_pages * page_size <= u64::MAX,
                num_pages * page_size <= usize::MAX,
            decreases num_pages - i,
        {
            assert(i * page_size <= num_pages * page_size) by (nonlinear_arith)
                requires
                    i <= num_pages,
            ;
            let addr = range_page_address(virtual_addr, i, page_size);
            match self.ensure_mapped(addr) {
                Ok(()) => {},
                Err(e) => {
                    return Err(e);
                },
            }
            i = i + 1;
        }
        Ok(())
    }
}

/// The address of page `i` of a range of pages of `page_size` bytes from
/// `virtual_addr` up: the page that `ensure_mapped_range` asks about `i`-th.
pub fn range_page_address(virtual_addr: VirtualAddress, i: usize, page_size: usize) -> (r:
    VirtualAddress)
    requires
        i * page_size <= usize::MAX,
        virtual_addr.0 + i * page_size <= u64::MAX,
    ensures
        r.0 == virtual_addr.0 + i * page_size,
{
    virtual_addr.offset(i * page_size)
}

/// A pager that provides nothing: every request fails as unimplemented.
pub struct NullPager {}

impl Pager for NullPager {
    open spec fn page_size(&self) -> usize {
        0
    }

    fn get_page_size(&self) -> (r: usize) {
        0
    }

    fn allocate_physical(&self) -> (r: Result<PhysicalAddress, ErrCode>)
        ensures
            r == Err::<PhysicalAddress, ErrCode>(ErrCode::Unimplemented),
    {
        Err(ErrCode::Unimplemented)
    }

    fn free_physical(&self, _addr: PhysicalAddress) -> (r: Result<(), ErrCode>)
        ensures
            r == Err::<(), ErrCode>(ErrCode::Unimplemented),
    {
        Err(ErrCode::Unimplemented)
    }

    fn allocate_virtual(&self, _num: usize, _to_addr: VirtualAddress) -> (r: Result<VirtualAddress, ErrCode>)
        ensures
            r == Err::<VirtualAddress, ErrCode>(ErrCode::Unimplemented),
    {
        Err(ErrCode::Unimplemented)
    }

    fn free_virtual(&self, _num: usize, _base_addr: VirtualAddress) -> (r: Result<(), ErrCode>)
        ensures
            r == Err::<(), ErrCode>(ErrCode::Unimplemented),
    {
        Err(ErrCode::Unimplemented)
    }

    fn map_physical_to_virtual(&self, _phys: PhysicalAddress, _virt: VirtualAddress) -> (r: Result<(), ErrCode>)
        ensures
            r == Err::<(), ErrCode>(ErrCode::Unimplemented),
    {
        Err(ErrCode::Unimplemented)
    }

    open spec fn virtual_address_of(&self, addr: PhysicalAddress) -> Result<VirtualAddress, ErrCode> {
        Err(ErrCode::Unimplemented)
    }

    open spec fn physical_address_of(&self, addr: VirtualAddress) -> Result<PhysicalAddress, ErrCode> {
        Err(ErrCode::Unimplemented)
    }

    fn get_virtual_address(&self, _addr: PhysicalAddress) -> (r: Result<VirtualAddress, ErrCode>)
        ensures
            r == Err::<VirtualAddress, ErrCode>(ErrCode::Unimplemented),
    {
        Err(ErrCode::Unimplemented)
    }

    fn get_physical_address(&self, _addr: VirtualAddress) -> (r: Result<PhysicalAddress, ErrCode>)
        ensures
            r == Err::<PhysicalAddress, ErrCode>(ErrCode::Unimplemented),
    {
        Err(ErrCode::Unimplemented)
    }
}

} // verus!
