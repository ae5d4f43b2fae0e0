//! A pager for exercising the page-based structures: pages of 4 KiB whose physical
//! addresses are mapped to virtual addresses given by the user.
use vstd::prelude::*;
use crate::errors::{ErrCode, PagerError};
use crate::pager::{Pager, PAGE_SIZE_4KB};
use crate::types::{PhysicalAddress, VirtualAddress};

verus! {

/// The page at `phys_addr` is seen at `virt_addr`.
#[derive(Clone, Copy, Debug, PartialEq, Eq, Structural)]
pub struct PhysicalVirtualMapping {
    pub phys_addr: PhysicalAddress,
    pub virt_addr: VirtualAddress,
}

/// The address of the first byte of `bytes`, by std's `as_ptr`.  Where a buffer lies is
/// the allocator's choice, so nothing is stated of it.
#[verifier::external_body]
fn first_byte_address(bytes: &[u8]) -> (r: u64) {
    bytes.as_ptr() as usize as u64
}

impl PhysicalVirtualMapping {
    /// The mapping of the page at `phys_addr` to the buffer `virt_addr` holds.
    pub fn from_vec(phys_addr: PhysicalAddress, virt_addr: Vec<u8>) -> (r: Self)
        ensures
            r.phys_addr == phys_addr,
    {
        PhysicalVirtualMapping {
            phys_addr,
            virt_addr: VirtualAddress(first_byte_address(virt_addr.as_slice())),
        }
    }

    /// The mapping of the page at `phys_addr` to the bytes `virt_addr`.
    pub fn from_array(phys_addr: PhysicalAddress, virt_addr: &[u8]) -> (r: Self)
        ensures
            r.phys_addr == phys_addr,
    {
        PhysicalVirtualMapping { phys_addr, virt_addr: VirtualAddress(first_byte_address(virt_addr)) }
    }
}

/// Whether `addr` falls in the page of `mapping`.
pub open spec fn in_mapped_page(mapping: PhysicalVirtualMapping, addr: u64) -> bool {
    mapping.phys_addr.0 <= addr < mapping.phys_addr.0 + PAGE_SIZE_4KB
}

/// The virtual address of `addr` given by the first of `mappings` from index `i` on whose
/// page holds it.
pub open spec fn mapped_address_from(mappings: Seq<PhysicalVirtualMapping>, addr: u64, i: int) -> Option<
    VirtualAddress,
>
    decreases mappings.len() - i,
{
    if i < 0 || i >= mappings.len() {
        None
    } else if in_mapped_page(mappings[i], addr) {
        Some(
            VirtualAddress(
                (mappings[i].virt_addr.0 + (addr - mappings[i].phys_addr.0)) as u64,
            ),
        )
    } else {
        mapped_address_from(mappings, addr, i + 1)
    }
}

/// Whether every mapped page lies below the top of the address space.
pub open spec fn mappings_fit(mappings: Seq<PhysicalVirtualMapping>) -> bool {
    forall|i: int|
        0 <= i < mappings.len() ==> #[trigger] mappings[i].virt_addr.0 + PAGE_SIZE_4KB
            <= u64::MAX
}

/// A pager with 4 KiB pages that translates physical addresses through a list of
/// mappings and provides nothing else.
pub struct TestPager {
    phys_to_virt_mappings: Vec<PhysicalVirtualMapping>,
}

impl TestPager {
    #[verifier::type_invariant]
    spec fn mappings_in_range(&self) -> bool {
        mappings_fit(self.phys_to_virt_mappings@)
    }

    /// The mappings, searched in order.
    pub closed spec fn mappings(&self) -> Seq<PhysicalVirtualMapping> {
        self.phys_to_virt_mappings@
    }

    /// A pager with no mapping.
    pub fn new() -> (r: TestPager)
        ensures
            r.mappings() == Seq::<PhysicalVirtualMapping>::empty(),
    {
        TestPager { phys_to_virt_mappings: Vec::new() }
    }

    /// The pager to hand to the structures under test.
    pub fn get_mock(&self) -> (r: &TestPager)
        ensures
            r == self,
    {
        self
    }

    /// Replaces the mappings with a copy of `mappings`.
    pub fn set_mappings(&mut self, mappings: &Vec<PhysicalVirtualMapping>)
        requires
            mappings_fit(mappings@),
        ensures
            final(self).mappings() == mappings@,
    {
        let mut copy: Vec<PhysicalVirtualMapping> = Vec::new();
        let mut i: usize = 0;
        while i < mappings.len()
            invariant
                i <= mappings.len(),
                copy@ == mappings@.subrange(0, i as int),
                mappings_fit(mappings@),
            decreases mappings.len() - i,
        {
            copy.push(mappings[i]);
            i = i + 1;
            assert(copy@ =~= mappings@.subrange(0, i as int));
        }
        assert(copy@ =~= mappings@);
        self.phys_to_virt_mappings = copy;
    }
}

impl Pager for TestPager {
    open spec fn page_size(&self) -> usize {
        4096
    }

    fn get_page_size(&self) -> (r: usize) {
        4096
    }

    fn allocate_physical(&self) -> (r: Result<PhysicalAddress, ErrCode>)
        ensures
            r == Err::<PhysicalAddress, ErrCode>(ErrCode::Unimplemented),
    {
        Err(ErrCode::Unimplemented)
    }

    fn free_physical(&self, _addr: PhysicalAddress) -> (r: Result<(), ErrCode>)
        ensures
            r == Err::<(), ErrCode>(ErrCode::Unimplemented),
    {
        Err(ErrCode::Unimplemented)
    }

    fn allocate_virtual(&self, _num: usize, _to_addr: VirtualAddress) -> (r: Result<
        VirtualAddress,
        ErrCode,
    >)
        ensures
            r == Err::<VirtualAddress, ErrCode>(ErrCode::Unimplemented),
    {
        Err(ErrCode::Unimplemented)
    }

    fn free_virtual(&self, _num: usize, _base_addr: VirtualAddress) -> (r: Result<(), ErrCode>)
        ensures
            r == Err::<(), ErrCode>(ErrCode::Unimplemented),
    {
        Err(ErrCode::Unimplemented)
    }

    fn map_physical_to_virtual(&self, _phys: PhysicalAddress, _virt: VirtualAddress) -> (r:
        Result<(), ErrCode>)
        ensures
            r == Err::<(), ErrCode>(ErrCode::Unimplemented),
    {
        Err(ErrCode::Unimplemented)
    }

    /// The virtual address given by the first mapping whose page holds `addr`; an address
    /// in no mapped page is reported as not found.
    open spec fn virtual_address_of(&self, addr: PhysicalAddress) -> Result<VirtualAddress, ErrCode> {
        match mapped_address_from(self.mappings(), addr.0, 0) {
            Some(v) => Ok::<VirtualAddress, ErrCode>(v),
            None => Err(ErrCode::Pager(PagerError::PhysicalAddressNotFound(addr))),
        }
    }

    open spec fn physical_address_of(&self, addr: VirtualAddress) -> Result<PhysicalAddress, ErrCode> {
        Err(ErrCode::Unimplemented)
    }

    fn get_virtual_address(&self, addr: PhysicalAddress) -> (r: Result<VirtualAddress, ErrCode>)
        ensures
            r == match mapped_address_from(self.mappings(), addr.0, 0) {
                Some(v) => Ok::<VirtualAddress, ErrCode>(v),
                None => Err(ErrCode::Pager(PagerError::PhysicalAddressNotFound(addr))),
            },
    {
        proof {
            use_type_invariant(self);
        }
        let mut i: usize = 0;
        while i < self.phys_to_virt_mappings.len()
            invariant
                i <= self.phys_to_virt_mappings.len(),
                mappings_fit(self.mappings()),
                mapped_address_from(self.mappings(), addr.0, 0) == mapped_address_from(
                    self.mappings(),
                    addr.0,
                    i as int,
                ),
            decreases self.phys_to_virt_mappings.len() - i,
        {
            let mapping = self.phys_to_virt_mappings[i];
            if addr.0 >= mapping.phys_addr.0 && addr.0 - mapping.phys_addr.0 < 4096 {
                assert(self.mappings()[i as int].virt_addr.0 + PAGE_SIZE_4KB <= u64::MAX);
                let offset = addr.0 - mapping.phys_addr.0;
                return Ok(VirtualAddress(mapping.virt_addr.0 + offset));
            }
            i = i + 1;
        }
        Err(ErrCode::Pager(PagerError::PhysicalAddressNotFound(addr)))
    }

    fn get_physical_address(&self, _addr: VirtualAddress) -> (r: Result<PhysicalAddress, ErrCode>)
        ensures
            r == Err::<PhysicalAddress, ErrCode>(ErrCode::Unimplemented),
    {
        Err(ErrCode::Unimplemented)
    }
}

} // verus!
