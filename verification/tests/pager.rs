use std::collections::HashSet;

use synapse::errors::{ErrCode, PagerError};
use synapse::pager::address_aggregator::{AddressAggregator, PageAggregator, PageBucket, ADDRESSES_PER_PAGE};
use synapse::pager::page_iterator::{MemoryMap, MemoryRegionType, PageIterator};
use synapse::pager::page_stack::PageStack;
use synapse::pager::test_helpers::{PhysicalVirtualMapping, TestPager};
use synapse::pager::{
    is_1gb_aligned, is_2mb_aligned, is_4kb_aligned, map_answer_outcome, next_1gb_page,
    range_page_address,
    next_2mb_page, next_4kb_page, NullPager, Pager, PAGE_SIZE_1GB, PAGE_SIZE_2MB, PAGE_SIZE_4KB,
};
use synapse::types::{Address, PhysicalAddress, VirtualAddress};

type Stack4k = PageStack<4096, { 4096 * 512 }>;

#[test]
fn test_aggregator() {
    let mut aggregator = PageAggregator::<1000>::new(10);

    for i in 0..aggregator.aggregate_map.len() {
        aggregator.aggregate_map[i].allocated = 0;
        aggregator.aggregate_map[i].available = 512;
    }

    aggregator.allocate(0);
    assert_eq!(aggregator.aggregate_map[0].allocated, 1);
    assert_eq!(aggregator.aggregate_map[0].available, 511);

    aggregator.allocate(100);
    assert_eq!(aggregator.aggregate_map[0].allocated, 2);
    assert_eq!(aggregator.aggregate_map[0].available, 510);

    aggregator.allocate(5123);
    assert_eq!(aggregator.aggregate_map[5].allocated, 1);
    assert_eq!(aggregator.aggregate_map[5].available, 511);

    let result = aggregator.deallocate(5999);
    assert_eq!(aggregator.aggregate_map[5].allocated, 0);
    assert_eq!(aggregator.aggregate_map[5].available, 0);
    assert_eq!(result, Some(5000));
}

#[test]
fn test_zero_available_but_not_aggregatable() {
    let mut aggregator = PageAggregator::<1000>::new(10);

    aggregator.aggregate_map[0].allocated = 5;
    aggregator.aggregate_map[0].available = 0;

    assert_eq!(aggregator.deallocate(10), None);
    assert_eq!(aggregator.deallocate(10), None);
    assert_eq!(aggregator.deallocate(10), None);
    assert_eq!(aggregator.deallocate(10), None);
    assert_eq!(aggregator.deallocate(10), None);

    assert_eq!(aggregator.aggregate_map[0].allocated, 0);
    assert_eq!(aggregator.aggregate_map[0].available, 5);
}

#[test]
fn aggregator_allocate_then_deallocate() {
    let mut aggregator = PageAggregator::<4096>::new(1);
    aggregator.aggregate_map[0] = PageBucket { allocated: 3, available: 7 };
    aggregator.allocate(100);
    assert_eq!(aggregator.aggregate_map[0], PageBucket { allocated: 4, available: 6 });
    assert_eq!(aggregator.deallocate(100), None);
    assert_eq!(aggregator.aggregate_map[0], PageBucket { allocated: 3, available: 7 });

    aggregator.aggregate_map[0] = PageBucket { allocated: 0, available: 512 };
    aggregator.allocate(0);
    assert_eq!(aggregator.deallocate(0), Some(0));
    assert_eq!(aggregator.aggregate_map[0], PageBucket { allocated: 0, available: 0 });
}

#[test]
fn aggregator_marks_pages() {
    let mut aggregator = PageAggregator::<4096>::new(2);
    aggregator.mark_available(4096 + 10);
    aggregator.mark_available(4096 + 20);
    aggregator.mark_allocated(30);
    assert_eq!(aggregator.aggregate_map[1], PageBucket { allocated: 0, available: 2 });
    assert_eq!(aggregator.aggregate_map[0], PageBucket { allocated: 1, available: 0 });
}

#[test]
fn page_stack_test_create_stack() {
    let addresses: Vec<Address> = vec![0x3000, 0x4000, 0x5000];
    let ps = Stack4k::new(0x10000, 10 * ADDRESSES_PER_PAGE, &addresses);

    assert_eq!(ps.available_pages.index(0), 0x3000);
    assert_eq!(ps.available_pages.index(1), 0x4000);
    assert_eq!(ps.available_pages.index(2), 0x5000);
    assert_eq!(ps.aggregate_map.aggregate_map[0].available, 3);
    assert_eq!(ps.len(), 3);
}

#[test]
fn test_allocate_page() {
    let address1 = 0x1234000 as Address;
    let address2 = 0x5678000 as Address;
    let addresses = vec![address1, address2];
    let max_pages = address2 as usize / 4096;

    let mut ps = Stack4k::new(0x10000, max_pages, &addresses);

    assert_eq!(ps.allocate_page(), Some(address2));
    assert_eq!(ps.allocate_page(), Some(address1));
    assert_eq!(ps.allocate_page(), None);
}

#[test]
fn test_deallocate_page() {
    let addresses: Vec<Address> = vec![];
    let address1 = 0x1234000 as Address;
    let address2 = 0x5678000 as Address;
    let max_pages = address2 as usize / 4096;

    let mut ps = Stack4k::new(0x10000, max_pages, &addresses);

    ps.aggregate_map.aggregate_map[address1 as usize / PAGE_SIZE_2MB].allocated = 5;
    ps.aggregate_map.aggregate_map[address2 as usize / PAGE_SIZE_2MB].allocated = 10;

    assert_eq!(ps.deallocate_page(address1), None);
    assert_eq!(ps.deallocate_page(address2), None);

    assert_eq!(ps.available_pages.index(0), 0x1234000);
    assert_eq!(ps.available_pages.index(1), 0x5678000);
    assert_eq!(ps.aggregate_map.aggregate_map[address1 as usize / PAGE_SIZE_2MB].allocated, 4);
    assert_eq!(ps.aggregate_map.aggregate_map[address1 as usize / PAGE_SIZE_2MB].available, 1);
    assert_eq!(ps.aggregate_map.aggregate_map[address2 as usize / PAGE_SIZE_2MB].allocated, 9);
    assert_eq!(ps.aggregate_map.aggregate_map[address2 as usize / PAGE_SIZE_2MB].available, 1);
}

#[test]
fn test_deallocation_aggregation() {
    let mut addresses = Vec::<Address>::new();
    let base_address = (PAGE_SIZE_2MB * 5) as Address;
    let top_of_stack = base_address + (PAGE_SIZE_2MB - PAGE_SIZE_4KB) as Address;
    for i in (0..PAGE_SIZE_2MB).step_by(PAGE_SIZE_4KB) {
        addresses.push(base_address + i as Address)
    }
    assert_eq!(addresses.len(), ADDRESSES_PER_PAGE);

    let max_pages = (PAGE_SIZE_2MB * 6) / 4096;
    let mut ps = Stack4k::new(0x10000, max_pages, &addresses);

    assert_eq!(ps.available_pages.index(0), base_address);
    assert_eq!(ps.available_pages.index(511), top_of_stack);
    assert_eq!(ps.len(), ADDRESSES_PER_PAGE);

    assert_eq!(ps.allocate_page(), Some(top_of_stack));
    assert_eq!(ps.deallocate_page(top_of_stack), Some(base_address));
    assert_eq!(ps.len(), 0);
}

#[test]
fn test_deallocation_aggregation_stack_cleanup() {
    let mut addresses = Vec::<Address>::new();
    let base_address_aggregate_page = (PAGE_SIZE_2MB * 5) as Address;
    let base_address_other_page = (PAGE_SIZE_2MB * 2) as Address;
    let top_of_stack = base_address_aggregate_page + (PAGE_SIZE_2MB - PAGE_SIZE_4KB) as Address;

    for i in 0..512 {
        addresses.push(base_address_other_page + (i * PAGE_SIZE_4KB) as Address);
        addresses.push(base_address_aggregate_page + (i * PAGE_SIZE_4KB) as Address);
    }
    assert_eq!(addresses.len(), ADDRESSES_PER_PAGE * 2);

    let max_pages = (PAGE_SIZE_2MB * 6) / 4096;
    let mut ps = Stack4k::new(0x10000, max_pages, &addresses);

    assert_eq!(ps.len(), addresses.len());

    assert_eq!(ps.allocate_page(), Some(top_of_stack));
    assert_eq!(ps.deallocate_page(top_of_stack), Some(base_address_aggregate_page));
    assert_eq!(ps.len(), 512);

    let mut address_set = HashSet::new();
    while ps.len() > 0 {
        if let Some(page) = ps.allocate_page() {
            assert!(page >= base_address_other_page);
            assert!(page < base_address_other_page + PAGE_SIZE_2MB as Address);
            address_set.insert(page);
        } else {
            assert!(false);
        }
    }
    assert_eq!(address_set.len(), 512);
}

#[test]
fn page_stack_allocate_then_deallocate_restores_counts() {
    let addresses: Vec<Address> = vec![0x3000, 0x4000];
    let mut ps = Stack4k::new(0x10000, 1024, &addresses);
    let page = ps.allocate_page().unwrap();
    assert_eq!(page, 0x4000);
    assert_eq!(ps.aggregate_map.aggregate_map[0], PageBucket { allocated: 1, available: 1 });
    assert_eq!(ps.deallocate_page(page), None);
    assert_eq!(ps.aggregate_map.aggregate_map[0], PageBucket { allocated: 0, available: 2 });
    assert_eq!(ps.len(), 2);
}

fn pages_4kb(n: usize) -> Address {
    (PAGE_SIZE_4KB * n) as Address
}
fn pages_2mb(n: usize) -> Address {
    (PAGE_SIZE_2MB * n) as Address
}
fn pages_1gb(n: usize) -> Address {
    (PAGE_SIZE_1GB * n) as Address
}

#[test]
fn test_page_iterator() {
    let mut mmap = MemoryMap::new();

    let mut base: Address = 0;
    mmap.add_region(MemoryRegionType::Available, base, base + pages_4kb(2));
    base = pages_4kb(4);
    mmap.add_region(MemoryRegionType::Available, base, base + pages_4kb(1));
    base = PAGE_SIZE_2MB as Address;
    mmap.add_region(MemoryRegionType::Available, base, base + pages_2mb(2));
    base = pages_2mb(4);
    mmap.add_region(MemoryRegionType::Available, base, base + pages_2mb(1));
    base = PAGE_SIZE_1GB as Address;
    mmap.add_region(MemoryRegionType::Available, base, base + pages_1gb(3));
    base = pages_1gb(4);
    mmap.add_region(MemoryRegionType::Available, base, base + pages_1gb(1));
    base = pages_1gb(6) - pages_4kb(2);
    mmap.add_region(MemoryRegionType::Available, base, base + pages_4kb(2) + pages_2mb(1));
    base = pages_1gb(7) - pages_4kb(2);
    mmap.add_region(MemoryRegionType::Available, base, base + pages_4kb(2) + pages_1gb(1));
    base = pages_1gb(8) - pages_2mb(2);
    mmap.add_region(MemoryRegionType::Available, base, base + pages_2mb(2) + pages_1gb(1));
    base = pages_1gb(9) - pages_2mb(1);
    mmap.add_region(MemoryRegionType::Available, base, base + pages_2mb(1) + pages_4kb(2));
    base = pages_1gb(10);
    mmap.add_region(MemoryRegionType::Available, base, base + pages_1gb(1) + pages_4kb(2));
    base = pages_1gb(11);
    mmap.add_region(MemoryRegionType::Available, base, base + pages_1gb(1) + pages_2mb(2));
    base = pages_1gb(13) - pages_2mb(1) - pages_4kb(2);
    mmap.add_region(
        MemoryRegionType::Available,
        base,
        base + pages_4kb(2) + pages_2mb(1) + pages_1gb(1) + pages_2mb(1) + pages_4kb(1),
    );

    let mut page_iter_4kb = PageIterator::new(&mmap, PAGE_SIZE_4KB);
    let mut page_iter_2mb = PageIterator::new(&mmap, PAGE_SIZE_2MB);
    let mut page_iter_1gb = PageIterator::new(&mmap, PAGE_SIZE_1GB);

    assert_eq!(page_iter_4kb.next(), Some(0));
    assert_eq!(page_iter_4kb.next(), Some(0x1000));
    assert_eq!(page_iter_4kb.next(), Some(0x4000));

    assert_eq!(page_iter_2mb.next(), Some(0x200000));
    assert_eq!(page_iter_2mb.next(), Some(0x400000));
    assert_eq!(page_iter_2mb.next(), Some(0x800000));

    assert_eq!(page_iter_1gb.next(), Some(0x40000000));
    assert_eq!(page_iter_1gb.next(), Some(0x80000000));
    assert_eq!(page_iter_1gb.next(), Some(0xC0000000));
    assert_eq!(page_iter_1gb.next(), Some(0x100000000));

    assert_eq!(page_iter_4kb.next(), Some(0x180000000 - pages_4kb(2)));
    assert_eq!(page_iter_4kb.next(), Some(0x180000000 - pages_4kb(1)));
    assert_eq!(page_iter_2mb.next(), Some(0x180000000));

    assert_eq!(page_iter_4kb.next(), Some(0x1C0000000 - pages_4kb(2)));
    assert_eq!(page_iter_4kb.next(), Some(0x1C0000000 - pages_4kb(1)));
    assert_eq!(page_iter_1gb.next(), Some(0x1C0000000));

    assert_eq!(page_iter_2mb.next(), Some(0x200000000 - pages_2mb(2)));
    assert_eq!(page_iter_2mb.next(), Some(0x200000000 - pages_2mb(1)));
    assert_eq!(page_iter_1gb.next(), Some(0x200000000));

    assert_eq!(page_iter_2mb.next(), Some(0x240000000 - pages_2mb(1)));
    assert_eq!(page_iter_4kb.next(), Some(0x240000000));
    assert_eq!(page_iter_4kb.next(), Some(0x240000000 + pages_4kb(1)));

    assert_eq!(page_iter_1gb.next(), Some(0x280000000));
    assert_eq!(page_iter_4kb.next(), Some(0x2C0000000));
    assert_eq!(page_iter_4kb.next(), Some(0x2C0000000 + pages_4kb(1)));

    assert_eq!(page_iter_1gb.next(), Some(0x2C0000000));
    assert_eq!(page_iter_2mb.next(), Some(0x300000000 + pages_2mb(0)));
    assert_eq!(page_iter_2mb.next(), Some(0x300000000 + pages_2mb(1)));

    assert_eq!(page_iter_4kb.next(), Some(0x340000000 - pages_2mb(1) - pages_4kb(2)));
    assert_eq!(page_iter_4kb.next(), Some(0x340000000 - pages_2mb(1) - pages_4kb(1)));
    assert_eq!(page_iter_2mb.next(), Some(0x340000000 - pages_2mb(1)));
    assert_eq!(page_iter_1gb.next(), Some(0x340000000));
    assert_eq!(page_iter_2mb.next(), Some(0x380000000));
    assert_eq!(page_iter_4kb.next(), Some(0x380000000 + pages_2mb(1) + pages_4kb(0)));

    assert_eq!(page_iter_4kb.next(), None);
    assert_eq!(page_iter_2mb.next(), None);
    assert_eq!(page_iter_1gb.next(), None);
}

#[test]
fn page_iterator_filters() {
    let mut mmap = MemoryMap::new();
    mmap.add_region(MemoryRegionType::Reserved, 0, pages_4kb(2));
    mmap.add_region(MemoryRegionType::Available, pages_4kb(4), pages_4kb(8));
    assert_eq!(mmap.get_num_regions(), 2);

    let all = PageIterator::new(&mmap, PAGE_SIZE_4KB);
    assert_eq!(all.get_count(), 6);
    assert_eq!(all.get_current(), None);

    let mut available = PageIterator::new(&mmap, PAGE_SIZE_4KB)
        .with_region_type(MemoryRegionType::Available)
        .with_base_address(pages_4kb(5))
        .excluding_range(pages_4kb(6), pages_4kb(7));
    assert_eq!(available.get_count(), 2);
    assert_eq!(available.next(), Some(pages_4kb(5)));
    assert_eq!(available.get_current(), Some(pages_4kb(6)));
    assert_eq!(available.next(), Some(pages_4kb(7)));
    assert_eq!(available.next(), None);
}

#[test]
fn alignment_and_next_page() {
    assert!(is_4kb_aligned(0x3000));
    assert!(!is_4kb_aligned(0x3001));
    assert!(is_2mb_aligned(0x400000));
    assert!(!is_2mb_aligned(0x401000));
    assert!(is_1gb_aligned(0x80000000));
    assert_eq!(next_4kb_page(0x3001), 0x4000);
    assert_eq!(next_4kb_page(0x3000), 0x4000);
    assert_eq!(next_2mb_page(0x200001), 0x400000);
    assert_eq!(next_1gb_page(0x1), 0x40000000);
}

#[test]
fn already_mapped_counts_as_mapped() {
    let already = Err(ErrCode::Pager(PagerError::VirtualAddressAlreadyMapped(VirtualAddress(0x1000))));
    assert_eq!(map_answer_outcome(already), Ok(()));
    assert_eq!(map_answer_outcome(Ok(VirtualAddress(0x1000))), Ok(()));
    assert_eq!(map_answer_outcome(Err(ErrCode::OutOfMemory)), Err(ErrCode::OutOfMemory));
}

#[test]
fn null_pager_provides_nothing() {
    let pager = NullPager {};
    assert_eq!(pager.get_page_size(), 0);
    assert_eq!(pager.allocate_physical(), Err(ErrCode::Unimplemented));
    assert_eq!(pager.ensure_mapped(VirtualAddress(0x1000)), Err(ErrCode::Unimplemented));
}

#[test]
fn test_pager_translates_through_mappings() {
    let mut pager = TestPager::new();
    assert_eq!(pager.get_page_size(), 4096);
    assert_eq!(pager.get_page_mask(), 4095);
    assert_eq!(pager.get_page_size_log2(), 12);
    assert_eq!(
        pager.get_virtual_address(PhysicalAddress(0x1000)),
        Err(ErrCode::Pager(PagerError::PhysicalAddressNotFound(PhysicalAddress(0x1000))))
    );
    let mappings = vec![
        PhysicalVirtualMapping { phys_addr: PhysicalAddress(0x1000), virt_addr: VirtualAddress(0x80000) },
        PhysicalVirtualMapping { phys_addr: PhysicalAddress(0x5000), virt_addr: VirtualAddress(0x90000) },
    ];
    pager.set_mappings(&mappings);
    let mock = pager.get_mock();
    assert_eq!(mock.get_virtual_address(PhysicalAddress(0x1010)), Ok(VirtualAddress(0x80010)));
    assert_eq!(mock.get_virtual_address(PhysicalAddress(0x5fff)), Ok(VirtualAddress(0x90fff)));
    assert!(mock.get_virtual_address(PhysicalAddress(0x2000)).is_err());
    assert_eq!(mock.allocate_physical(), Err(ErrCode::Unimplemented));
}

#[test]
fn error_messages() {
    assert_eq!(ErrCode::OutOfMemory.message(), "out of memory");
    assert_eq!(ErrCode::from(PagerError::UnmappedVirtualAddress(VirtualAddress(1))), ErrCode::Pager(PagerError::UnmappedVirtualAddress(VirtualAddress(1))));
    assert_eq!(PagerError::VirtualAddressNotFound(VirtualAddress(0)).message(), "virtual address not found");
}

#[test]
fn page_iterator_stays_exhausted() {
    let mut mmap = MemoryMap::new();
    mmap.add_region(MemoryRegionType::Available, 0x1000, 0x3000);
    let mut it = PageIterator::new(&mmap, PAGE_SIZE_4KB);
    assert_eq!(it.next(), Some(0x1000));
    assert_eq!(it.next(), Some(0x2000));
    assert_eq!(it.next(), None);
    assert_eq!(it.next(), None);
    assert_eq!(it.next(), None);
}

#[test]
fn page_iterator_unaligned_region_start() {
    let mut mmap = MemoryMap::new();
    mmap.add_region(MemoryRegionType::Available, 0x1234, 0x5000);
    let mut it = PageIterator::new(&mmap, PAGE_SIZE_4KB);
    assert_eq!(it.get_count(), 3);
    assert_eq!(it.next(), Some(0x2000));
    assert_eq!(it.next(), Some(0x3000));
    assert_eq!(it.next(), Some(0x4000));
    assert_eq!(it.next(), None);
}

#[test]
fn page_iterator_skips_empty_and_unaligned_regions() {
    let mut mmap = MemoryMap::new();
    // ends before it starts, then a region too small for a whole aligned page
    mmap.add_region(MemoryRegionType::Available, 0x9000, 0x8000);
    mmap.add_region(MemoryRegionType::Available, 0x10010, 0x11008);
    // an unaligned start before a 2MB boundary
    mmap.add_region(MemoryRegionType::Available, 0x1FF800, 0x401000);
    let mut it_4kb = PageIterator::new(&mmap, PAGE_SIZE_4KB);
    let mut it_2mb = PageIterator::new(&mmap, PAGE_SIZE_2MB);
    assert_eq!(it_4kb.next(), Some(0x400000));
    assert_eq!(it_4kb.next(), None);
    assert_eq!(it_2mb.next(), Some(0x200000));
    assert_eq!(it_2mb.next(), None);
}

#[test]
fn range_pages_step_by_the_page_size() {
    assert_eq!(range_page_address(VirtualAddress(0x1000), 0, 4096), VirtualAddress(0x1000));
    assert_eq!(range_page_address(VirtualAddress(0x1000), 3, 4096), VirtualAddress(0x4000));
}

#[test]
fn mapping_from_a_buffer_is_at_its_bytes() {
    let buf = vec![7u8; 64];
    let whole = PhysicalVirtualMapping::from_array(PhysicalAddress(0x3000), &buf);
    let tail = PhysicalVirtualMapping::from_array(PhysicalAddress(0x5000), &buf[8..]);
    assert_eq!(whole.phys_addr, PhysicalAddress(0x3000));
    assert_eq!(tail.virt_addr.0 - whole.virt_addr.0, 8);
    assert_ne!(whole.virt_addr.0, 0);
    let owned = PhysicalVirtualMapping::from_vec(PhysicalAddress(0x7000), vec![1u8; 16]);
    assert_eq!(owned.phys_addr, PhysicalAddress(0x7000));
    assert_ne!(owned.virt_addr.0, 0);
}
