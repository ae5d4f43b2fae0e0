use std::cell::{Cell, RefCell};

use synapse::errors::{ErrCode, PagerError};
use synapse::page_based::node_allocator::NodeAllocator;
use synapse::page_based::queue::Queue;
use synapse::pager::on_demand_array::{mapped_element, OnDemandArray};
use synapse::pager::on_demand_stack::OnDemandStack;
use synapse::pager::{pages_spanned, Pager};
use synapse::types::{PhysicalAddress, VirtualAddress};

/// A pager that hands out the physical pages it is given, translates through fixed
/// mappings and records the ranges it is asked to map.
struct RecordingPager {
    page_size: usize,
    next_physical: RefCell<Vec<PhysicalAddress>>,
    mappings: Vec<(PhysicalAddress, VirtualAddress)>,
    mapped_ranges: RefCell<Vec<(VirtualAddress, usize)>>,
    failures_left: Cell<usize>,
}

impl RecordingPager {
    fn new(page_size: usize) -> Self {
        RecordingPager {
            page_size,
            next_physical: RefCell::new(Vec::new()),
            mappings: Vec::new(),
            mapped_ranges: RefCell::new(Vec::new()),
            failures_left: Cell::new(0),
        }
    }

    fn allow_allocate_physical(&self, page: PhysicalAddress) {
        self.next_physical.borrow_mut().push(page);
    }

    fn add_mapping(&mut self, phys: PhysicalAddress, virt: VirtualAddress) {
        self.mappings.push((phys, virt));
    }

    fn ranges(&self) -> Vec<(VirtualAddress, usize)> {
        self.mapped_ranges.borrow().clone()
    }
}

impl Pager for RecordingPager {
    fn virtual_address_of(&self, addr: PhysicalAddress) -> Result<VirtualAddress, ErrCode> {
        self.get_virtual_address(addr)
    }

    fn physical_address_of(&self, addr: VirtualAddress) -> Result<PhysicalAddress, ErrCode> {
        self.get_physical_address(addr)
    }

    fn page_size(&self) -> usize {
        self.page_size
    }

    fn get_page_size(&self) -> usize {
        self.page_size
    }

    fn allocate_physical(&self) -> Result<PhysicalAddress, ErrCode> {
        let mut pages = self.next_physical.borrow_mut();
        if pages.is_empty() {
            Err(ErrCode::OutOfMemory)
        } else {
            Ok(pages.remove(0))
        }
    }

    fn free_physical(&self, _addr: PhysicalAddress) -> Result<(), ErrCode> {
        Ok(())
    }

    fn allocate_virtual(&self, _num: usize, to_addr: VirtualAddress) -> Result<VirtualAddress, ErrCode> {
        Ok(to_addr)
    }

    fn free_virtual(&self, _num: usize, _base_addr: VirtualAddress) -> Result<(), ErrCode> {
        Ok(())
    }

    fn map_physical_to_virtual(&self, _phys: PhysicalAddress, _virt: VirtualAddress) -> Result<(), ErrCode> {
        Ok(())
    }

    fn get_virtual_address(&self, addr: PhysicalAddress) -> Result<VirtualAddress, ErrCode> {
        for (phys, virt) in self.mappings.iter() {
            if addr.0 >= phys.0 && addr.0 - phys.0 < self.page_size as u64 {
                return Ok(VirtualAddress(virt.0 + (addr.0 - phys.0)));
            }
        }
        Err(ErrCode::Pager(PagerError::PhysicalAddressNotFound(addr)))
    }

    fn get_physical_address(&self, addr: VirtualAddress) -> Result<PhysicalAddress, ErrCode> {
        for (phys, virt) in self.mappings.iter() {
            if addr.0 >= virt.0 && addr.0 - virt.0 < self.page_size as u64 {
                return Ok(PhysicalAddress(phys.0 + (addr.0 - virt.0)));
            }
        }
        Err(ErrCode::Pager(PagerError::VirtualAddressNotFound(addr)))
    }

    fn ensure_mapped_range(&self, virtual_addr: VirtualAddress, num_pages: usize) -> Result<(), ErrCode> {
        self.mapped_ranges.borrow_mut().push((virtual_addr, num_pages));
        let left = self.failures_left.get();
        if left > 0 {
            self.failures_left.set(left - 1);
            Err(ErrCode::Unknown)
        } else {
            Ok(())
        }
    }
}

#[derive(Copy, Clone, Debug, PartialEq, Eq)]
struct BigSampleItem {
    block: [u32; 254],
}

impl BigSampleItem {
    fn new(value: u32) -> Self {
        let mut result = BigSampleItem { block: [0; 254] };
        result.block[0] = value;
        result
    }
}

#[derive(Copy, Clone, Debug, PartialEq)]
struct NodeSizedItem {
    block: [u8; 1024],
}

#[derive(Debug, PartialEq)]
struct HalfPage {
    data: [u8; 2048],
}

#[test]
fn test_create_allocator() {
    let pager = RecordingPager::new(4096);
    let _allocator = NodeAllocator::<u64, _>::new(&pager);
    // shouldn't call any methods on the pager yet
    assert!(pager.ranges().is_empty());
    assert_eq!(pager.next_physical.borrow().len(), 0);
}

#[test]
fn test_use_part_page() {
    let mut pager = RecordingPager::new(4096);
    let base_addr: u64 = 0x40_0000;
    pager.add_mapping(PhysicalAddress(0x1000), VirtualAddress(base_addr));

    let mut allocator = NodeAllocator::<NodeSizedItem, _>::new(&pager);
    assert_eq!(allocator.use_page(PhysicalAddress(0x1000), 128), Ok(()));

    // the tail 4096-128 bytes hold three nodes of 1024 bytes; the last one made is
    // handed out first
    assert_eq!(allocator.allocate(), Ok(VirtualAddress(base_addr + 128 + 1024 + 1024)));
    assert_eq!(allocator.allocate(), Ok(VirtualAddress(base_addr + 128 + 1024)));
    assert_eq!(allocator.allocate(), Ok(VirtualAddress(base_addr + 128)));
}

#[test]
fn test_allocate() {
    let mut pager = RecordingPager::new(4096);
    let base_addr: u64 = 0x40_0000;
    let base_addr2: u64 = 0x80_0000;
    pager.add_mapping(PhysicalAddress(0x1000), VirtualAddress(base_addr));
    pager.add_mapping(PhysicalAddress(0x2000), VirtualAddress(base_addr2));
    pager.allow_allocate_physical(PhysicalAddress(0x2000));

    let mut allocator = NodeAllocator::<NodeSizedItem, _>::new(&pager);
    assert_eq!(allocator.use_page(PhysicalAddress(0x1000), 128), Ok(()));

    let node0 = base_addr + 128;
    let node1 = base_addr + 128 + 1024;
    let node2 = base_addr + 128 + 1024 + 1024;
    for expected_node in [node2, node1, node0] {
        let node = allocator.allocate();
        assert!(node.is_ok());
        assert_eq!(node.unwrap(), VirtualAddress(expected_node));
    }

    // next node is allocated from a new page: its first node
    let node = allocator.allocate();
    assert_eq!(node, Ok(VirtualAddress(base_addr2)));
    // and the rest of that page is free, handed out from the top down
    assert_eq!(allocator.allocate(), Ok(VirtualAddress(base_addr2 + 3 * 1024)));
}

#[test]
fn node_allocator_without_pages_reports_the_pager_error() {
    let pager = RecordingPager::new(4096);
    let mut allocator = NodeAllocator::<NodeSizedItem, _>::new(&pager);
    assert_eq!(allocator.allocate(), Err(ErrCode::OutOfMemory));
}

#[test]
fn node_allocator_free_node_is_reused() {
    let mut pager = RecordingPager::new(4096);
    pager.add_mapping(PhysicalAddress(0x1000), VirtualAddress(0x40_0000));
    let mut allocator = NodeAllocator::<NodeSizedItem, _>::new(&pager);
    assert_eq!(allocator.use_page(PhysicalAddress(0x1000), 0), Ok(()));
    let node = allocator.allocate().unwrap();
    assert_eq!(allocator.free(node), Ok(()));
    assert_eq!(allocator.allocate(), Ok(node));
}

#[test]
fn test_create_queue() {
    let mut pager = RecordingPager::new(4096);
    let phys_addr = PhysicalAddress(0x1000);
    pager.allow_allocate_physical(phys_addr);
    let virt_addr = VirtualAddress(0x40_0000);
    pager.add_mapping(phys_addr, virt_addr);

    let queue = Queue::<BigSampleItem, _>::new(&pager).unwrap();
    assert_eq!(queue.address(), virt_addr);

    assert_eq!(queue.head(), None);
    assert_eq!(queue.tail(), None);
}

#[test]
fn test_enqueue_single_page() {
    let mut pager = RecordingPager::new(4096);
    let phys_addr = PhysicalAddress(0x1000);
    pager.allow_allocate_physical(phys_addr);
    pager.add_mapping(phys_addr, VirtualAddress(0x40_0000));

    let mut queue = Queue::<u32, _>::new(&pager).unwrap();
    for value in 0..10 {
        assert_eq!(queue.enqueue(value), Ok(()));
    }
    for value in 0..10 {
        let result = queue.dequeue();
        assert_eq!(result, Ok(value));
    }
}

#[test]
fn test_enqueue_multi_page() {
    let mut pager = RecordingPager::new(4096);
    let phys_addr1 = PhysicalAddress(0x1000);
    let phys_addr2 = PhysicalAddress(0x5000);
    pager.allow_allocate_physical(phys_addr1);
    pager.allow_allocate_physical(phys_addr2);
    pager.add_mapping(phys_addr1, VirtualAddress(0x40_0000));
    pager.add_mapping(phys_addr2, VirtualAddress(0x40_1000));

    let mut queue = Queue::<BigSampleItem, _>::new(&pager).unwrap();
    for value in [1, 2, 3, 4, 5, 6, 7] {
        assert_eq!(queue.enqueue(BigSampleItem::new(value)), Ok(()));
    }
    for value in 1..=7 {
        let result = queue.dequeue();
        assert_eq!(result, Ok(BigSampleItem::new(value)));
    }
}

#[test]
fn queue_dequeue_empty_is_out_of_bounds() {
    let mut pager = RecordingPager::new(4096);
    pager.allow_allocate_physical(PhysicalAddress(0x1000));
    pager.add_mapping(PhysicalAddress(0x1000), VirtualAddress(0x40_0000));
    let mut queue = Queue::<u32, _>::new(&pager).unwrap();
    assert_eq!(queue.dequeue(), Err(ErrCode::OutOfBounds));
    assert_eq!(queue.enqueue(5), Ok(()));
    assert_eq!(queue.tail(), queue.head());
    assert_eq!(queue.dequeue(), Ok(5));
    assert_eq!(queue.dequeue(), Err(ErrCode::OutOfBounds));
}

#[test]
fn queue_without_a_page_reports_the_pager_error() {
    let pager = RecordingPager::new(4096);
    let queue = Queue::<u32, _>::new(&pager);
    assert!(matches!(queue, Err(ErrCode::OutOfMemory)));
}

#[test]
fn on_demand_array_test_create() {
    let pager = RecordingPager::new(4096);
    // shouldn't invoke the pager at all...
    let _array = OnDemandArray::<u64, _>::new(&pager, VirtualAddress(0x1000000), 10);
    assert!(pager.ranges().is_empty());
}

#[test]
fn test_get_first() {
    let pager = RecordingPager::new(4096);
    let array = OnDemandArray::<HalfPage, _>::new(&pager, VirtualAddress(0x1000000), 10);
    let result = array.get(0);
    assert!(result.is_ok());
    assert_eq!(result.unwrap(), VirtualAddress(0x1000000));
    assert_eq!(pager.ranges(), vec![(VirtualAddress(0x1000000), 1)]);
}

#[test]
fn test_get_inner() {
    let pager = RecordingPager::new(4096);
    let base = 0x1000000;
    let offset = 0x3000;
    let array = OnDemandArray::<HalfPage, _>::new(&pager, VirtualAddress(base), 10);
    let result = array.get(6);
    assert!(result.is_ok());
    assert_eq!(result.unwrap(), VirtualAddress(base + offset));
    assert_eq!(pager.ranges(), vec![(VirtualAddress(base + offset), 1)]);
}

#[test]
fn test_get_middle() {
    let pager = RecordingPager::new(4096);
    let base = 0x1000000;
    let offset = 0x1800;
    let array = OnDemandArray::<HalfPage, _>::new(&pager, VirtualAddress(base), 10);
    let result = array.get(3);
    assert!(result.is_ok());
    assert_eq!(result.unwrap(), VirtualAddress(base + offset));
    assert_eq!(pager.ranges(), vec![(VirtualAddress(base + offset), 1)]);
}

#[test]
fn test_get_out_of_range() {
    let pager = RecordingPager::new(4096);
    // shouldn't invoke the pager at all...
    let array = OnDemandArray::<u64, _>::new(&pager, VirtualAddress(0x1000000), 10);
    let result = array.get(10);
    assert_eq!(result.is_ok(), false);
    assert_eq!(result, Err(ErrCode::OutOfBounds));
    assert!(pager.ranges().is_empty());
}

#[test]
fn test_couldnt_map() {
    let pager = RecordingPager::new(4096);
    pager.failures_left.set(1);
    let base = 0x1000000;
    let offset = 0x1800;
    let array = OnDemandArray::<HalfPage, _>::new(&pager, VirtualAddress(base), 10);
    let result = array.get(3);
    assert_eq!(result.is_ok(), false);
    assert_eq!(result, Err(ErrCode::Unknown));
    assert_eq!(pager.ranges(), vec![(VirtualAddress(base + offset), 1)]);
}

#[test]
fn on_demand_array_element_mapping_spans_pages() {
    let pager = RecordingPager::new(4096);
    let array = OnDemandArray::<[u8; 5000], _>::new(&pager, VirtualAddress(0x1000000), 4);
    assert_eq!(array.element_mapping(1), (VirtualAddress(0x1000000 + 5000), 2));
}

#[test]
fn on_demand_stack_test_create() {
    let pager = RecordingPager::new(4096);
    let _stack = OnDemandStack::<u32, _>::new(&pager, VirtualAddress(0x1000000), 10);
    assert!(pager.ranges().is_empty());
}

#[test]
fn test_push_and_pop_lifo() {
    let pager = RecordingPager::new(4096);
    let base: u64 = 0x2000_0000;
    let mut stack = OnDemandStack::<u32, _>::new(&pager, VirtualAddress(base), 3);
    assert_eq!(stack.push(10), Ok(()));
    assert_eq!(stack.push(20), Ok(()));
    assert_eq!(stack.push(30), Ok(()));
    assert_eq!(
        pager.ranges(),
        vec![
            (VirtualAddress(base), 1),
            (VirtualAddress(base + 4), 1),
            (VirtualAddress(base + 8), 1)
        ]
    );

    assert_eq!(stack.pop(), Ok(30));
    assert_eq!(stack.pop(), Ok(20));
    assert_eq!(stack.pop(), Ok(10));
}

#[test]
fn test_push_out_of_range() {
    let pager = RecordingPager::new(4096);
    let base: u64 = 0x2000_0000;
    let mut stack = OnDemandStack::<u32, _>::new(&pager, VirtualAddress(base), 1);
    assert_eq!(stack.push(10), Ok(()));
    assert_eq!(stack.push(20), Err(ErrCode::OutOfBounds));
    assert_eq!(pager.ranges(), vec![(VirtualAddress(base), 1)]);
    assert_eq!(stack.pop(), Ok(10));
}

#[test]
fn test_pop_empty() {
    let pager = RecordingPager::new(4096);
    let mut stack = OnDemandStack::<u32, _>::new(&pager, VirtualAddress(0x1000000), 1);
    assert_eq!(stack.pop(), Err(ErrCode::OutOfBounds));
}

#[test]
fn test_mapping_failure_does_not_advance_stack() {
    let pager = RecordingPager::new(4096);
    pager.failures_left.set(1);
    let base: u64 = 0x2000_0000;
    let mut stack = OnDemandStack::<u32, _>::new(&pager, VirtualAddress(base), 1);
    assert_eq!(stack.push(10), Err(ErrCode::Unknown));
    assert_eq!(stack.push(20), Ok(()));
    assert_eq!(stack.pop(), Ok(20));
    assert_eq!(pager.ranges(), vec![(VirtualAddress(base), 1), (VirtualAddress(base), 1)]);
}

#[test]
fn node_allocator_carve_page_hands_out_its_first_node() {
    let mut pager = RecordingPager::new(4096);
    pager.add_mapping(PhysicalAddress(0x2000), VirtualAddress(0x80_0000));
    let mut allocator = NodeAllocator::<NodeSizedItem, _>::new(&pager);
    assert_eq!(
        allocator.carve_page(PhysicalAddress(0x2000), VirtualAddress(0x80_0000)),
        Ok(VirtualAddress(0x80_0000))
    );
    // the other three nodes are free, the last one first
    assert_eq!(allocator.allocate(), Ok(VirtualAddress(0x80_0000 + 3 * 1024)));
    assert_eq!(allocator.allocate(), Ok(VirtualAddress(0x80_0000 + 2 * 1024)));
    assert_eq!(allocator.allocate(), Ok(VirtualAddress(0x80_0000 + 1024)));
    // a page reaching past the top of the address space is refused
    assert_eq!(
        allocator.carve_page(PhysicalAddress(u64::MAX - 100), VirtualAddress(0x90_0000)),
        Err(ErrCode::OutOfMemory)
    );
}

#[test]
fn node_allocator_take_free_node_passes_the_pager_answer_on() {
    let mut pager = RecordingPager::new(4096);
    pager.add_mapping(PhysicalAddress(0x1000), VirtualAddress(0x40_0000));
    let mut allocator = NodeAllocator::<NodeSizedItem, _>::new(&pager);
    assert_eq!(allocator.use_page(PhysicalAddress(0x1000), 0), Ok(()));
    // a refused translation keeps the node free
    assert_eq!(allocator.take_free_node(Err(ErrCode::Unknown)), Err(ErrCode::Unknown));
    assert_eq!(allocator.allocate(), Ok(VirtualAddress(0x40_0000 + 3 * 1024)));
    // the translation given is what is handed out, and the node leaves the free list
    assert_eq!(
        allocator.take_free_node(Ok(VirtualAddress(0x70_0000))),
        Ok(VirtualAddress(0x70_0000))
    );
    assert_eq!(allocator.allocate(), Ok(VirtualAddress(0x40_0000 + 1024)));
}

#[test]
fn queue_from_page_lives_at_the_page() {
    let pager = RecordingPager::new(4096);
    let queue = Queue::<u32, _>::from_page(&pager, PhysicalAddress(0x1000), VirtualAddress(0x40_0000));
    let queue = queue.unwrap();
    assert_eq!(queue.address(), VirtualAddress(0x40_0000));
    assert_eq!(queue.head(), None);
    let refused =
        Queue::<u32, _>::from_page(&pager, PhysicalAddress(u64::MAX - 100), VirtualAddress(0x40_0000));
    assert_eq!(refused.err(), Some(ErrCode::OutOfMemory));
}

#[test]
fn on_demand_array_mapped_element_passes_the_pager_answer_on() {
    assert_eq!(mapped_element(VirtualAddress(0x1000010), Ok(())), Ok(VirtualAddress(0x1000010)));
    assert_eq!(mapped_element(VirtualAddress(0x1000010), Err(ErrCode::Unknown)), Err(ErrCode::Unknown));
}

#[test]
fn on_demand_stack_slot_mapping_and_push_mapped() {
    let pager = RecordingPager::new(4096);
    let base: u64 = 0x2000_0000;
    let mut stack = OnDemandStack::<u32, _>::new(&pager, VirtualAddress(base), 4);
    assert_eq!(stack.slot_mapping(0), (VirtualAddress(base), 1));
    assert_eq!(stack.slot_mapping(3), (VirtualAddress(base + 12), 1));
    assert_eq!(stack.push_mapped(7, Err(ErrCode::Unknown)), Err(ErrCode::Unknown));
    assert_eq!(stack.pop(), Err(ErrCode::OutOfBounds));
    assert_eq!(stack.push_mapped(7, Ok(())), Ok(()));
    assert_eq!(stack.pop(), Ok(7));
    // nothing was asked of the pager
    assert!(pager.ranges().is_empty());
}

#[test]
fn node_allocator_carves_only_whole_nodes() {
    let mut pager = RecordingPager::new(4096);
    pager.add_mapping(PhysicalAddress(0x2000), VirtualAddress(0x80_0000));
    let mut allocator = NodeAllocator::<[u64; 3], _>::new(&pager);
    assert_eq!(
        allocator.carve_page(PhysicalAddress(0x2000), VirtualAddress(0x80_0000)),
        Ok(VirtualAddress(0x80_0000))
    );
    // 24-byte nodes: the last whole one starts at 4056; none starts at 4080
    assert_eq!(allocator.allocate(), Ok(VirtualAddress(0x80_0000 + 4056)));
    for _ in 1..169 {
        assert!(allocator.allocate().is_ok());
    }
    // the page is used up and the pager has no other page
    assert_eq!(allocator.allocate(), Err(ErrCode::OutOfMemory));
}

#[test]
fn on_demand_array_maps_every_page_an_element_touches() {
    let pager = RecordingPager::new(4096);
    let base: u64 = 0x1000000;
    // a 24-byte element at 0x1000FF0 reaches into the next page
    let small = OnDemandArray::<[u8; 24], _>::new(&pager, VirtualAddress(base), 200);
    assert_eq!(small.element_mapping(170), (VirtualAddress(base + 0xFF0), 2));
    assert_eq!(small.element_mapping(0), (VirtualAddress(base), 1));
    // a page-sized element on a page boundary takes that page alone
    let whole = OnDemandArray::<[u8; 4096], _>::new(&pager, VirtualAddress(base), 4);
    assert_eq!(whole.element_mapping(1), (VirtualAddress(base + 0x1000), 1));
    assert_eq!(whole.get(1), Ok(VirtualAddress(base + 0x1000)));
    assert_eq!(pager.ranges(), vec![(VirtualAddress(base + 0x1000), 1)]);
}

#[test]
fn pages_spanned_counts_first_to_last_page() {
    let pager = RecordingPager::new(4096);
    assert_eq!(pages_spanned(&pager, VirtualAddress(0xFF0), 24), 2);
    assert_eq!(pages_spanned(&pager, VirtualAddress(0x1000), 4096), 1);
    assert_eq!(pages_spanned(&pager, VirtualAddress(0x1001), 4096), 2);
    assert_eq!(pages_spanned(&pager, VirtualAddress(0x1000), 0), 1);
}

#[test]
fn on_demand_stack_slot_mapping_spans_pages() {
    let pager = RecordingPager::new(4096);
    let stack = OnDemandStack::<[u8; 24], _>::new(&pager, VirtualAddress(0x2000_0000), 200);
    assert_eq!(stack.slot_mapping(170), (VirtualAddress(0x2000_0FF0), 2));
}
