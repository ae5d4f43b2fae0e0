use std::cell::RefCell;

use synapse::arch::x86_64::scheduler::task::Task as SchedulerTask;
use synapse::arch::x86_64::scheduler::Scheduler;
use synapse::arch::x86_64::task_map::{Task, TaskMap, KERNEL_STACK_FILL};
use synapse::arch::x86_64::util::register_snapshot::RegisterSnapshot;
use synapse::errors::{ErrCode, PagerError};
use synapse::logger::{
    log_color, FrameBufferLogger, ScrollCopy, LOG_AGGREGATE_1GB, LOG_ALLOC_4KB, LOG_FREE_2MB,
};
use synapse::page_based_list::PageBasedList;
use synapse::page_stack::{PageBorrower, PageMapper, PageStack};
use synapse::pager::Pager;
use synapse::scheduler::{NullScheduler, Scheduler as SchedulerInterface};
use synapse::sync::cpu_mutex::{lock_value, poisoned_after_unlock, UNLOCKED};
use synapse::types::{Address, PhysicalAddress, VirtualAddress};

/// A pager whose physical pages are mapped one to one at a fixed offset.
struct MirrorPager {
    page_size: usize,
    next_physical: RefCell<Vec<PhysicalAddress>>,
}

const MIRROR_OFFSET: u64 = 0x1000_0000;

impl MirrorPager {
    fn new(page_size: usize, pages: Vec<PhysicalAddress>) -> Self {
        MirrorPager { page_size, next_physical: RefCell::new(pages) }
    }
}

impl Pager for MirrorPager {
    fn virtual_address_of(&self, addr: PhysicalAddress) -> Result<VirtualAddress, ErrCode> {
        self.get_virtual_address(addr)
    }

    fn physical_address_of(&self, addr: VirtualAddress) -> Result<PhysicalAddress, ErrCode> {
        self.get_physical_address(addr)
    }

    fn page_size(&self) -> usize {
        self.page_size
    }

    fn get_page_size(&self) -> usize {
        self.page_size
    }

    fn allocate_physical(&self) -> Result<PhysicalAddress, ErrCode> {
        let mut pages = self.next_physical.borrow_mut();
        if pages.is_empty() {
            Err(ErrCode::OutOfMemory)
        } else {
            Ok(pages.remove(0))
        }
    }

    fn free_physical(&self, _addr: PhysicalAddress) -> Result<(), ErrCode> {
        Ok(())
    }

    fn allocate_virtual(&self, _num: usize, to_addr: VirtualAddress) -> Result<VirtualAddress, ErrCode> {
        Ok(to_addr)
    }

    fn free_virtual(&self, _num: usize, _base_addr: VirtualAddress) -> Result<(), ErrCode> {
        Ok(())
    }

    fn map_physical_to_virtual(&self, _phys: PhysicalAddress, _virt: VirtualAddress) -> Result<(), ErrCode> {
        Ok(())
    }

    fn get_virtual_address(&self, addr: PhysicalAddress) -> Result<VirtualAddress, ErrCode> {
        Ok(VirtualAddress(addr.0 + MIRROR_OFFSET))
    }

    fn get_physical_address(&self, addr: VirtualAddress) -> Result<PhysicalAddress, ErrCode> {
        if addr.0 >= MIRROR_OFFSET {
            Ok(PhysicalAddress(addr.0 - MIRROR_OFFSET))
        } else {
            Err(ErrCode::Pager(PagerError::VirtualAddressNotFound(addr)))
        }
    }
}

fn collect<P: Pager + ?Sized>(list: &PageBasedList<'_, u64, P>) -> Vec<u64> {
    let mut out = Vec::new();
    let mut it = list.iter();
    while let Ok(Some(v)) = it.next(list) {
        out.push(v);
    }
    out
}

#[test]
fn page_based_list_add_puts_at_head() {
    let pager = MirrorPager::new(4096, vec![PhysicalAddress(0x5000)]);
    let mut list = PageBasedList::<u64, _>::new(&pager).unwrap();
    assert_eq!(list.head(), None);
    assert_eq!(list.head_ptr(), None);
    assert_eq!(list.add(1), Ok(()));
    assert_eq!(list.add(2), Ok(()));
    assert_eq!(list.add(3), Ok(()));
    assert_eq!(list.head(), Some(&3));
    assert_eq!(collect(&list), vec![3, 2, 1]);
}

#[test]
fn page_based_list_cuts_a_page_into_nodes() {
    // nodes of 16 bytes: the first node of the page holds the first element, and the
    // next element goes to the node right after it
    let pager = MirrorPager::new(4096, vec![PhysicalAddress(0x5000)]);
    let mut list = PageBasedList::<u64, _>::new(&pager).unwrap();
    let page = 0x5000 + MIRROR_OFFSET;
    assert_eq!(list.add(10), Ok(()));
    assert_eq!(list.head_ptr(), Some(page + 8));
    assert_eq!(list.add(20), Ok(()));
    assert_eq!(list.head_ptr(), Some(page + 16 + 8));
    // 256 nodes per page: all of them come from the first page
    for v in 0..254u64 {
        assert_eq!(list.add(v), Ok(()));
    }
    assert_eq!(list.head_ptr(), Some(page + 255 * 16 + 8));
    // the next one needs a page the pager does not have
    assert_eq!(list.add(99), Err(ErrCode::OutOfMemory));
    assert_eq!(list.head_ptr(), Some(page + 255 * 16 + 8));
}

#[test]
fn page_based_list_remove_and_reuse() {
    let pager = MirrorPager::new(4096, vec![PhysicalAddress(0x5000)]);
    let page = 0x5000 + MIRROR_OFFSET;
    let mut list = PageBasedList::<u64, _>::new(&pager).unwrap();
    // the nodes of 1, 2 and 3 are the first three nodes of the page
    for v in [1u64, 2, 3] {
        list.add(v).unwrap();
    }
    assert_eq!(list.head_ptr(), Some(page + 32 + 8));
    // remove the middle element (2): step the iterator onto it
    let mut it = list.iter();
    assert_eq!(it.next(&list), Ok(Some(3)));
    assert_eq!(list.remove(&it), Ok(()));
    assert_eq!(collect(&list), vec![3, 1]);

    // a stale position is refused
    assert_eq!(list.remove(&it), Err(ErrCode::InvalidParameter));

    // the freed node, that of 2, is the one the next element goes to
    list.add(4).unwrap();
    assert_eq!(collect(&list), vec![4, 3, 1]);
    assert_eq!(list.head_ptr(), Some(page + 16 + 8));

    // removing the head
    let it = list.iter();
    assert_eq!(list.remove(&it), Ok(()));
    assert_eq!(collect(&list), vec![3, 1]);
}

#[test]
fn page_based_list_remove_at_end_is_refused() {
    let pager = MirrorPager::new(4096, vec![PhysicalAddress(0x5000)]);
    let mut list = PageBasedList::<u64, _>::new(&pager).unwrap();
    list.add(1).unwrap();
    let mut it = list.iter();
    assert_eq!(it.next(&list), Ok(Some(1)));
    assert_eq!(it.next(&list), Ok(None));
    assert_eq!(list.remove(&it), Err(ErrCode::InvalidParameter));
    assert_eq!(collect(&list), vec![1]);
}

#[test]
fn scheduler_starts_with_the_kernel_task() {
    let pager = MirrorPager::new(4096, vec![PhysicalAddress(0x7000)]);
    let mut scheduler = Scheduler::new(&pager, 0xABC000).unwrap();
    let head = *scheduler.tasks.head().unwrap();
    assert_eq!(head.cr3, 0xABC000);
    assert_eq!(head.rflags, 0x202);
    assert_eq!(head.rip, 0);
    assert_eq!(head.kernel_stack_pointer, VirtualAddress(0));
    assert_eq!(scheduler.tasks.head_ptr(), Some(0x7000 + MIRROR_OFFSET + 8));

    let task = SchedulerTask::new_kernel_task(0x1000, VirtualAddress(0x9000), 0x1000, 0xABC000);
    assert_eq!(scheduler.add_task(task), Ok(()));
    assert_eq!(scheduler.tasks.head().unwrap().rip, 0x1000);
}

#[test]
fn scheduler_without_pages_fails() {
    let pager = MirrorPager::new(4096, vec![]);
    assert!(matches!(Scheduler::new(&pager, 0), Err(ErrCode::OutOfMemory)));
}

#[test]
fn null_scheduler_takes_no_task() {
    let mut s = NullScheduler {};
    assert_eq!(s.add_task(()), Err(ErrCode::Unimplemented));
}

#[test]
fn task_map_hands_out_handles() {
    let pager = MirrorPager::new(4096, vec![]);
    let mut map = TaskMap::new(&pager, VirtualAddress(0x1_0000_0000), VirtualAddress(0x2_0000_0000), 4).unwrap();
    let size = core::mem::size_of::<synapse::arch::x86_64::task_map::Task>() as u64;
    let at = |h: u64| -> Result<VirtualAddress, ErrCode> { Ok(VirtualAddress(0x1_0000_0000 + h * size)) };
    assert_eq!(map.new_task(), at(0));
    assert_eq!(map.new_task(), at(1));
    assert_eq!(map.new_task(), at(2));
    assert_eq!(map.get_task(1), at(1));
    assert_eq!(map.get_task(4), Err(ErrCode::OutOfBounds));
    assert_eq!(map.free_task(0), Err(ErrCode::InvalidHandle));
    assert_eq!(map.free_task(3), Err(ErrCode::InvalidHandle));
    // freed out of order: kept for reuse
    assert_eq!(map.free_task(1), Ok(()));
    assert_eq!(map.new_task(), at(1));
    // the last one handed out: given back directly
    assert_eq!(map.free_task(2), Ok(()));
    assert_eq!(map.new_task(), at(2));
    assert_eq!(map.new_task(), at(3));
    assert_eq!(map.new_task(), Err(ErrCode::OutOfHandles));
}

struct FixedBorrower {
    page: Option<(Address, usize)>,
}

impl PageBorrower for FixedBorrower {
    fn borrow_page(&self) -> Option<(Address, usize)> {
        self.page
    }

    fn borrow_specific(&self, _address: Address) -> Option<(Address, usize)> {
        self.page
    }
}

struct RecordingMapper {
    calls: RefCell<Vec<(Address, Address)>>,
    answer: Result<bool, ()>,
}

impl PageMapper for RecordingMapper {
    fn ensure_mapped(&self, base: Address, end: Address) -> Result<bool, ()> {
        self.calls.borrow_mut().push((base, end));
        self.answer
    }
}

#[test]
fn page_stack_test_create_stack_unmapped() {
    let mapper = RecordingMapper { calls: RefCell::new(Vec::new()), answer: Ok(false) };
    let mut ps = PageStack::<_, 4096>::new(mapper, 0x1000, 0);
    assert_eq!(ps.allocate_page(), None);
}

#[test]
fn test_borrow() {
    let pages: usize = 10;
    let stack_memory_base: Address = 0x7000_0000;
    let stack_end_after_additions = stack_memory_base + 4 * 8;
    let mapper = RecordingMapper { calls: RefCell::new(Vec::new()), answer: Ok(false) };
    let borrower = FixedBorrower { page: Some((0x1000, 4 * 4096)) };

    let mut ps = PageStack::<_, 4096>::new(mapper, stack_memory_base, pages);
    ps.set_borrow_source(&borrower);

    assert_eq!(ps.allocate_page(), Some(0x4000));
    assert_eq!(ps.stacks.available_pages.index(0), 0x1000);
    assert_eq!(ps.stacks.available_pages.index(1), 0x2000);
    assert_eq!(ps.stacks.available_pages.index(2), 0x3000);
    assert_eq!(ps.stacks.available_pages.index(3), 0x4000);
    assert_eq!(ps.stacks.available_pages.len(), 3);
    assert_eq!(ps.stacks.allocated_pages.get(0), Some(0x4000));
    assert_eq!(ps.allocate_page(), Some(0x3000));
}

#[test]
fn page_stack_unmappable_stack_takes_nothing() {
    let mapper = RecordingMapper { calls: RefCell::new(Vec::new()), answer: Err(()) };
    let borrower = FixedBorrower { page: Some((0x1000, 4 * 4096)) };
    let mut ps = PageStack::<_, 4096>::new(mapper, 0x7000_0000, 10);
    ps.set_borrow_source(&borrower);
    assert_eq!(ps.allocate_page(), None);
    assert_eq!(ps.stacks.available_pages.len(), 0);
}

#[test]
fn page_stack_allocate_specific() {
    let mapper = RecordingMapper { calls: RefCell::new(Vec::new()), answer: Ok(true) };
    let borrower = FixedBorrower { page: Some((0x10000, 4 * 4096)) };
    let mut ps = PageStack::<_, 4096>::new(mapper, 0x7000_0000, 10);
    ps.set_borrow_source(&borrower);
    // not available: the block holding it is borrowed, the page itself is left out
    assert_eq!(ps.allocate_specific(0x12000), None);
    assert_eq!(ps.stacks.available_pages.len(), 3);
    assert_eq!(ps.stacks.available_pages.find(0x12000), None);
    // now available
    assert_eq!(ps.allocate_specific(0x11000), Some(0x11000));
    assert_eq!(ps.stacks.available_pages.len(), 2);
    assert_eq!(ps.stacks.allocated_pages.get(0), Some(0x11000));
}

#[test]
fn logger_colors() {
    assert_eq!(log_color(LOG_ALLOC_4KB), 0x00FF0000);
    assert_eq!(log_color(LOG_FREE_2MB), 0x0080FF80);
    assert_eq!(log_color(LOG_AGGREGATE_1GB), 0x00008080);
    assert_eq!(log_color("something else"), 0x00808080);
}

#[test]
fn logger_walks_the_screen() {
    // 20 x 20 pixels: two squares a row, two rows
    let mut logger = FrameBufferLogger::new(0x10_0000, 20, 20, 80);
    let first = logger.next_square(LOG_ALLOC_4KB).unwrap();
    assert_eq!(first.origin, 0x10_0000);
    assert_eq!(first.color, 0x00FF0000);
    assert_eq!(first.scroll, None);
    let second = logger.next_square("x").unwrap();
    assert_eq!(second.origin, 0x10_0000 + 40);
    assert_eq!(second.scroll, None);
    let third = logger.next_square("x").unwrap();
    assert_eq!(third.origin, 0x10_0000 + 10 * 80);
    let fourth = logger.next_square("x").unwrap();
    assert_eq!(fourth.origin, 0x10_0000 + 10 * 80 + 40);
    assert_eq!(fourth.scroll, Some(ScrollCopy { from: 0x10_0000 + 10 * 80, to: 0x10_0000, len: 10 * 80 }));
    // after scrolling the cursor stays on the last row
    let fifth = logger.next_square("x").unwrap();
    assert_eq!(fifth.origin, 0x10_0000 + 10 * 80);
    let mut off = logger.disable();
    assert_eq!(off.next_square("x"), None);
}

#[test]
fn page_based_list_add_in_page_uses_the_given_page() {
    let pager = MirrorPager::new(4096, vec![]);
    let mut list = PageBasedList::<u64, _>::new(&pager).unwrap();
    // the pager's error comes back unchanged and nothing is added
    assert_eq!(list.add_in_page(1, Err(ErrCode::Unknown)), Err(ErrCode::Unknown));
    assert_eq!(list.head(), None);
    // a page reaching past the top of the address space is refused
    assert_eq!(list.add_in_page(1, Ok(VirtualAddress(u64::MAX - 100))), Err(ErrCode::OutOfMemory));
    assert_eq!(list.head(), None);
    // the first node of the given page takes the value, the next one the next value
    assert_eq!(list.add_in_page(1, Ok(VirtualAddress(0x9000))), Ok(()));
    assert_eq!(list.head_ptr(), Some(0x9000 + 8));
    assert_eq!(list.add(2), Ok(()));
    assert_eq!(list.head_ptr(), Some(0x9000 + 16 + 8));
    assert_eq!(collect(&list), vec![2, 1]);
}

#[test]
fn page_stack_borrowed_block_range_and_take() {
    let mapper = RecordingMapper { calls: RefCell::new(Vec::new()), answer: Ok(true) };
    let mut ps = PageStack::<_, 4096>::new(mapper, 0x7000_0000, 10);
    // four pages take four entries from the bottom of the stack memory
    assert_eq!(ps.borrowed_block_range(0x1000, 4 * 4096), Some((0x7000_0000, 0x7000_0000 + 4 * 8)));
    // more pages than entries do not fit
    assert_eq!(ps.borrowed_block_range(0x1000, 11 * 4096), None);
    // an unmapped stack takes nothing
    ps.take_borrowed_block(0x1000, 4 * 4096, Err(()));
    assert_eq!(ps.stacks.available_pages.len(), 0);
    ps.take_borrowed_block(0x1000, 4 * 4096, Ok(true));
    assert_eq!(ps.stacks.available_pages.len(), 4);
    assert_eq!(ps.stacks.available_pages.index(0), 0x1000);
    assert_eq!(ps.stacks.available_pages.index(3), 0x4000);
    assert_eq!(ps.borrowed_block_range(0x9000, 2 * 4096), Some((0x7000_0000 + 4 * 8, 0x7000_0000 + 6 * 8)));
}

#[test]
fn task_construct_fills_stack_and_clears_io_bitmap() {
    let mut task = Box::new(Task {
        kernel_stack: [0x11; 16384],
        io_bitmap: [0xff; 8193],
        cr3: PhysicalAddress(0x5000),
        gs_base: VirtualAddress(0x6000),
        registers: RegisterSnapshot::default(),
    });
    task.construct();
    assert_eq!(KERNEL_STACK_FILL, 0xa5);
    assert!(task.kernel_stack.iter().all(|b| *b == 0xa5));
    assert!(task.io_bitmap.iter().all(|b| *b == 0));
    assert_eq!(task.cr3, PhysicalAddress(0x5000));
    assert_eq!(task.gs_base, VirtualAddress(0x6000));
}

#[test]
fn cpu_mutex_lock_word_and_poisoning() {
    assert_eq!(UNLOCKED, 0);
    assert_eq!(lock_value(0), 1);
    assert_eq!(lock_value(7), 8);
    // an unlock by the owner gives the lock back and leaves it as it was
    assert!(!poisoned_after_unlock(false, true));
    assert!(poisoned_after_unlock(true, true));
    // an unlock by another processor poisons the lock
    assert!(poisoned_after_unlock(false, false));
}
