//! The frame allocator, from its start on.
use moss_kernel::error::KernelError;
use moss_kernel::memory::address::{PhysMemoryRegion, PA};
use moss_kernel::memory::buddy::MAX_ORDER;
use moss_kernel::memory::frame::FrameState;
use moss_kernel::memory::page::{PageFrame, PAGE_SHIFT, PAGE_SIZE};
use moss_kernel::memory::page_alloc::FrameAllocator;
use moss_kernel::memory::smalloc::Smalloc;

const BASE: usize = 1 << 30;

struct TestFixture {
    allocator: FrameAllocator,
}

impl TestFixture {
    /// Memory and reservations are given as start, relative to the base of
    /// memory, and size.
    fn new(mem_regions: &[(usize, usize)], res_regions: &[(usize, usize)]) -> Self {
        let mut smalloc = Smalloc::new();
        for &(start, size) in mem_regions {
            smalloc
                .add_memory(PhysMemoryRegion::new(PA::from_value(BASE + start), size))
                .unwrap();
        }
        for &(start, size) in res_regions {
            smalloc.add_reservation(PhysMemoryRegion::new(PA::from_value(BASE + start), size));
        }
        Self {
            allocator: FrameAllocator::init(smalloc),
        }
    }

    fn two_blocks() -> Self {
        TestFixture::new(&[(0, (1 << (MAX_ORDER + PAGE_SHIFT)) * 2)], &[])
    }

    fn frame_state(&self, pfn: PageFrame) -> FrameState {
        self.allocator.frame_state(pfn)
    }

    fn assert_free_list_counts(&self, expected_counts: &[usize; MAX_ORDER + 1]) {
        for order in 0..=MAX_ORDER {
            assert_eq!(
                self.allocator.free_blocks(order),
                expected_counts[order],
                "Mismatch in free list count for order {}",
                order
            );
        }
    }

    fn free_pages(&self) -> usize {
        self.allocator.free_pages()
    }
}

#[test]
fn init_simple() {
    let fixture = TestFixture::two_blocks();
    let pages_in_max_block = 1 << MAX_ORDER;

    assert_eq!(fixture.free_pages(), pages_in_max_block);
    assert!(fixture.allocator.free_blocks(MAX_ORDER) != 0);

    for i in 0..MAX_ORDER {
        assert!(fixture.allocator.free_blocks(i) == 0);
    }
}

#[test]
fn init_with_kernel_reserved() {
    let block_size = (1 << MAX_ORDER) * PAGE_SIZE;
    let total_size = 4 * block_size;

    // A single reserved page takes its whole block out.
    let res_regions = &[(block_size * 2 + 4 * PAGE_SIZE, PAGE_SIZE)];
    let mut fixture = TestFixture::new(&[(0, total_size)], res_regions);

    let pages_in_max_block = 1 << MAX_ORDER;
    assert_eq!(fixture.free_pages(), 2 * pages_in_max_block);

    let reserved_pfn = PageFrame::from_pfn(
        fixture.allocator.base_page().value() + (pages_in_max_block * 2 + 4),
    );
    assert!(matches!(
        fixture.frame_state(reserved_pfn),
        FrameState::Kernel
    ));

    fixture
        .allocator
        .alloc_frames(MAX_ORDER as u8)
        .ok()
        .unwrap()
        .leak();
    fixture
        .allocator
        .alloc_frames(MAX_ORDER as u8)
        .ok()
        .unwrap()
        .leak();

    assert!(matches!(
        fixture.allocator.alloc_frames(MAX_ORDER as u8),
        Err(KernelError::NoMemory)
    ));
}

#[test]
fn simple_alloc_and_free() {
    let mut fixture = TestFixture::two_blocks();
    let initial_free_pages = fixture.free_pages();

    let mut expected_counts = [0; MAX_ORDER + 1];
    expected_counts[MAX_ORDER] = 1;
    fixture.assert_free_list_counts(&expected_counts);

    let alloc = fixture.allocator.alloc_frames(0).ok().unwrap();
    assert_eq!(fixture.free_pages(), initial_free_pages - 1);

    match fixture.frame_state(alloc.region().start_address().to_pfn()) {
        FrameState::AllocatedHead(info) => {
            assert_eq!(info.order, 0);
            assert_eq!(info.ref_count, 1);
        }
        _ => panic!("Incorrect frame state after allocation"),
    }

    fixture.allocator.drop_allocation(alloc);
    assert_eq!(fixture.free_pages(), initial_free_pages);
    fixture.assert_free_list_counts(&expected_counts);
}

#[test]
fn alloc_requires_split() {
    let mut fixture = TestFixture::two_blocks();

    let _pfn = fixture.allocator.alloc_frames(0).ok().unwrap();

    let pages_in_block = 1 << MAX_ORDER;
    assert_eq!(fixture.free_pages(), pages_in_block - 1);

    // One free block is left at each order below the one that was split.
    let mut expected_counts = [0; MAX_ORDER + 1];
    for i in 0..MAX_ORDER {
        expected_counts[i] = 1;
    }
    fixture.assert_free_list_counts(&expected_counts);
}

#[test]
fn alloc_multi_page_block() {
    let mut fixture = TestFixture::two_blocks();
    let order = 3; // 8 pages

    let head_region = fixture.allocator.alloc_frames(order).ok().unwrap();
    let pfns = head_region.region().iter_pfns();
    assert_eq!(pfns.len(), 8);

    match fixture.frame_state(pfns[0]) {
        FrameState::AllocatedHead(info) => assert_eq!(info.order, order as u8),
        _ => panic!("Head page has incorrect state"),
    }

    for (i, pfn) in pfns.iter().skip(1).enumerate() {
        match fixture.frame_state(*pfn) {
            FrameState::AllocatedTail(info) => {
                assert_eq!(info.head, head_region.region().start_address().to_pfn())
            }
            _ => panic!("Tail page {} has incorrect state", i),
        }
    }
}

#[test]
fn free_tail_page() {
    let mut fixture = TestFixture::two_blocks();
    let initial_free = fixture.free_pages();
    let order = 4; // 16 pages
    let num_pages = 1 << order;

    let head_alloc = fixture.allocator.alloc_frames(order as u8).ok().unwrap();
    assert_eq!(fixture.free_pages(), initial_free - num_pages);

    fixture.allocator.drop_allocation(head_alloc);
    assert_eq!(fixture.free_pages(), initial_free);
}

#[test]
fn alloc_out_of_memory() {
    let mut fixture = TestFixture::two_blocks();
    let total_pages = fixture.free_pages();
    assert!(total_pages > 0);

    let mut allocs = Vec::new();
    for _ in 0..total_pages {
        match fixture.allocator.alloc_frames(0) {
            Ok(pfn) => allocs.push(pfn),
            Err(e) => panic!("Allocation failed prematurely: {:?}", e),
        }
    }

    assert_eq!(fixture.free_pages(), 0);

    let result = fixture.allocator.alloc_frames(0);
    assert!(matches!(result, Err(KernelError::NoMemory)));

    for alloc in allocs {
        fixture.allocator.drop_allocation(alloc);
    }

    assert_eq!(fixture.free_pages(), total_pages);
}

#[test]
fn alloc_invalid_order() {
    let mut fixture = TestFixture::two_blocks();
    let result = fixture.allocator.alloc_frames((MAX_ORDER + 1) as u8);
    assert!(matches!(result, Err(KernelError::InvalidValue)));
}

#[test]
fn ref_count_free() {
    let mut fixture = TestFixture::two_blocks();
    let initial_free = fixture.free_pages();

    let alloc1 = fixture.allocator.alloc_frames(2).ok().unwrap();
    let alloc2 = fixture.allocator.clone_allocation(&alloc1);
    let alloc3 = fixture.allocator.clone_allocation(&alloc2);

    let pages_in_block = 1 << 2;
    assert_eq!(fixture.free_pages(), initial_free - pages_in_block);

    let pfn = alloc1.region().start_address().to_pfn();

    // The first two only take a holder away.
    fixture.allocator.drop_allocation(alloc1);

    assert_eq!(fixture.free_pages(), initial_free - pages_in_block);
    if let FrameState::AllocatedHead(info) = fixture.frame_state(pfn) {
        assert_eq!(info.ref_count, 2);
    } else {
        panic!("Page state changed unexpectedly");
    }

    fixture.allocator.drop_allocation(alloc2);

    assert_eq!(fixture.free_pages(), initial_free - pages_in_block);
    if let FrameState::AllocatedHead(info) = fixture.frame_state(pfn) {
        assert_eq!(info.ref_count, 1);
    } else {
        panic!("Page state changed unexpectedly");
    }

    // The third releases the memory.
    fixture.allocator.drop_allocation(alloc3);
    assert_eq!(fixture.free_pages(), initial_free);
    assert!(matches!(fixture.frame_state(pfn), FrameState::Free { .. }));
}

#[test]
fn a_block_is_freed_through_any_of_its_pages() {
    let mut fixture = TestFixture::two_blocks();
    let initial_free = fixture.free_pages();
    let region = fixture.allocator.alloc_frames(3).ok().unwrap().leak();
    let inside = PhysMemoryRegion::new(
        PA::from_value(region.start_address().value() + 5 * PAGE_SIZE),
        PAGE_SIZE,
    );
    let claim = fixture.allocator.alloc_from_region(inside);
    fixture.allocator.drop_allocation(claim);
    assert_eq!(fixture.free_pages(), initial_free);
    for pfn in region.iter_pfns() {
        assert!(!fixture.allocator.is_allocated(pfn));
    }
}

#[test]
fn allocation_is_seen_on_every_page() {
    let mut fixture = TestFixture::two_blocks();
    let alloc = fixture.allocator.alloc_frames(2).ok().unwrap();
    let start = alloc.region().start_address();
    assert_eq!(alloc.region().size, 4 * PAGE_SIZE);
    assert_eq!(start.value(), BASE + (1 << (MAX_ORDER + PAGE_SHIFT)));
    let pfns = alloc.region().iter_pfns();
    for pfn in &pfns {
        assert!(fixture.allocator.is_allocated(*pfn));
        assert!(fixture.allocator.is_allocated_exclusive(*pfn));
    }
    let after = PageFrame::from_pfn(pfns[3].value() + 1);
    assert!(!fixture.allocator.is_allocated(after));
    assert!(!fixture.allocator.is_allocated_exclusive(after));

    let shared = fixture.allocator.clone_allocation(&alloc);
    for pfn in &pfns {
        assert!(fixture.allocator.is_allocated(*pfn));
        assert!(!fixture.allocator.is_allocated_exclusive(*pfn));
    }
    fixture.allocator.drop_allocation(shared);
    assert!(fixture.allocator.is_allocated_exclusive(pfns[1]));
    fixture.allocator.drop_allocation(alloc);
    assert!(!fixture.allocator.is_allocated(pfns[0]));
}

#[test]
fn blocks_do_not_overlap() {
    let mut fixture = TestFixture::two_blocks();
    let mut taken: Vec<usize> = Vec::new();
    for order in [0u8, 3, 1, 5, 0, 2] {
        let region = fixture.allocator.alloc_frames(order).ok().unwrap().leak();
        assert_eq!(region.start_address().value() % (PAGE_SIZE << order), 0);
        for pfn in region.iter_pfns() {
            assert!(!taken.contains(&pfn.value()));
            taken.push(pfn.value());
        }
    }
    assert_eq!(fixture.free_pages(), 1024 - taken.len());
}

#[test]
fn freeing_in_any_order_merges_everything() {
    let mut fixture = TestFixture::two_blocks();
    let a = fixture.allocator.alloc_frames(0).ok().unwrap();
    let b = fixture.allocator.alloc_frames(0).ok().unwrap();
    let c = fixture.allocator.alloc_frames(4).ok().unwrap();
    fixture.allocator.drop_allocation(b);
    fixture.allocator.drop_allocation(c);
    fixture.allocator.drop_allocation(a);
    let mut expected_counts = [0; MAX_ORDER + 1];
    expected_counts[MAX_ORDER] = 1;
    fixture.assert_free_list_counts(&expected_counts);
}

#[test]
fn managed_range_spans_all_memory() {
    let block = 1 << (MAX_ORDER + PAGE_SHIFT);
    let fixture = TestFixture::new(&[(0, 2 * block), (3 * block, 2 * block)], &[]);
    assert_eq!(fixture.allocator.total_pages(), 5 * 1024);
    assert_eq!(fixture.allocator.base_page().value(), BASE / PAGE_SIZE);
    // The first block holds the page table, the third is no memory.
    assert_eq!(fixture.free_pages(), 3 * 1024);
}

#[test]
fn early_memory_must_not_overlap() {
    let mut smalloc = Smalloc::new();
    let region = |start, size| PhysMemoryRegion::new(PA::from_value(start), size);
    assert_eq!(smalloc.add_memory(region(0x3000, 0x1000)), Ok(()));
    assert_eq!(smalloc.add_memory(region(0x1000, 0x1000)), Ok(()));
    assert_eq!(
        smalloc.add_memory(region(0x1800, 0x1000)),
        Err(KernelError::InvalidValue)
    );
    assert_eq!(
        smalloc.add_memory(region(0x8000, 0)),
        Err(KernelError::InvalidValue)
    );
    assert_eq!(smalloc.memory[0].start_address().value(), 0x1000);
    assert_eq!(smalloc.memory[1].start_address().value(), 0x3000);
}

#[test]
fn early_allocations_take_the_lowest_place() {
    let mut smalloc = Smalloc::new();
    let region = |start, size| PhysMemoryRegion::new(PA::from_value(start), size);
    smalloc.add_memory(region(0x1000, 0x1000)).unwrap();
    smalloc.add_reservation(region(0x1000, 0x10));
    assert_eq!(smalloc.reserve_first_fit(0x20, 0x40), Ok(PA::from_value(0x1040)));
    assert_eq!(smalloc.reserve_first_fit(0x20, 0x10), Ok(PA::from_value(0x1010)));
    assert_eq!(smalloc.reserve_first_fit(0x2000, 1), Err(KernelError::NoMemory));
}

#[test]
fn reserved_pages_are_never_handed_out() {
    let block = 1 << (MAX_ORDER + PAGE_SHIFT);
    let reserved = (2 * block + 7 * PAGE_SIZE, 3 * PAGE_SIZE);
    let mut fixture = TestFixture::new(&[(0, 4 * block)], &[reserved]);
    let first = (BASE + reserved.0) / PAGE_SIZE;
    let mut taken = Vec::new();
    while let Ok(alloc) = fixture.allocator.alloc_frames(5) {
        for pfn in alloc.region().iter_pfns() {
            assert!(pfn.value() < first || pfn.value() >= first + 3);
        }
        taken.push(alloc);
    }
    assert_eq!(taken.len(), 2 * 32);
    for page in 0..3 {
        let pfn = PageFrame::from_pfn(first + page);
        assert!(matches!(fixture.frame_state(pfn), FrameState::Kernel));
    }
    for alloc in taken {
        fixture.allocator.drop_allocation(alloc);
    }
    for page in 0..3 {
        let pfn = PageFrame::from_pfn(first + page);
        assert!(matches!(fixture.frame_state(pfn), FrameState::Kernel));
    }
    assert_eq!(fixture.free_pages(), 2 * 1024);
}

#[test]
fn memory_may_begin_and_end_within_a_page() {
    let block = 1 << (MAX_ORDER + PAGE_SHIFT);
    let end = 2 * block + 5 * PAGE_SIZE + 0x400;
    let fixture = TestFixture::new(&[(0x800, end - 0x800)], &[]);
    assert_eq!(fixture.allocator.total_pages(), 2048 + 4);
    assert_eq!(fixture.allocator.base_page().value(), BASE / PAGE_SIZE);
    // The first block is not all memory.
    assert_eq!(fixture.free_pages(), 1024);
    assert_eq!(fixture.allocator.free_blocks(MAX_ORDER), 1);
    let second = PageFrame::from_pfn(BASE / PAGE_SIZE + 1024);
    assert!(matches!(
        fixture.frame_state(second),
        FrameState::Free { order: 10 }
    ));
}

#[test]
fn the_page_table_must_describe_every_free_block() {
    let block = 1 << (MAX_ORDER + PAGE_SHIFT);
    let region = |start, size| PhysMemoryRegion::new(PA::from_value(BASE + start), size);
    let mut smalloc = Smalloc::new();
    assert!(!smalloc.can_bring_up());
    smalloc
        .add_memory(region(0x800, 3 * block + 0x400 - 0x800))
        .unwrap();
    // The third block ends one page past the table.
    assert!(!smalloc.can_bring_up());
    smalloc.add_reservation(region(2 * block + 9 * PAGE_SIZE, PAGE_SIZE));
    assert!(smalloc.can_bring_up());
    let allocator = FrameAllocator::init(smalloc);
    assert_eq!(allocator.total_pages(), 3071);
    assert_eq!(allocator.free_pages(), 1024);
    assert_eq!(allocator.free_blocks(MAX_ORDER), 1);
    // No place is left for the table.
    let mut full = Smalloc::new();
    full.add_memory(region(0, block)).unwrap();
    assert!(full.can_bring_up());
    full.add_reservation(region(0, block));
    assert!(!full.can_bring_up());
}

#[test]
fn all_that_was_given_back_is_whole_again() {
    let block = 1 << (MAX_ORDER + PAGE_SHIFT);
    let mut fixture = TestFixture::new(&[(0, 4 * block)], &[]);
    let mut taken = Vec::new();
    for order in [3, 0, 9, 0, 5, 1, 8, 2, 0, 7, 4, 0] {
        taken.push(fixture.allocator.alloc_frames(order).unwrap());
    }
    // Every other one first, then the rest.
    let mut rest = Vec::new();
    for (i, alloc) in taken.into_iter().enumerate() {
        if i % 2 == 0 {
            fixture.allocator.drop_allocation(alloc);
        } else {
            rest.push(alloc);
        }
    }
    for alloc in rest {
        fixture.allocator.drop_allocation(alloc);
    }
    fixture.assert_free_list_counts(&[0, 0, 0, 0, 0, 0, 0, 0, 0, 0, 3]);
    assert_eq!(fixture.free_pages(), 3 * 1024);
}
