//! Memory for virtio devices.
use moss_kernel::drivers::virtio_hal::VirtioHal;
use moss_kernel::error::KernelError;
use moss_kernel::memory::address::{PhysMemoryRegion, PA};
use moss_kernel::memory::page_alloc::FrameAllocator;
use moss_kernel::memory::smalloc::Smalloc;

const OFFSET: usize = 0x8000_0000_0000;

fn frames() -> FrameAllocator {
    let mut smalloc = Smalloc::new();
    smalloc
        .add_memory(PhysMemoryRegion::new(PA::from_value(1 << 30), 8 << 20))
        .unwrap();
    FrameAllocator::init(smalloc)
}

#[test]
fn orders_are_rounded_up() {
    let expected = [
        (0usize, 0u8),
        (1, 0),
        (2, 1),
        (3, 2),
        (4, 2),
        (5, 3),
        (1023, 10),
        (1024, 10),
        (1025, 11),
    ];
    for (pages, order) in expected {
        assert_eq!(VirtioHal::pages_to_order(pages), order);
    }
    assert_eq!(VirtioHal::pages_to_order(1 << 63), 63);
}

#[test]
fn dma_memory_comes_from_the_allocator_and_goes_back() {
    let mut frames = frames();
    let before = frames.free_pages();
    let buffer = VirtioHal::dma_alloc(&mut frames, OFFSET, 3).unwrap();
    assert_eq!(frames.free_pages(), before - 4);
    assert_eq!(buffer.paddr, (1 << 30) + (4 << 20));
    assert_eq!(buffer.vaddr, OFFSET + buffer.paddr as usize);
    assert_eq!(buffer.clear, 3 * 4096);
    assert_eq!(VirtioHal::dma_dealloc(&mut frames, buffer.paddr, 3), 0);
    assert_eq!(frames.free_pages(), before);
    assert_eq!(frames.free_blocks(10), 1);
}

#[test]
fn dma_memory_can_run_out() {
    let mut frames = frames();
    assert!(VirtioHal::dma_alloc(&mut frames, OFFSET, 1024).is_ok());
    assert_eq!(
        VirtioHal::dma_alloc(&mut frames, OFFSET, 1),
        Err(KernelError::NoMemory)
    );
    assert_eq!(
        VirtioHal::dma_alloc(&mut frames, OFFSET, 1025),
        Err(KernelError::InvalidValue)
    );
}

#[test]
fn sharing_inverts_the_direct_map() {
    let vaddr = VirtioHal::mmio_phys_to_virt(OFFSET, 0x1234_5000);
    assert_eq!(vaddr, OFFSET + 0x1234_5000);
    assert_eq!(VirtioHal::share(OFFSET, vaddr), 0x1234_5000);
}
