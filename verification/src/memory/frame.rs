//! The metadata that the frame allocator keeps for every page.
use crate::memory::page::PageFrame;
use vstd::prelude::*;

verus! {

/// Metadata of the first page of an allocated block.
#[derive(Clone, Copy, Debug)]
pub struct AllocatedInfo {
    /// Current ref count of the allocated block.
    pub ref_count: u32,
    /// The order of the entire allocated block.
    pub order: u8,
}

/// Holds metadata for a page that is part of an allocated block but is not the head.
/// It simply points back to the head of the block.
#[derive(Clone, Copy, Debug)]
pub struct TailInfo {
    pub head: PageFrame,
}

/// What a page is in use for.
#[derive(Clone, Copy, Debug)]
pub enum FrameState {
    /// The frame is not the head of any block: it lies inside a free block or
    /// in memory that was never handed to the allocator.
    Uninitialized,
    /// The frame is the head of a free block of a certain order.
    Free { order: u8 },
    /// The frame is the head of an allocated block.
    AllocatedHead(AllocatedInfo),
    /// The frame is a tail page of an allocated block.
    AllocatedTail(TailInfo),
    /// The frame is reserved by hardware/firmware.
    Reserved,
    /// The frame is part of the kernel's own image.
    Kernel,
}

/// One page and its state.
#[derive(Clone, Copy, Debug)]
pub struct Frame {
    pub state: FrameState,
    pub pfn: PageFrame,
}

impl Frame {
    /// A page that the allocator has not looked at yet.
    pub fn new(pfn: PageFrame) -> (frame: Self)
        ensures
            frame.pfn == pfn,
            frame.state == FrameState::Uninitialized,
    {
        Frame { state: FrameState::Uninitialized, pfn }
    }
}

} // verus!
