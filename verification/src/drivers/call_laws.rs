//! What the calls for devices and for the control group file system do.
use crate::drivers::fs::cgroup::{cgroupfs, CgroupFs, CgroupFsDriver, RootInode};
use crate::drivers::fs::inode_id::{
    checked_inode_id, fx_digest, get_inode_id, hashed_path, segment_views,
};
use crate::drivers::virtio_hal::{
    is_order_for, law_dma_dealloc_undoes_alloc, lemma_order_for_unique, DmaBuffer, VirtioHal,
};
use crate::error::{FsError, KernelError};
use crate::fs::attr::{FileAttr, InodeId};
use crate::fs::dir::{Dirent, SimpleDirStream};
use crate::memory::buddy::{lemma_block_pages, lemma_block_pages_step};
use crate::memory::call_laws::lemma_allocated_after;
use crate::memory::model_proofs::lemma_source_block;
use crate::memory::page::PageFrame;
use crate::memory::page_alloc::FrameAllocator;
use std::sync::Arc;
use vstd::arithmetic::power2::pow2;
use vstd::prelude::*;
use vstd::utf8::encode_utf8;

verus! {

/// The order for a request is that of the smallest block that holds it.
pub proof fn law_smallest_order_that_holds(pages: usize, order: u8, other: nat)
    requires
        pages <= usize::MAX / 2 + 1,
        call_ensures(VirtioHal::pages_to_order, (pages,), order),
    ensures
        pages <= pow2(order as nat),
        pages <= pow2(other) ==> order <= other,
{
    if other < order {
        if other < order - 1 {
            vstd::arithmetic::power2::lemma_pow2_strictly_increases(other, (order - 1) as nat);
        }
    }
}

/// Memory for a device is a block that was free, of the smallest size that
/// holds the pages asked for. The device sees it where it is, the kernel by
/// its direct map, and all of the pages asked for are to be cleared.
pub proof fn law_device_memory_was_free(
    frames: &mut FrameAllocator,
    page_offset: usize,
    pages: usize,
    order: u8,
    buffer: DmaBuffer,
    q: PageFrame,
    was: bool,
    is: bool,
)
    requires
        frames.wf(),
        pages <= usize::MAX / 2 + 1,
        call_ensures(VirtioHal::pages_to_order, (pages,), order),
        call_ensures(
            VirtioHal::dma_alloc,
            (frames, page_offset, pages),
            Ok::<DmaBuffer, KernelError>(buffer),
        ),
        frames@.in_range(q.n as int),
        call_ensures(FrameAllocator::is_allocated, (&*frames, q), was),
        call_ensures(FrameAllocator::is_allocated, (&*final(frames), q), is),
    ensures
        buffer.vaddr == page_offset + buffer.paddr,
        buffer.clear == pages * 4096,
        buffer.paddr as nat % 4096 == 0,
        ({
            let inside = buffer.paddr <= q.n * 4096 < buffer.paddr + pow2(order as nat) * 4096;
            &&& is <==> was || inside
            &&& !(was && inside)
        }),
{
    let m = frames@;
    let o = order as nat;
    assert(is_order_for(pages as int, o));
    assert forall|other: nat| #[trigger] is_order_for(pages as int, other) implies other == o by {
        lemma_order_for_unique(pages as int, other, o);
    }
    assert(o <= 10 && m.can_alloc(o));
    lemma_allocated_after(m, o, q.n as int);
    lemma_source_block(m, o);
    lemma_block_pages_step(o);
}

/// What a device gave back leaves the allocator as it was before.
pub proof fn law_device_memory_is_given_back(
    frames: &mut FrameAllocator,
    page_offset: usize,
    pages: usize,
    order: u8,
    buffer: DmaBuffer,
    after: &mut FrameAllocator,
    r: i32,
)
    requires
        frames.wf(),
        pages <= usize::MAX / 2 + 1,
        call_ensures(VirtioHal::pages_to_order, (pages,), order),
        call_ensures(
            VirtioHal::dma_alloc,
            (frames, page_offset, pages),
            Ok::<DmaBuffer, KernelError>(buffer),
        ),
        *after == *final(frames),
        call_ensures(VirtioHal::dma_dealloc, (after, buffer.paddr, pages), r),
    ensures
        r == 0,
        final(after)@ == old(frames)@,
{
    let m = frames@;
    let o = order as nat;
    assert(is_order_for(pages as int, o));
    assert forall|other: nat| #[trigger] is_order_for(pages as int, other) implies other == o by {
        lemma_order_for_unique(pages as int, other, o);
    }
    assert(o <= 10 && m.can_alloc(o));
    law_dma_dealloc_undoes_alloc(m, o, buffer.paddr as int);
}

/// A request is refused where it is larger than the largest block, which has
/// 1024 pages, and fails where no block that holds it is free; the allocator
/// then stays as it is.
pub proof fn law_device_memory_is_refused(
    frames: &mut FrameAllocator,
    page_offset: usize,
    pages: usize,
    order: u8,
    e: KernelError,
)
    requires
        frames.wf(),
        pages <= usize::MAX / 2 + 1,
        call_ensures(VirtioHal::pages_to_order, (pages,), order),
        call_ensures(
            VirtioHal::dma_alloc,
            (frames, page_offset, pages),
            Err::<DmaBuffer, KernelError>(e),
        ),
    ensures
        pages > 1024 ==> e == KernelError::InvalidValue,
        pages <= 1024 ==> e == KernelError::NoMemory && forall|k: int|
            order <= k <= 10 ==> (#[trigger] old(frames)@.free[k]).len() == 0,
        final(frames)@ == old(frames)@,
{
    lemma_block_pages();
    assert(is_order_for(pages as int, order as nat));
    if pages <= 1024 && order > 10 {
        if order > 11 {
            vstd::arithmetic::power2::lemma_pow2_strictly_increases(10, (order - 1) as nat);
        }
    }
    if pages <= 1024 {
        assert(!frames@.can_alloc(order as nat));
    }
}

/// Where the kernel sees memory and where a device sees it are one offset
/// apart, so each is had back from the other.
pub proof fn law_direct_map(page_offset: usize, paddr: u64, vaddr: usize, back: u64)
    requires
        call_ensures(VirtioHal::mmio_phys_to_virt, (page_offset, paddr), vaddr),
        call_ensures(VirtioHal::share, (page_offset, vaddr), back),
    ensures
        vaddr == page_offset + paddr,
        back == paddr,
{
}

/// The root of the control group file system is an empty directory: nothing is
/// found and nothing is listed there.
pub proof fn law_control_groups_are_empty(
    id: InodeId,
    root: RootInode,
    its_id: InodeId,
    attr: FileAttr,
    name: &str,
    found: Result<InodeId, KernelError>,
    start: u64,
    stream: SimpleDirStream,
    entries: usize,
)
    requires
        call_ensures(RootInode::new, (id,), root),
        call_ensures(RootInode::id, (&root,), its_id),
        call_ensures(RootInode::getattr, (&root,), attr),
        call_ensures(RootInode::lookup, (&root, name), found),
        call_ensures(RootInode::readdir, (&root, start), stream),
        call_ensures(RootInode::num_entries, (), entries),
    ensures
        its_id == id,
        attr.file_type is Directory,
        found == Err::<InodeId, _>(KernelError::Fs(FsError::NotFound)),
        stream.entries@.len() == 0,
        entries == 0,
{
}

/// The control group file system is numbered 4, and so is its root, whose
/// inode is numbered by the digest of the file system's name.
pub proof fn law_control_group_root(fs: Option<Arc<CgroupFs>>, id: u64)
    requires
        call_ensures(CgroupFs::new, (), fs),
        fs matches Some(fs) ==> call_ensures(CgroupFs::id, (&*fs,), id),
    ensures
        ({
            let digest = fx_digest(seq![encode_utf8("cgroupfs"@)], usize::BITS);
            &&& fs is None <==> digest == 0
            &&& fs matches Some(fs) ==> {
                &&& id == 4
                &&& fs.root.id.fs_id == 4
                &&& fs.root.id.inode_id == digest
                &&& fs.root.attr.file_type is Directory
            }
        }),
{
    let f = |s: Seq<char>| encode_utf8(s);
    assert(seq![encode_utf8("cgroupfs"@)] + Seq::<Seq<char>>::empty().map_values(f) =~= seq![
        encode_utf8("cgroupfs"@),
    ]);
}

/// There is one control group file system: once it was given out, it is the
/// one that is given out ever after.
pub proof fn law_one_control_group_file_system(
    instance: &mut Option<Arc<CgroupFs>>,
    first: Option<Arc<CgroupFs>>,
    later: &mut Option<Arc<CgroupFs>>,
    second: Option<Arc<CgroupFs>>,
)
    requires
        call_ensures(cgroupfs, (instance,), first),
        *later == *final(instance),
        call_ensures(cgroupfs, (later,), second),
    ensures
        first is Some ==> second == first,
        *old(instance) is Some ==> first == *old(instance),
{
}

/// The driver refuses a device, and else gives out the one file system.
pub proof fn law_driver_needs_no_device(
    driver: &CgroupFsDriver,
    fs_id: u64,
    has_device: bool,
    instance: &mut Option<Arc<CgroupFs>>,
    r: Result<Option<Arc<CgroupFs>>, KernelError>,
    name: &'static str,
)
    requires
        call_ensures(CgroupFsDriver::construct, (driver, fs_id, has_device, instance), r),
        call_ensures(CgroupFsDriver::name, (driver,), name),
    ensures
        has_device ==> r == Err::<Option<Arc<CgroupFs>>, _>(KernelError::InvalidValue) && *final(
            instance) == *old(instance),
        !has_device ==> r == Ok::<Option<Arc<CgroupFs>>, KernelError>(*final(instance)),
        !has_device && *old(instance) is Some ==> *final(instance) == *old(instance),
        name@ == "cgroupfs"@,
{
}

/// A listing is read entry by entry from where it starts, each entry once and
/// in order, until there is none left.
pub proof fn law_listings_are_read_in_order(
    entries: Vec<Dirent>,
    start: u64,
    stream: SimpleDirStream,
    first: &mut SimpleDirStream,
    one: Option<Dirent>,
    second: &mut SimpleDirStream,
    two: Option<Dirent>,
)
    requires
        call_ensures(SimpleDirStream::new, (entries, start), stream),
        *first == stream,
        call_ensures(SimpleDirStream::next_entry, (first,), one),
        *second == *final(first),
        call_ensures(SimpleDirStream::next_entry, (second,), two),
    ensures
        one is Some <==> start < entries@.len(),
        one matches Some(e) ==> e.name@ == entries@[start as int].name@ && e.id
            == entries@[start as int].id && e.file_type == entries@[start as int].file_type
            && e.offset == entries@[start as int].offset,
        two is Some <==> start + 1 < entries@.len(),
        two matches Some(e) ==> e.name@ == entries@[start + 1].name@ && e.id == entries@[start
            + 1].id,
{
    if start < entries@.len() {
        let a = entries@[start as int]@;
        if start + 1 < entries@.len() {
            let b = entries@[start + 1]@;
        }
    }
}

/// What is hashed for a path: the file system's name, then each name on the
/// path, in order.
pub open spec fn is_hashed_for(hashed: Seq<Seq<u8>>, tag: &str, segments: &[&str]) -> bool {
    &&& hashed.len() == segments@.len() + 1
    &&& hashed[0] == encode_utf8(tag@)
    &&& forall|i: int|
        0 <= i < segments@.len() ==> #[trigger] hashed[i + 1] == encode_utf8(segments@[i]@)
}

/// The inode number of a path is the digest of what is hashed for it; there is
/// none where that is zero.
pub proof fn law_inode_numbers_are_digests(
    tag: &str,
    segments: &[&str],
    hashed: Seq<Seq<u8>>,
    checked: Option<u64>,
    id: u64,
)
    requires
        is_hashed_for(hashed, tag, segments),
        call_ensures(checked_inode_id, (tag, segments), checked),
        checked is Some ==> call_ensures(get_inode_id, (tag, segments), id),
    ensures
        checked is None <==> fx_digest(hashed, usize::BITS) == 0,
        checked matches Some(n) ==> n == fx_digest(hashed, usize::BITS) && id == n,
{
    let want = hashed_path(tag@, segment_views(segments@));
    assert forall|i: int| 0 <= i < hashed.len() implies hashed[i] == want[i] by {
        if i > 0 {
            assert(hashed[(i - 1) + 1] == encode_utf8(segments@[i - 1]@));
        }
    }
    assert(hashed =~= want);
}

/// The root of the control group file system is the one it was made with.
pub proof fn law_control_group_root_is_kept(n: u64, fs: Arc<CgroupFs>, root: Arc<RootInode>)
    requires
        call_ensures(CgroupFs::from_root_number, (n,), fs),
        call_ensures(CgroupFs::root_inode, (&*fs,), root),
    ensures
        root.id.fs_id == 4,
        root.id.inode_id == n,
        root.attr.file_type is Directory,
{
}

} // verus!
