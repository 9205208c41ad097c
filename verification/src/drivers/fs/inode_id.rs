//! Inode numbers that are made from paths, so that they are the same each
//! time a path is looked up.
use rustc_hash::FxHasher;
use std::hash::Hasher;
use vstd::prelude::*;
use vstd::string::StringSliceAdditionalSpecFns;

verus! {

/// The hasher of the `rustc_hash` crate.
#[verifier::external_type_specification]
#[verifier::external_body]
pub struct ExFxHasher(FxHasher);

/// What has been written to a hasher, write by write.
pub uninterp spec fn fx_written(hasher: FxHasher) -> Seq<Seq<u8>>;

/// The digest of what was written, on a machine whose pointers have
/// `pointer_bits` bits.
pub uninterp spec fn fx_digest(written: Seq<Seq<u8>>, pointer_bits: u32) -> u64;

/// `FxHasher::default`: a hasher to which nothing has been written.
#[verifier::external_body]
fn new_hasher() -> (hasher: FxHasher)
    ensures
        fx_written(hasher) == Seq::<Seq<u8>>::empty(),
{
    FxHasher::default()
}

/// `FxHasher::write`: takes in one more piece. Two pieces are not the same as
/// both in one.
#[verifier::external_body]
fn write_bytes(hasher: &mut FxHasher, bytes: &[u8])
    ensures
        fx_written(*final(hasher)) == fx_written(*old(hasher)).push(bytes@),
{
    hasher.write(bytes);
}

/// `FxHasher::finish`: the digest depends on what was written, in order, and
/// on the width of a pointer. What number it is, is left unsaid.
#[verifier::external_body]
fn digest(hasher: &FxHasher) -> (n: u64)
    ensures
        n == fx_digest(fx_written(*hasher), usize::BITS),
{
    hasher.finish()
}

/// What is hashed for a path in a file system: the name of the file system,
/// then each segment of the path.
pub open spec fn hashed_path(tag: Seq<char>, segments: Seq<Seq<char>>) -> Seq<Seq<u8>> {
    seq![vstd::utf8::encode_utf8(tag)] + segments.map_values(
        |segment: Seq<char>| vstd::utf8::encode_utf8(segment),
    )
}

/// The digest of a path in a file system. It is the inode number unless it is
/// zero.
pub open spec fn path_digest(tag: Seq<char>, segments: Seq<Seq<char>>) -> u64 {
    fx_digest(hashed_path(tag, segments), usize::BITS)
}

/// The segments as sequences of characters.
pub open spec fn segment_views(segments: Seq<&str>) -> Seq<Seq<char>> {
    segments.map_values(|segment: &str| segment@)
}

/// Hashes a path.
fn hash_path(tag: &str, segments: &[&str]) -> (n: u64)
    ensures
        n == path_digest(tag@, segment_views(segments@)),
{
    let mut hasher = new_hasher();
    write_bytes(&mut hasher, tag.as_bytes());
    let ghost want = hashed_path(tag@, segment_views(segments@));
    assert(fx_written(hasher) =~= want.take(1));
    let mut i: usize = 0;
    while i < segments.len()
        invariant
            i <= segments@.len(),
            want == hashed_path(tag@, segment_views(segments@)),
            fx_written(hasher) == want.take(i + 1),
        decreases segments@.len() - i,
    {
        let segment = segments[i];
        write_bytes(&mut hasher, segment.as_bytes());
        assert(want[i + 1] == segment.spec_bytes());
        assert(fx_written(hasher) =~= want.take(i + 2));
        i += 1;
    }
    assert(want.take(want.len() as int) =~= want);
    digest(&hasher)
}

/// The inode number of a path in the file system `tag`. Numbers of different
/// file systems are kept apart by hashing the name of the file system first.
pub fn get_inode_id(tag: &str, segments: &[&str]) -> (id: u64)
    requires
        path_digest(tag@, segment_views(segments@)) != 0,
    ensures
        id == path_digest(tag@, segment_views(segments@)),
        id != 0,
{
    hash_path(tag, segments)
}

/// The inode number that a digest gives: zero is none.
pub open spec fn id_of_digest(digest: u64) -> Option<u64> {
    if digest == 0 {
        None
    } else {
        Some(digest)
    }
}

/// The inode number of a path in the file system `tag`, or nothing where the
/// path hashes to zero, which is no inode number.
pub fn checked_inode_id(tag: &str, segments: &[&str]) -> (id: Option<u64>)
    ensures
        id == id_of_digest(path_digest(tag@, segment_views(segments@))),
{
    if hash_path(tag, segments) == 0 {
        None
    } else {
        Some(get_inode_id(tag, segments))
    }
}

} // verus!
