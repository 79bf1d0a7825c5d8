//! Tells the tar archives whose sizes do not fit into the numbers they are read with.

use crate::bytes::{be_value, slice_of, u64_from_be};
use vstd::prelude::*;

verus! {

/// How many bytes a block of an archive has.
pub const BLOCK_SIZE: usize = 512;

/// A block of an archive.
pub open spec fn block_at(archive: Seq<u8>, k: int) -> Seq<u8> {
    archive.subrange(BLOCK_SIZE * k, BLOCK_SIZE * k + BLOCK_SIZE)
}

/// Whether a block has the letters `ustar` where a header has them.
pub open spec fn has_letters(block: Seq<u8>) -> bool {
    &&& block[257] == 0x75
    &&& block[258] == 0x73
    &&& block[259] == 0x74
    &&& block[260] == 0x61
    &&& block[261] == 0x72
}

/// Whether a block is a header of GNU tar.
pub open spec fn is_gnu(block: Seq<u8>) -> bool {
    has_letters(block) && block[262] == 0x20 && block[263] == 0x20 && block[264] == 0
}

/// Whether a block is a header of the standard.
pub open spec fn is_ustar(block: Seq<u8>) -> bool {
    has_letters(block) && block[262] == 0 && block[263] == 0x30 && block[264] == 0x30
}

/// Whether a block is a header with extended attributes of the entry that follows, among which
/// its size may be: type `x`.
pub open spec fn is_attributes(block: Seq<u8>) -> bool {
    (is_gnu(block) || is_ustar(block)) && block[156] == 0x78
}

/// Whether a block is a header that is about the entry that follows: with extended attributes, or
/// with a long name, of type `L` or `K`.
pub open spec fn is_leading(block: Seq<u8>) -> bool {
    (is_gnu(block) || is_ustar(block)) && (block[156] == 0x78 || block[156] == 0x4c || block[156]
        == 0x4b)
}

/// Whether a block is the header of a sparse file, of type `S`, that goes on in further blocks.
pub open spec fn is_extended_sparse(block: Seq<u8>) -> bool {
    is_gnu(block) && block[156] == 0x53 && block[482] == 1
}

/// Whether a header has a size in binary that, with the length of the archive, comes to more
/// than 64 bits hold.
pub open spec fn is_near_limit(block: Seq<u8>, len: int) -> bool {
    block[124] >= 0x80 && be_value(block.subrange(128, 136)) + (BLOCK_SIZE - 1) + len > u64::MAX
}

/// Whether the header in a block may be that of the first entry, and of a sparse file whose
/// extent does not fit into 64 bits.
pub open spec fn is_oversized_at(archive: Seq<u8>, k: int) -> bool {
    &&& is_extended_sparse(block_at(archive, k))
    &&& k == 0 || is_leading(block_at(archive, 0))
    &&& is_near_limit(block_at(archive, k), archive.len() as int) || exists|j: int|
        0 <= j < k && is_attributes(#[trigger] block_at(archive, j))
}

/// Whether the first entry of an archive may be a sparse file whose extent does not fit into 64
/// bits.
pub open spec fn is_oversized(archive: Seq<u8>) -> bool {
    exists|k: int|
        0 <= k && BLOCK_SIZE * k + BLOCK_SIZE <= archive.len() && #[trigger] is_oversized_at(
            archive,
            k,
        )
}

/// What is known of a block.
struct Header {
    attributes: bool,
    leading: bool,
    extended_sparse: bool,
    near_limit: bool,
}

/// Looks at a block.
fn header_of(block: &Vec<u8>, len: usize) -> (header: Header)
    requires
        block@.len() == BLOCK_SIZE,
    ensures
        header.attributes == is_attributes(block@),
        header.leading == is_leading(block@),
        header.extended_sparse == is_extended_sparse(block@),
        header.near_limit == is_near_limit(block@, len as int),
{
    let letters = block[257] == 0x75 && block[258] == 0x73 && block[259] == 0x74 && block[260]
        == 0x61 && block[261] == 0x72;
    let gnu = letters && block[262] == 0x20 && block[263] == 0x20 && block[264] == 0;
    let ustar = letters && block[262] == 0 && block[263] == 0x30 && block[264] == 0x30;
    let kind: u8 = block[156];
    let extent: u128 = u64_from_be(block, 128) as u128 + (BLOCK_SIZE - 1) as u128 + len as u128;
    Header {
        attributes: (gnu || ustar) && kind == 0x78,
        leading: (gnu || ustar) && (kind == 0x78 || kind == 0x4c || kind == 0x4b),
        extended_sparse: gnu && kind == 0x53 && block[482] == 1,
        near_limit: block[124] >= 0x80 && extent > u64::MAX as u128,
    }
}

/// Whether the first entry of an archive may be a sparse file whose extent does not fit into 64
/// bits.
pub fn check_oversized(archive: &Vec<u8>) -> (oversized: bool)
    ensures
        oversized == is_oversized(archive@),
{
    let blocks: usize = archive.len() / BLOCK_SIZE;
    let mut leading = false;
    let mut attributes = false;
    let mut k: usize = 0;
    while k < blocks
        invariant
            k <= blocks,
            blocks * 512 <= archive@.len() < blocks * 512 + 512,
            archive@.len() <= usize::MAX,
            k > 0 ==> leading == is_leading(block_at(archive@, 0)),
            attributes <==> exists|j: int|
                0 <= j < k && is_attributes(#[trigger] block_at(archive@, j)),
            forall|j: int| 0 <= j < k ==> !#[trigger] is_oversized_at(archive@, j),
        decreases blocks - k,
    {
        let block = slice_of(archive, k * BLOCK_SIZE, k * BLOCK_SIZE + BLOCK_SIZE);
        let header = header_of(&block, archive.len());
        assert(block@ == block_at(archive@, k as int));
        if header.extended_sparse && (k == 0 || leading) && (header.near_limit || attributes) {
            assert(is_oversized_at(archive@, k as int));
            return true;
        }
        assert(!is_oversized_at(archive@, k as int));
        if k == 0 {
            leading = header.leading;
        }
        attributes = attributes || header.attributes;
        k += 1;
    }
    false
}

/// Ordinary archives are not oversized: those that are too short for a header, those whose first
/// entry is neither a sparse file nor preceded by headers about it, and those without a sparse file
/// that goes on in further blocks.
pub proof fn law_ordinary_archives(archive: Vec<u8>, oversized: bool)
    requires
        call_ensures(check_oversized, (&archive,), oversized),
    ensures
        archive@.len() < 512 ==> !oversized,
        archive@.len() >= 512 && archive@[156] != 0x53 && archive@[156] != 0x78 && archive@[156]
            != 0x4c && archive@[156] != 0x4b ==> !oversized,
        (forall|k: int|
            0 <= k && 512 * k + 512 <= archive@.len() ==> #[trigger] block_at(archive@, k)[482]
                != 1) ==> !oversized,
        (forall|k: int|
            0 <= k && 512 * k + 512 <= archive@.len() ==> #[trigger] block_at(archive@, k)[156]
                != 0x53) ==> !oversized,
{
    if is_oversized(archive@) {
        let k = choose|k: int|
            0 <= k && BLOCK_SIZE * k + BLOCK_SIZE <= archive@.len() && #[trigger] is_oversized_at(
                archive@,
                k,
            );
        assert(block_at(archive@, 0)[156] == archive@[156]);
        assert(block_at(archive@, k)[482] == 1);
        assert(block_at(archive@, k)[156] == 0x53);
    }
}

/// A sparse file at the beginning of an archive, that goes on in further blocks, is oversized where
/// its size in binary, rounded up to whole blocks, and the rest of the archive exceed 64 bits; where
/// the size is written in octal, it is not.
pub proof fn law_sparse_archive(archive: Vec<u8>, oversized: bool)
    requires
        call_ensures(check_oversized, (&archive,), oversized),
        archive@.len() >= 512,
        archive@[156] == 0x53,
        archive@[482] == 1,
        archive@.subrange(257, 265) == seq![0x75u8, 0x73, 0x74, 0x61, 0x72, 0x20, 0x20, 0],
    ensures
        archive@[124] >= 0x80 && be_value(archive@.subrange(128, 136)) + 511 + archive@.len()
            >= 0x1_0000_0000_0000_0000 ==> oversized,
        archive@[124] < 0x80 ==> !oversized,
{
    let block = block_at(archive@, 0);
    let magic = archive@.subrange(257, 265);
    assert(block[156] == archive@[156] && block[482] == archive@[482] && block[124]
        == archive@[124]);
    assert(magic[0] == 0x75 && magic[1] == 0x73 && magic[2] == 0x74 && magic[3] == 0x61 && magic[4]
        == 0x72 && magic[5] == 0x20 && magic[6] == 0x20 && magic[7] == 0);
    assert(block[257] == magic[0] && block[258] == magic[1] && block[259] == magic[2] && block[260]
        == magic[3] && block[261] == magic[4] && block[262] == magic[5] && block[263] == magic[6]
        && block[264] == magic[7]);
    assert(block.subrange(128, 136) =~= archive@.subrange(128, 136));
    assert(is_extended_sparse(block));
    assert(!is_leading(block));
    if archive@[124] >= 0x80 && be_value(archive@.subrange(128, 136)) + 511 + archive@.len()
        >= 0x1_0000_0000_0000_0000 {
        assert(is_oversized_at(archive@, 0));
    }
    if archive@[124] < 0x80 && is_oversized(archive@) {
        let k = choose|k: int|
            0 <= k && BLOCK_SIZE * k + BLOCK_SIZE <= archive@.len() && #[trigger] is_oversized_at(
                archive@,
                k,
            );
        assert(k == 0);
    }
}

/// An archive without a header of GNU tar in it is not oversized.
pub proof fn law_other_formats(archive: Vec<u8>, oversized: bool)
    requires
        call_ensures(check_oversized, (&archive,), oversized),
        forall|k: int|
            0 <= k && 512 * k + 512 <= archive@.len() ==> {
                let block = #[trigger] block_at(archive@, k);
                block[257] != 0x75 || block[262] != 0x20 || block[264] != 0
            },
    ensures
        !oversized,
{
    if is_oversized(archive@) {
        let k = choose|k: int|
            0 <= k && BLOCK_SIZE * k + BLOCK_SIZE <= archive@.len() && #[trigger] is_oversized_at(
                archive@,
                k,
            );
        assert(is_gnu(block_at(archive@, k)));
    }
}

/// Where the archive begins with the attributes of the entry that follows, a sparse file that goes
/// on in further blocks may have any size, and counts as oversized.
pub proof fn law_sized_by_attributes(archive: Vec<u8>, oversized: bool, k: int)
    requires
        call_ensures(check_oversized, (&archive,), oversized),
        archive@.len() >= 512,
        is_ustar(block_at(archive@, 0)) || is_gnu(block_at(archive@, 0)),
        archive@[156] == 0x78,
        0 < k,
        512 * k + 512 <= archive@.len(),
        is_gnu(block_at(archive@, k)),
        archive@[512 * k + 156] == 0x53,
        archive@[512 * k + 482] == 1,
    ensures
        oversized,
{
    assert(block_at(archive@, 0)[156] == archive@[156]);
    assert(block_at(archive@, k)[156] == archive@[512 * k + 156]);
    assert(block_at(archive@, k)[482] == archive@[512 * k + 482]);
    assert(is_attributes(block_at(archive@, 0)));
    assert(is_oversized_at(archive@, k));
}

} // verus!
