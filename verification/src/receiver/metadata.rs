//! The file beside a partial file that holds how far it was written.

use crate::bytes::{be_bytes, be_value, law_be_bytes, law_be_u64, u64_from_be, u64_to_be};
use vstd::arithmetic::power::pow;
use vstd::prelude::*;

verus! {

/// The content of a metadata file: one index of eight bytes behind the other.
#[derive(Debug)]
pub struct Metadata {
    /// the initial index
    pub initial_index: u64,
}

/// The last index that a metadata file holds: zero for an empty one, none for one that is too
/// short to hold an index.
pub open spec fn last_index(content: Seq<u8>) -> Option<u64> {
    if content.len() == 0 {
        Some(0)
    } else if content.len() < 8 {
        None
    } else {
        Some(be_value(content.skip(content.len() - 8)) as u64)
    }
}

impl Metadata {
    /// initialize the metadata object from what the file holds, if there is one; if loading
    /// existing metadata fails, new metadata starts at zero
    pub fn new(content: &Option<Vec<u8>>) -> (metadata: Self)
        ensures
            metadata.initial_index == match content {
                Some(content) => match last_index(content@) {
                    Some(index) => index,
                    None => 0,
                },
                None => 0,
            },
    {
        if let Some(content) = content {
            if let Some(metadata) = Self::load(content) {
                return metadata;
            }
        }
        Metadata { initial_index: 0 }
    }

    /// complete an index: what is written behind the content of the file
    pub fn complete(index: u64) -> (bytes: Vec<u8>)
        ensures
            bytes@ == be_bytes(index as nat, 8),
    {
        u64_to_be(index)
    }

    /// load metadata from file; `None` where the file is too short
    pub fn load(content: &Vec<u8>) -> (metadata: Option<Self>)
        ensures
            match metadata {
                Some(metadata) => last_index(content@) == Some(metadata.initial_index),
                None => last_index(content@) is None,
            },
    {
        let len: usize = content.len();
        if len == 0 {
            return Some(Metadata { initial_index: 0 });
        }
        if len < 8 {
            return None;
        }
        // if the file is not empty, read the last index
        let initial_index: u64 = u64_from_be(content, len - 8);
        proof {
            assert(content@.subrange(len - 8, len as int) =~= content@.skip(len - 8));
        }
        Some(Metadata { initial_index })
    }

    /// The extension of the metadata file.
    pub fn format_path() -> (extension: &'static str)
        ensures
            extension@ == "metadata"@,
    {
        "metadata"
    }
}

/// The index that was completed last is the one that is loaded.
pub proof fn law_metadata(content: Seq<u8>, index: u64)
    ensures
        last_index(content + be_bytes(index as nat, 8)) == Some(index),
{
    law_be_u64(index);
    let longer = content + be_bytes(index as nat, 8);
    assert(longer.skip(longer.len() - 8) =~= be_bytes(index as nat, 8));
}

/// What was completed last is where the next one starts; without a file, with an empty one, and
/// with one that is too short, it is zero.
pub proof fn law_metadata_file(
    content: Vec<u8>,
    index: u64,
    bytes: Vec<u8>,
    longer: Vec<u8>,
    metadata: Metadata,
    without: Metadata,
    short: Vec<u8>,
    beginning: Metadata,
)
    requires
        call_ensures(Metadata::complete, (index,), bytes),
        longer@ == content@ + bytes@,
        call_ensures(Metadata::new, (&Some(longer),), metadata),
        call_ensures(Metadata::new, (&None,), without),
        short@.len() < 8,
        call_ensures(Metadata::new, (&Some(short),), beginning),
    ensures
        metadata.initial_index == index,
        without.initial_index == 0,
        beginning.initial_index == 0,
{
    law_metadata(content@, index);
}

/// A file that is not empty is loaded exactly where it holds eight bytes.
pub proof fn law_load(content: Vec<u8>, metadata: Option<Metadata>)
    requires
        call_ensures(Metadata::load, (&content,), metadata),
    ensures
        metadata is None <==> 0 < content@.len() < 8,
        content@.len() == 0 ==> (metadata matches Some(metadata) && metadata.initial_index == 0),
        content@.len() >= 8 ==> (metadata matches Some(metadata) && be_bytes(
            metadata.initial_index as nat,
            8,
        ) == content@.skip(content@.len() - 8)),
{
    if content@.len() >= 8 {
        let last = content@.skip(content@.len() - 8);
        law_be_bytes(last);
        lemma_eight(last);
    }
}

proof fn lemma_eight(bytes: Seq<u8>)
    requires
        bytes.len() == 8,
    ensures
        be_value(bytes) <= u64::MAX,
{
    law_be_bytes(bytes);
    reveal(pow);
    assert(pow(256, 0) == 1);
    assert(pow(256, 1) == 256);
    assert(pow(256, 2) == 0x1_0000);
    assert(pow(256, 3) == 0x100_0000);
    assert(pow(256, 4) == 0x1_0000_0000);
    assert(pow(256, 5) == 0x100_0000_0000);
    assert(pow(256, 6) == 0x1_0000_0000_0000);
    assert(pow(256, 7) == 0x100_0000_0000_0000);
}

} // verus!
