//! The BLAKE3 hash of a file.

use vstd::prelude::*;

verus! {

/// The hasher of the crate `blake3`.
#[verifier::external_type_specification]
#[verifier::external_body]
pub struct ExHasher(blake3::Hasher);

/// What a hasher has been given so far.
pub uninterp spec fn absorbed(hasher: blake3::Hasher) -> Seq<u8>;

/// The BLAKE3 hash of some bytes.
pub uninterp spec fn blake3_hash(content: Seq<u8>) -> Seq<u8>;

/// `blake3::Hasher::new`: a hasher for the regular hash function that has been given nothing.
#[verifier::external_body]
fn new_hasher() -> (hasher: blake3::Hasher)
    ensures
        absorbed(hasher) == Seq::<u8>::empty(),
{
    blake3::Hasher::new()
}

/// `blake3::Hasher::update`: gives more bytes to the hasher.
#[verifier::external_body]
fn update(hasher: &mut blake3::Hasher, input: &Vec<u8>)
    ensures
        absorbed(*final(hasher)) == absorbed(*old(hasher)) + input@,
{
    hasher.update(input);
}

/// `blake3::Hasher::finalize`: the hash of all that the hasher has been given, which has 32
/// bytes.
#[verifier::external_body]
fn finalize(hasher: &blake3::Hasher) -> (hash: Vec<u8>)
    ensures
        hash@ == blake3_hash(absorbed(*hasher)),
        hash@.len() == 32,
{
    hasher.finalize().as_bytes().to_vec()
}

/// Hashes a file that is read piece by piece.
pub struct FileHasher {
    hasher: blake3::Hasher,
}

impl FileHasher {
    /// What was read so far.
    pub closed spec fn content(&self) -> Seq<u8> {
        absorbed(self.hasher)
    }

    pub fn new() -> (hasher: Self)
        ensures
            hasher.content() == Seq::<u8>::empty(),
    {
        FileHasher { hasher: new_hasher() }
    }

    /// Takes what was read next, and says whether there is more to read: at the end of the file
    /// nothing is read.
    pub fn read(&mut self, chunk: &Vec<u8>) -> (more: bool)
        ensures
            final(self).content() == old(self).content() + chunk@,
            more == (chunk@.len() != 0),
    {
        if chunk.len() != 0 {
            update(&mut self.hasher, chunk);
            true
        } else {
            proof {
                assert(self.content() + chunk@ =~= self.content());
            }
            false
        }
    }

    /// The hash of what was read: it makes no difference in which pieces that was.
    pub fn hash(&self) -> (hash: Vec<u8>)
        ensures
            hash@ == blake3_hash(self.content()),
            hash@.len() == 32,
    {
        finalize(&self.hasher)
    }
}

/// The hash of a file is that of its content, in whatever pieces it was read; the end of the file is
/// where nothing is read.
pub proof fn law_hash(hasher: &mut FileHasher, chunk: Vec<u8>, more: bool, new: FileHasher)
    requires
        call_ensures(FileHasher::read, (hasher, &chunk), more),
        call_ensures(FileHasher::new, (), new),
    ensures
        more <==> chunk@.len() > 0,
        new.content().len() == 0,
        final(hasher).content() == old(hasher).content() + chunk@,
        forall|hash: Vec<u8>| #[trigger]
            call_ensures(FileHasher::hash, (&*final(hasher),), hash) ==> hash@ == blake3_hash(
                old(hasher).content() + chunk@,
            ) && hash@.len() == 32,
{
}

} // verus!
