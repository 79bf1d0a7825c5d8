//! Cuts a file into encrypted datagrams.

use crate::bytes::{be_value, slice_of, u32_to_be, u64_to_be};
use crate::cipher::{law_apply_twice, StreamCipherWrapper, StreamKey};
use crate::items::Cipher;
use crate::packet::{datagram, law_datagram, DATAGRAM_SIZE, TRANSFER_BUFFER_SIZE};
use vstd::prelude::*;

verus! {

/// A datagram on its way, with the place of its chunk.
#[derive(Debug)]
pub struct Job {
    /// the payload of the datagram
    pub data: Vec<u8>,
    /// the index of the file chunk
    pub index: u64,
    /// the id of the file
    pub id: u32,
    /// when the job was sent, in nanoseconds of the sender's clock, while it is unconfirmed
    pub cached_at: Option<u64>,
}

/// Makes the datagrams of one file, from some index on.
#[derive(Debug)]
pub struct Reader {
    id: u32,
    index: u64,
    cipher: StreamCipherWrapper,
    /// the data of the last datagram: a shorter chunk leaves the end of it in place
    data: Vec<u8>,
}

impl Reader {
    /// The cipher stands where the next chunk does, and the data fills a datagram.
    pub closed spec fn wf(&self) -> bool {
        &&& self.cipher.wf()
        &&& self.cipher.stands_at(self.index as int)
        &&& self.data@.len() == TRANSFER_BUFFER_SIZE
    }

    pub closed spec fn spec_id(&self) -> u32 {
        self.id
    }

    /// The index of the next chunk.
    pub closed spec fn spec_index(&self) -> u64 {
        self.index
    }

    pub closed spec fn spec_data(&self) -> Seq<u8> {
        self.data@
    }

    pub closed spec fn spec_key(&self) -> StreamKey {
        self.cipher.stream_key()
    }

    /// Starts at `index` of the file `id`.
    pub fn new(index: u64, id: u32, cipher: StreamCipherWrapper) -> (reader: Self)
        requires
            cipher.wf(),
            cipher.spec_cipher() == Cipher::Chacha8 || cipher.spec_cipher() == Cipher::Chacha20
                ==> index < 64 * 0x1_0000_0000,
        ensures
            reader.wf(),
            reader.spec_id() == id,
            reader.spec_index() == index,
            reader.spec_key() == cipher.stream_key(),
            reader.spec_data() == Seq::new(TRANSFER_BUFFER_SIZE as nat, |i: int| 0u8),
    {
        let mut cipher = cipher;
        cipher.seek(index);
        let mut data: Vec<u8> = Vec::new();
        while data.len() < TRANSFER_BUFFER_SIZE
            invariant
                data@.len() <= TRANSFER_BUFFER_SIZE,
                data@ == Seq::new(data@.len(), |i: int| 0u8),
            decreases TRANSFER_BUFFER_SIZE - data.len(),
        {
            data.push(0);
        }
        Reader { id, index, cipher, data }
    }

    /// The job for what was read of the file next; `None` at the end of the file, where
    /// nothing was read.
    pub fn next_job(&mut self, chunk: &Vec<u8>) -> (job: Option<Job>)
        requires
            old(self).wf(),
            chunk@.len() <= TRANSFER_BUFFER_SIZE,
            old(self).spec_key().reaches(old(self).spec_index() + chunk@.len()),
            old(self).spec_index() + chunk@.len() <= u64::MAX,
        ensures
            final(self).wf(),
            final(self).spec_id() == old(self).spec_id(),
            final(self).spec_key() == old(self).spec_key(),
            final(self).spec_index() == old(self).spec_index() + chunk@.len(),
            final(self).spec_data() == old(self).spec_key().apply(
                old(self).spec_index() as int,
                chunk@,
            ) + old(self).spec_data().skip(chunk@.len() as int),
            job is None <==> chunk@.len() == 0,
            job matches Some(job) ==> {
                &&& job.data@ == datagram(job.id, job.index, final(self).spec_data())
                &&& job.data@.len() == DATAGRAM_SIZE
                &&& job.index == old(self).spec_index()
                &&& job.id == old(self).spec_id()
                &&& job.cached_at is None
            },
    {
        let len: usize = chunk.len();
        // check if EOF
        if len == 0 {
            proof {
                assert(self.data@ =~= self.spec_key().apply(self.index as int, chunk@)
                    + self.data@.skip(0));
            }
            return None;
        }
        let index: u64 = self.index;
        let mut data = slice_of(chunk, 0, len);
        proof {
            assert(data@ =~= chunk@);
            if self.cipher.spec_cipher() == Cipher::NoCipher {
                assert(self.cipher.on(chunk@) =~= self.spec_key().apply(index as int, chunk@));
            }
        }
        self.cipher.apply_keystream(&mut data);
        let mut tail = slice_of(&self.data, len, TRANSFER_BUFFER_SIZE);
        proof {
            assert(tail@ =~= self.data@.skip(len as int));
        }
        data.append(&mut tail);
        let mut packet = u32_to_be(self.id);
        let mut index_bytes = u64_to_be(index);
        packet.append(&mut index_bytes);
        let mut payload = slice_of(&data, 0, TRANSFER_BUFFER_SIZE);
        proof {
            assert(payload@ =~= data@);
        }
        packet.append(&mut payload);
        self.data = data;
        self.index = index + len as u64;
        Some(Job { data: packet, index, id: self.id, cached_at: None })
    }
}

/// A job carries the chunk that was read, encrypted, under the id of the file and at the index
/// where the chunk stands; the next one follows behind it. At the end of the file there is none.
pub proof fn law_next_job(reader: &mut Reader, chunk: Vec<u8>, job: Option<Job>)
    requires
        reader.wf(),
        chunk@.len() <= TRANSFER_BUFFER_SIZE,
        reader.spec_key().reaches(reader.spec_index() + chunk@.len()),
        reader.spec_index() + chunk@.len() <= u64::MAX,
        call_ensures(Reader::next_job, (reader, &chunk), job),
    ensures
        job is None <==> chunk@.len() == 0,
        final(reader).spec_index() == old(reader).spec_index() + chunk@.len(),
        final(reader).spec_id() == old(reader).spec_id(),
        final(reader).spec_key() == old(reader).spec_key(),
        job matches Some(job) ==> {
            &&& job.id == old(reader).spec_id()
            &&& job.index == old(reader).spec_index()
            &&& job.data@.len() == 1036
            &&& be_value(job.data@.subrange(0, 4)) == job.id
            &&& be_value(job.data@.subrange(4, 12)) == job.index
            &&& old(reader).spec_key().apply(
                job.index as int,
                job.data@.subrange(12, 12int + chunk@.len()),
            ) == chunk@
        },
{
    if let Some(job) = job {
        let key = old(reader).spec_key();
        let data = final(reader).spec_data();
        law_datagram(job.id, job.index, data);
        let sent = key.apply(job.index as int, chunk@);
        assert(job.data@.subrange(12, 12int + chunk@.len()) =~= job.data@.subrange(12, 1036).take(
            chunk@.len() as int,
        ));
        assert(data.take(chunk@.len() as int) =~= sent);
        law_apply_twice(key.cipher, key.key, key.iv, job.index as int, chunk@);
    }
}

} // verus!
