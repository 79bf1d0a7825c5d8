//! The datagrams that carry chunks of files.

use crate::bytes::{be_bytes, be_value, law_be_u32, law_be_u64, slice_of, u32_from_be, u64_from_be};
use vstd::prelude::*;

verus! {

/// How many bytes of a file a datagram carries.
pub const TRANSFER_BUFFER_SIZE: usize = 1024;

/// read buffer must be a multiple of the transfer buffer, so that only the last chunk of a
/// file is shorter than the others
pub const READ_BUFFER_SIZE: usize = 102400;

pub const WRITE_BUFFER_SIZE: usize = 102400;

/// The bytes of an index in a datagram.
pub const INDEX_SIZE: usize = 8;

/// The bytes of a file's id in a datagram.
pub const ID_SIZE: usize = 4;

/// The bytes of a datagram's payload: id, index and data.
pub const DATAGRAM_SIZE: usize = 1036;

/// UDP header + ID + INDEX + DATA
pub const PACKET_SIZE: usize = 1044;

/// The payload of the datagram that carries `data` of the file `id` at `index`.
pub open spec fn datagram(id: u32, index: u64, data: Seq<u8>) -> Seq<u8> {
    be_bytes(id as nat, 4) + be_bytes(index as nat, 8) + data
}

/// The sizes fit each other: a datagram is an id, an index and the data; a packet has the
/// eight bytes of the UDP header more; and the buffers hold whole chunks.
pub proof fn law_sizes()
    ensures
        DATAGRAM_SIZE == ID_SIZE + INDEX_SIZE + TRANSFER_BUFFER_SIZE,
        PACKET_SIZE == 8 + DATAGRAM_SIZE,
        READ_BUFFER_SIZE as int % TRANSFER_BUFFER_SIZE as int == 0,
        WRITE_BUFFER_SIZE as int % TRANSFER_BUFFER_SIZE as int == 0,
{
}

/// A chunk of a file, as the receiver takes it out of a datagram.
#[derive(Debug)]
pub struct Job {
    /// the file chunk
    pub data: Vec<u8>,
    /// the index of the file chunk
    pub index: u64,
}

/// Slices a datagram into the id, the index and the data.
pub fn split_datagram(buf: &Vec<u8>) -> (result: (u32, Job))
    requires
        buf@.len() == DATAGRAM_SIZE,
    ensures
        result.0 == be_value(buf@.subrange(0, 4)),
        result.1.index == be_value(buf@.subrange(4, 12)),
        result.1.data@ == buf@.subrange(12, 1036),
        result.1.data@.len() == TRANSFER_BUFFER_SIZE,
{
    let id: u32 = u32_from_be(buf, 0);
    let index: u64 = u64_from_be(buf, ID_SIZE);
    let data = slice_of(buf, ID_SIZE + INDEX_SIZE, DATAGRAM_SIZE);
    (id, Job { data, index })
}

/// What the sender puts into a datagram, the receiver takes out of it.
pub proof fn law_datagram(id: u32, index: u64, data: Seq<u8>)
    requires
        data.len() == TRANSFER_BUFFER_SIZE,
    ensures
        ({
            let buf = datagram(id, index, data);
            &&& buf.len() == DATAGRAM_SIZE
            &&& be_value(buf.subrange(0, 4)) == id
            &&& be_value(buf.subrange(4, 12)) == index
            &&& buf.subrange(12, 1036) == data
        }),
{
    law_be_u32(id);
    law_be_u64(index);
    let buf = datagram(id, index, data);
    assert(buf.subrange(0, 4) =~= be_bytes(id as nat, 4));
    assert(buf.subrange(4, 12) =~= be_bytes(index as nat, 8));
    assert(buf.subrange(12, 1036) =~= data);
}

/// What the sender puts into a datagram is what the receiver's slicing gives.
pub proof fn law_split_datagram(
    id: u32,
    index: u64,
    data: Seq<u8>,
    buf: Vec<u8>,
    result: (u32, Job),
)
    requires
        data.len() == 1024,
        buf@ == datagram(id, index, data),
        call_ensures(split_datagram, (&buf,), result),
    ensures
        result.0 == id,
        result.1.index == index,
        result.1.data@ == data,
{
    law_datagram(id, index, data);
}

/// In a datagram, the id and the index stand in front of the data, in network order.
pub proof fn law_datagram_layout(id: u32, index: u64, data: Seq<u8>)
    ensures
        datagram(id, index, data).len() == 12 + data.len(),
        be_value(datagram(id, index, data).take(4)) == id,
        be_value(datagram(id, index, data).subrange(4, 12)) == index,
        datagram(id, index, data).skip(12) == data,
{
    law_be_u32(id);
    law_be_u64(index);
    let buf = datagram(id, index, data);
    assert(buf.take(4) =~= be_bytes(id as nat, 4));
    assert(buf.subrange(4, 12) =~= be_bytes(index as nat, 8));
    assert(buf.skip(12) =~= data);
}

} // verus!
