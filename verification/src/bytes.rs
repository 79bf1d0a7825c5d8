//! Numbers as bytes in network order.

use vstd::arithmetic::power::*;
use vstd::prelude::*;

verus! {

/// The number that a sequence of bytes denotes, the most significant byte first.
pub open spec fn be_value(bytes: Seq<u8>) -> nat
    decreases bytes.len(),
{
    if bytes.len() == 0 {
        0
    } else {
        256 * be_value(bytes.drop_last()) + bytes.last() as nat
    }
}

/// The last `len` bytes of a number, the most significant byte first.
pub open spec fn be_bytes(n: nat, len: nat) -> Seq<u8>
    decreases len,
{
    if len == 0 {
        Seq::empty()
    } else {
        be_bytes(n / 256, (len - 1) as nat).push((n % 256) as u8)
    }
}

/// `be_bytes` has the length asked for.
pub proof fn lemma_be_bytes_len(n: nat, len: nat)
    ensures
        be_bytes(n, len).len() == len,
    decreases len,
{
    if len > 0 {
        lemma_be_bytes_len(n / 256, (len - 1) as nat);
    }
}

/// A number that fits is found again in its bytes.
pub proof fn law_be_number(n: nat, len: nat)
    requires
        n < pow(256, len),
    ensures
        be_bytes(n, len).len() == len,
        be_value(be_bytes(n, len)) == n,
    decreases len,
{
    lemma_be_bytes_len(n, len);
    if len > 0 {
        lemma_pow_step(len);
        assert(n / 256 < pow(256, (len - 1) as nat)) by (nonlinear_arith)
            requires
                n < 256 * pow(256, (len - 1) as nat),
        ;
        law_be_number(n / 256, (len - 1) as nat);
        assert(be_bytes(n, len).drop_last() == be_bytes(n / 256, (len - 1) as nat));
    } else {
        lemma_pow0(256);
    }
}

proof fn lemma_pow_step(len: nat)
    requires
        len > 0,
    ensures
        pow(256, len) == 256 * pow(256, (len - 1) as nat),
{
    reveal(pow);
}

/// Bytes are found again in the number that they denote.
pub proof fn law_be_bytes(bytes: Seq<u8>)
    ensures
        be_bytes(be_value(bytes), bytes.len()) == bytes,
        be_value(bytes) < pow(256, bytes.len()),
    decreases bytes.len(),
{
    if bytes.len() > 0 {
        law_be_bytes(bytes.drop_last());
        lemma_pow_step(bytes.len());
        assert(bytes.drop_last().push(bytes.last()) == bytes);
    } else {
        lemma_pow0(256);
    }
}

proof fn lemma_pow_4_8()
    ensures
        pow(256, 4) == 0x1_0000_0000,
        pow(256, 8) == 0x1_0000_0000_0000_0000,
{
    reveal(pow);
    assert(pow(256, 0) == 1);
    assert(pow(256, 1) == 256);
    assert(pow(256, 2) == 0x1_0000);
    assert(pow(256, 3) == 0x100_0000);
    assert(pow(256, 4) == 0x1_0000_0000);
    assert(pow(256, 5) == 0x100_0000_0000);
    assert(pow(256, 6) == 0x1_0000_0000_0000);
    assert(pow(256, 7) == 0x100_0000_0000_0000);
}

/// Four bytes in network order hold every number of 32 bits.
pub proof fn law_be_u32(n: u32)
    ensures
        be_bytes(n as nat, 4).len() == 4,
        be_value(be_bytes(n as nat, 4)) == n,
{
    lemma_pow_4_8();
    law_be_number(n as nat, 4);
}

/// Eight bytes in network order hold every number of 64 bits.
pub proof fn law_be_u64(n: u64)
    ensures
        be_bytes(n as nat, 8).len() == 8,
        be_value(be_bytes(n as nat, 8)) == n,
{
    lemma_pow_4_8();
    law_be_number(n as nat, 8);
}

/// Writes a number as `len` bytes in network order.
fn to_be(n: u64, len: usize) -> (bytes: Vec<u8>)
    requires
        len <= 8,
    ensures
        bytes@ == be_bytes(n as nat, len as nat),
    decreases len,
{
    if len == 0 {
        Vec::new()
    } else {
        let mut bytes = to_be(n / 256, len - 1);
        bytes.push((n % 256) as u8);
        bytes
    }
}

/// Writes a number of 32 bits as four bytes in network order.
pub fn u32_to_be(n: u32) -> (bytes: Vec<u8>)
    ensures
        bytes@ == be_bytes(n as nat, 4),
        bytes@.len() == 4,
{
    proof {
        lemma_be_bytes_len(n as nat, 4);
    }
    to_be(n as u64, 4)
}

/// Writes a number of 64 bits as eight bytes in network order.
pub fn u64_to_be(n: u64) -> (bytes: Vec<u8>)
    ensures
        bytes@ == be_bytes(n as nat, 8),
        bytes@.len() == 8,
{
    proof {
        lemma_be_bytes_len(n as nat, 8);
    }
    to_be(n, 8)
}

/// Reads the number in the bytes `from..from + len` of a buffer.
fn from_be(buffer: &Vec<u8>, from: usize, len: usize) -> (n: u64)
    requires
        len <= 8,
        from + len <= buffer@.len(),
    ensures
        n == be_value(buffer@.subrange(from as int, from + len)),
{
    let mut n: u64 = 0;
    let mut i: usize = 0;
    proof {
        assert(buffer@.subrange(from as int, from as int) == Seq::<u8>::empty());
        assert(pow(256, 0) == 1) by {
            lemma_pow0(256);
        }
    }
    while i < len
        invariant
            i <= len <= 8,
            from + len <= buffer@.len(),
            buffer@.len() == buffer.len(),
            n == be_value(buffer@.subrange(from as int, from + i)),
        decreases len - i,
    {
        let ghost done = buffer@.subrange(from as int, from + i);
        let ghost next = buffer@.subrange(from as int, from + i + 1);
        proof {
            assert(next.drop_last() == done);
            law_be_bytes(next);
            lemma_pow_4_8();
            lemma_pow_increases(256, next.len(), 8);
        }
        n = 256 * n + buffer[from + i] as u64;
        i = i + 1;
    }
    n
}

/// Reads the 32-bit number in the four bytes at `from`.
pub fn u32_from_be(buffer: &Vec<u8>, from: usize) -> (n: u32)
    requires
        from + 4 <= buffer@.len(),
    ensures
        n == be_value(buffer@.subrange(from as int, from + 4)),
{
    let n: u64 = from_be(buffer, from, 4);
    proof {
        law_be_bytes(buffer@.subrange(from as int, from + 4));
        lemma_pow_4_8();
    }
    n as u32
}

/// Reads the 64-bit number in the eight bytes at `from`.
pub fn u64_from_be(buffer: &Vec<u8>, from: usize) -> (n: u64)
    requires
        from + 8 <= buffer@.len(),
    ensures
        n == be_value(buffer@.subrange(from as int, from + 8)),
{
    from_be(buffer, from, 8)
}

/// The bytes `from..to` of a buffer.
pub fn slice_of(buffer: &Vec<u8>, from: usize, to: usize) -> (part: Vec<u8>)
    requires
        from <= to <= buffer@.len(),
    ensures
        part@ == buffer@.subrange(from as int, to as int),
{
    let mut part: Vec<u8> = Vec::new();
    let mut i: usize = from;
    while i < to
        invariant
            from <= i <= to <= buffer@.len(),
            part@ == buffer@.subrange(from as int, i as int),
        decreases to - i,
    {
        part.push(buffer[i]);
        i = i + 1;
    }
    part
}

/// Whether two byte strings are the same.
pub fn same_bytes(a: &Vec<u8>, b: &Vec<u8>) -> (result: bool)
    ensures
        result == (a@ == b@),
{
    if a.len() != b.len() {
        return false;
    }
    let mut i: usize = 0;
    while i < a.len()
        invariant
            i <= a@.len(),
            a@.len() == b@.len(),
            forall|k: int| 0 <= k < i ==> a@[k] == b@[k],
        decreases a.len() - i,
    {
        if a[i] != b[i] {
            return false;
        }
        i = i + 1;
    }
    assert(a@ =~= b@);
    true
}

/// Bytes count by their places: those in front count 256 times as much for each byte that follows.
pub proof fn law_be_value(first: Seq<u8>, second: Seq<u8>, byte: u8)
    ensures
        be_value(first + second) == be_value(first) * pow(256, second.len()) + be_value(second),
        be_value(seq![byte]) == byte,
    decreases second.len(),
{
    assert(seq![byte].drop_last() =~= Seq::empty());
    assert(be_value(seq![byte].drop_last()) == 0);
    if second.len() == 0 {
        assert(first + second =~= first);
        lemma_pow0(256);
    } else {
        law_be_value(first, second.drop_last(), byte);
        assert((first + second).drop_last() =~= first + second.drop_last());
        lemma_pow_step(second.len());
        let value = be_value(first);
        let power = pow(256, (second.len() - 1) as nat);
        assert(256 * (value * power) == value * (256 * power)) by (nonlinear_arith);
    }
}

/// What is written as bytes is read as the same number.
pub proof fn law_number_bytes(
    n: u64,
    bytes: Vec<u8>,
    read: u64,
    short: u32,
    short_bytes: Vec<u8>,
    short_read: u32,
)
    requires
        call_ensures(u64_to_be, (n,), bytes),
        call_ensures(u64_from_be, (&bytes, 0), read),
        call_ensures(u32_to_be, (short,), short_bytes),
        call_ensures(u32_from_be, (&short_bytes, 0), short_read),
    ensures
        bytes@.len() == 8,
        read == n,
        short_bytes@.len() == 4,
        short_read == short,
{
    law_be_u64(n);
    law_be_u32(short);
    assert(bytes@.subrange(0, 8) =~= bytes@);
    assert(short_bytes@.subrange(0, 4) =~= short_bytes@);
}

/// A part of some bytes is those bytes, in their order.
pub proof fn law_slice_of(buffer: Vec<u8>, from: usize, to: usize, part: Vec<u8>, i: int)
    requires
        from <= to <= buffer@.len(),
        call_ensures(slice_of, (&buffer, from, to), part),
    ensures
        part@.len() == to - from,
        from <= i < to ==> part@[i - from] == buffer@[i],
{
}

/// Bytes are the same exactly where they are as many, and each is the same.
pub proof fn law_same_bytes(a: Vec<u8>, b: Vec<u8>, result: bool, i: int)
    requires
        call_ensures(same_bytes, (&a, &b), result),
    ensures
        a@.len() != b@.len() ==> !result,
        0 <= i < a@.len() && a@.len() == b@.len() && a@[i] != b@[i] ==> !result,
        a@ == b@ ==> result,
{
}

} // verus!
