//! Puts the chunks of a file into order and decrypts them.

use crate::cipher::{law_apply_pieces, law_apply_twice, StreamCipherWrapper, StreamKey};
use crate::items::Cipher;
use crate::packet::{Job, TRANSFER_BUFFER_SIZE};
use std::collections::HashMap;
use vstd::prelude::*;

verus! {

/// The part of a chunk that belongs to the file: the last one is cut off at the file's size.
pub open spec fn piece(data: Seq<u8>, position: int, size: int) -> Seq<u8> {
    data.take(piece_len(position, size))
}

/// How many bytes of a chunk at `position` belong to a file.
pub open spec fn piece_len(position: int, size: int) -> int {
    if size - position < TRANSFER_BUFFER_SIZE {
        size - position
    } else {
        TRANSFER_BUFFER_SIZE as int
    }
}

/// What becomes of the chunks that wait: those that follow each other from a position on.
pub struct Drain {
    /// the chunks that follow, still encrypted
    pub bytes: Seq<u8>,
    /// the position behind them
    pub position: int,
    /// the chunks that keep waiting
    pub cache: Map<u64, Seq<u8>>,
}

/// Takes the chunks out of `cache` that follow each other from `position` on.
pub open spec fn drained(cache: Map<u64, Seq<u8>>, position: int, size: int) -> Drain
    decreases cache.dom().len(),
    when cache.dom().finite()
{
    if 0 <= position <= u64::MAX && cache.contains_key(position as u64) {
        let chunk = piece(cache[position as u64], position, size);
        let rest = drained(
            cache.remove(position as u64),
            position + piece_len(position, size),
            size,
        );
        Drain { bytes: chunk + rest.bytes, position: rest.position, cache: rest.cache }
    } else {
        Drain { bytes: Seq::empty(), position, cache }
    }
}

/// Where the writing of a file stands.
pub struct WriterState {
    /// how much of the file is written
    pub position: int,
    /// the size of the file
    pub size: int,
    /// the chunks that arrived before their turn, by index, still encrypted
    pub cache: Map<u64, Seq<u8>>,
}

/// What the arrival of a chunk leads to.
pub struct Arrival {
    pub state: WriterState,
    /// whether the chunk is confirmed to the sender
    pub confirm: bool,
    /// what is written to the file
    pub output: Seq<u8>,
}

/// A chunk behind the position was written already; one ahead of it is saved for later; one at
/// the position is written, and with it the saved ones that follow.
pub open spec fn arrive(state: WriterState, key: StreamKey, index: u64, data: Seq<u8>) -> Arrival {
    if index < state.position {
        Arrival { state, confirm: false, output: Seq::empty() }
    } else if index > state.position {
        Arrival {
            state: WriterState { cache: state.cache.insert(index, data), ..state },
            confirm: true,
            output: Seq::empty(),
        }
    } else {
        let first = piece(data, state.position, state.size);
        let rest = drained(
            state.cache,
            state.position + piece_len(state.position, state.size),
            state.size,
        );
        Arrival {
            state: WriterState { position: rest.position, cache: rest.cache, ..state },
            confirm: true,
            output: key.apply(state.position, first + rest.bytes),
        }
    }
}

/// Every waiting chunk fills a datagram, and the position is within the file.
pub open spec fn state_wf(state: WriterState) -> bool {
    &&& 0 <= state.position <= state.size <= u64::MAX
    &&& state.cache.dom().finite()
    &&& forall|index: u64| #[trigger]
        state.cache.contains_key(index) ==> state.cache[index].len() == TRANSFER_BUFFER_SIZE
}

/// What the writer does after a chunk has arrived.
#[derive(Debug)]
pub struct WriterStep {
    /// confirm the chunk to the sender
    pub confirm: bool,
    /// write this to the file
    pub output: Vec<u8>,
}

/// Writes one file.
#[derive(Debug)]
pub struct Writer {
    position: u64,
    size: u64,
    cache: HashMap<u64, Vec<u8>>,
    cipher: StreamCipherWrapper,
}

spec fn contents(cache: Map<u64, Vec<u8>>) -> Map<u64, Seq<u8>> {
    cache.map_values(|data: Vec<u8>| data@)
}

impl Writer {
    pub closed spec fn state(&self) -> WriterState {
        WriterState {
            position: self.position as int,
            size: self.size as int,
            cache: contents(self.cache@),
        }
    }

    pub closed spec fn key(&self) -> StreamKey {
        self.cipher.stream_key()
    }

    /// The cipher stands at the position, and its keystream reaches the end of the file.
    pub closed spec fn wf(&self) -> bool {
        &&& state_wf(self.state())
        &&& self.cipher.wf()
        &&& self.cipher.stands_at(self.position as int)
        &&& self.key().reaches(self.size as int)
    }

    /// Starts at `position` of a file of the given size.
    pub fn new(position: u64, size: u64, cipher: StreamCipherWrapper) -> (writer: Self)
        requires
            position <= size,
            cipher.wf(),
            cipher.stream_key().reaches(size as int),
        ensures
            writer.wf(),
            writer.key() == cipher.stream_key(),
            writer.state() == (WriterState {
                position: position as int,
                size: size as int,
                cache: Map::empty(),
            }),
    {
        let mut cipher = cipher;
        cipher.seek(position);
        let writer = Writer { position, size, cache: HashMap::new(), cipher };
        proof {
            assert(contents(writer.cache@) =~= Map::empty());
        }
        writer
    }

    /// Whether the whole file is written.
    pub fn is_complete(&self) -> (complete: bool)
        ensures
            complete == (self.state().position == self.state().size),
    {
        self.position == self.size
    }

    /// How much of the file is written.
    pub fn position(&self) -> (position: u64)
        ensures
            position == self.state().position,
    {
        self.position
    }

    /// write data and advance position
    fn write_data(&mut self, data: Vec<u8>) -> (output: Vec<u8>)
        requires
            old(self).wf(),
            data@.len() == TRANSFER_BUFFER_SIZE,
        ensures
            final(self).wf(),
            final(self).key() == old(self).key(),
            final(self).cache == old(self).cache,
            final(self).size == old(self).size,
            final(self).position == old(self).position + piece_len(
                old(self).position as int,
                old(self).size as int,
            ),
            output@ == old(self).key().apply(
                old(self).position as int,
                piece(data@, old(self).position as int, old(self).size as int),
            ),
    {
        // calculate the length of the data to write
        let left: u64 = self.size - self.position;
        let len: usize = if left < TRANSFER_BUFFER_SIZE as u64 {
            left as usize
        } else {
            TRANSFER_BUFFER_SIZE
        };
        let mut buffer = data;
        buffer.truncate(len);
        proof {
            assert(buffer@ =~= piece(data@, self.position as int, self.size as int));
            if self.cipher.spec_cipher() == Cipher::NoCipher {
                assert(self.cipher.on(buffer@) =~= self.key().apply(
                    self.position as int,
                    buffer@,
                ));
            }
        }
        self.cipher.apply_keystream(&mut buffer);
        // advance the position
        self.position = self.position + len as u64;
        buffer
    }

    /// Takes a chunk that has arrived.
    pub fn receive(&mut self, job: Job) -> (step: WriterStep)
        requires
            old(self).wf(),
            job.data@.len() == TRANSFER_BUFFER_SIZE,
        ensures
            final(self).wf(),
            final(self).key() == old(self).key(),
            (Arrival { state: final(self).state(), confirm: step.confirm, output: step.output@ })
                == arrive(old(self).state(), old(self).key(), job.index, job.data@),
    {
        if job.index < self.position {
            // if the chunk is behind the current position, it was already written
            return WriterStep { confirm: false, output: Vec::new() };
        }
        if job.index > self.position {
            // if the chunk is ahead of the current position, save it for later
            let Job { data, index } = job;
            self.cache.insert(index, data);
            proof {
                assert(contents(self.cache@) =~= contents(old(self).cache@).insert(index, data@));
            }
            return WriterStep { confirm: true, output: Vec::new() };
        }
        // if the chunk is at the current position, write it
        let ghost start = self.position as int;
        let ghost size = self.size as int;
        let ghost mut bytes = piece(job.data@, start, size);
        let ghost after = start + piece_len(start, size);
        let mut output = self.write_data(job.data);
        // write all concurrent chunks from the cache
        proof {
            assert(bytes + drained(contents(self.cache@), after, size).bytes =~= bytes + drained(
                contents(old(self).cache@),
                after,
                size,
            ).bytes);
        }
        loop
            invariant_except_break
                self.wf(),
                self.key() == old(self).key(),
                self.size == old(self).size,
                size == self.size,
                start == old(self).position,
                after == start + piece_len(start, size),
                self.position == start + bytes.len(),
                output@ == self.key().apply(start, bytes),
                piece(job.data@, start, size) + drained(
                    contents(old(self).cache@),
                    after,
                    size,
                ).bytes == bytes + drained(
                    contents(self.cache@),
                    self.position as int,
                    size,
                ).bytes,
                drained(contents(old(self).cache@), after, size).position == drained(
                    contents(self.cache@),
                    self.position as int,
                    size,
                ).position,
                drained(contents(old(self).cache@), after, size).cache == drained(
                    contents(self.cache@),
                    self.position as int,
                    size,
                ).cache,
            ensures
                self.wf(),
                self.key() == old(self).key(),
                self.size == old(self).size,
                output@ == self.key().apply(
                    start,
                    piece(job.data@, start, size) + drained(
                        contents(old(self).cache@),
                        after,
                        size,
                    ).bytes,
                ),
                drained(contents(old(self).cache@), after, size).position == self.position,
                drained(contents(old(self).cache@), after, size).cache == contents(self.cache@),
            decreases self.cache@.dom().len(),
        {
            let position: u64 = self.position;
            let ghost before = contents(self.cache@);
            let ghost raw = self.cache@;
            match self.cache.remove(&position) {
                None => {
                    proof {
                        assert(contents(self.cache@) =~= before);
                        assert(bytes + Seq::empty() =~= bytes);
                    }
                    break;
                },
                Some(data) => {
                    proof {
                        assert(contents(self.cache@) =~= before.remove(position));
                        assert(before[position] == data@);
                        assert(forall|index: u64| #[trigger]
                            contents(self.cache@).contains_key(index) ==> before.contains_key(
                                index,
                            ));
                    }
                    let ghost chunk = piece(data@, position as int, size);
                    let ghost rest = drained(
                        before.remove(position),
                        position + piece_len(position as int, size),
                        size,
                    );
                    let mut more = self.write_data(data);
                    output.append(&mut more);
                    proof {
                        law_apply_pieces(
                            self.key().cipher,
                            self.key().key,
                            self.key().iv,
                            start,
                            bytes,
                            chunk,
                        );
                        assert(bytes + (chunk + rest.bytes) =~= (bytes + chunk) + rest.bytes);
                        bytes = bytes + chunk;
                    }
                },
            }
        }
        WriterStep { confirm: true, output }
    }
}

/// Whether a chunk comes from the file with the given content: what it carries of the file is
/// the part at its index, encrypted.
pub open spec fn genuine(content: Seq<u8>, key: StreamKey, index: u64, data: Seq<u8>) -> bool {
    &&& index <= content.len()
    &&& data.len() == TRANSFER_BUFFER_SIZE
    &&& piece(data, index as int, content.len() as int) == key.apply(
        index as int,
        content.subrange(
            index as int,
            index + piece_len(index as int, content.len() as int),
        ),
    )
}

/// Whether every chunk that waits comes from the file.
pub open spec fn sound(state: WriterState, key: StreamKey, content: Seq<u8>) -> bool {
    &&& state_wf(state)
    &&& state.size == content.len()
    &&& forall|index: u64| #[trigger]
        state.cache.contains_key(index) ==> genuine(content, key, index, state.cache[index])
}

/// A chunk on its arrival.
pub struct Chunk {
    pub index: u64,
    pub data: Seq<u8>,
}

/// What the arrival of several chunks, one after the other, leads to; those that arrive after
/// the file is complete are not looked at. `confirm` says whether the last one is confirmed.
pub open spec fn arrive_all(state: WriterState, key: StreamKey, chunks: Seq<Chunk>) -> Arrival
    decreases chunks.len(),
{
    if chunks.len() == 0 {
        Arrival { state, confirm: false, output: Seq::empty() }
    } else {
        let before = arrive_all(state, key, chunks.drop_last());
        if before.state.position == before.state.size {
            before
        } else {
            let last = arrive(before.state, key, chunks.last().index, chunks.last().data);
            Arrival { output: before.output + last.output, ..last }
        }
    }
}

proof fn lemma_drained(cache: Map<u64, Seq<u8>>, position: int, size: int)
    requires
        cache.dom().finite(),
        0 <= position <= size <= u64::MAX,
        forall|index: u64| #[trigger]
            cache.contains_key(index) ==> cache[index].len() == TRANSFER_BUFFER_SIZE,
    ensures
        position <= drained(cache, position, size).position <= size,
        drained(cache, position, size).bytes.len() == drained(cache, position, size).position
            - position,
        drained(cache, position, size).cache.dom().finite(),
        !drained(cache, position, size).cache.contains_key(
            drained(cache, position, size).position as u64,
        ),
        forall|index: u64| #[trigger]
            drained(cache, position, size).cache.contains_key(index) ==> cache.contains_key(index)
                && cache[index] == drained(cache, position, size).cache[index],
        forall|index: u64|
            cache.contains_key(index) && index < size ==> #[trigger] drained(
                cache,
                position,
                size,
            ).cache.contains_key(index) || index < drained(cache, position, size).position,
        position % 1024 == 0 || position == size ==> drained(cache, position, size).position % 1024
            == 0 || drained(cache, position, size).position == size,
    decreases cache.dom().len(),
{
    if cache.contains_key(position as u64) {
        let rest_cache = cache.remove(position as u64);
        lemma_drained(rest_cache, position + piece_len(position, size), size);
    }
}

proof fn lemma_drained_genuine(
    cache: Map<u64, Seq<u8>>,
    position: int,
    key: StreamKey,
    content: Seq<u8>,
)
    requires
        cache.dom().finite(),
        0 <= position <= content.len() <= u64::MAX,
        forall|index: u64| #[trigger]
            cache.contains_key(index) ==> genuine(content, key, index, cache[index]),
    ensures
        ({
            let result = drained(cache, position, content.len() as int);
            &&& position <= result.position <= content.len()
            &&& result.bytes == key.apply(position, content.subrange(position, result.position))
        }),
    decreases cache.dom().len(),
{
    let size = content.len() as int;
    lemma_drained(cache, position, size);
    let result = drained(cache, position, size);
    if cache.contains_key(position as u64) {
        let rest_cache = cache.remove(position as u64);
        let next = position + piece_len(position, size);
        lemma_drained_genuine(rest_cache, next, key, content);
        lemma_drained(rest_cache, next, size);
        law_apply_pieces(
            key.cipher,
            key.key,
            key.iv,
            position,
            content.subrange(position, next),
            content.subrange(next, result.position),
        );
        assert(content.subrange(position, next) + content.subrange(next, result.position)
            =~= content.subrange(position, result.position));
    } else {
        assert(result.bytes =~= key.apply(position, content.subrange(position, position)));
    }
}

/// Whatever arrives, the position never goes back; and a chunk of the file is confirmed exactly
/// where it was not written before, and after that it is written or waits.
pub proof fn law_confirmed(state: WriterState, key: StreamKey, index: u64, data: Seq<u8>)
    requires
        state_wf(state),
        index < state.size,
        data.len() == TRANSFER_BUFFER_SIZE,
    ensures
        ({
            let arrival = arrive(state, key, index, data);
            &&& state_wf(arrival.state)
            &&& state.position <= arrival.state.position
            &&& arrival.confirm <==> index >= state.position
            &&& index < arrival.state.position || arrival.state.cache.contains_key(index)
        }),
{
    if index == state.position {
        lemma_drained(
            state.cache,
            state.position + piece_len(state.position, state.size),
            state.size,
        );
    }
}

/// Chunks that come from a file are written as that file: whatever arrives, the bytes written
/// for it are those of the file between the positions before and after, and whatever waits
/// still comes from the file.
pub proof fn law_arrival(
    state: WriterState,
    key: StreamKey,
    content: Seq<u8>,
    index: u64,
    data: Seq<u8>,
)
    requires
        sound(state, key, content),
        genuine(content, key, index, data),
    ensures
        ({
            let arrival = arrive(state, key, index, data);
            &&& sound(arrival.state, key, content)
            &&& state.position <= arrival.state.position
            &&& arrival.output == content.subrange(state.position, arrival.state.position)
        }),
{
    let arrival = arrive(state, key, index, data);
    if index == state.position {
        let size = state.size;
        let first = piece(data, state.position, size);
        let next = state.position + piece_len(state.position, size);
        lemma_drained(state.cache, next, size);
        lemma_drained_genuine(state.cache, next, key, content);
        let rest = drained(state.cache, next, size);
        let whole = content.subrange(state.position, rest.position);
        law_apply_pieces(
            key.cipher,
            key.key,
            key.iv,
            state.position,
            content.subrange(state.position, next),
            content.subrange(next, rest.position),
        );
        assert(content.subrange(state.position, next) + content.subrange(next, rest.position)
            =~= whole);
        law_apply_twice(key.cipher, key.key, key.iv, state.position, whole);
    } else {
        assert(arrival.output =~= content.subrange(state.position, state.position));
    }
}

/// Chunks that come from a file are written as that file, in whatever order they arrive and
/// however often: the bytes written are those of the file between the positions before and
/// after.
pub proof fn law_arrivals(
    state: WriterState,
    key: StreamKey,
    content: Seq<u8>,
    chunks: Seq<Chunk>,
)
    requires
        sound(state, key, content),
        forall|i: int|
            0 <= i < chunks.len() ==> genuine(
                content,
                key,
                (#[trigger] chunks[i]).index,
                chunks[i].data,
            ),
    ensures
        ({
            let arrival = arrive_all(state, key, chunks);
            &&& sound(arrival.state, key, content)
            &&& state.position <= arrival.state.position
            &&& arrival.output == content.subrange(state.position, arrival.state.position)
        }),
    decreases chunks.len(),
{
    let arrival = arrive_all(state, key, chunks);
    if chunks.len() == 0 {
        assert(arrival.output =~= content.subrange(state.position, state.position));
    } else {
        law_arrivals(state, key, content, chunks.drop_last());
        let before = arrive_all(state, key, chunks.drop_last());
        if before.state.position != before.state.size {
            let last = chunks.last();
            assert(genuine(content, key, chunks[chunks.len() - 1].index, last.data));
            law_arrival(before.state, key, content, last.index, last.data);
            assert(arrival.output =~= content.subrange(state.position, arrival.state.position));
        }
    }
}

/// Whether no chunk waits whose turn it is, the position is at the start of a chunk, and each
/// of the given chunks of the file was written or waits.
spec fn settled(state: WriterState, chunks: Seq<Chunk>) -> bool {
    &&& !state.cache.contains_key(state.position as u64)
    &&& state.position % 1024 == 0 || state.position == state.size
    &&& forall|i: int|
        #![trigger chunks[i]]
        0 <= i < chunks.len() && chunks[i].index < state.size ==> chunks[i].index < state.position
            || state.cache.contains_key(chunks[i].index)
}

proof fn lemma_settled(state: WriterState, key: StreamKey, chunks: Seq<Chunk>)
    requires
        state_wf(state),
        state.cache == Map::<u64, Seq<u8>>::empty(),
        state.position % 1024 == 0 || state.position == state.size,
        forall|i: int|
            0 <= i < chunks.len() ==> (#[trigger] chunks[i]).data.len() == TRANSFER_BUFFER_SIZE,
    ensures
        ({
            let after = arrive_all(state, key, chunks).state;
            &&& state_wf(after)
            &&& after.size == state.size
            &&& settled(after, chunks) || after.position == after.size
        }),
    decreases chunks.len(),
{
    if chunks.len() > 0 {
        let earlier = chunks.drop_last();
        lemma_settled(state, key, earlier);
        let before = arrive_all(state, key, earlier).state;
        if before.position != before.size {
            let last = chunks.last();
            assert(chunks[chunks.len() - 1].data.len() == TRANSFER_BUFFER_SIZE);
            let after = arrive(before, key, last.index, last.data).state;
            assert(after == arrive_all(state, key, chunks).state);
            if last.index == before.position {
                lemma_drained(
                    before.cache,
                    before.position + piece_len(before.position, before.size),
                    before.size,
                );
            }
            assert forall|i: int|
                #![trigger chunks[i]]
                0 <= i < chunks.len() && chunks[i].index < after.size implies chunks[i].index
                < after.position || after.cache.contains_key(chunks[i].index) by {
                if i < earlier.len() {
                    assert(earlier[i] == chunks[i]);
                }
            }
        }
    }
}

/// Whether a chunk with the given index is among those that arrive.
pub open spec fn delivered(chunks: Seq<Chunk>, index: int) -> bool {
    exists|i: int| 0 <= i < chunks.len() && (#[trigger] chunks[i]).index == index
}

/// A file arrives: once every chunk of it from the start index on has arrived, in whatever
/// order and among whatever duplicates, the file is complete, and what was written is the file
/// from the start index on.
pub proof fn law_transfer(
    key: StreamKey,
    content: Seq<u8>,
    start: int,
    chunks: Seq<Chunk>,
)
    requires
        content.len() <= u64::MAX,
        0 <= start <= content.len(),
        start % 1024 == 0,
        forall|i: int|
            0 <= i < chunks.len() ==> genuine(
                content,
                key,
                (#[trigger] chunks[i]).index,
                chunks[i].data,
            ),
        forall|index: int|
            start <= index < content.len() && index % 1024 == 0 ==> #[trigger] delivered(
                chunks,
                index,
            ),
    ensures
        ({
            let state = WriterState {
                position: start,
                size: content.len() as int,
                cache: Map::empty(),
            };
            let arrival = arrive_all(state, key, chunks);
            &&& arrival.state.position == content.len()
            &&& arrival.output == content.skip(start)
        }),
{
    let state = WriterState { position: start, size: content.len() as int, cache: Map::empty() };
    let arrival = arrive_all(state, key, chunks);
    law_arrivals(state, key, content, chunks);
    lemma_settled(state, key, chunks);
    let position = arrival.state.position;
    if position < content.len() {
        assert(delivered(chunks, position));
    }
    assert(arrival.output =~= content.skip(start));
}

/// Whether one of several chunks is confirmed on its arrival: the file was not complete before,
/// and the chunk was not written.
pub open spec fn is_confirmed(
    state: WriterState,
    key: StreamKey,
    chunks: Seq<Chunk>,
    i: int,
) -> bool {
    let before = arrive_all(state, key, chunks.take(i)).state;
    &&& before.position != before.size
    &&& arrive(before, key, chunks[i].index, chunks[i].data).confirm
}

/// Whether a chunk with the given index arrives and is confirmed.
pub open spec fn has_confirmed(
    state: WriterState,
    key: StreamKey,
    chunks: Seq<Chunk>,
    index: u64,
) -> bool {
    exists|i: int|
        0 <= i < chunks.len() && chunks[i].index == index && #[trigger] is_confirmed(
            state,
            key,
            chunks,
            i,
        )
}

/// The chunks that are written out of those that wait did wait.
proof fn lemma_drained_waited(cache: Map<u64, Seq<u8>>, position: int, size: int, index: u64)
    requires
        cache.dom().finite(),
        0 <= position <= index < drained(cache, position, size).position,
        position <= size <= u64::MAX,
        (index - position) % 1024 == 0,
    ensures
        cache.contains_key(index),
    decreases cache.dom().len(),
{
    if cache.contains_key(position as u64) && index != position {
        let next = position + piece_len(position, size);
        let rest = cache.remove(position as u64);
        if next < position + 1024 {
            lemma_drained_end(rest, size);
        } else {
            lemma_drained_waited(rest, next, size, index);
        }
    }
}

/// At the end of the file, no position follows.
proof fn lemma_drained_end(cache: Map<u64, Seq<u8>>, size: int)
    requires
        cache.dom().finite(),
        0 <= size <= u64::MAX,
    ensures
        drained(cache, size, size).position == size,
    decreases cache.dom().len(),
{
    if cache.contains_key(size as u64) {
        lemma_drained_end(cache.remove(size as u64), size);
    }
}

proof fn lemma_has_confirmed(state: WriterState, key: StreamKey, chunks: Seq<Chunk>)
    requires
        state_wf(state),
        state.cache == Map::<u64, Seq<u8>>::empty(),
        forall|i: int|
            0 <= i < chunks.len() ==> (#[trigger] chunks[i]).data.len() == TRANSFER_BUFFER_SIZE,
    ensures
        ({
            let after = arrive_all(state, key, chunks).state;
            &&& state_wf(after)
            &&& after.size == state.size
            &&& state.position <= after.position
            &&& (after.position - state.position) % 1024 == 0 || after.position == after.size
            &&& forall|index: u64| #[trigger]
                after.cache.contains_key(index) ==> has_confirmed(state, key, chunks, index)
            &&& forall|index: u64|
                state.position <= index < after.position && (index - state.position) % 1024 == 0
                    ==> #[trigger] has_confirmed(state, key, chunks, index)
        }),
    decreases chunks.len(),
{
    if chunks.len() > 0 {
        let earlier = chunks.drop_last();
        lemma_has_confirmed(state, key, earlier);
        let before = arrive_all(state, key, earlier).state;
        let after = arrive_all(state, key, chunks).state;
        let at = chunks.len() - 1;
        let last = chunks[at];
        assert(chunks.take(at) =~= earlier);
        assert forall|index: u64| has_confirmed(state, key, earlier, index) implies #[trigger]
            has_confirmed(state, key, chunks, index) by {
            let i = choose|i: int|
                0 <= i < earlier.len() && earlier[i].index == index && #[trigger] is_confirmed(
                    state,
                    key,
                    earlier,
                    i,
                );
            assert(earlier.take(i) =~= chunks.take(i));
            assert(is_confirmed(state, key, chunks, i));
        }
        if before.position != before.size {
            if last.index >= before.position {
                assert(is_confirmed(state, key, chunks, at));
                assert(has_confirmed(state, key, chunks, last.index));
            }
            if last.index == before.position {
                let next = before.position + piece_len(before.position, before.size);
                lemma_drained(before.cache, next, before.size);
                lemma_grid(before.cache, before.position, next, before.size);
                assert forall|index: u64|
                    state.position <= index < after.position && (index - state.position) % 1024
                        == 0 implies #[trigger] has_confirmed(state, key, chunks, index) by {
                    if index < before.position {
                        assert(has_confirmed(state, key, earlier, index));
                    } else if index > before.position {
                        if next == before.size {
                            lemma_drained_end(before.cache, before.size);
                        } else {
                            lemma_drained_waited(before.cache, next, before.size, index);
                            assert(has_confirmed(state, key, earlier, index));
                        }
                    }
                }
            } else {
                assert forall|index: u64|
                    state.position <= index < after.position && (index - state.position) % 1024
                        == 0 implies #[trigger] has_confirmed(state, key, chunks, index) by {
                    assert(has_confirmed(state, key, earlier, index));
                }
            }
        }
    }
}

/// The position goes on by whole chunks, but for the last one.
proof fn lemma_grid(cache: Map<u64, Seq<u8>>, start: int, position: int, size: int)
    requires
        cache.dom().finite(),
        0 <= start <= position <= size <= u64::MAX,
        (position - start) % 1024 == 0 || position == size,
    ensures
        (drained(cache, position, size).position - start) % 1024 == 0 || drained(
            cache,
            position,
            size,
        ).position == size,
    decreases cache.dom().len(),
{
    if cache.contains_key(position as u64) {
        lemma_grid(
            cache.remove(position as u64),
            start,
            position + piece_len(position, size),
            size,
        );
    }
}

/// What is written has been confirmed: whatever arrives in whatever order, every chunk between
/// the start index and the position has been confirmed on an arrival of it. Once the file is
/// complete, these are all chunks from the start index on.
pub proof fn law_all_confirmed(
    state: WriterState,
    key: StreamKey,
    chunks: Seq<Chunk>,
    index: u64,
)
    requires
        state_wf(state),
        state.cache == Map::<u64, Seq<u8>>::empty(),
        forall|i: int|
            0 <= i < chunks.len() ==> (#[trigger] chunks[i]).data.len() == TRANSFER_BUFFER_SIZE,
        state.position <= index < state.size,
        (index - state.position) % 1024 == 0,
    ensures
        ({
            let after = arrive_all(state, key, chunks).state;
            &&& index < after.position ==> has_confirmed(state, key, chunks, index)
            &&& after.position == after.size ==> has_confirmed(state, key, chunks, index)
        }),
{
    lemma_has_confirmed(state, key, chunks);
}

/// A writer writes the file: a chunk that comes from it is confirmed exactly where it was not written
/// before, and what is written for it is the file from the position before to the position after.
pub proof fn law_receive(
    writer: &mut Writer,
    job: Job,
    step: WriterStep,
    content: Seq<u8>,
)
    requires
        writer.wf(),
        sound(writer.state(), writer.key(), content),
        genuine(content, writer.key(), job.index, job.data@),
        call_ensures(Writer::receive, (writer, job), step),
    ensures
        sound(final(writer).state(), final(writer).key(), content),
        final(writer).key() == old(writer).key(),
        old(writer).state().position <= final(writer).state().position,
        step.output@ == content.subrange(
            old(writer).state().position,
            final(writer).state().position,
        ),
        step.confirm <==> job.index >= old(writer).state().position,
        job.index == old(writer).state().position && job.index < content.len()
            ==> old(writer).state().position < final(writer).state().position,
{
    let state = old(writer).state();
    law_arrival(state, old(writer).key(), content, job.index, job.data@);
    if job.index == state.position {
        lemma_drained(
            state.cache,
            state.position + piece_len(state.position, state.size),
            state.size,
        );
    }
}

/// A writer starts with nothing but its position, and is complete exactly at the end of the file.
pub proof fn law_new_writer(
    position: u64,
    size: u64,
    cipher: StreamCipherWrapper,
    writer: Writer,
    complete: bool,
    stands: u64,
)
    requires
        position <= size,
        cipher.wf(),
        cipher.stream_key().reaches(size as int),
        call_ensures(Writer::new, (position, size, cipher), writer),
        call_ensures(Writer::is_complete, (&writer,), complete),
        call_ensures(Writer::position, (&writer,), stands),
    ensures
        stands == position,
        complete <==> position == size,
        writer.key() == cipher.stream_key(),
        writer.state().cache.dom() == Set::<u64>::empty(),
{
    assert(writer.state().cache.dom() =~= Set::<u64>::empty());
}

} // verus!
