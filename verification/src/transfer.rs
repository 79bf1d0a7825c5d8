//! A file on its way from the reader to the writer.

use crate::bytes::be_value;
use crate::cipher::{crypto_ready, StreamKey};
use crate::error::{Error, ErrorKind};
use crate::hash::blake3_hash;
use crate::items::{FileDetail, Manifest, Message, StartIndex};
use crate::packet::{datagram, law_datagram, DATAGRAM_SIZE, TRANSFER_BUFFER_SIZE};
use crate::receiver::files::{
    check_space, law_sort_files, law_start_index, passes, receive_manifest, resume_index,
    sort_files, FileDetails, Refusal, Sorted,
};
use crate::receiver::writer::{
    arrive_all, delivered, genuine, law_transfer, piece, piece_len, Chunk, Writer, WriterState,
};
use crate::sender::controller::{start_file_transfer, Controller, ControllerAction};
use crate::sender::manifest::{
    announce, data_size, law_receive_answer, receive_answer, Announcement, Answer,
};
use crate::sender::reader::{Job, Reader};
use std::collections::HashMap;
use vstd::prelude::*;

verus! {

/// The data of the datagram for the chunk at `index`: the chunk encrypted, and behind a shorter
/// one what the datagram before it left there.
pub open spec fn chunk_data(
    content: Seq<u8>,
    key: StreamKey,
    index: int,
    before: Seq<u8>,
) -> Seq<u8> {
    let len = piece_len(index, content.len() as int);
    key.apply(index, content.subrange(index, index + len)) + before.skip(len)
}

/// The datagrams that a reader makes of a file from `index` on, each read being as long as a
/// chunk or up to the end of the file; `before` is the data of the datagram before them.
pub open spec fn datagrams(
    content: Seq<u8>,
    key: StreamKey,
    id: u32,
    index: int,
    before: Seq<u8>,
) -> Seq<Seq<u8>>
    decreases content.len() - index,
{
    if 0 <= index < content.len() {
        let data = chunk_data(content, key, index, before);
        let len = piece_len(index, content.len() as int);
        seq![datagram(id, index as u64, data)] + datagrams(content, key, id, index + len, data)
    } else {
        Seq::empty()
    }
}

/// The datagrams of a file are what the reader makes of its chunks, one after the other: the
/// first is the one that it makes of the next chunk, and the others follow from where it stands
/// after that.
pub proof fn law_reader(
    content: Seq<u8>,
    key: StreamKey,
    id: u32,
    index: int,
    before: Seq<u8>,
)
    requires
        0 <= index < content.len(),
    ensures
        ({
            let len = piece_len(index, content.len() as int);
            let chunk = content.subrange(index, index + len);
            let data = key.apply(index, chunk) + before.skip(len);
            datagrams(content, key, id, index, before) == seq![datagram(id, index as u64, data)]
                + datagrams(content, key, id, index + chunk.len(), data)
        }),
{
}

/// What the receiver takes out of a datagram for the writer.
pub open spec fn chunk_of(buf: Seq<u8>) -> Chunk {
    Chunk { index: be_value(buf.subrange(4, 12)) as u64, data: buf.subrange(12, 1036) }
}

/// Whether a datagram is one of the file `id` that carries a chunk of it.
spec fn carries(content: Seq<u8>, key: StreamKey, id: u32, buf: Seq<u8>) -> bool {
    &&& buf.len() == DATAGRAM_SIZE
    &&& be_value(buf.subrange(0, 4)) == id
    &&& genuine(content, key, chunk_of(buf).index, chunk_of(buf).data)
}

spec fn indexed(bufs: Seq<Seq<u8>>, index: int) -> bool {
    exists|i: int| 0 <= i < bufs.len() && chunk_of(#[trigger] bufs[i]).index == index
}

proof fn lemma_datagrams(
    content: Seq<u8>,
    key: StreamKey,
    id: u32,
    start: int,
    before: Seq<u8>,
)
    requires
        content.len() <= u64::MAX,
        0 <= start <= content.len(),
        start % 1024 == 0 || start == content.len(),
        before.len() == TRANSFER_BUFFER_SIZE,
    ensures
        forall|i: int|
            0 <= i < datagrams(content, key, id, start, before).len() ==> #[trigger] carries(
                content,
                key,
                id,
                datagrams(content, key, id, start, before)[i],
            ),
        forall|index: int|
            start <= index < content.len() && index % 1024 == 0 ==> #[trigger] indexed(
                datagrams(content, key, id, start, before),
                index,
            ),
    decreases content.len() - start,
{
    let all = datagrams(content, key, id, start, before);
    if start < content.len() {
        let len = piece_len(start, content.len() as int);
        let data = chunk_data(content, key, start, before);
        let rest = datagrams(content, key, id, start + len, data);
        lemma_datagrams(content, key, id, start + len, data);
        law_datagram(id, start as u64, data);
        let encrypted = key.apply(start, content.subrange(start, start + len));
        assert(piece(data, start, content.len() as int) =~= encrypted);
        assert(carries(content, key, id, all[0]));
        assert forall|i: int| 0 <= i < all.len() implies #[trigger] carries(
            content,
            key,
            id,
            all[i],
        ) by {
            if i > 0 {
                assert(all[i] == rest[i - 1]);
                assert(carries(content, key, id, rest[i - 1]));
            }
        }
        assert forall|index: int|
            start <= index < content.len() && index % 1024 == 0 implies #[trigger] indexed(
            all,
            index,
        ) by {
            if index == start {
                assert(chunk_of(all[0]).index == index);
            } else {
                assert(indexed(rest, index));
                let i = choose|i: int|
                    0 <= i < rest.len() && chunk_of(#[trigger] rest[i]).index == index;
                assert(all[i + 1] == rest[i]);
            }
        }
    }
}

/// What the sender sends of a file is what the receiver writes: if of the datagrams that the
/// reader makes of a file from the start index on each arrives at least once, in whatever order
/// and however often, and if the two ends have the same keystream, the file is complete in the
/// end, and what was written is the file from the start index on.
pub proof fn law_file_transfer(
    content: Seq<u8>,
    key: StreamKey,
    id: u32,
    start: int,
    before: Seq<u8>,
    arrived: Seq<Seq<u8>>,
)
    requires
        content.len() <= u64::MAX,
        0 <= start <= content.len(),
        start % 1024 == 0,
        before.len() == TRANSFER_BUFFER_SIZE,
        forall|i: int|
            0 <= i < arrived.len() ==> datagrams(content, key, id, start, before).contains(
                #[trigger] arrived[i],
            ),
        forall|i: int|
            0 <= i < datagrams(content, key, id, start, before).len() ==> arrived.contains(
                #[trigger] datagrams(content, key, id, start, before)[i],
            ),
    ensures
        ({
            let state = WriterState {
                position: start,
                size: content.len() as int,
                cache: Map::empty(),
            };
            let chunks = arrived.map_values(|buf: Seq<u8>| chunk_of(buf));
            let arrival = arrive_all(state, key, chunks);
            &&& arrival.state.position == content.len()
            &&& arrival.output == content.skip(start)
        }),
        forall|i: int|
            0 <= i < arrived.len() ==> be_value((#[trigger] arrived[i]).subrange(0, 4)) == id,
{
    let sent = datagrams(content, key, id, start, before);
    let chunks = arrived.map_values(|buf: Seq<u8>| chunk_of(buf));
    lemma_datagrams(content, key, id, start, before);
    assert forall|i: int| 0 <= i < arrived.len() implies carries(
        content,
        key,
        id,
        #[trigger] arrived[i],
    ) by {
        let j = choose|j: int| 0 <= j < sent.len() && sent[j] == arrived[i];
        assert(carries(content, key, id, sent[j]));
    }
    assert forall|i: int| 0 <= i < chunks.len() implies genuine(
        content,
        key,
        (#[trigger] chunks[i]).index,
        chunks[i].data,
    ) by {
        assert(carries(content, key, id, arrived[i]));
    }
    assert forall|index: int|
        start <= index < content.len() && index % 1024 == 0 implies #[trigger] delivered(
        chunks,
        index,
    ) by {
        assert(indexed(sent, index));
        let j = choose|j: int| 0 <= j < sent.len() && chunk_of(#[trigger] sent[j]).index == index;
        assert(arrived.contains(sent[j]));
        let i = choose|i: int| 0 <= i < arrived.len() && arrived[i] == sent[j];
        assert(chunks[i] == chunk_of(arrived[i]));
    }
    law_transfer(key, content, start, chunks);
}

/// A transfer that was interrupted goes on where it stopped: if the partial file is what was
/// written of the file so far, the part of it before the start index and what is written from
/// there on make up the file.
pub proof fn law_resumed_transfer(
    content: Seq<u8>,
    key: StreamKey,
    id: u32,
    partial: Seq<u8>,
    before: Seq<u8>,
    arrived: Seq<Seq<u8>>,
)
    requires
        content.len() <= u64::MAX,
        partial.len() <= content.len(),
        partial == content.take(partial.len() as int),
        before.len() == TRANSFER_BUFFER_SIZE,
        ({
            let start = resume_index(Some(partial.len() as u64));
            let sent = datagrams(content, key, id, start, before);
            &&& forall|i: int| 0 <= i < arrived.len() ==> sent.contains(#[trigger] arrived[i])
            &&& forall|i: int| 0 <= i < sent.len() ==> arrived.contains(#[trigger] sent[i])
        }),
    ensures
        ({
            let start = resume_index(Some(partial.len() as u64));
            let state = WriterState {
                position: start,
                size: content.len() as int,
                cache: Map::empty(),
            };
            let chunks = arrived.map_values(|buf: Seq<u8>| chunk_of(buf));
            let arrival = arrive_all(state, key, chunks);
            &&& arrival.state.position == content.len()
            &&& partial.take(start) + arrival.output == content
        }),
{
    let len = partial.len() as u64;
    let start = resume_index(Some(len));
    law_start_index(Some(len));
    law_file_transfer(content, key, id, start, before, arrived);
    assert(partial.take(start) + content.skip(start) =~= content);
}

/// A file that has arrived as it was sent passes signature verification.
pub proof fn law_verified_transfer(
    content: Seq<u8>,
    signature: Seq<u8>,
    written: Seq<u8>,
    local_hash: Vec<u8>,
)
    requires
        signature == blake3_hash(content) || signature.len() == 0,
        local_hash@ == blake3_hash(written),
        written == content,
    ensures
        passes(signature, Some(local_hash)),
{
}

/// The first message of the sender is understood: the receiver has the files and directories of the
/// manifest, or knows that there is nothing to come.
pub proof fn law_first_message(
    manifest: Manifest,
    announcement: Announcement,
    result: Result<Option<Manifest>, Error>,
)
    requires
        call_ensures(announce, (&manifest,), announcement),
        call_ensures(receive_manifest, (announcement.message,), result),
    ensures
        announcement.finished ==> result == Ok::<Option<Manifest>, Error>(None),
        !announcement.finished ==> (result matches Ok(Some(received)) && received.files@
            == manifest.files@ && received.directories@ == manifest.directories@),
{
}

/// What the receiver has and keeps is not sent: after its answer, the sender is left with the files
/// that are not there, and with all of them where they are to be overwritten.
pub proof fn law_answer(
    listed: Vec<(u32, bool)>,
    overwrite: bool,
    sorted: Sorted,
    answer: Message,
    files: &mut HashMap<u32, FileDetail>,
    result: Result<Answer, Error>,
    id: u32,
)
    requires
        call_ensures(sort_files, (&listed, overwrite), sorted),
        call_ensures(Message::completed, (sorted.completed,), answer),
        data_size(files@) <= u64::MAX,
        call_ensures(receive_answer, (files, answer), result),
    ensures
        result is Ok,
        final(files)@.contains_key(id) <==> old(files)@.contains_key(id) && (overwrite
            || !listed@.contains((id, true))),
        overwrite ==> final(files)@ == old(files)@,
{
    law_sort_files(listed, overwrite, sorted, id);
    law_receive_answer(files, sorted.completed, answer, result, id);
    if overwrite {
        assert forall|other: u32| !sorted.completed@.contains(other) by {
            law_sort_files(listed, overwrite, sorted, other);
        }
        assert(final(files)@ =~= old(files)@);
    }
}

/// A refusal for want of space ends the transfer at the other end, too, with its reason.
pub proof fn law_no_space(
    free: u64,
    total: u64,
    refused: Result<(), Refusal>,
    files: &mut HashMap<u32, FileDetail>,
    result: Result<Answer, Error>,
)
    requires
        total > free,
        call_ensures(check_space, (Some(free), total), refused),
        data_size(files@) <= u64::MAX,
        refused is Err,
        call_ensures(receive_answer, (files, refused->Err_0.message), result),
    ensures
        result matches Err(error) && error.kind == ErrorKind::Failure(1),
        final(files)@ == old(files)@,
{
}

/// What the receiver tells of a file that is written reaches the file at the sender: one that passed
/// is done with, and one that did not is sent again.
pub proof fn law_verdict(
    details: FileDetails,
    local_hash: Option<Vec<u8>>,
    verdict: Result<Message, Refusal>,
    controller: &mut Controller,
    result: Result<ControllerAction, Error>,
)
    requires
        details.signature@.len() != 0 ==> local_hash is Some,
        call_ensures(FileDetails::finish, (&details, &local_hash), verdict),
        controller.state().wf(),
        controller.state().active.contains_key(details.id),
        call_ensures(
            Controller::receive,
            (
                controller,
                match verdict {
                    Ok(message) => message,
                    Err(refusal) => refusal.message,
                },
            ),
            result,
        ),
    ensures
        verdict is Ok ==> result == Ok::<ControllerAction, Error>(
            ControllerAction::Ended(details.id),
        ) && !final(controller).state().active.contains_key(details.id),
        verdict is Err ==> (result matches Ok(ControllerAction::Retry { id, size }) && id
            == details.id && final(controller).state().active.contains_key(details.id)),
        details.signature@.len() != 0 && local_hash->0@ != details.signature@ ==> verdict is Err,
{
}

/// The failure of a writer makes the sender give the file up.
pub proof fn law_writer_failure(
    details: FileDetails,
    report: String,
    message: Message,
    controller: &mut Controller,
    result: Result<ControllerAction, Error>,
)
    requires
        call_ensures(FileDetails::writer_failure, (&details, report), message),
        controller.state().wf(),
        controller.state().active.contains_key(details.id),
        call_ensures(Controller::receive, (controller, message), result),
    ensures
        result == Ok::<ControllerAction, Error>(ControllerAction::GivenUp(details.id)),
        !final(controller).state().active.contains_key(details.id),
{
}

/// The sender sends a file from where the receiver wants it, under the id that both know, with the
/// settings that both have.
pub proof fn law_start_file_transfer(
    id: u32,
    details: FileDetail,
    start: StartIndex,
    reader: Result<Reader, Error>,
    wanted: FileDetails,
    writer: Result<Writer, Error>,
)
    requires
        details@.crypto is Some,
        crypto_ready(details@.crypto->0),
        call_ensures(start_file_transfer, (id, &details, start), reader),
        wanted.crypto@ == details@.crypto->0,
        wanted.start_index == start.index,
        wanted.size == details.size,
        call_ensures(FileDetails::writer, (&wanted,), writer),
    ensures
        reader matches Ok(reader) && (writer matches Ok(writer) && {
            &&& reader.spec_id() == id
            &&& reader.spec_index() == start.index
            &&& writer.state().position == start.index
            &&& writer.state().size == details.size
            &&& writer.key() == reader.spec_key()
        }),
{
}

/// The jobs that a reader makes of the chunks of a file, one after the other, carry the datagrams of
/// the file: the job for the next chunk is the first of them, and the others are those that follow
/// from where the reader stands after it.
pub proof fn law_reader_job(
    reader: &mut Reader,
    content: Seq<u8>,
    chunk: Vec<u8>,
    job: Option<Job>,
)
    requires
        reader.wf(),
        reader.spec_index() < content.len() <= u64::MAX,
        reader.spec_key().reaches(content.len() as int),
        chunk@ == content.subrange(
            reader.spec_index() as int,
            reader.spec_index() + piece_len(reader.spec_index() as int, content.len() as int),
        ),
        call_ensures(Reader::next_job, (reader, &chunk), job),
    ensures
        job matches Some(job) && datagrams(
            content,
            old(reader).spec_key(),
            old(reader).spec_id(),
            old(reader).spec_index() as int,
            old(reader).spec_data(),
        ) == seq![job.data@] + datagrams(
            content,
            final(reader).spec_key(),
            final(reader).spec_id(),
            final(reader).spec_index() as int,
            final(reader).spec_data(),
        ),
{
    law_reader(
        content,
        old(reader).spec_key(),
        old(reader).spec_id(),
        old(reader).spec_index() as int,
        old(reader).spec_data(),
    );
}

} // verus!
