//! Decides what is received, and from where on.

use crate::bytes::same_bytes;
use crate::cipher::{crypto_ready, stream_key, unknown_cipher_text};
use crate::error::{Error, ErrorKind};
use crate::items::{cipher_of_number, Body, Crypto, CryptoView, FileDetail, Manifest, Message};
use crate::packet::TRANSFER_BUFFER_SIZE;
use crate::receiver::writer::{Writer, WriterState};
use vstd::prelude::*;

verus! {

/// Takes the sender's first message: the manifest, or `None` where the sender found no files.
pub fn receive_manifest(message: Message) -> (result: Result<Option<Manifest>, Error>)
    ensures
        match message.message {
            Some(Body::Manifest(manifest)) => result == Ok::<Option<Manifest>, Error>(
                Some(manifest),
            ),
            Some(Body::Done { reason: 0 }) => result == Ok::<Option<Manifest>, Error>(None),
            _ => result matches Err(error) && error.kind == ErrorKind::UnexpectedMessage(
                Box::new(message),
            ),
        },
{
    match message.message {
        Some(Body::Manifest(manifest)) => Ok(Some(manifest)),
        Some(Body::Done { reason: 0 }) => Ok(None),
        _ => Err(Error::unexpected_message(message)),
    }
}

/// if multiple files are being received, the destination should be a directory
pub fn destination_is_dir(directory: bool, manifest: &Manifest) -> (is_dir: bool)
    ensures
        is_dir == (directory || manifest.files@.dom().len() > 1),
{
    broadcast use vstd::std_specs::hash::group_hash_axioms;

    directory || manifest.files.len() > 1
}

/// Whether the local path of a file is below the destination; else it is the destination
/// itself.
pub fn is_below_destination(is_dir: bool, destination_is_dir: bool) -> (below: bool)
    ensures
        below == (is_dir || destination_is_dir),
{
    is_dir || destination_is_dir
}

/// Whether a file counts as complete: it is there, and is not to be overwritten.
pub fn is_completed(exists: bool, overwrite: bool) -> (completed: bool)
    ensures
        completed == (exists && !overwrite),
{
    exists && !overwrite
}

/// Tells the files that count as complete, each given by its id and by whether it is there.
pub open spec fn completed_one(overwrite: bool) -> spec_fn((u32, bool)) -> bool {
    |file: (u32, bool)| file.1 && !overwrite
}

/// Tells the files that are wanted.
pub open spec fn wanted_one(overwrite: bool) -> spec_fn((u32, bool)) -> bool {
    |file: (u32, bool)| !(file.1 && !overwrite)
}

/// The ids of some files.
pub open spec fn file_ids(files: Seq<(u32, bool)>) -> Seq<u32> {
    files.map_values(|file: (u32, bool)| file.0)
}

/// Every file is either complete or wanted, and nothing else is either.
pub proof fn law_sorted(files: Seq<(u32, bool)>, overwrite: bool, file: (u32, bool))
    ensures
        files.contains(file) <==> files.filter(completed_one(overwrite)).contains(file)
            || files.filter(wanted_one(overwrite)).contains(file),
        !(files.filter(completed_one(overwrite)).contains(file) && files.filter(
            wanted_one(overwrite),
        ).contains(file)),
{
    broadcast use {vstd::seq_lib::group_filter_ensures, Seq::lemma_filter_contains_rev};

    let completed = files.filter(completed_one(overwrite));
    let wanted = files.filter(wanted_one(overwrite));
    if files.contains(file) {
        let i = choose|i: int| 0 <= i < files.len() && files[i] == file;
        assert(completed_one(overwrite)(files[i]) || wanted_one(overwrite)(files[i]));
    }
    if completed.contains(file) && wanted.contains(file) {
        let i = choose|i: int| 0 <= i < completed.len() && completed[i] == file;
        let j = choose|j: int| 0 <= j < wanted.len() && wanted[j] == file;
        assert(completed_one(overwrite)(completed[i]) && wanted_one(overwrite)(wanted[j]));
    }
}

/// The files of a manifest, apart: those that count as complete, and those that are wanted.
#[derive(Debug)]
pub struct Sorted {
    pub completed: Vec<u32>,
    pub wanted: Vec<u32>,
}

/// Sorts files, each given by its id and by whether there is a file at its local path.
pub fn sort_files(files: &Vec<(u32, bool)>, overwrite: bool) -> (sorted: Sorted)
    ensures
        sorted.completed@ == file_ids(files@.filter(completed_one(overwrite))),
        sorted.wanted@ == file_ids(files@.filter(wanted_one(overwrite))),
{
    let ghost done = completed_one(overwrite);
    let ghost open = wanted_one(overwrite);
    let mut completed: Vec<u32> = Vec::new();
    let mut wanted: Vec<u32> = Vec::new();
    let mut i: usize = 0;
    proof {
        reveal(Seq::filter);
        assert(file_ids(files@.take(0).filter(done)) =~= Seq::empty());
        assert(file_ids(files@.take(0).filter(open)) =~= Seq::empty());
    }
    while i < files.len()
        invariant
            i <= files@.len(),
            done == completed_one(overwrite),
            open == wanted_one(overwrite),
            completed@ == file_ids(files@.take(i as int).filter(done)),
            wanted@ == file_ids(files@.take(i as int).filter(open)),
        decreases files.len() - i,
    {
        let file: (u32, bool) = files[i];
        proof {
            reveal(Seq::filter);
            let taken = files@.take(i as int);
            let next = files@.take(i as int + 1);
            assert(next.drop_last() =~= taken);
            if done(file) {
                assert(file_ids(next.filter(done)) =~= file_ids(taken.filter(done)).push(file.0));
            } else {
                assert(file_ids(next.filter(open)) =~= file_ids(taken.filter(open)).push(file.0));
            }
        }
        if is_completed(file.1, overwrite) {
            completed.push(file.0);
        } else {
            wanted.push(file.0);
        }
        i += 1;
    }
    proof {
        assert(files@.take(files@.len() as int) =~= files@);
    }
    Sorted { completed, wanted }
}

/// The extension of a path.
#[derive(Debug)]
pub enum Extension {
    Absent,
    Text(String),
    NotUnicode,
}

/// append partial extension to the existing extension, if there is one
pub fn partial_extension(extension: &Extension) -> (result: Result<String, Error>)
    ensures
        match (extension, result) {
            (Extension::Absent, Ok(partial)) => partial@ == "partial"@,
            (Extension::Text(text), Ok(partial)) => partial@ == text@ + ".partial"@,
            (Extension::NotUnicode, Err(error)) => error.kind == ErrorKind::InvalidExtension,
            _ => false,
        },
{
    match extension {
        Extension::Absent => Ok("partial".to_owned()),
        Extension::Text(text) => Ok(text.clone().concat(".partial")),
        Extension::NotUnicode => Err(Error::invalid_extension()),
    }
}

/// Where a transfer goes on for which the partial file has the given length.
pub open spec fn resume_index(partial: Option<u64>) -> int {
    match partial {
        Some(len) => len / 1024 * 1024,
        None => 0,
    }
}

/// returns the start index of the file, if it exists: the file is written sequentially, so the
/// length is rounded down to the nearest multiple of the transfer buffer size
pub fn start_index(partial: Option<u64>) -> (index: u64)
    ensures
        index == resume_index(partial),
{
    match partial {
        Some(len) => {
            let size: u64 = TRANSFER_BUFFER_SIZE as u64;
            let chunks: u64 = len / size;
            proof {
                assert(chunks == len / 1024 && chunks * size == len / 1024 * 1024)
                    by (nonlinear_arith)
                    requires
                        size == 1024,
                        chunks == len / size,
                ;
            }
            chunks * size
        },
        None => 0,
    }
}

/// A transfer goes on where a chunk starts, within what is there already, and less than a
/// chunk of that is sent again.
pub proof fn law_start_index(partial: Option<u64>)
    ensures
        resume_index(partial) % TRANSFER_BUFFER_SIZE as int == 0,
        partial matches Some(len) ==> resume_index(partial) <= len < resume_index(partial)
            + TRANSFER_BUFFER_SIZE,
        partial is None ==> resume_index(partial) == 0,
{
}

/// The refusal of a transfer or of a file: what is told to the sender, and the error it ends
/// with.
#[derive(Debug)]
pub struct Refusal {
    pub message: Message,
    pub error: Error,
}

/// Whether a file passes signature verification: the sender provided no signature, or it is the
/// hash of what was written.
pub open spec fn passes(signature: Seq<u8>, local_hash: Option<Vec<u8>>) -> bool {
    signature.len() == 0 || signature == local_hash->0@
}

/// stores file details for writer
#[derive(Debug)]
pub struct FileDetails {
    pub id: u32,
    pub size: u64,
    pub start_index: u64,
    pub signature: Vec<u8>,
    pub crypto: Crypto,
}

impl Clone for FileDetails {
    fn clone(&self) -> (copy: Self)
        ensures
            copy.id == self.id,
            copy.size == self.size,
            copy.start_index == self.start_index,
            copy.signature@ == self.signature@,
            copy.crypto@ == self.crypto@,
    {
        let signature = self.signature.clone();
        assert(signature@ =~= self.signature@);
        FileDetails {
            id: self.id,
            size: self.size,
            start_index: self.start_index,
            signature,
            crypto: self.crypto.clone(),
        }
    }
}

impl FileDetails {
    /// The details of a file that is wanted, with the length of its partial file, if there is
    /// one.
    pub fn new(id: u32, detail: FileDetail, partial: Option<u64>) -> (details: Self)
        ensures
            details.id == id,
            details.size == detail.size,
            details.start_index == resume_index(partial),
            details.signature@ == detail.signature@,
            details.crypto@ == match detail@.crypto {
                Some(crypto) => crypto,
                None => (CryptoView { cipher: 0, key: Seq::empty(), iv: Seq::empty() }),
            },
    {
        let start_index: u64 = start_index(partial);
        let crypto = match detail.crypto {
            Some(crypto) => crypto,
            None => Crypto::default(),
        };
        FileDetails { id, size: detail.size, start_index, signature: detail.signature, crypto }
    }

    /// How much of the file is still to be received.
    pub fn remaining(&self) -> (bytes: u64)
        requires
            self.start_index <= self.size,
        ensures
            bytes == self.size - self.start_index,
    {
        self.size - self.start_index
    }

    /// Whether the sender provided a signature.
    pub fn is_signed(&self) -> (signed: bool)
        ensures
            signed == (self.signature@.len() != 0),
    {
        self.signature.len() != 0
    }

    /// verify the signature if provided by the sender: what is told to the sender once all is
    /// written. `local_hash` is the hash of the partial file, needed where the sender provided
    /// a signature. A file that is refused is removed, else it gets its name.
    pub fn finish(&self, local_hash: &Option<Vec<u8>>) -> (result: Result<Message, Refusal>)
        requires
            self.signature@.len() != 0 ==> local_hash is Some,
        ensures
            match result {
                Ok(message) => {
                    &&& passes(self.signature@, *local_hash)
                    &&& message.message == Some(Body::End { id: self.id })
                },
                Err(refusal) => {
                    &&& !passes(self.signature@, *local_hash)
                    &&& refusal.message.message == Some(
                        Body::Failure { id: self.id, reason: 0, description: None },
                    )
                    &&& refusal.error.kind == ErrorKind::Failure(0)
                },
            },
    {
        if self.is_signed() {
            let passed = match local_hash {
                Some(hash) => same_bytes(hash, &self.signature),
                None => false,
            };
            if !passed {
                return Err(
                    Refusal {
                        message: Message::failure(self.id, 0, None),
                        error: Error::failure(0),
                    },
                );
            }
        }
        Ok(Message::end(self.id))
    }

    /// What is told to the sender where the writer of the file fails.
    pub fn writer_failure(&self, report: String) -> (message: Message)
        ensures
            message.message == Some(
                Body::Failure { id: self.id, reason: 2, description: Some(report) },
            ),
    {
        Message::failure(self.id, 2, Some(report))
    }

    /// The writer of the file.
    pub fn writer(&self) -> (result: Result<Writer, Error>)
        requires
            self.start_index <= self.size,
            cipher_of_number(self.crypto.cipher) is Some ==> crypto_ready(self.crypto@)
                && stream_key(self.crypto@).reaches(self.size as int),
        ensures
            match result {
                Ok(writer) => {
                    &&& crypto_ready(self.crypto@)
                    &&& writer.wf()
                    &&& writer.key() == stream_key(self.crypto@)
                    &&& writer.state() == (WriterState {
                        position: self.start_index as int,
                        size: self.size as int,
                        cache: Map::empty(),
                    })
                },
                Err(error) => {
                    &&& cipher_of_number(self.crypto.cipher) is None
                    &&& error.kind matches ErrorKind::Decode(text) && text@
                        == unknown_cipher_text()
                },
            },
    {
        match self.crypto.make_cipher() {
            Ok(cipher) => Ok(Writer::new(self.start_index, self.size, cipher)),
            Err(error) => Err(error),
        }
    }
}

/// Refuses a transfer for which the free space does not suffice; `free` is `None` where the
/// space is not to be checked.
pub fn check_space(free: Option<u64>, total: u64) -> (result: Result<(), Refusal>)
    ensures
        match result {
            Ok(()) => free is None || free->0 >= total,
            Err(refusal) => {
                &&& free is Some && free->0 < total
                &&& refusal.message.message == Some(
                    Body::Failure { id: 0, reason: 1, description: None },
                )
                &&& refusal.error.kind == ErrorKind::Failure(1)
            },
        },
{
    match free {
        Some(free) => if free < total {
            Err(Refusal { message: Message::failure(0, 1, None), error: Error::failure(1) })
        } else {
            Ok(())
        },
        None => Ok(()),
    }
}

/// The free space of a file system in bytes.
pub fn free_bytes(blocks: u64, fragment_size: u64) -> (bytes: u64)
    requires
        blocks * fragment_size <= u64::MAX,
    ensures
        bytes == blocks * fragment_size,
{
    blocks * fragment_size
}

/// The first existing directory among a path and its parents, given whether each of them is an
/// existing directory.
pub fn first_existing(existing_dirs: &Vec<bool>) -> (result: Result<usize, Error>)
    ensures
        match result {
            Ok(index) => {
                &&& index < existing_dirs@.len()
                &&& existing_dirs@[index as int]
                &&& forall|i: int| 0 <= i < index ==> !#[trigger] existing_dirs@[i]
            },
            Err(error) => {
                &&& error.kind == ErrorKind::EmptyPath
                &&& forall|i: int| 0 <= i < existing_dirs@.len() ==> !#[trigger] existing_dirs@[i]
                &&& !existing_dirs@.contains(true)
            },
        },
{
    let mut index: usize = 0;
    while index < existing_dirs.len()
        invariant
            index <= existing_dirs@.len(),
            forall|i: int| 0 <= i < index ==> !#[trigger] existing_dirs@[i],
        decreases existing_dirs.len() - index,
    {
        if existing_dirs[index] {
            return Ok(index);
        }
        index += 1;
    }
    Err(Error::empty_path())
}

/// A file that is there is kept, and not wanted, unless it is to be overwritten; every other file
/// is wanted; and no other ids come out.
pub proof fn law_sort_files(files: Vec<(u32, bool)>, overwrite: bool, sorted: Sorted, id: u32)
    requires
        call_ensures(sort_files, (&files, overwrite), sorted),
    ensures
        sorted.completed@.contains(id) <==> !overwrite && files@.contains((id, true)),
        sorted.wanted@.contains(id) <==> files@.contains((id, false)) || overwrite
            && files@.contains((id, true)),
        sorted.completed@.len() + sorted.wanted@.len() == files@.len(),
{
    lemma_picked(files@, completed_one(overwrite), id);
    lemma_picked(files@, wanted_one(overwrite), id);
    lemma_apart(files@, overwrite);
    let done = completed_one(overwrite);
    let open = wanted_one(overwrite);
    assert(done((id, true)) == !overwrite && !done((id, false)));
    assert(open((id, true)) == overwrite && open((id, false)));
}

proof fn lemma_picked(files: Seq<(u32, bool)>, pick: spec_fn((u32, bool)) -> bool, id: u32)
    ensures
        file_ids(files.filter(pick)).contains(id) <==> {
            ||| pick((id, true)) && files.contains((id, true))
            ||| pick((id, false)) && files.contains((id, false))
        },
{
    broadcast use vstd::seq_lib::group_filter_ensures;

    let picked = files.filter(pick);
    let ids = file_ids(picked);
    if ids.contains(id) {
        let i = choose|i: int| 0 <= i < ids.len() && ids[i] == id;
        assert(pick(picked[i]));
        assert(picked.contains(picked[i]));
        files.lemma_filter_contains_rev(pick, picked[i]);
        assert(picked[i] == (id, true) || picked[i] == (id, false));
    }
    if pick((id, true)) && files.contains((id, true)) {
        let i = choose|i: int| 0 <= i < files.len() && files[i] == (id, true);
        assert(pick(files[i]));
        assert(picked.contains((id, true)));
        let j = choose|j: int| 0 <= j < picked.len() && picked[j] == (id, true);
        assert(ids[j] == id);
    }
    if pick((id, false)) && files.contains((id, false)) {
        let i = choose|i: int| 0 <= i < files.len() && files[i] == (id, false);
        assert(pick(files[i]));
        assert(picked.contains((id, false)));
        let j = choose|j: int| 0 <= j < picked.len() && picked[j] == (id, false);
        assert(ids[j] == id);
    }
}

proof fn lemma_apart(files: Seq<(u32, bool)>, overwrite: bool)
    ensures
        files.filter(completed_one(overwrite)).len() + files.filter(wanted_one(overwrite)).len()
            == files.len(),
    decreases files.len(),
{
    reveal(Seq::filter);
    if files.len() > 0 {
        lemma_apart(files.drop_last(), overwrite);
    }
}

/// Nothing that is there is sent again unless it is to be overwritten, and then everything is;
/// what is not there is always sent.
pub proof fn law_is_completed(exists: bool, overwrite: bool, completed: bool)
    requires
        call_ensures(is_completed, (exists, overwrite), completed),
    ensures
        overwrite ==> !completed,
        !exists ==> !completed,
        exists && !overwrite ==> completed,
{
}

/// More than one file needs a directory, whatever the user asks for; and where one is asked for,
/// it is one.
pub proof fn law_destination_is_dir(directory: bool, manifest: Manifest, is_dir: bool, a: u32, b: u32)
    requires
        manifest.files@.dom().finite(),
        call_ensures(destination_is_dir, (directory, &manifest), is_dir),
    ensures
        directory ==> is_dir,
        manifest.files@.contains_key(a) && manifest.files@.contains_key(b) && a != b ==> is_dir,
        !directory && (forall|id: u32| #[trigger] manifest.files@.contains_key(id) ==> id == a)
            ==> !is_dir,
{
    let ids = manifest.files@.dom();
    if ids.contains(a) && ids.contains(b) && a != b {
        let two = set![a, b];
        vstd::set_lib::lemma_len_subset(two, ids);
        assert(two.len() == 2);
    }
    if forall|id: u32| #[trigger] manifest.files@.contains_key(id) ==> id == a {
        let one = set![a];
        assert(ids.subset_of(one)) by {
            assert forall|id: u32| ids.contains(id) implies one.contains(id) by {
                assert(manifest.files@.contains_key(id));
            }
        }
        vstd::set_lib::lemma_len_subset(ids, one);
    }
}

/// The index to go on from is the largest multiple of the chunk size that does not exceed the
/// length of the partial file; a longer partial file never makes it smaller.
pub proof fn law_resume(partial: Option<u64>, index: u64, longer: u64, later: u64, multiple: int)
    requires
        call_ensures(start_index, (partial,), index),
        call_ensures(start_index, (Some(longer),), later),
    ensures
        index as int % 1024 == 0,
        partial is None ==> index == 0,
        partial matches Some(len) ==> {
            &&& index <= len
            &&& multiple % 1024 == 0 && multiple <= len ==> multiple <= index
            &&& len <= longer ==> index <= later
        },
{
}

/// Verification is strict: a file without a signature passes; one with a signature passes exactly
/// where its hash is the signature, byte for byte. It is told as the end of the file or as its
/// failure, under its own id.
pub proof fn law_finish(
    details: FileDetails,
    local_hash: Option<Vec<u8>>,
    result: Result<Message, Refusal>,
)
    requires
        details.signature@.len() != 0 ==> local_hash is Some,
        call_ensures(FileDetails::finish, (&details, &local_hash), result),
    ensures
        details.signature@.len() == 0 ==> result is Ok,
        details.signature@.len() != 0 ==> (result is Ok <==> local_hash->0@ == details.signature@),
        result matches Ok(message) ==> message.message == Some(Body::End { id: details.id }),
        result matches Err(refusal) ==> refusal.message.message == Some(
            Body::Failure { id: details.id, reason: 0, description: None },
        ) && refusal.error.kind == ErrorKind::Failure(0),
{
}

/// A transfer is refused for want of space exactly where more is to come than is free; so it is
/// never refused where the space is not checked, nor where less is to come than fits.
pub proof fn law_check_space(
    free: u64,
    total: u64,
    result: Result<(), Refusal>,
    less: u64,
    other: Result<(), Refusal>,
    unchecked: Result<(), Refusal>,
)
    requires
        call_ensures(check_space, (Some(free), total), result),
        call_ensures(check_space, (Some(free), less), other),
        call_ensures(check_space, (None, total), unchecked),
    ensures
        unchecked is Ok,
        result is Ok <==> total <= free,
        result is Ok && less <= total ==> other is Ok,
        result matches Err(refusal) ==> refusal.message.message == Some(
            Body::Failure { id: 0, reason: 1, description: None },
        ) && refusal.error.kind == ErrorKind::Failure(1),
{
}

/// The partial file of a file is another file: its name has `partial` behind the extension.
pub proof fn law_partial_extension(
    text: String,
    result: Result<String, Error>,
    absent: Result<String, Error>,
    broken: Result<String, Error>,
)
    requires
        call_ensures(partial_extension, (&Extension::Text(text),), result),
        call_ensures(partial_extension, (&Extension::Absent,), absent),
        call_ensures(partial_extension, (&Extension::NotUnicode,), broken),
    ensures
        result matches Ok(partial) && partial@.len() == text@.len() + 8 && partial@.take(
            text@.len() as int,
        ) == text@ && partial@[text@.len() as int] == '.' && (absent matches Ok(alone)
            && partial@.skip(1int + text@.len()) == alone@ && alone@ == "partial"@),
        broken matches Err(error) && error.kind == ErrorKind::InvalidExtension,
{
    reveal_strlit("partial");
    reveal_strlit(".partial");
    let partial = result->Ok_0;
    assert(partial@.take(text@.len() as int) =~= text@);
    assert(".partial"@.skip(1) =~= "partial"@);
    assert(partial@.skip(1int + text@.len()) =~= ".partial"@.skip(1));
}

/// The first existing directory is the nearest: no nearer one exists, and there is one where any
/// exists.
pub proof fn law_first_existing(
    existing_dirs: Vec<bool>,
    result: Result<usize, Error>,
    i: int,
)
    requires
        call_ensures(first_existing, (&existing_dirs,), result),
        0 <= i < existing_dirs@.len(),
    ensures
        existing_dirs@[i] ==> (result matches Ok(index) && index <= i
            && existing_dirs@[index as int]),
        result is Err ==> !existing_dirs@[i],
        result matches Err(error) ==> error.kind == ErrorKind::EmptyPath,
{
    if existing_dirs@[i] {
        assert(existing_dirs@.contains(true));
    }
}

/// The details of a wanted file are those of the manifest, from where its partial file ends.
pub proof fn law_file_details(
    id: u32,
    detail: FileDetail,
    partial: Option<u64>,
    details: FileDetails,
)
    requires
        call_ensures(FileDetails::new, (id, detail, partial), details),
    ensures
        details.id == id,
        details.size == detail.size,
        details.signature@ == detail.signature@,
        detail.crypto matches Some(crypto) ==> details.crypto@ == crypto@,
        detail.crypto is None ==> details.crypto.cipher == 0 && details.crypto.key@.len() == 0
            && details.crypto.iv@.len() == 0,
        partial is None ==> details.start_index == 0,
        partial matches Some(len) ==> details.start_index <= len < details.start_index + 1024
            && details.start_index as int % 1024 == 0,
{
}

/// What is still to come of a file and what is there make up the file.
pub proof fn law_remaining(details: FileDetails, bytes: u64, signed: bool)
    requires
        details.start_index <= details.size,
        call_ensures(FileDetails::remaining, (&details,), bytes),
        call_ensures(FileDetails::is_signed, (&details,), signed),
    ensures
        bytes + details.start_index == details.size,
        signed <==> details.signature@.len() > 0,
{
}

/// The free space is so many blocks of that size.
pub proof fn law_free_bytes(blocks: u64, fragment_size: u64, bytes: u64)
    requires
        blocks * fragment_size <= u64::MAX,
        call_ensures(free_bytes, (blocks, fragment_size), bytes),
    ensures
        bytes == fragment_size * blocks,
{
    assert(fragment_size * blocks == blocks * fragment_size) by (nonlinear_arith);
}

/// A file goes into the destination where that is to be a directory or is one.
pub proof fn law_below_destination(is_dir: bool, destination_is_dir: bool, below: bool)
    requires
        call_ensures(is_below_destination, (is_dir, destination_is_dir), below),
    ensures
        is_dir || destination_is_dir ==> below,
        !is_dir && !destination_is_dir ==> !below,
{
}

/// The writer of a file starts where the file goes on, with its size and its settings.
pub proof fn law_writer(details: FileDetails, result: Result<Writer, Error>)
    requires
        details.start_index <= details.size,
        cipher_of_number(details.crypto.cipher) is Some ==> crypto_ready(details.crypto@)
            && stream_key(details.crypto@).reaches(details.size as int),
        call_ensures(FileDetails::writer, (&details,), result),
    ensures
        result is Ok <==> cipher_of_number(details.crypto.cipher) is Some,
        result matches Ok(writer) ==> {
            &&& writer.wf()
            &&& writer.state().position == details.start_index
            &&& writer.state().size == details.size
            &&& writer.state().cache == Map::<u64, Seq<u8>>::empty()
            &&& writer.key() == stream_key(details.crypto@)
        },
{
}

/// The failure of a writer is told under the id of its file, with what was reported.
pub proof fn law_failure_message(details: FileDetails, report: String, message: Message)
    requires
        call_ensures(FileDetails::writer_failure, (&details, report), message),
    ensures
        message.message == Some(
            Body::Failure { id: details.id, reason: 2, description: Some(report) },
        ),
{
}

/// The manifest that is received is the one that was sent; only that, or the word that there is
/// nothing, is expected first.
pub proof fn law_receive_manifest(
    message: Message,
    result: Result<Option<Manifest>, Error>,
)
    requires
        call_ensures(receive_manifest, (message,), result),
    ensures
        message.message matches Some(Body::Manifest(manifest)) ==> result == Ok::<
            Option<Manifest>,
            Error,
        >(Some(manifest)),
        result == Ok::<Option<Manifest>, Error>(None) ==> message.message == Some(
            Body::Done { reason: 0 },
        ),
        message.message == Some(Body::Done { reason: 0 }) ==> result == Ok::<
            Option<Manifest>,
            Error,
        >(None),
        result matches Err(error) ==> error.kind == ErrorKind::UnexpectedMessage(Box::new(message)),
{
}

} // verus!
