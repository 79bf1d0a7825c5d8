//! What there is to send.

use crate::error::{Error, ErrorKind};
use crate::items::{
    cipher_number, Body, Cipher, Crypto, CryptoView, FileDetail, Manifest, Message,
};
use crate::text::{replace_char, replaced};
use std::collections::HashMap;
use vstd::prelude::*;

verus! {

/// A file or a directory below the source. A directory that is not to be searched needs no
/// entries.
pub enum Node<P> {
    File(P),
    Directory(P, Vec<Node<P>>),
}

/// The files below some entries, in the order in which they are found.
pub open spec fn files_in<P>(entries: Seq<Node<P>>, recursive: bool) -> Seq<P>
    decreases entries,
{
    if entries.len() == 0 {
        Seq::empty()
    } else {
        files_in(entries.drop_last(), recursive) + match entries.last() {
            Node::File(path) => seq![path],
            Node::Directory(path, inner) => if recursive {
                files_in(inner@, recursive)
            } else {
                Seq::empty()
            },
        }
    }
}

/// The directories below some entries, in the order in which they are found: each before those
/// inside of it.
pub open spec fn dirs_in<P>(entries: Seq<Node<P>>, recursive: bool) -> Seq<P>
    decreases entries,
{
    if entries.len() == 0 {
        Seq::empty()
    } else {
        dirs_in(entries.drop_last(), recursive) + match entries.last() {
            Node::File(path) => Seq::empty(),
            Node::Directory(path, inner) => if recursive {
                seq![path] + dirs_in(inner@, recursive)
            } else {
                Seq::empty()
            },
        }
    }
}

/// collect all files and directories in a directory
fn collect_entries<P: Copy>(
    entries: &Vec<Node<P>>,
    files: &mut Vec<P>,
    dirs: &mut Vec<P>,
    recursive: bool,
)
    ensures
        final(files)@ == old(files)@ + files_in(entries@, recursive),
        final(dirs)@ == old(dirs)@ + dirs_in(entries@, recursive),
    decreases *entries,
{
    let mut i: usize = 0;
    proof {
        assert(entries@.take(0) =~= Seq::empty());
        assert(files@ + files_in(entries@.take(0), recursive) =~= files@);
        assert(dirs@ + dirs_in(entries@.take(0), recursive) =~= dirs@);
    }
    while i < entries.len()
        invariant
            i <= entries.len(),
            files@ == old(files)@ + files_in(entries@.take(i as int), recursive),
            dirs@ == old(dirs)@ + dirs_in(entries@.take(i as int), recursive),
        decreases entries.len() - i,
    {
        proof {
            assert(entries@.take(i as int + 1).drop_last() =~= entries@.take(i as int));
        }
        match &entries[i] {
            Node::File(path) => files.push(*path),
            Node::Directory(path, inner) => if recursive {
                dirs.push(*path);
                assert(decreases_to!(*entries => entries@[i as int]));
                collect_entries(inner, files, dirs, recursive);
            },
        }
        proof {
            let next = entries@.take(i as int + 1);
            assert(files@ =~= old(files)@ + files_in(next, recursive));
            assert(dirs@ =~= old(dirs)@ + dirs_in(next, recursive));
        }
        i += 1;
    }
    proof {
        assert(entries@.take(entries@.len() as int) =~= entries@);
    }
}

/// The files and directories to send.
#[derive(Debug)]
pub struct Found<P> {
    pub files: Vec<P>,
    pub dirs: Vec<P>,
}

/// Collects the files and directories of the source, which is a file, a directory, or missing.
/// The entries of a directory inside the source count only where the search is recursive.
pub fn files_and_dirs<P: Copy>(source: &Option<Node<P>>, recursive: bool) -> (found: Found<P>)
    ensures
        match source {
            None => found.files@.len() == 0 && found.dirs@.len() == 0,
            Some(Node::File(path)) => found.files@ == seq![*path] && found.dirs@.len() == 0,
            Some(Node::Directory(path, entries)) => {
                &&& found.files@ == files_in(entries@, recursive)
                &&& found.dirs@ == dirs_in(entries@, recursive)
            },
        },
{
    let mut files: Vec<P> = Vec::new();
    let mut dirs: Vec<P> = Vec::new();
    match source {
        None => {},
        Some(Node::File(path)) => files.push(*path),
        Some(Node::Directory(path, entries)) => {
            collect_entries(entries, &mut files, &mut dirs, recursive);
            proof {
                assert(files@ =~= files_in(entries@, recursive));
                assert(dirs@ =~= dirs_in(entries@, recursive));
            }
        },
    }
    Found { files, dirs }
}

/// Whether a path is that of a file among some entries or below them.
pub open spec fn holds_file<P>(entries: Seq<Node<P>>, path: P) -> bool
    decreases entries,
{
    entries.len() > 0 && (holds_file(entries.drop_last(), path) || match entries.last() {
        Node::File(file) => file == path,
        Node::Directory(dir, inner) => holds_file(inner@, path),
    })
}

/// A recursive search finds the files in the whole tree, and nothing else; one that is not
/// recursive finds the files of the source directory itself, and no directories.
pub proof fn law_search<P>(entries: Seq<Node<P>>, path: P)
    ensures
        files_in(entries, true).contains(path) <==> holds_file(entries, path),
        files_in(entries, false).contains(path) <==> entries.contains(Node::File(path)),
        dirs_in(entries, false) == Seq::<P>::empty(),
    decreases entries,
{
    if entries.len() > 0 {
        let last = entries.last();
        let earlier = entries.drop_last();
        law_search(earlier, path);
        if let Node::Directory(dir, inner) = last {
            law_search(inner@, path);
        }
        let deep = match last {
            Node::File(file) => seq![file],
            Node::Directory(dir, inner) => files_in(inner@, true),
        };
        let flat = match last {
            Node::File(file) => seq![file],
            Node::Directory(dir, inner) => Seq::empty(),
        };
        lemma_contains_sum(files_in(earlier, true), deep, path);
        lemma_contains_sum(files_in(earlier, false), flat, path);
        if let Node::File(file) = last {
            assert(seq![file][0] == file);
        }
        lemma_contains_sum(earlier, seq![last], Node::File(path));
        assert(seq![last][0] == last);
        assert(earlier + seq![last] =~= entries);
        assert(dirs_in(entries, false) =~= Seq::<P>::empty());
    }
}

proof fn lemma_contains_sum<T>(first: Seq<T>, second: Seq<T>, item: T)
    ensures
        (first + second).contains(item) <==> first.contains(item) || second.contains(item),
{
    let sum = first + second;
    if first.contains(item) {
        let i = choose|i: int| 0 <= i < first.len() && first[i] == item;
        assert(sum[i] == item);
    }
    if second.contains(item) {
        let i = choose|i: int| 0 <= i < second.len() && second[i] == item;
        assert(sum[first.len() + i] == item);
    }
    if sum.contains(item) {
        let i = choose|i: int| 0 <= i < sum.len() && sum[i] == item;
        if i < first.len() {
            assert(first[i] == item);
        } else {
            assert(second[i - first.len()] == item);
        }
    }
}

/// A path as it is sent: on Windows, the separator of Windows is replaced by the one of Unix.
pub open spec fn formatted_dir(dir: Seq<char>, windows: bool) -> Seq<char> {
    if windows {
        replaced(dir, '\\', '/')
    } else {
        dir
    }
}

/// replace the windows path separator with the unix one
pub fn format_dir(dir: &str, windows: bool) -> (result: String)
    ensures
        result@ == formatted_dir(dir@, windows),
{
    if windows {
        replace_char(dir, '\\', '/')
    } else {
        dir.to_owned()
    }
}

/// Where a path stands with regard to the source.
#[derive(Debug)]
pub enum Place {
    /// it is the source itself: its last component, if it has one
    Source(Option<String>),
    /// it is below the source: the way there
    Below(String),
    /// it is not below the source: the path, and how that is reported
    Outside { path: String, report: String },
}

impl Place {
    /// Where a path stands: whether it is the source, what its last component is, and the way to
    /// it from the source, or how it is reported that there is none.
    pub fn of(
        path: String,
        is_source: bool,
        name: Option<String>,
        way: Result<String, String>,
    ) -> (place: Place)
        ensures
            place == if is_source {
                Place::Source(name)
            } else {
                match way {
                    Ok(way) => Place::Below(way),
                    Err(report) => Place::Outside { path, report },
                }
            },
    {
        if is_source {
            return Place::Source(name);
        }
        match way {
            Ok(way) => Place::Below(way),
            Err(report) => Place::Outside { path, report },
        }
    }
}

/// The path of a file as it is sent.
pub fn file_path(place: &Place, windows: bool) -> (result: Result<String, Error>)
    ensures
        match (place, result) {
            (Place::Source(Some(name)), Ok(path)) => path@ == formatted_dir(name@, windows),
            (Place::Source(None), Err(error)) => error.kind == ErrorKind::EmptyPath,
            (Place::Below(way), Ok(path)) => path@ == formatted_dir(way@, windows),
            (Place::Outside { path, report }, Err(error)) => error.kind matches
                ErrorKind::StripPrefix(text) && text@ == report@,
            _ => false,
        },
{
    match place {
        Place::Source(Some(name)) => Ok(format_dir(name, windows)),
        Place::Source(None) => Err(Error::empty_path()),
        Place::Below(way) => Ok(format_dir(way, windows)),
        Place::Outside { path, report } => Err(
            Error::new(ErrorKind::StripPrefix(report.clone())),
        ),
    }
}

/// The path of a directory as it is sent.
pub fn directory_path(place: &Place, windows: bool) -> (path: String)
    ensures
        match place {
            Place::Source(_) => path@ == Seq::<char>::empty(),
            Place::Below(way) => path@ == formatted_dir(way@, windows),
            Place::Outside { path: whole, report } => path@ == formatted_dir(whole@, windows),
        },
{
    match place {
        Place::Source(_) => String::new(),
        Place::Below(way) => format_dir(way, windows),
        Place::Outside { path, report } => format_dir(path, windows),
    }
}

/// Whether a result gives the details of a file, or the error of its path: where it goes, its
/// size, and its hash where the transfer is verified.
pub open spec fn details_file(
    result: Result<FileDetail, Error>,
    place: Place,
    size: u64,
    hash: Option<Vec<u8>>,
    windows: bool,
) -> bool {
    &&& match (place, result) {
        (Place::Source(Some(name)), Ok(detail)) => detail.path@ == formatted_dir(name@, windows),
        (Place::Source(None), Err(error)) => error.kind == ErrorKind::EmptyPath,
        (Place::Below(way), Ok(detail)) => detail.path@ == formatted_dir(way@, windows),
        (Place::Outside { path, report }, Err(error)) => error.kind matches
            ErrorKind::StripPrefix(text) && text@ == report@,
        _ => false,
    }
    &&& result matches Ok(detail) ==> {
        &&& detail.size == size
        &&& detail.signature@ == match hash {
            Some(hash) => hash@,
            None => Seq::empty(),
        }
    }
}

/// The details of a file, with the settings of the data stream and an initialisation vector of
/// its own.
pub fn file_detail_with_iv(
    place: &Place,
    size: u64,
    hash: Option<Vec<u8>>,
    stream_crypto: &Crypto,
    iv: Vec<u8>,
    windows: bool,
) -> (result: Result<FileDetail, Error>)
    ensures
        details_file(result, *place, size, hash, windows),
        result matches Ok(detail) ==> detail@.crypto == Some(
            CryptoView { iv: iv@, ..stream_crypto@ },
        ),
{
    match file_path(place, windows) {
        Err(error) => Err(error),
        Ok(path) => {
            let mut crypto = stream_crypto.clone();
            crypto.set_iv(iv);
            let signature = match hash {
                Some(hash) => hash,
                None => Vec::new(),
            };
            Ok(FileDetail { path, size, signature, crypto: Some(crypto) })
        },
    }
}

/// The details of a file, with the settings of the data stream and a random initialisation
/// vector of its own, where there is a cipher.
pub fn file_detail(
    place: &Place,
    size: u64,
    hash: Option<Vec<u8>>,
    stream_crypto: &Crypto,
    windows: bool,
) -> (result: Result<FileDetail, Error>)
    ensures
        details_file(result, *place, size, hash, windows),
        result matches Ok(detail) ==> {
            &&& detail@.crypto matches Some(crypto) && {
                &&& crypto.cipher == stream_crypto@.cipher
                &&& crypto.key == stream_crypto@.key
                &&& crypto.iv.len() == stream_crypto@.iv.len()
            }
            &&& stream_crypto.cipher == cipher_number(Cipher::NoCipher) ==> detail@.crypto == Some(
                stream_crypto@,
            )
        },
{
    let mut crypto = stream_crypto.clone();
    crypto.random_iv();
    file_detail_with_iv(place, size, hash, stream_crypto, crypto.iv, windows)
}

/// How many bytes some files have together.
pub open spec fn data_size(files: Map<u32, FileDetail>) -> int
    decreases files.dom().len(),
    when files.dom().finite()
{
    if files.dom().len() == 0 {
        0
    } else {
        let id = files.dom().choose();
        files[id].size + data_size(files.remove(id))
    }
}

/// The size of a file counts once: without it, the rest is so much less.
pub proof fn law_data_size(files: Map<u32, FileDetail>, id: u32)
    requires
        files.dom().finite(),
        files.contains_key(id),
    ensures
        data_size(files) == files[id].size + data_size(files.remove(id)),
        data_size(files.remove(id)) >= 0,
    decreases files.dom().len(),
{
    let first = files.dom().choose();
    assert(files.dom().len() > 0) by {
        if files.dom().len() == 0 {
            assert(files.dom() =~= Set::empty());
        }
    }
    lemma_data_size_positive(files.remove(id));
    assert(files.dom().contains(first));
    if first != id {
        let without_first = files.remove(first);
        law_data_size(without_first, id);
        let without_both = without_first.remove(id);
        law_data_size(files.remove(id), first);
        assert(files.remove(id).remove(first) =~= without_both);
    }
}

proof fn lemma_data_size_positive(files: Map<u32, FileDetail>)
    requires
        files.dom().finite(),
    ensures
        data_size(files) >= 0,
    decreases files.dom().len(),
{
    if files.dom().len() > 0 {
        let id = files.dom().choose();
        assert(files.dom().contains(id));
        lemma_data_size_positive(files.remove(id));
    }
}

/// How many bytes the files of a list have together.
pub open spec fn total_size(files: Seq<FileDetail>) -> int
    decreases files.len(),
{
    if files.len() == 0 {
        0
    } else {
        total_size(files.drop_last()) + files.last().size
    }
}

/// builds a manifest of the files to send and some details about them: the files get the ids
/// from zero on
pub fn build_manifest(files: Vec<FileDetail>, directories: Vec<String>) -> (manifest: Manifest)
    requires
        files@.len() <= u32::MAX,
    ensures
        manifest.directories@ == directories@,
        forall|id: u32| #[trigger]
            manifest.files@.contains_key(id) <==> id < files@.len(),
        forall|id: u32| #[trigger]
            manifest.files@.contains_key(id) ==> manifest.files@[id]@ == files@[id as int]@,
        data_size(manifest.files@) == total_size(files@),
{
    broadcast use vstd::std_specs::hash::group_hash_axioms;

    let mut map: HashMap<u32, FileDetail> = HashMap::new();
    let mut index: usize = 0;
    while index < files.len()
        invariant
            index <= files@.len() <= u32::MAX,
            forall|id: u32| #[trigger] map@.contains_key(id) <==> id < index,
            forall|id: u32| #[trigger]
                map@.contains_key(id) ==> map@[id]@ == files@[id as int]@,
            data_size(map@) == total_size(files@.take(index as int)),
        decreases files.len() - index,
    {
        let ghost before = map@;
        map.insert(index as u32, files[index].clone());
        proof {
            assert(map@.remove(index as u32) =~= before);
            law_data_size(map@, index as u32);
            assert(map@[index as u32]@.size == files@[index as int]@.size);
            assert(files@.take(index as int + 1).drop_last() =~= files@.take(index as int));
        }
        index += 1;
    }
    proof {
        assert(files@.take(files@.len() as int) =~= files@);
    }
    Manifest { directories, files: map }
}

/// What the sender says first.
#[derive(Debug)]
pub struct Announcement {
    pub message: Message,
    /// whether there is nothing to send, so that this is all
    pub finished: bool,
}

/// Announces what there is to send.
pub fn announce(manifest: &Manifest) -> (announcement: Announcement)
    ensures
        announcement.finished == (manifest.files@.dom() == Set::<u32>::empty()
            && manifest.directories@.len() == 0),
        if announcement.finished {
            announcement.message.message == Some(Body::Done { reason: 0 })
        } else {
            announcement.message.message matches Some(Body::Manifest(sent)) && sent.files@
                == manifest.files@ && sent.directories@ == manifest.directories@
        },
{
    if manifest.is_empty() {
        Announcement { message: Message::done(0), finished: true }
    } else {
        Announcement { message: Message::manifest(manifest), finished: false }
    }
}

/// What the receiver's answer to the manifest leads to.
#[derive(Debug)]
pub struct Answer {
    /// how many bytes need not be sent
    pub completed: u64,
    /// whether no file is left to send: that is told to the receiver, and is all
    pub finished: bool,
}

/// Takes the receiver's answer to the manifest: the files that are complete already are not
/// sent.
pub fn receive_answer(files: &mut HashMap<u32, FileDetail>, message: Message) -> (result: Result<
    Answer,
    Error,
>)
    requires
        data_size(old(files)@) <= u64::MAX,
    ensures
        match message.message {
            Some(Body::Completed { ids }) => {
                &&& final(files)@ == old(files)@.remove_keys(ids@.to_set())
                &&& result matches Ok(answer) && {
                    &&& answer.completed == data_size(old(files)@) - data_size(final(files)@)
                    &&& answer.finished == (final(files)@.dom() == Set::<u32>::empty())
                }
            },
            Some(Body::Failure { id, reason, description }) => {
                &&& final(files)@ == old(files)@
                &&& result matches Err(error) && error.kind == ErrorKind::Failure(reason)
            },
            _ => {
                &&& final(files)@ == old(files)@
                &&& result matches Err(error) && error.kind == ErrorKind::UnexpectedMessage(
                    Box::new(message),
                )
            },
        },
{
    broadcast use vstd::std_specs::hash::group_hash_axioms;

    match &message.message {
        Some(Body::Completed { ids }) => {
            let ghost start = files@;
            let mut completed: u64 = 0;
            let mut i: usize = 0;
            proof {
                assert(files@ =~= start.remove_keys(ids@.take(0).to_set()));
                lemma_data_size_positive(start);
            }
            while i < ids.len()
                invariant
                    i <= ids@.len(),
                    start == old(files)@,
                    data_size(start) <= u64::MAX,
                    files@ == start.remove_keys(ids@.take(i as int).to_set()),
                    completed == data_size(start) - data_size(files@),
                    data_size(files@) >= 0,
                decreases ids.len() - i,
            {
                let id: u32 = ids[i];
                let ghost before = files@;
                proof {
                    let taken = ids@.take(i as int);
                    let next = ids@.take(i as int + 1);
                    assert(next =~= taken.push(id));
                    assert(next.to_set() =~= taken.to_set().insert(id)) by {
                        assert forall|other: u32| #[trigger]
                            next.to_set().contains(other) <==> taken.to_set().insert(id).contains(
                                other,
                            ) by {
                            lemma_contains_sum(taken, seq![id], other);
                            assert(taken + seq![id] =~= next);
                            assert(seq![id][0] == id);
                        }
                    }
                    assert(before.remove(id) =~= start.remove_keys(next.to_set()));
                    if before.contains_key(id) {
                        law_data_size(before, id);
                    } else {
                        assert(before.remove(id) =~= before);
                    }
                }
                if let Some(details) = files.remove(&id) {
                    completed = completed + details.size;
                }
                i += 1;
            }
            proof {
                assert(ids@.take(ids@.len() as int) =~= ids@);
                assert(files@.is_empty() <==> files@.dom() =~= Set::<u32>::empty());
            }
            Ok(Answer { completed, finished: files.is_empty() })
        },
        Some(Body::Failure { id, reason, description }) => Err(Error::failure(*reason)),
        _ => Err(Error::unexpected_message(message)),
    }
}

/// Whether a path is that of a directory among some entries or below them.
pub open spec fn holds_directory<P>(entries: Seq<Node<P>>, path: P) -> bool
    decreases entries,
{
    entries.len() > 0 && (holds_directory(entries.drop_last(), path) || match entries.last() {
        Node::File(file) => false,
        Node::Directory(dir, inner) => dir == path || holds_directory(inner@, path),
    })
}

/// A recursive search finds every directory of the tree, and nothing else.
pub proof fn law_search_directories<P>(entries: Seq<Node<P>>, path: P)
    ensures
        dirs_in(entries, true).contains(path) <==> holds_directory(entries, path),
    decreases entries,
{
    if entries.len() > 0 {
        let last = entries.last();
        let earlier = entries.drop_last();
        law_search_directories(earlier, path);
        let found = match last {
            Node::File(file) => Seq::empty(),
            Node::Directory(dir, inner) => seq![dir] + dirs_in(inner@, true),
        };
        assert(dirs_in(entries, true) =~= dirs_in(earlier, true) + found);
        lemma_contains_sum(dirs_in(earlier, true), found, path);
        if let Node::Directory(dir, inner) = last {
            law_search_directories(inner@, path);
            lemma_contains_sum(seq![dir], dirs_in(inner@, true), path);
            assert(seq![dir][0] == dir);
        }
    }
}

/// What is found below several entries is what is found below each of them, in their order: a
/// file is found as itself, and a directory, where the search is recursive, as itself before all
/// that is inside of it.
pub proof fn law_search_order<P>(before: Seq<Node<P>>, entry: Node<P>, behind: Seq<Node<P>>)
    ensures
        ({
            let all = before + seq![entry] + behind;
            match entry {
                Node::File(path) => {
                    &&& files_in(all, true) == files_in(before, true) + seq![path] + files_in(
                        behind,
                        true,
                    )
                    &&& files_in(all, false) == files_in(before, false) + seq![path] + files_in(
                        behind,
                        false,
                    )
                    &&& dirs_in(all, true) == dirs_in(before, true) + dirs_in(behind, true)
                },
                Node::Directory(path, inner) => {
                    &&& files_in(all, true) == files_in(before, true) + files_in(inner@, true)
                        + files_in(behind, true)
                    &&& files_in(all, false) == files_in(before, false) + files_in(behind, false)
                    &&& dirs_in(all, true) == dirs_in(before, true) + seq![path] + dirs_in(
                        inner@,
                        true,
                    ) + dirs_in(behind, true)
                },
            }
        }),
        files_in(Seq::<Node<P>>::empty(), true) == Seq::<P>::empty(),
        files_in(Seq::<Node<P>>::empty(), false) == Seq::<P>::empty(),
        dirs_in(Seq::<Node<P>>::empty(), true) == Seq::<P>::empty(),
{
    let head = before + seq![entry];
    assert(head.drop_last() =~= before);
    assert(head.last() == entry);
    lemma_search_sum(head, behind, true);
    lemma_search_sum(head, behind, false);
    let all = head + behind;
    match entry {
        Node::File(path) => {
            assert(dirs_in(head, true) =~= dirs_in(before, true));
        },
        Node::Directory(path, inner) => {
            assert(files_in(head, false) =~= files_in(before, false));
            assert(dirs_in(head, true) =~= dirs_in(before, true) + seq![path] + dirs_in(
                inner@,
                true,
            ));
        },
    }
}

proof fn lemma_search_sum<P>(first: Seq<Node<P>>, second: Seq<Node<P>>, recursive: bool)
    ensures
        files_in(first + second, recursive) == files_in(first, recursive) + files_in(
            second,
            recursive,
        ),
        dirs_in(first + second, recursive) == dirs_in(first, recursive) + dirs_in(
            second,
            recursive,
        ),
    decreases second.len(),
{
    if second.len() == 0 {
        assert(first + second =~= first);
        assert(files_in(first, recursive) + files_in(second, recursive) =~= files_in(
            first,
            recursive,
        ));
        assert(dirs_in(first, recursive) + dirs_in(second, recursive) =~= dirs_in(
            first,
            recursive,
        ));
    } else {
        lemma_search_sum(first, second.drop_last(), recursive);
        assert((first + second).drop_last() =~= first + second.drop_last());
        assert((first + second).last() == second.last());
        assert(files_in(first + second, recursive) =~= files_in(first, recursive) + files_in(
            second,
            recursive,
        ));
        assert(dirs_in(first + second, recursive) =~= dirs_in(first, recursive) + dirs_in(
            second,
            recursive,
        ));
    }
}

/// What is found of a source: a file is found alone; of a directory, all files of the tree and
/// all directories inside of it where the search is recursive, and else its own files; of nothing,
/// nothing.
pub proof fn law_files_and_dirs<P: Copy>(
    source: Option<Node<P>>,
    recursive: bool,
    found: Found<P>,
    path: P,
)
    requires
        call_ensures(files_and_dirs, (&source, recursive), found),
    ensures
        source is None ==> found.files@.len() == 0 && found.dirs@.len() == 0,
        source matches Some(Node::File(file)) ==> found.files@ == seq![file] && found.dirs@.len()
            == 0,
        source matches Some(Node::Directory(dir, entries)) ==> {
            &&& recursive ==> (found.files@.contains(path) <==> holds_file(entries@, path))
            &&& recursive ==> (found.dirs@.contains(path) <==> holds_directory(entries@, path))
            &&& !recursive ==> (found.files@.contains(path) <==> entries@.contains(
                Node::File(path),
            ))
            &&& !recursive ==> found.dirs@.len() == 0
        },
{
    if let Some(Node::Directory(dir, entries)) = source {
        law_search(entries@, path);
        law_search_directories(entries@, path);
    }
}

/// A path is sent with the separators of Unix, and is otherwise the same.
pub proof fn law_format_dir(dir: &str, windows: bool, result: String)
    requires
        call_ensures(format_dir, (dir, windows), result),
    ensures
        result@.len() == dir@.len(),
        !windows ==> result@ == dir@,
        forall|i: int|
            0 <= i < dir@.len() && windows ==> #[trigger] result@[i] == if dir@[i] == '\\' {
                '/'
            } else {
                dir@[i]
            },
{
}

/// A file is sent by its last component where it is the source, and by the way to it where it is
/// below; else it is refused.
pub proof fn law_file_path(place: Place, windows: bool, result: Result<String, Error>, i: int)
    requires
        call_ensures(file_path, (&place, windows), result),
    ensures
        match place {
            Place::Source(Some(name)) => {
                &&& result matches Ok(path) && path@.len() == name@.len()
                &&& 0 <= i < name@.len() ==> result->Ok_0@[i] == if windows && name@[i] == '\\' {
                    '/'
                } else {
                    name@[i]
                }
            },
            Place::Below(way) => {
                &&& result matches Ok(path) && path@.len() == way@.len()
                &&& 0 <= i < way@.len() ==> result->Ok_0@[i] == if windows && way@[i] == '\\' {
                    '/'
                } else {
                    way@[i]
                }
            },
            Place::Source(None) => result matches Err(error) && error.kind == ErrorKind::EmptyPath,
            Place::Outside { path, report } => result matches Err(error) && (error.kind matches
                ErrorKind::StripPrefix(text) && text@ == report@),
        },
{
}

/// The directory of the source itself needs no path; another is sent by the way to it.
pub proof fn law_directory_path(place: Place, windows: bool, path: String, i: int)
    requires
        call_ensures(directory_path, (&place, windows), path),
    ensures
        place is Source ==> path@.len() == 0,
        place matches Place::Outside { path: whole, report } ==> {
            &&& path@.len() == whole@.len()
            &&& 0 <= i < whole@.len() ==> path@[i] == if windows && whole@[i] == '\\' {
                '/'
            } else {
                whole@[i]
            }
        },
        place matches Place::Below(way) ==> {
            &&& path@.len() == way@.len()
            &&& !windows ==> path@ == way@
            &&& windows && 0 <= i < way@.len() ==> path@[i] == if way@[i] == '\\' {
                '/'
            } else {
                way@[i]
            }
        },
{
}

/// The details of a file are those that it has: its size, its hash where one was made, and the
/// settings of the stream with the vector that was drawn for it.
pub proof fn law_file_detail(
    place: Place,
    size: u64,
    hash: Option<Vec<u8>>,
    stream_crypto: Crypto,
    iv: Vec<u8>,
    windows: bool,
    result: Result<FileDetail, Error>,
)
    requires
        call_ensures(
            file_detail_with_iv,
            (&place, size, hash, &stream_crypto, iv, windows),
            result,
        ),
    ensures
        result is Ok <==> (place is Below || place matches Place::Source(Some(_))),
        result matches Ok(detail) ==> {
            &&& detail.size == size
            &&& hash matches Some(hash) ==> detail.signature@ == hash@
            &&& hash is None ==> detail.signature@.len() == 0
            &&& detail.crypto matches Some(crypto) && {
                &&& crypto.cipher == stream_crypto.cipher
                &&& crypto.key@ == stream_crypto.key@
                &&& crypto.iv@ == iv@
            }
            &&& place matches Place::Below(way) ==> detail.path@.len() == way@.len() && (forall|
                i: int,
            |
                0 <= i < way@.len() ==> #[trigger] detail.path@[i] == if windows && way@[i] == '\\' {
                    '/'
                } else {
                    way@[i]
                })
            &&& place matches Place::Source(Some(name)) ==> detail.path@.len() == name@.len() && (
            forall|i: int|
                0 <= i < name@.len() ==> #[trigger] detail.path@[i] == if windows && name@[i]
                    == '\\' {
                    '/'
                } else {
                    name@[i]
                })
        },
{
}

/// The sizes of files add up: nothing for no files, and for one more its size.
pub proof fn law_total_size(files: Seq<FileDetail>, file: FileDetail)
    ensures
        total_size(Seq::empty()) == 0,
        total_size(files.push(file)) == total_size(files) + file.size,
        data_size(Map::empty()) == 0,
{
    assert(files.push(file).drop_last() =~= files);
    assert(Map::<u32, FileDetail>::empty().dom() =~= Set::empty());
}

/// The files of a manifest are those of the list, each under the number of its place in it.
pub proof fn law_build_manifest(
    files: Vec<FileDetail>,
    directories: Vec<String>,
    manifest: Manifest,
    id: u32,
)
    requires
        files@.len() <= u32::MAX,
        call_ensures(build_manifest, (files, directories), manifest),
    ensures
        manifest.directories@ == directories@,
        id < files@.len() ==> manifest.files@.contains_key(id) && manifest.files@[id].path@
            == files@[id as int].path@ && manifest.files@[id].size == files@[id as int].size
            && manifest.files@[id].signature@ == files@[id as int].signature@,
        id >= files@.len() ==> !manifest.files@.contains_key(id),
{
    if id < files@.len() {
        assert(manifest.files@.contains_key(id));
        assert(manifest.files@[id]@ == files@[id as int]@);
    } else {
        assert(manifest.files@.contains_key(id) <==> id < files@.len());
    }
}

/// After the answer of the receiver, the files that it has are not sent, all others are, as they
/// were, and the bytes of the two make up the whole.
pub proof fn law_receive_answer(
    files: &mut HashMap<u32, FileDetail>,
    ids: Vec<u32>,
    message: Message,
    result: Result<Answer, Error>,
    id: u32,
)
    requires
        data_size(files@) <= u64::MAX,
        message.message == Some(Body::Completed { ids }),
        call_ensures(receive_answer, (files, message), result),
    ensures
        final(files)@.contains_key(id) <==> old(files)@.contains_key(id) && !ids@.contains(id),
        final(files)@.contains_key(id) ==> final(files)@[id] == old(files)@[id],
        result matches Ok(answer) && {
            &&& answer.completed + data_size(final(files)@) == data_size(old(files)@)
            &&& final(files)@.contains_key(id) ==> !answer.finished
            &&& (forall|other: u32| #[trigger] old(files)@.contains_key(other) ==> ids@.contains(
                other,
            )) ==> answer.finished
        },
{
    let left = final(files)@;
    if left.contains_key(id) {
        assert(left.dom().contains(id));
    }
    if forall|other: u32| #[trigger] old(files)@.contains_key(other) ==> ids@.contains(other) {
        assert forall|other: u32| !left.dom().contains(other) by {
            if left.contains_key(other) {
                assert(old(files)@.contains_key(other));
                assert(ids@.to_set().contains(other));
            }
        }
        assert(left.dom() =~= Set::<u32>::empty());
    }
}

/// The receiver is told of everything there is to send, and where there is nothing, that all is
/// done.
pub proof fn law_announce(manifest: Manifest, announcement: Announcement, id: u32)
    requires
        call_ensures(announce, (&manifest,), announcement),
    ensures
        manifest.files@.contains_key(id) || manifest.directories@.len() > 0
            ==> !announcement.finished && (announcement.message.message matches Some(
            Body::Manifest(sent),
        ) && sent.files@ == manifest.files@ && sent.directories@ == manifest.directories@),
        (forall|other: u32| !#[trigger] manifest.files@.contains_key(other))
            && manifest.directories@.len() == 0 ==> announcement.finished
            && announcement.message.message == Some(Body::Done { reason: 0 }),
{
    if manifest.files@.contains_key(id) {
        assert(manifest.files@.dom().contains(id));
    }
    if forall|other: u32| !#[trigger] manifest.files@.contains_key(other) {
        assert(manifest.files@.dom() =~= Set::<u32>::empty());
    }
}

/// Where a path stands: the source itself counts as such, whatever the way to it is; a path with a
/// way is below, and one without is outside.
pub proof fn law_place(
    path: String,
    is_source: bool,
    name: Option<String>,
    way: Result<String, String>,
    place: Place,
)
    requires
        call_ensures(Place::of, (path, is_source, name, way), place),
    ensures
        is_source ==> place == Place::Source(name),
        !is_source ==> (way matches Ok(way) ==> place == Place::Below(way)),
        !is_source ==> (way matches Err(report) ==> place == (Place::Outside { path, report })),
{
}

/// The details of a file, with a vector that is drawn: everything but the vector is known.
pub proof fn law_drawn_detail(
    place: Place,
    size: u64,
    hash: Option<Vec<u8>>,
    stream_crypto: Crypto,
    windows: bool,
    result: Result<FileDetail, Error>,
)
    requires
        call_ensures(file_detail, (&place, size, hash, &stream_crypto, windows), result),
    ensures
        result is Ok <==> (place is Below || place matches Place::Source(Some(_))),
        result matches Ok(detail) ==> {
            &&& detail.size == size
            &&& hash matches Some(hash) ==> detail.signature@ == hash@
            &&& hash is None ==> detail.signature@.len() == 0
            &&& detail.crypto matches Some(crypto) && {
                &&& crypto.cipher == stream_crypto.cipher
                &&& crypto.key@ == stream_crypto.key@
                &&& crypto.iv@.len() == stream_crypto.iv@.len()
                &&& stream_crypto.cipher == 0 ==> crypto.iv@ == stream_crypto.iv@
            }
            &&& place matches Place::Below(way) ==> detail.path@.len() == way@.len() && (forall|
                i: int,
            |
                0 <= i < way@.len() ==> #[trigger] detail.path@[i] == if windows && way@[i] == '\\' {
                    '/'
                } else {
                    way@[i]
                })
            &&& place matches Place::Source(Some(name)) ==> detail.path@.len() == name@.len() && (
            forall|i: int|
                0 <= i < name@.len() ==> #[trigger] detail.path@[i] == if windows && name@[i]
                    == '\\' {
                    '/'
                } else {
                    name@[i]
                })
        },
{
}

} // verus!
