//! Decides how cccp is installed on a remote host.

use crate::archive::{check_oversized, is_oversized};
use crate::error::{Error, ErrorKind};
use crate::text::{
    all_digits, characters, contains, decimal, digits_value, first_field, is_digit,
    law_without_breaks, lemma_decimal, lemma_first_field, occurs_in, remove_breaks, replace_char,
    replaced, rest_fields, string_of, without_breaks,
};
use async_compression::futures::bufread::GzipDecoder;
use futures::{AsyncReadExt, FutureExt};
use semver::Version;
use std::io::Read;
use tar::Archive;
use vstd::prelude::*;

verus! {

/// The operating system of a remote host.
#[derive(Clone, Copy, Debug, PartialEq, Eq, Structural)]
pub enum Os {
    Windows,
    UnixLike,
}

/// The command that makes a host tell its operating system.
pub const OS_COMMAND: &'static str = "uname -a || ver";

/// The operating system that a host tells of, if any.
pub open spec fn os_of(stdout: Seq<char>) -> Option<Os> {
    if occurs_in("Microsoft Windows"@, stdout) {
        Some(Os::Windows)
    } else if occurs_in("Linux"@, stdout) || occurs_in("Darwin"@, stdout) || occurs_in(
        "BSD"@,
        stdout,
    ) {
        Some(Os::UnixLike)
    } else {
        None
    }
}

/// The operating system that a host tells of.
pub fn identify_os(stdout: String, stderr: String) -> (result: Result<Os, Error>)
    ensures
        match result {
            Ok(os) => os_of(stdout@) == Some(os),
            Err(error) => os_of(stdout@) is None && error.kind == ErrorKind::UnknownOs(
                stdout,
                stderr,
            ),
        },
{
    if contains(stdout.as_str(), "Microsoft Windows") {
        Ok(Os::Windows)
    } else if contains(stdout.as_str(), "Linux") || contains(stdout.as_str(), "Darwin")
        || contains(stdout.as_str(), "BSD") {
        Ok(Os::UnixLike)
    } else {
        Err(Error::new(ErrorKind::UnknownOs(stdout, stderr)))
    }
}

/// The target triple that a host tells: what its command wrote, without line breaks.
pub fn get_triple(exit_status: u32, stdout: &str) -> (result: Result<String, Error>)
    ensures
        match result {
            Ok(triple) => exit_status == 0 && triple@ == without_breaks(stdout@, true),
            Err(error) => exit_status != 0 && error.kind == ErrorKind::CommandFailed(exit_status),
        },
{
    if exit_status == 0 {
        Ok(remove_breaks(stdout, true))
    } else {
        Err(Error::command_failed(exit_status))
    }
}

/// A path as an operating system writes it.
pub open spec fn formatted_path(path: Seq<char>, os: Os) -> Seq<char> {
    match os {
        Os::Windows => replaced(path, '/', '\\'),
        Os::UnixLike => replaced(path, '\\', '/'),
    }
}

/// Writes a path as an operating system does.
pub fn format_path(path: &str, os: &Os) -> (result: String)
    ensures
        result@ == formatted_path(path@, *os),
{
    match os {
        Os::Windows => replace_char(path, '/', '\\'),
        Os::UnixLike => replace_char(path, '\\', '/'),
    }
}

/// A path that is written for an operating system has only the separators of that system, and
/// it makes no difference for which system it was written before.
pub proof fn law_format_path(path: Seq<char>, before: Os, os: Os)
    ensures
        formatted_path(path, os).len() == path.len(),
        formatted_path(formatted_path(path, before), os) == formatted_path(path, os),
        forall|i: int|
            0 <= i < path.len() ==> #[trigger] formatted_path(path, os)[i] != match os {
                Os::Windows => '/',
                Os::UnixLike => '\\',
            },
{
    assert(formatted_path(formatted_path(path, before), os) =~= formatted_path(path, os));
}

/// The command that tells whether a path is a directory, a file, or not there. On Windows, a
/// path with a separator at its end exists where it is a directory.
pub open spec fn is_dir_text(os: Os, parent: Seq<char>, path: Seq<char>) -> Seq<char> {
    match os {
        Os::Windows => "if exist \""@ + parent + "\" ( if exist \""@ + path
            + "\\\" ( echo true ) else ( if exist \""@ + path
            + "\" ( echo false ) else ( echo not_found ))) else (echo dnf)"@,
        Os::UnixLike => "[ -d \""@ + parent + "\" ] && ( [ -d \""@ + path
            + "\" ] && echo true || ([ -f \""@ + path
            + "\" ] && echo false || echo not_found )) || echo dnf"@,
    }
}

/// The command that tells whether a path is a directory; `parent` is the path's parent, where
/// it has one.
pub fn is_dir_command(os: &Os, parent: &Option<String>, path: &str) -> (command: String)
    ensures
        command@ == is_dir_text(
            *os,
            match parent {
                Some(parent) => parent@,
                None => "."@,
            },
            formatted_path(path@, *os),
        ),
{
    let path = format_path(path, os);
    let parent = match parent {
        Some(parent) => parent.clone(),
        None => ".".to_owned(),
    };
    match os {
        Os::Windows => "if exist \"".to_owned().concat(parent.as_str()).concat(
            "\" ( if exist \"",
        ).concat(path.as_str()).concat("\\\" ( echo true ) else ( if exist \"").concat(
            path.as_str(),
        ).concat("\" ( echo false ) else ( echo not_found ))) else (echo dnf)"),
        Os::UnixLike => "[ -d \"".to_owned().concat(parent.as_str()).concat(
            "\" ] && ( [ -d \"",
        ).concat(path.as_str()).concat("\" ] && echo true || ([ -f \"").concat(
            path.as_str(),
        ).concat("\" ] && echo false || echo not_found )) || echo dnf"),
    }
}

/// What a host answers to the command: whether the path is a directory.
pub fn is_dir(exit_status: u32, stdout: &str) -> (result: Result<bool, Error>)
    ensures
        if exit_status == 0 && stdout@.len() > 0 && stdout@[0] == 't' {
            result == Ok::<bool, Error>(true)
        } else if exit_status == 0 && stdout@.len() > 0 && stdout@[0] == 'f' {
            result == Ok::<bool, Error>(false)
        } else {
            result matches Err(error) && error.kind == if exit_status == 0 && stdout@.len() > 0
                && stdout@[0] == 'n' {
                ErrorKind::FileNotFound
            } else if exit_status == 0 && stdout@.len() > 0 && stdout@[0] == 'd' {
                ErrorKind::DirectoryNotFound
            } else {
                ErrorKind::CommandFailed(exit_status)
            }
        },
{
    if exit_status != 0 {
        return Err(Error::command_failed(exit_status));
    }
    let answer = characters(stdout);
    if answer.len() == 0 {
        return Err(Error::command_failed(exit_status));
    }
    match answer[0] {
        't' => Ok(true),
        'f' => Ok(false),
        'n' => Err(Error::new(ErrorKind::FileNotFound)),
        'd' => Err(Error::new(ErrorKind::DirectoryNotFound)),
        _ => Err(Error::command_failed(exit_status)),
    }
}

/// The name of the program on an operating system.
pub fn binary_name(os: &Os) -> (name: &'static str)
    ensures
        name@ == match os {
            Os::Windows => "cccp.exe"@,
            Os::UnixLike => "cccp"@,
        },
{
    match os {
        Os::Windows => "cccp.exe",
        Os::UnixLike => "cccp",
    }
}

/// What to do with the destination.
#[derive(Clone, Copy, Debug, PartialEq, Eq, Structural)]
pub enum DestinationStep {
    /// it is a directory: append the name of the program, and look again
    AppendName,
    /// it is a file: ask whether to overwrite it
    Ask,
    /// install to it
    Install,
}

/// What to do with the destination, after the host has told what it is: `Err` ends the
/// installation. If the file does not exist, that is fine because it will be created.
pub fn destination_step(is_dir: Result<bool, Error>, overwrite: bool) -> (result: Result<
    DestinationStep,
    Error,
>)
    ensures
        match is_dir {
            Ok(true) => result == Ok::<DestinationStep, Error>(DestinationStep::AppendName),
            Ok(false) => result == Ok::<DestinationStep, Error>(
                if overwrite {
                    DestinationStep::Install
                } else {
                    DestinationStep::Ask
                },
            ),
            Err(error) => if error.kind == ErrorKind::FileNotFound {
                result == Ok::<DestinationStep, Error>(DestinationStep::Install)
            } else {
                result == Err::<DestinationStep, Error>(error)
            },
        },
{
    match is_dir {
        Ok(true) => Ok(DestinationStep::AppendName),
        Ok(false) => if overwrite {
            Ok(DestinationStep::Install)
        } else {
            Ok(DestinationStep::Ask)
        },
        Err(error) => match error.kind {
            ErrorKind::FileNotFound => Ok(DestinationStep::Install),
            _ => Err(error),
        },
    }
}

/// Whether the user's answer is to overwrite the file: it begins with a `y`, small or capital.
pub fn agrees(input: &str) -> (agrees: bool)
    ensures
        agrees == (input@.len() > 0 && (input@[0] == 'y' || input@[0] == 'Y')),
{
    let answer = characters(input);
    answer.len() > 0 && (answer[0] == 'y' || answer[0] == 'Y')
}

/// What follows the user's answer.
#[derive(Clone, Copy, Debug, PartialEq, Eq, Structural)]
pub enum OverwriteStep {
    /// install to the destination
    Install,
    /// leave the destination as it is, and install nothing
    Stop,
}

/// What follows the user's answer: the file is overwritten only where the user agrees.
pub fn overwrite_step(agreed: bool) -> (step: OverwriteStep)
    ensures
        step == if agreed {
            OverwriteStep::Install
        } else {
            OverwriteStep::Stop
        },
{
    if agreed {
        OverwriteStep::Install
    } else {
        OverwriteStep::Stop
    }
}

/// Where the program comes from.
#[derive(Debug)]
pub enum BinarySource<P> {
    /// the file at this path
    Custom(P),
    /// the latest release
    Release,
}

/// Where the program comes from: a custom binary goes before a release.
pub fn binary_source<P>(custom_binary: Option<P>) -> (source: BinarySource<P>)
    ensures
        source == match custom_binary {
            Some(path) => BinarySource::Custom(path),
            None => BinarySource::Release,
        },
{
    match custom_binary {
        Some(path) => BinarySource::Custom(path),
        None => BinarySource::Release,
    }
}

/// The version that a tag names: cccp tags are always prefixed with a v.
pub fn tag_version(tag: &str) -> (version: Option<String>)
    ensures
        match version {
            Some(version) => tag@.len() > 0 && tag@[0] == 'v' && version@ == tag@.drop_first(),
            None => !(tag@.len() > 0 && tag@[0] == 'v'),
        },
{
    let all = characters(tag);
    if all.len() > 0 && all[0] == 'v' {
        proof {
            assert(tag@.subrange(1, tag@.len() as int) =~= tag@.drop_first());
        }
        Some(string_of(&all, 1, all.len()))
    } else {
        None
    }
}

/// Why a text is no version; `None` for a version.
pub uninterp spec fn version_fault(text: Seq<char>) -> Option<Seq<char>>;

/// Whether one version is older than another.
pub uninterp spec fn older_version(version: Seq<char>, other: Seq<char>) -> bool;

/// What comes of comparing two texts as versions: the fault of the first that is none, or whether
/// the first is older.
pub open spec fn compared_versions(version: Seq<char>, other: Seq<char>) -> Result<
    bool,
    Seq<char>,
> {
    match (version_fault(version), version_fault(other)) {
        (Some(fault), _) => Err(fault),
        (None, Some(fault)) => Err(fault),
        (None, None) => Ok(older_version(version, other)),
    }
}

/// How a version of three numbers is written.
pub open spec fn version_text(major: u64, minor: u64, patch: u64) -> Seq<char> {
    decimal(major as nat) + seq!['.'] + decimal(minor as nat) + seq!['.'] + decimal(patch as nat)
}

/// Whether three numbers come before three others: the first that differs decides.
pub open spec fn numbers_before(first: (u64, u64, u64), second: (u64, u64, u64)) -> bool {
    ||| first.0 < second.0
    ||| first.0 == second.0 && first.1 < second.1
    ||| first.0 == second.0 && first.1 == second.1 && first.2 < second.2
}

/// Whether a text is a version of three numbers.
pub open spec fn is_numbers(text: Seq<char>) -> bool {
    exists|numbers: (u64, u64, u64)| #[trigger]
        version_text(numbers.0, numbers.1, numbers.2) == text
}

/// A fault as text.
pub open spec fn fault_view(fault: Option<String>) -> Option<Seq<char>> {
    match fault {
        Some(fault) => Some(fault@),
        None => None,
    }
}

/// `Version::parse` of the crate `semver`: the text of its error, if there is one. Three numbers
/// of 64 bits are a version.
#[verifier::external_body]
fn fault_of_version(text: &str) -> (fault: Option<String>)
    ensures
        fault_view(fault) == version_fault(text@),
        is_numbers(text@) ==> fault is None,
{
    Version::parse(text).err().map(|error| error.to_string())
}

/// `<` on `Version` of the crate `semver`: whether the first version comes before the second.
/// Two versions of three numbers each compare by these numbers.
#[verifier::external_body]
fn is_older(version: &str, other: &str) -> (older: bool)
    requires
        version_fault(version@) is None,
        version_fault(other@) is None,
    ensures
        older == older_version(version@, other@),
        forall|first: (u64, u64, u64), second: (u64, u64, u64)|
            version@ == #[trigger] version_text(first.0, first.1, first.2) && other@
                == #[trigger] version_text(second.0, second.1, second.2) ==> older
                == numbers_before(first, second),
{
    Version::parse(version).unwrap() < Version::parse(other).unwrap()
}

/// Compares two texts as versions.
fn compare_versions(version: &str, other: &str) -> (result: Result<bool, String>)
    ensures
        match result {
            Ok(older) => compared_versions(version@, other@) == Ok::<bool, Seq<char>>(older),
            Err(fault) => compared_versions(version@, other@) == Err::<bool, Seq<char>>(fault@),
        },
        forall|first: (u64, u64, u64), second: (u64, u64, u64)|
            version@ == #[trigger] version_text(first.0, first.1, first.2) && other@
                == #[trigger] version_text(second.0, second.1, second.2) ==> result == Ok::<
                bool,
                String,
            >(numbers_before(first, second)),
{
    match fault_of_version(version) {
        Some(fault) => return Err(fault),
        None => {},
    }
    match fault_of_version(other) {
        Some(fault) => return Err(fault),
        None => {},
    }
    Ok(is_older(version, other))
}

/// check if the local version is out of date
pub fn is_out_of_date(version: &str, tag_version: &str) -> (result: Result<bool, Error>)
    ensures
        match compared_versions(version@, tag_version@) {
            Ok(older) => result == Ok::<bool, Error>(older),
            Err(report) => result matches Err(error) && (error.kind matches ErrorKind::Version(text)
                && text@ == report),
        },
        forall|first: (u64, u64, u64), second: (u64, u64, u64)|
            version@ == #[trigger] version_text(first.0, first.1, first.2) && tag_version@
                == #[trigger] version_text(second.0, second.1, second.2) ==> result == Ok::<
                bool,
                Error,
            >(numbers_before(first, second)),
{
    version_result(compare_versions(version, tag_version))
}

/// What a comparison of versions means to the installation.
pub fn version_result(compared: Result<bool, String>) -> (result: Result<bool, Error>)
    ensures
        match compared {
            Ok(older) => result == Ok::<bool, Error>(older),
            Err(text) => result matches Err(error) && error.kind == ErrorKind::Version(text),
        },
{
    match compared {
        Ok(older) => Ok(older),
        Err(text) => Err(Error::new(ErrorKind::Version(text))),
    }
}

/// Whether the asset at some place has the triple in its name.
pub open spec fn fits_at(names: Seq<String>, triple: Seq<char>, i: int) -> bool {
    0 <= i < names.len() && occurs_in(triple, names[i]@)
}

/// Whether any asset has the triple in its name.
pub open spec fn any_fits(names: Seq<String>, triple: Seq<char>) -> bool {
    exists|i: int| #[trigger] fits_at(names, triple, i)
}

/// The asset of a release to install: the first whose name has the triple in it.
pub fn select_asset(names: &Vec<String>, triple: &str) -> (result: Result<usize, Error>)
    ensures
        match result {
            Ok(index) => {
                &&& index < names@.len()
                &&& occurs_in(triple@, names@[index as int]@)
                &&& forall|i: int| 0 <= i < index ==> !occurs_in(triple@, (#[trigger] names@[i])@)
            },
            Err(error) => {
                &&& error.kind == ErrorKind::NoSuitableRelease
                &&& forall|i: int|
                    0 <= i < names@.len() ==> !occurs_in(triple@, (#[trigger] names@[i])@)
                &&& !any_fits(names@, triple@)
            },
        },
{
    let mut index: usize = 0;
    while index < names.len()
        invariant
            index <= names@.len(),
            forall|i: int| 0 <= i < index ==> !occurs_in(triple@, (#[trigger] names@[i])@),
        decreases names.len() - index,
    {
        if contains(names[index].as_str(), triple) {
            return Ok(index);
        }
        index += 1;
    }
    Err(Error::new(ErrorKind::NoSuitableRelease))
}

/// The content of the first entry of an archive, or how reading it fails.
pub uninterp spec fn first_tar_entry(archive: Seq<u8>) -> Result<Option<Seq<u8>>, Seq<char>>;

/// What was read of an entry, with its failure as text.
pub open spec fn entry_view(entry: Result<Option<Vec<u8>>, String>) -> Result<
    Option<Seq<u8>>,
    Seq<char>,
> {
    match entry {
        Ok(Some(content)) => Ok(Some(content@)),
        Ok(None) => Ok(None),
        Err(text) => Err(text@),
    }
}

/// `Archive::new` and `Archive::entries` of the crate `tar`, the first of these entries, and
/// `read_to_end` of it: the content of the entry, nothing where there is none, or the text of
/// the failure. The archive is in memory, so that only its bytes decide. The header of a sparse
/// file may go on in further blocks, whose sizes are added to that of the file without regard to
/// an overflow: archives with which that can happen are left out. The content has to fit into
/// memory.
#[verifier::external_body]
fn read_first_entry(archive: &Vec<u8>) -> (result: Result<Option<Vec<u8>>, String>)
    requires
        !is_oversized(archive@),
    ensures
        entry_view(result) == first_tar_entry(archive@),
{
    let mut archive = Archive::new(archive.as_slice());
    let entry = archive.entries().map_err(|error| error.to_string())?.next();
    match entry.transpose().map_err(|error| error.to_string())? {
        Some(mut file) => {
            let mut content = Vec::new();
            file.read_to_end(&mut content).map_err(|error| error.to_string())?;
            Ok(Some(content))
        },
        None => Ok(None),
    }
}

/// The bytes that a gzip stream holds, or how decoding it fails.
pub uninterp spec fn gunzipped(compressed: Seq<u8>) -> Result<Seq<u8>, Seq<char>>;

/// What was decoded of a gzip stream, with its failure as text.
pub open spec fn decoded_view(decoded: Result<Vec<u8>, String>) -> Result<Seq<u8>, Seq<char>> {
    match decoded {
        Ok(content) => Ok(content@),
        Err(text) => Err(text@),
    }
}

/// `GzipDecoder` of the crate `async-compression`, and `read_to_end` of it: the decoded bytes, or
/// the text of the failure. The stream is in memory, so that only its bytes decide, and reading it
/// never has to wait: `now_or_never` of the crate `futures` polls it once, without an executor.
#[verifier::external_body]
fn gunzip(compressed: &Vec<u8>) -> (result: Result<Vec<u8>, String>)
    ensures
        decoded_view(result) == gunzipped(compressed@),
{
    let mut decoder = GzipDecoder::new(compressed.as_slice());
    let mut content = Vec::new();
    let read = decoder.read_to_end(&mut content).now_or_never();
    read.ok_or("the stream is not ready")?.map_err(|error| error.to_string())?;
    Ok(content)
}

/// What is said of an archive that is not read since its sizes are too large.
pub const OVERSIZED: &'static str = "the extent of a sparse file does not fit into 64 bits";

/// Whether a result is an error with the given report.
pub open spec fn reports(result: Result<Vec<u8>, Error>, report: Seq<char>) -> bool {
    result matches Err(error) && (error.kind matches ErrorKind::Io(text) && text@ == report)
}

/// Whether a result is the program in an archive, its first file, or the error where there is
/// none, where the archive cannot be read, or where its sizes are too large.
pub open spec fn is_binary_of(result: Result<Vec<u8>, Error>, archive: Seq<u8>) -> bool {
    if is_oversized(archive) {
        reports(result, OVERSIZED@)
    } else {
        match first_tar_entry(archive) {
            Ok(Some(content)) => result matches Ok(binary) && binary@ == content,
            Ok(None) => result matches Err(error) && error.kind == ErrorKind::FileNotFound,
            Err(report) => reports(result, report),
        }
    }
}

/// The program in a download: the first file of the archive that the download holds compressed.
pub fn unpack(download: &Vec<u8>) -> (result: Result<Vec<u8>, Error>)
    ensures
        match gunzipped(download@) {
            Ok(archive) => is_binary_of(result, archive),
            Err(report) => reports(result, report),
        },
{
    archive_binary(gunzip(download))
}

/// What the decoded download means to the installation.
pub fn archive_binary(decoded: Result<Vec<u8>, String>) -> (result: Result<Vec<u8>, Error>)
    ensures
        match decoded {
            Ok(archive) => is_binary_of(result, archive@),
            Err(report) => result matches Err(error) && error.kind == ErrorKind::Io(report),
        },
{
    match decoded {
        Ok(archive) => binary_content(&archive),
        Err(text) => Err(Error::new(ErrorKind::Io(text))),
    }
}

/// The program in an archive: its first file.
pub fn binary_content(archive: &Vec<u8>) -> (result: Result<Vec<u8>, Error>)
    ensures
        is_binary_of(result, archive@),
{
    if check_oversized(archive) {
        return Err(Error::new(ErrorKind::Io(OVERSIZED.to_owned())));
    }
    entry_content(read_first_entry(archive))
}

/// What the first entry of an archive means to the installation.
pub fn entry_content(entry: Result<Option<Vec<u8>>, String>) -> (result: Result<Vec<u8>, Error>)
    ensures
        match entry {
            Ok(Some(content)) => result == Ok::<Vec<u8>, Error>(content),
            Ok(None) => result matches Err(error) && error.kind == ErrorKind::FileNotFound,
            Err(text) => result matches Err(error) && error.kind == ErrorKind::Io(text),
        },
{
    match entry {
        Ok(Some(content)) => Ok(content),
        Ok(None) => Err(Error::new(ErrorKind::FileNotFound)),
        Err(text) => Err(Error::new(ErrorKind::Io(text))),
    }
}

/// A host is known by what it tells: Windows by its name, the others by theirs; what tells none of
/// these names is not known, and what it told is reported.
pub proof fn law_identify_os(stdout: String, stderr: String, result: Result<Os, Error>)
    requires
        call_ensures(identify_os, (stdout, stderr), result),
    ensures
        result == Ok::<Os, Error>(Os::Windows) <==> occurs_in("Microsoft Windows"@, stdout@),
        !occurs_in("Microsoft Windows"@, stdout@) && (occurs_in("Linux"@, stdout@) || occurs_in(
            "Darwin"@,
            stdout@,
        ) || occurs_in("BSD"@, stdout@)) ==> result == Ok::<Os, Error>(Os::UnixLike),
        result == Ok::<Os, Error>(Os::UnixLike) ==> occurs_in("Linux"@, stdout@) || occurs_in(
            "Darwin"@,
            stdout@,
        ) || occurs_in("BSD"@, stdout@),
        result matches Err(error) ==> error.kind == ErrorKind::UnknownOs(stdout, stderr),
{
}

/// The triple is what the host wrote, without its line breaks, where its command was a success.
pub proof fn law_get_triple(exit_status: u32, stdout: &str, result: Result<String, Error>)
    requires
        call_ensures(get_triple, (exit_status, stdout), result),
    ensures
        result is Ok <==> exit_status == 0,
        result matches Ok(triple) ==> !triple@.contains('\n') && !triple@.contains('\r') && triple@
            == without_breaks(stdout@, true),
        result matches Err(error) ==> error.kind == ErrorKind::CommandFailed(exit_status),
{
    law_without_breaks(stdout@, Seq::empty(), ' ', true);
}

/// Of a path, nothing but the separators changes: each becomes the one of the system.
pub proof fn law_path_characters(path: &str, os: Os, result: String, i: int)
    requires
        call_ensures(format_path, (path, &os), result),
        0 <= i < path@.len(),
    ensures
        result@.len() == path@.len(),
        path@[i] != '/' && path@[i] != '\\' ==> result@[i] == path@[i],
        path@[i] == '/' || path@[i] == '\\' ==> result@[i] == match os {
            Os::Windows => '\\',
            Os::UnixLike => '/',
        },
{
}

/// Whether the command for a system is made of four texts, with the parent and the path between
/// them.
pub open spec fn is_template(
    os: Os,
    first: Seq<char>,
    second: Seq<char>,
    third: Seq<char>,
    last: Seq<char>,
) -> bool {
    forall|parent: Seq<char>, path: Seq<char>| #[trigger]
        is_dir_text(os, parent, path) == first + parent + second + path + third + path + last
}

/// The command is the same for all paths, but for the parent, which stands in it once, and the path,
/// which stands in it twice.
pub proof fn law_is_dir_text(os: Os)
    ensures
        exists|first: Seq<char>, second: Seq<char>, third: Seq<char>, last: Seq<char>| #[trigger]
            is_template(os, first, second, third, last),
{
    match os {
        Os::Windows => {
            assert(is_template(
                os,
                "if exist \""@,
                "\" ( if exist \""@,
                "\\\" ( echo true ) else ( if exist \""@,
                "\" ( echo false ) else ( echo not_found ))) else (echo dnf)"@,
            ));
        },
        Os::UnixLike => {
            assert(is_template(
                os,
                "[ -d \""@,
                "\" ] && ( [ -d \""@,
                "\" ] && echo true || ([ -f \""@,
                "\" ] && echo false || echo not_found )) || echo dnf"@,
            ));
        },
    }
}

/// It makes no difference to the command how the path was written before, nor whether the parent
/// is missing or the directory itself.
pub proof fn law_is_dir_command(
    os: Os,
    dot: String,
    path: &str,
    formatted: String,
    other: &str,
    command: String,
    same: String,
)
    requires
        dot@ == "."@,
        call_ensures(format_path, (path, &os), formatted),
        other@ == formatted@,
        call_ensures(is_dir_command, (&os, &None, path), command),
        call_ensures(is_dir_command, (&os, &Some(dot), other), same),
    ensures
        command@ == same@,
        command@ == is_dir_text(os, "."@, formatted@),
{
    law_format_path(path@, os, os);
}

/// The answers to the command mean what they say: only a success counts, the first letter of the
/// answer decides, and everything else is a failure.
pub proof fn law_is_dir(exit_status: u32, stdout: &str, result: Result<bool, Error>)
    requires
        call_ensures(is_dir, (exit_status, stdout), result),
    ensures
        exit_status == 0 && stdout@.len() > 0 ==> {
            &&& result == Ok::<bool, Error>(true) <==> stdout@[0] == 't'
            &&& result == Ok::<bool, Error>(false) <==> stdout@[0] == 'f'
            &&& stdout@[0] == 'n' <==> (result matches Err(error) && error.kind
                == ErrorKind::FileNotFound)
            &&& stdout@[0] == 'd' <==> (result matches Err(error) && error.kind
                == ErrorKind::DirectoryNotFound)
        },
        exit_status != 0 || stdout@.len() == 0 ==> (result matches Err(error) && error.kind
            == ErrorKind::CommandFailed(exit_status)),
{
}

/// A file that exists is never installed to without being asked, unless that is wanted; a directory
/// is never installed to itself; a file that is missing is created; and any other answer ends the
/// installation.
pub proof fn law_destination_step(
    is_dir: Result<bool, Error>,
    overwrite: bool,
    result: Result<DestinationStep, Error>,
)
    requires
        call_ensures(destination_step, (is_dir, overwrite), result),
    ensures
        result == Ok::<DestinationStep, Error>(DestinationStep::AppendName) <==> is_dir == Ok::<
            bool,
            Error,
        >(true),
        result == Ok::<DestinationStep, Error>(DestinationStep::Ask) <==> is_dir == Ok::<
            bool,
            Error,
        >(false) && !overwrite,
        is_dir matches Err(error) ==> (result is Ok <==> error.kind == ErrorKind::FileNotFound),
        is_dir matches Err(error) ==> (result matches Err(same) ==> same == error),
{
}

/// The user agrees with a `y` at the beginning, and with nothing else, and only then is the file
/// overwritten.
pub proof fn law_agrees(input: &str, agreed: bool, step: OverwriteStep)
    requires
        call_ensures(agrees, (input,), agreed),
        call_ensures(overwrite_step, (agreed,), step),
    ensures
        input@.len() == 0 ==> step == OverwriteStep::Stop,
        input@.len() > 0 ==> (step == OverwriteStep::Install <==> input@[0] == 'y' || input@[0]
            == 'Y'),
{
}

/// The binary that the user gives is the one that is installed.
pub proof fn law_binary_source<P>(
    path: P,
    given: BinarySource<P>,
    otherwise: BinarySource<P>,
)
    requires
        call_ensures(binary_source::<P>, (Some(path),), given),
        call_ensures(binary_source::<P>, (None,), otherwise),
    ensures
        given == BinarySource::Custom(path),
        otherwise == BinarySource::<P>::Release,
{
}

/// A tag is a `v` and the version; without the `v` it names none.
pub proof fn law_tag_version(tag: &str, version: Option<String>, text: Seq<char>)
    requires
        call_ensures(tag_version, (tag,), version),
    ensures
        tag@ == seq!['v'] + text ==> (version matches Some(version) && version@ == text),
        version matches Some(version) ==> tag@ == seq!['v'] + version@,
{
    if tag@ == seq!['v'] + text {
        assert(tag@.drop_first() =~= text);
    }
    if let Some(version) = version {
        assert(tag@ =~= seq!['v'] + version@);
    }
}

/// Versions of three numbers are in order: of two different ones, exactly one comes before the
/// other, and what comes before one comes before all that it comes before.
pub proof fn law_numbers(a: (u64, u64, u64), b: (u64, u64, u64), c: (u64, u64, u64))
    ensures
        !numbers_before(a, a),
        a != b ==> numbers_before(a, b) != numbers_before(b, a),
        numbers_before(a, b) && numbers_before(b, c) ==> numbers_before(a, c),
        a.0 < b.0 ==> numbers_before(a, b),
        a.0 == b.0 && a.1 < b.1 ==> numbers_before(a, b),
        a.0 == b.0 && a.1 == b.1 ==> (numbers_before(a, b) <==> a.2 < b.2),
{
}

/// The local version is out of date exactly where it comes before the other; what is no version is
/// reported, the local one first.
pub proof fn law_out_of_date(
    version: &str,
    tag: &str,
    result: Result<bool, Error>,
    first: (u64, u64, u64),
    second: (u64, u64, u64),
)
    requires
        call_ensures(is_out_of_date, (version, tag), result),
    ensures
        version@ == version_text(first.0, first.1, first.2) && tag@ == version_text(
            second.0,
            second.1,
            second.2,
        ) ==> result == Ok::<bool, Error>(numbers_before(first, second)),
        version_fault(version@) matches Some(fault) ==> (result matches Err(error) && (
        error.kind matches ErrorKind::Version(text) && text@ == fault)),
        version_fault(version@) is None ==> (version_fault(tag@) matches Some(fault) ==> (
        result matches Err(error) && (error.kind matches ErrorKind::Version(text) && text@
            == fault))),
        version_fault(version@) is None && version_fault(tag@) is None ==> result == Ok::<
            bool,
            Error,
        >(older_version(version@, tag@)),
{
}

/// A version of three numbers is written with dots between them, in their order.
pub proof fn law_version_text(major: u64, minor: u64, patch: u64)
    ensures
        ({
            let text = version_text(major, minor, patch);
            let second = rest_fields(text, '.');
            let third = rest_fields(second->0, '.');
            &&& digits_value(first_field(text, '.')) == major
            &&& second is Some && digits_value(first_field(second->0, '.')) == minor
            &&& third is Some && digits_value(third->0) == patch
        }),
{
    let a = decimal(major as nat);
    let b = decimal(minor as nat);
    let c = decimal(patch as nat);
    lemma_decimal(major as nat);
    lemma_decimal(minor as nat);
    lemma_decimal(patch as nat);
    lemma_no_dots(a);
    lemma_no_dots(b);
    let rest = b + seq!['.'] + c;
    assert(version_text(major, minor, patch) =~= a + seq!['.'] + rest);
    lemma_first_field(a, '.', rest);
    lemma_first_field(b, '.', c);
}

proof fn lemma_no_dots(digits: Seq<char>)
    requires
        all_digits(digits),
    ensures
        !digits.contains('.'),
{
    if digits.contains('.') {
        let i = choose|i: int| 0 <= i < digits.len() && digits[i] == '.';
        assert(is_digit(digits[i]));
    }
}

/// The asset is the first that fits, and there is one where any fits.
pub proof fn law_select_asset(
    names: Vec<String>,
    triple: &str,
    result: Result<usize, Error>,
    i: int,
)
    requires
        call_ensures(select_asset, (&names, triple), result),
        0 <= i < names@.len(),
    ensures
        occurs_in(triple@, names@[i]@) ==> (result matches Ok(index) && index <= i && occurs_in(
            triple@,
            names@[index as int]@,
        )),
        result matches Err(error) ==> error.kind == ErrorKind::NoSuitableRelease,
{
    assert(fits_at(names@, triple@, i) <==> occurs_in(triple@, names@[i]@));
}

/// The program is the first file of the archive and nothing else; what goes wrong is told.
pub proof fn law_unpack(
    archive: Vec<u8>,
    result: Result<Vec<u8>, Error>,
    report: String,
    broken: Result<Vec<u8>, Error>,
)
    requires
        call_ensures(archive_binary, (Ok(archive),), result),
        call_ensures(archive_binary, (Err(report),), broken),
    ensures
        broken matches Err(error) && error.kind == ErrorKind::Io(report),
        result matches Ok(binary) ==> first_tar_entry(archive@) == Ok::<
            Option<Seq<u8>>,
            Seq<char>,
        >(Some(binary@)),
        !is_oversized(archive@) ==> match first_tar_entry(archive@) {
            Ok(Some(content)) => result matches Ok(binary) && binary@ == content,
            Ok(None) => result matches Err(error) && error.kind == ErrorKind::FileNotFound,
            Err(report) => result matches Err(error) && (error.kind matches ErrorKind::Io(text)
                && text@ == report),
        },
        is_oversized(archive@) ==> (result matches Err(error) && error.kind is Io),
{
}

/// What a download holds is what is unpacked of it.
pub proof fn law_download(download: Vec<u8>, result: Result<Vec<u8>, Error>, archive: Seq<u8>)
    requires
        call_ensures(unpack, (&download,), result),
    ensures
        gunzipped(download@) == Ok::<Seq<u8>, Seq<char>>(archive) && !is_oversized(archive) ==> match
        first_tar_entry(archive) {
            Ok(Some(content)) => result matches Ok(binary) && binary@ == content,
            Ok(None) => result matches Err(error) && error.kind == ErrorKind::FileNotFound,
            Err(report) => result matches Err(error) && (error.kind matches ErrorKind::Io(text)
                && text@ == report),
        },
        gunzipped(download@) matches Err(report) ==> (result matches Err(error) && (
        error.kind matches ErrorKind::Io(text) && text@ == report)),
{
}

/// The program is called `cccp`, on Windows with the extension of a program.
pub proof fn law_binary_name(os: Os, name: &'static str)
    requires
        call_ensures(binary_name, (&os,), name),
    ensures
        name@.take(4) == "cccp"@,
        os == Os::UnixLike <==> name@.len() == 4,
        os == Os::Windows ==> name@.skip(4) == ".exe"@,
{
    reveal_strlit("cccp");
    reveal_strlit("cccp.exe");
    reveal_strlit(".exe");
    assert("cccp"@.take(4) =~= "cccp"@);
    assert("cccp.exe"@.take(4) =~= "cccp"@);
    assert("cccp.exe"@.skip(4) =~= ".exe"@);
}

/// What the outside tells is handed on: a comparison as it is, an entry as the program, and what
/// was reported as an error of its kind.
pub proof fn law_handed_on(
    older: bool,
    compared: Result<bool, Error>,
    fault: String,
    failed: Result<bool, Error>,
    content: Vec<u8>,
    read: Result<Vec<u8>, Error>,
    missing: Result<Vec<u8>, Error>,
    broken: Result<Vec<u8>, Error>,
)
    requires
        call_ensures(version_result, (Ok(older),), compared),
        call_ensures(version_result, (Err(fault),), failed),
        call_ensures(entry_content, (Ok(Some(content)),), read),
        call_ensures(entry_content, (Ok(None),), missing),
        call_ensures(entry_content, (Err(fault),), broken),
    ensures
        compared == Ok::<bool, Error>(older),
        failed matches Err(error) && error.kind == ErrorKind::Version(fault),
        read == Ok::<Vec<u8>, Error>(content),
        missing matches Err(error) && error.kind == ErrorKind::FileNotFound,
        broken matches Err(error) && error.kind == ErrorKind::Io(fault),
{
}

/// The program of an archive is its first file, whenever the archive can be read.
pub proof fn law_binary_content(archive: Vec<u8>, result: Result<Vec<u8>, Error>)
    requires
        call_ensures(binary_content, (&archive,), result),
    ensures
        result matches Ok(binary) ==> first_tar_entry(archive@) == Ok::<
            Option<Seq<u8>>,
            Seq<char>,
        >(Some(binary@)),
        !is_oversized(archive@) ==> (first_tar_entry(archive@) matches Ok(Some(content)) ==> (
        result matches Ok(binary) && binary@ == content)),
        !is_oversized(archive@) ==> (result is Ok <==> (first_tar_entry(archive@) matches Ok(
            Some(_),
        ))),
{
}

} // verus!
