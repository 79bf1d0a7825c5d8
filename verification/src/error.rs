//! What can go wrong during a transfer or an installation.

use crate::items::Message;
use crate::text::{decimal, decimal_string};
use vstd::prelude::*;

verus! {

/// generic error type for cccp
#[derive(Debug)]
pub struct Error {
    pub kind: ErrorKind,
}

/// The kinds of errors. One that was reported by the system or by another library holds the
/// text of that report.
#[derive(Debug)]
pub enum ErrorKind {
    Io(String),
    AddrParse(String),
    Decode(String),
    Join(String),
    Send(String),
    Receive(String),
    Acquire(String),
    TryFromSlice(String),
    ContainsNull(String),
    Nix(String),
    StripPrefix(String),
    AsyncSsh(String),
    RuSsh(String),
    Base64Decode(String),
    Version(String),
    GitHub(String),
    MissingQueue,
    MaxRetries,
    StatusError,
    /// a file transfer failure with reason
    Failure(u32),
    EmptyPath,
    InvalidExtension,
    /// an unexpected control message was encountered
    UnexpectedMessage(Box<Message>),
    /// the command did not finish
    NoExitStatus,
    /// the cccp command was not found on the remote host
    CommandNotFound,
    /// the command failed with a non-zero exit status
    CommandFailed(u32),
    /// the file is not on the remote host
    FileNotFound,
    /// the directory is not on the remote host
    DirectoryNotFound,
    /// no release fits the remote host
    NoSuitableRelease,
    /// a part of a download holds no data
    EmptyFrame,
    /// the operating system of the remote host is not known: what it wrote to its two outputs
    UnknownOs(String, String),
}

/// How an error reads. `printed` is how a message prints that was not expected.
pub open spec fn error_text(kind: ErrorKind, printed: Seq<char>) -> Seq<char> {
    match kind {
        ErrorKind::Io(error) => "IO error: "@ + error@,
        ErrorKind::AddrParse(error) => "Address parse error: "@ + error@,
        ErrorKind::Decode(error) => "Decode error: "@ + error@,
        ErrorKind::Join(error) => "Join error: "@ + error@,
        ErrorKind::Send(error) => "Send error: "@ + error@,
        ErrorKind::Receive(error) => "Receive error: "@ + error@,
        ErrorKind::Acquire(error) => "Acquire error: "@ + error@,
        ErrorKind::TryFromSlice(error) => "TryFromSlice error: "@ + error@,
        ErrorKind::ContainsNull(error) => "ContainsNull error: "@ + error@,
        ErrorKind::Nix(error) => "Nix error: "@ + error@,
        ErrorKind::StripPrefix(error) => "StripPrefix error: "@ + error@,
        ErrorKind::AsyncSsh(error) => "SSH error: "@ + error@,
        ErrorKind::RuSsh(error) => "SSH error: "@ + error@,
        ErrorKind::Base64Decode(error) => "Base64 decode error: "@ + error@,
        ErrorKind::Version(error) => "Version error: "@ + error@,
        ErrorKind::GitHub(error) => "GitHub error: "@ + error@,
        ErrorKind::MissingQueue => "Missing queue"@,
        ErrorKind::MaxRetries => "Max retries"@,
        ErrorKind::StatusError => "Status error"@,
        ErrorKind::Failure(reason) => "failure: "@ + decimal(reason as nat),
        ErrorKind::EmptyPath => "empty path"@,
        ErrorKind::InvalidExtension => "invalid extension"@,
        ErrorKind::UnexpectedMessage(_) => "unexpected message "@ + printed,
        ErrorKind::NoExitStatus => "no exit status"@,
        ErrorKind::CommandNotFound => "cccp command not found"@,
        ErrorKind::CommandFailed(status) => "command failed with status "@ + decimal(
            status as nat,
        ),
        ErrorKind::FileNotFound => "file not found"@,
        ErrorKind::DirectoryNotFound => "directory not found"@,
        ErrorKind::NoSuitableRelease => "no suitable release"@,
        ErrorKind::EmptyFrame => "empty frame"@,
        ErrorKind::UnknownOs(stdout, stderr) => "unknown operating system: "@ + stdout@ + " "@
            + stderr@,
    }
}

/// Puts two texts one behind the other.
fn prefixed(prefix: &str, text: &str) -> (result: String)
    ensures
        result@ == prefix@ + text@,
{
    prefix.to_owned().concat(text)
}

impl Error {
    pub fn new(kind: ErrorKind) -> (error: Self)
        ensures
            error.kind == kind,
    {
        Error { kind }
    }

    pub fn missing_queue() -> (error: Self)
        ensures
            error.kind == ErrorKind::MissingQueue,
    {
        Error { kind: ErrorKind::MissingQueue }
    }

    pub fn max_retries() -> (error: Self)
        ensures
            error.kind == ErrorKind::MaxRetries,
    {
        Error { kind: ErrorKind::MaxRetries }
    }

    pub fn failure(reason: u32) -> (error: Self)
        ensures
            error.kind == ErrorKind::Failure(reason),
    {
        Error { kind: ErrorKind::Failure(reason) }
    }

    pub fn empty_path() -> (error: Self)
        ensures
            error.kind == ErrorKind::EmptyPath,
    {
        Error { kind: ErrorKind::EmptyPath }
    }

    pub fn invalid_extension() -> (error: Self)
        ensures
            error.kind == ErrorKind::InvalidExtension,
    {
        Error { kind: ErrorKind::InvalidExtension }
    }

    pub fn unexpected_message(message: Message) -> (error: Self)
        ensures
            error.kind == ErrorKind::UnexpectedMessage(Box::new(message)),
    {
        Error { kind: ErrorKind::UnexpectedMessage(Box::new(message)) }
    }

    pub fn no_exit_status() -> (error: Self)
        ensures
            error.kind == ErrorKind::NoExitStatus,
    {
        Error { kind: ErrorKind::NoExitStatus }
    }

    pub fn command_not_found() -> (error: Self)
        ensures
            error.kind == ErrorKind::CommandNotFound,
    {
        Error { kind: ErrorKind::CommandNotFound }
    }

    pub fn command_failed(status: u32) -> (error: Self)
        ensures
            error.kind == ErrorKind::CommandFailed(status),
    {
        Error { kind: ErrorKind::CommandFailed(status) }
    }

    pub fn status_error() -> (error: Self)
        ensures
            error.kind == ErrorKind::StatusError,
    {
        Error { kind: ErrorKind::StatusError }
    }

    /// How the error reads. `printed` is how a message prints that was not expected; other errors
    /// have no use for it.
    pub fn message(&self, printed: &str) -> (text: String)
        ensures
            text@ == error_text(self.kind, printed@),
    {
        match &self.kind {
            ErrorKind::Io(error) => prefixed("IO error: ", error),
            ErrorKind::AddrParse(error) => prefixed("Address parse error: ", error),
            ErrorKind::Decode(error) => prefixed("Decode error: ", error),
            ErrorKind::Join(error) => prefixed("Join error: ", error),
            ErrorKind::Send(error) => prefixed("Send error: ", error),
            ErrorKind::Receive(error) => prefixed("Receive error: ", error),
            ErrorKind::Acquire(error) => prefixed("Acquire error: ", error),
            ErrorKind::TryFromSlice(error) => prefixed("TryFromSlice error: ", error),
            ErrorKind::ContainsNull(error) => prefixed("ContainsNull error: ", error),
            ErrorKind::Nix(error) => prefixed("Nix error: ", error),
            ErrorKind::StripPrefix(error) => prefixed("StripPrefix error: ", error),
            ErrorKind::AsyncSsh(error) => prefixed("SSH error: ", error),
            ErrorKind::RuSsh(error) => prefixed("SSH error: ", error),
            ErrorKind::Base64Decode(error) => prefixed("Base64 decode error: ", error),
            ErrorKind::Version(error) => prefixed("Version error: ", error),
            ErrorKind::GitHub(error) => prefixed("GitHub error: ", error),
            ErrorKind::MissingQueue => "Missing queue".to_owned(),
            ErrorKind::MaxRetries => "Max retries".to_owned(),
            ErrorKind::StatusError => "Status error".to_owned(),
            ErrorKind::Failure(reason) => prefixed(
                "failure: ",
                decimal_string(*reason as u64).as_str(),
            ),
            ErrorKind::EmptyPath => "empty path".to_owned(),
            ErrorKind::InvalidExtension => "invalid extension".to_owned(),
            ErrorKind::UnexpectedMessage(_) => prefixed("unexpected message ", printed),
            ErrorKind::NoExitStatus => "no exit status".to_owned(),
            ErrorKind::CommandNotFound => "cccp command not found".to_owned(),
            ErrorKind::CommandFailed(status) => prefixed(
                "command failed with status ",
                decimal_string(*status as u64).as_str(),
            ),
            ErrorKind::FileNotFound => "file not found".to_owned(),
            ErrorKind::DirectoryNotFound => "directory not found".to_owned(),
            ErrorKind::NoSuitableRelease => "no suitable release".to_owned(),
            ErrorKind::EmptyFrame => "empty frame".to_owned(),
            ErrorKind::UnknownOs(stdout, stderr) => prefixed(
                "unknown operating system: ",
                stdout,
            ).concat(" ").concat(stderr),
        }
    }
}

/// What was reported stands at the end of the text of an error, and what stands before it does not
/// depend on it.
pub proof fn law_reports(report: String, other: String, printed: Seq<char>, kind: int)
    requires
        0 <= kind < 16,
    ensures
        ({
            let text = error_text(reported(kind, report), printed);
            let other_text = error_text(reported(kind, other), printed);
            let at = text.len() - report@.len();
            &&& at > 0
            &&& text.skip(at) == report@
            &&& other_text.len() - other@.len() == at
            &&& other_text.take(at) == text.take(at)
        }),
{
    reveal_strlit("IO error: ");
    reveal_strlit("Address parse error: ");
    reveal_strlit("Decode error: ");
    reveal_strlit("Join error: ");
    reveal_strlit("Send error: ");
    reveal_strlit("Receive error: ");
    reveal_strlit("Acquire error: ");
    reveal_strlit("TryFromSlice error: ");
    reveal_strlit("ContainsNull error: ");
    reveal_strlit("Nix error: ");
    reveal_strlit("StripPrefix error: ");
    reveal_strlit("SSH error: ");
    reveal_strlit("Base64 decode error: ");
    reveal_strlit("Version error: ");
    reveal_strlit("GitHub error: ");
    let text = error_text(reported(kind, report), printed);
    let other_text = error_text(reported(kind, other), printed);
    let at = text.len() - report@.len();
    assert(text.skip(at) =~= report@);
    assert(other_text.take(at) =~= text.take(at));
}

/// The kinds of errors that hold a report.
pub open spec fn reported(kind: int, report: String) -> ErrorKind {
    if kind == 0 {
        ErrorKind::Io(report)
    } else if kind == 1 {
        ErrorKind::AddrParse(report)
    } else if kind == 2 {
        ErrorKind::Decode(report)
    } else if kind == 3 {
        ErrorKind::Join(report)
    } else if kind == 4 {
        ErrorKind::Send(report)
    } else if kind == 5 {
        ErrorKind::Receive(report)
    } else if kind == 6 {
        ErrorKind::Acquire(report)
    } else if kind == 7 {
        ErrorKind::TryFromSlice(report)
    } else if kind == 8 {
        ErrorKind::ContainsNull(report)
    } else if kind == 9 {
        ErrorKind::Nix(report)
    } else if kind == 10 {
        ErrorKind::StripPrefix(report)
    } else if kind == 11 {
        ErrorKind::AsyncSsh(report)
    } else if kind == 12 {
        ErrorKind::RuSsh(report)
    } else if kind == 13 {
        ErrorKind::Base64Decode(report)
    } else if kind == 14 {
        ErrorKind::Version(report)
    } else {
        ErrorKind::GitHub(report)
    }
}

/// The numbers and texts that an error holds are told: a reason or a status in decimal at the end,
/// a message as it prints, and both outputs of an unknown system.
pub proof fn law_error_values(
    number: u32,
    message: Message,
    printed: Seq<char>,
    stdout: String,
    stderr: String,
)
    ensures
        ({
            let failure = error_text(ErrorKind::Failure(number), printed);
            let failed = error_text(ErrorKind::CommandFailed(number), printed);
            let unexpected = error_text(ErrorKind::UnexpectedMessage(Box::new(message)), printed);
            let unknown = error_text(ErrorKind::UnknownOs(stdout, stderr), printed);
            let digits = decimal(number as nat);
            &&& failure == "failure: "@ + digits
            &&& failed.skip(failed.len() - digits.len()) == digits
            &&& failed.len() == 27 + digits.len()
            &&& unexpected.skip(unexpected.len() - printed.len()) == printed
            &&& unexpected.len() == 19 + printed.len()
            &&& unknown.skip(unknown.len() - stderr@.len()) == stderr@
            &&& unknown.len() == 27 + stdout@.len() + stderr@.len()
            &&& unknown.subrange(26, 26int + stdout@.len()) == stdout@
        }),
{
    reveal_strlit("command failed with status ");
    reveal_strlit("unexpected message ");
    reveal_strlit("unknown operating system: ");
    reveal_strlit(" ");
    let failed = error_text(ErrorKind::CommandFailed(number), printed);
    let unexpected = error_text(ErrorKind::UnexpectedMessage(Box::new(message)), printed);
    let unknown = error_text(ErrorKind::UnknownOs(stdout, stderr), printed);
    let digits = decimal(number as nat);
    assert(failed.skip(failed.len() - digits.len()) =~= digits);
    assert(unexpected.skip(unexpected.len() - printed.len()) =~= printed);
    assert(unknown.skip(unknown.len() - stderr@.len()) =~= stderr@);
    assert(unknown.subrange(26, 26int + stdout@.len()) =~= stdout@);
}

/// Errors are of the kinds that they are made as.
pub proof fn law_error_kinds(
    number: u32,
    message: Message,
    failure: Error,
    failed: Error,
    unexpected: Error,
    queue: Error,
    retries: Error,
    path: Error,
    extension: Error,
    status: Error,
    command: Error,
    exit: Error,
)
    requires
        call_ensures(Error::failure, (number,), failure),
        call_ensures(Error::command_failed, (number,), failed),
        call_ensures(Error::unexpected_message, (message,), unexpected),
        call_ensures(Error::missing_queue, (), queue),
        call_ensures(Error::max_retries, (), retries),
        call_ensures(Error::empty_path, (), path),
        call_ensures(Error::invalid_extension, (), extension),
        call_ensures(Error::status_error, (), status),
        call_ensures(Error::command_not_found, (), command),
        call_ensures(Error::no_exit_status, (), exit),
    ensures
        failure.kind == ErrorKind::Failure(number),
        failed.kind == ErrorKind::CommandFailed(number),
        unexpected.kind == ErrorKind::UnexpectedMessage(Box::new(message)),
        queue.kind is MissingQueue,
        retries.kind is MaxRetries,
        path.kind is EmptyPath,
        extension.kind is InvalidExtension,
        status.kind is StatusError,
        command.kind is CommandNotFound,
        exit.kind is NoExitStatus,
{
}

/// Whether a text begins with another.
pub open spec fn opens_with(text: Seq<char>, start: Seq<char>) -> bool {
    text.len() >= start.len() && text.take(start.len() as int) == start
}

/// The text of an error tells who reported it.
pub proof fn law_reporters(error: Error, printed: &str, text: String)
    requires
        call_ensures(Error::message, (&error, printed), text),
    ensures
        error.kind is Io ==> opens_with(text@, "IO error"@),
        error.kind is AddrParse ==> opens_with(text@, "Address parse error"@),
        error.kind is Decode ==> opens_with(text@, "Decode error"@),
        error.kind is Join ==> opens_with(text@, "Join error"@),
        error.kind is Send ==> opens_with(text@, "Send error"@),
        error.kind is Receive ==> opens_with(text@, "Receive error"@),
        error.kind is Acquire ==> opens_with(text@, "Acquire error"@),
        error.kind is TryFromSlice ==> opens_with(text@, "TryFromSlice error"@),
        error.kind is ContainsNull ==> opens_with(text@, "ContainsNull error"@),
        error.kind is Nix ==> opens_with(text@, "Nix error"@),
        error.kind is StripPrefix ==> opens_with(text@, "StripPrefix error"@),
        error.kind is AsyncSsh || error.kind is RuSsh ==> opens_with(text@, "SSH error"@),
        error.kind is Base64Decode ==> opens_with(text@, "Base64 decode error"@),
        error.kind is Version ==> opens_with(text@, "Version error"@),
        error.kind is GitHub ==> opens_with(text@, "GitHub error"@),
        error.kind is UnexpectedMessage ==> opens_with(text@, "unexpected message "@),
{
    match error.kind {
        ErrorKind::Io(report) => {
            reveal_strlit("IO error: ");
            reveal_strlit("IO error");
            assert(text@.take(8) =~= "IO error"@);
        },
        ErrorKind::AddrParse(report) => {
            reveal_strlit("Address parse error: ");
            reveal_strlit("Address parse error");
            assert(text@.take(19) =~= "Address parse error"@);
        },
        ErrorKind::Decode(report) => {
            reveal_strlit("Decode error: ");
            reveal_strlit("Decode error");
            assert(text@.take(12) =~= "Decode error"@);
        },
        ErrorKind::Join(report) => {
            reveal_strlit("Join error: ");
            reveal_strlit("Join error");
            assert(text@.take(10) =~= "Join error"@);
        },
        ErrorKind::Send(report) => {
            reveal_strlit("Send error: ");
            reveal_strlit("Send error");
            assert(text@.take(10) =~= "Send error"@);
        },
        ErrorKind::Receive(report) => {
            reveal_strlit("Receive error: ");
            reveal_strlit("Receive error");
            assert(text@.take(13) =~= "Receive error"@);
        },
        ErrorKind::Acquire(report) => {
            reveal_strlit("Acquire error: ");
            reveal_strlit("Acquire error");
            assert(text@.take(13) =~= "Acquire error"@);
        },
        ErrorKind::TryFromSlice(report) => {
            reveal_strlit("TryFromSlice error: ");
            reveal_strlit("TryFromSlice error");
            assert(text@.take(18) =~= "TryFromSlice error"@);
        },
        ErrorKind::ContainsNull(report) => {
            reveal_strlit("ContainsNull error: ");
            reveal_strlit("ContainsNull error");
            assert(text@.take(18) =~= "ContainsNull error"@);
        },
        ErrorKind::Nix(report) => {
            reveal_strlit("Nix error: ");
            reveal_strlit("Nix error");
            assert(text@.take(9) =~= "Nix error"@);
        },
        ErrorKind::StripPrefix(report) => {
            reveal_strlit("StripPrefix error: ");
            reveal_strlit("StripPrefix error");
            assert(text@.take(17) =~= "StripPrefix error"@);
        },
        ErrorKind::AsyncSsh(report) => {
            reveal_strlit("SSH error: ");
            reveal_strlit("SSH error");
            assert(text@.take(9) =~= "SSH error"@);
        },
        ErrorKind::RuSsh(report) => {
            reveal_strlit("SSH error: ");
            reveal_strlit("SSH error");
            assert(text@.take(9) =~= "SSH error"@);
        },
        ErrorKind::Base64Decode(report) => {
            reveal_strlit("Base64 decode error: ");
            reveal_strlit("Base64 decode error");
            assert(text@.take(19) =~= "Base64 decode error"@);
        },
        ErrorKind::Version(report) => {
            reveal_strlit("Version error: ");
            reveal_strlit("Version error");
            assert(text@.take(13) =~= "Version error"@);
        },
        ErrorKind::GitHub(report) => {
            reveal_strlit("GitHub error: ");
            reveal_strlit("GitHub error");
            assert(text@.take(12) =~= "GitHub error"@);
        },
        ErrorKind::UnexpectedMessage(message) => {
            reveal_strlit("unexpected message ");
            assert(text@.take(19) =~= "unexpected message "@);
        },
        _ => {},
    }
}

/// What was not found reads as not found: the command, the file and the directory each by itself.
pub proof fn law_not_found(
    command: Error,
    command_text: String,
    file: Error,
    file_text: String,
    directory: Error,
    directory_text: String,
    printed: &str,
)
    requires
        command.kind is CommandNotFound,
        file.kind is FileNotFound,
        directory.kind is DirectoryNotFound,
        call_ensures(Error::message, (&command, printed), command_text),
        call_ensures(Error::message, (&file, printed), file_text),
        call_ensures(Error::message, (&directory, printed), directory_text),
    ensures
        command_text@ == "cccp command"@ + " not found"@,
        file_text@ == "file"@ + " not found"@,
        directory_text@ == "directory"@ + " not found"@,
{
    reveal_strlit(" not found");
    reveal_strlit("cccp command");
    reveal_strlit("cccp command not found");
    reveal_strlit("file");
    reveal_strlit("file not found");
    reveal_strlit("directory");
    reveal_strlit("directory not found");
    assert(command_text@ =~= "cccp command"@ + " not found"@);
    assert(file_text@ =~= "file"@ + " not found"@);
    assert(directory_text@ =~= "directory"@ + " not found"@);
}

} // verus!
