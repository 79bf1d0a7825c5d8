//! The options of a transfer, and what they are written as.

use crate::text::same_text;
use vstd::prelude::*;

pub mod command;
pub mod crypto;
pub mod io_spec;

verus! {

/// What is wrong with an option.
#[derive(Debug)]
pub struct Error {
    pub kind: ErrorKind,
}

/// The kinds of errors. One that the system reported holds the description of that report.
#[derive(Debug)]
pub enum ErrorKind {
    Io(String),
    Decode(DecodeError),
    InvalidIoSpec,
    UnknownMode,
    InvalidCipher,
    InvalidKey,
    InvalidIv,
    NoSuchHost,
    InvalidPort,
}

/// What is wrong with a text in base64.
#[derive(Clone, Copy, Debug, PartialEq, Eq, Structural)]
pub enum DecodeError {
    /// a byte that stands for nothing: its offset, and the byte
    InvalidByte(usize, u8),
    /// there is no text of this length
    InvalidLength,
    /// the last symbol holds bits that belong to no byte: its offset, and the symbol
    InvalidLastSymbol(usize, u8),
    /// there is padding
    InvalidPadding,
}

/// How an error reads.
pub open spec fn error_text(kind: ErrorKind) -> Seq<char> {
    match kind {
        ErrorKind::Io(description) => description@,
        ErrorKind::Decode(_) => "description() is deprecated; use Display"@,
        ErrorKind::InvalidIoSpec => "invalid IoSpec, refer to --help for more information"@,
        ErrorKind::UnknownMode => "the mode can be either sender or receiver"@,
        ErrorKind::InvalidCipher => "invalid cipher"@,
        ErrorKind::InvalidKey => "invalid key"@,
        ErrorKind::InvalidIv => "invalid IV"@,
        ErrorKind::NoSuchHost => "no such host"@,
        ErrorKind::InvalidPort => "invalid port"@,
    }
}

impl Error {
    pub fn invalid_key() -> (error: Self)
        ensures
            error.kind == ErrorKind::InvalidKey,
    {
        Error { kind: ErrorKind::InvalidKey }
    }

    pub fn invalid_iv() -> (error: Self)
        ensures
            error.kind == ErrorKind::InvalidIv,
    {
        Error { kind: ErrorKind::InvalidIv }
    }

    pub fn invalid_cipher() -> (error: Self)
        ensures
            error.kind == ErrorKind::InvalidCipher,
    {
        Error { kind: ErrorKind::InvalidCipher }
    }

    pub fn invalid_io_spec() -> (error: Self)
        ensures
            error.kind == ErrorKind::InvalidIoSpec,
    {
        Error { kind: ErrorKind::InvalidIoSpec }
    }

    pub fn no_such_host() -> (error: Self)
        ensures
            error.kind == ErrorKind::NoSuchHost,
    {
        Error { kind: ErrorKind::NoSuchHost }
    }

    pub fn unknown_mode() -> (error: Self)
        ensures
            error.kind == ErrorKind::UnknownMode,
    {
        Error { kind: ErrorKind::UnknownMode }
    }

    pub fn invalid_port() -> (error: Self)
        ensures
            error.kind == ErrorKind::InvalidPort,
    {
        Error { kind: ErrorKind::InvalidPort }
    }

    /// How the error reads.
    pub fn message(&self) -> (text: String)
        ensures
            text@ == error_text(self.kind),
    {
        match &self.kind {
            ErrorKind::Io(description) => description.clone(),
            ErrorKind::Decode(_) => "description() is deprecated; use Display".to_owned(),
            ErrorKind::InvalidIoSpec => "invalid IoSpec, refer to --help for more information".to_owned(),
            ErrorKind::UnknownMode => "the mode can be either sender or receiver".to_owned(),
            ErrorKind::InvalidCipher => "invalid cipher".to_owned(),
            ErrorKind::InvalidKey => "invalid key".to_owned(),
            ErrorKind::InvalidIv => "invalid IV".to_owned(),
            ErrorKind::NoSuchHost => "no such host".to_owned(),
            ErrorKind::InvalidPort => "invalid port".to_owned(),
        }
    }
}

/// Which part a client plays.
#[derive(Clone, Copy, Debug, PartialEq, Eq, Structural)]
pub enum Mode {
    Local,
    /// whether this is the sender
    Remote(bool),
    /// two remotes
    Controller,
}

/// The mode that a text stands for, if any.
pub open spec fn mode_of(text: Seq<char>) -> Option<Mode> {
    if text == "l"@ {
        Some(Mode::Local)
    } else if text == "rr"@ {
        Some(Mode::Remote(false))
    } else if text == "rs"@ {
        Some(Mode::Remote(true))
    } else if text == "c"@ {
        Some(Mode::Controller)
    } else {
        None
    }
}

impl Mode {
    pub fn from_str(text: &str) -> (result: Result<Mode, Error>)
        ensures
            match result {
                Ok(mode) => mode_of(text@) == Some(mode),
                Err(error) => mode_of(text@) is None && error.kind == ErrorKind::UnknownMode,
            },
    {
        if same_text(text, "l") {
            Ok(Mode::Local)
        } else if same_text(text, "rr") {
            Ok(Mode::Remote(false))
        } else if same_text(text, "rs") {
            Ok(Mode::Remote(true))
        } else if same_text(text, "c") {
            Ok(Mode::Controller)
        } else {
            Err(Error::unknown_mode())
        }
    }
}

/// How a client sets up the control streams.
#[derive(Clone, Copy, Debug, PartialEq, Eq, Structural)]
pub enum SetupMode {
    Listen,
    Connect,
}

/// How a setup mode is written.
pub open spec fn setup_text(mode: SetupMode) -> Seq<char> {
    match mode {
        SetupMode::Listen => "l"@,
        SetupMode::Connect => "c"@,
    }
}

/// The setup mode of the other end.
pub open spec fn opposite(mode: SetupMode) -> SetupMode {
    match mode {
        SetupMode::Listen => SetupMode::Connect,
        SetupMode::Connect => SetupMode::Listen,
    }
}

impl SetupMode {
    pub fn from_str(text: &str) -> (result: Result<SetupMode, Error>)
        ensures
            match result {
                Ok(mode) => text@ == setup_text(mode),
                Err(error) => {
                    &&& forall|unlike: SetupMode| text@ != #[trigger] setup_text(unlike)
                    &&& text@ != setup_text(SetupMode::Listen)
                    &&& text@ != setup_text(SetupMode::Connect)
                    &&& error.kind == ErrorKind::UnknownMode
                },
            },
    {
        if same_text(text, "l") {
            Ok(SetupMode::Listen)
        } else if same_text(text, "c") {
            Ok(SetupMode::Connect)
        } else {
            Err(Error::unknown_mode())
        }
    }

    /// How the mode is written.
    pub fn text(&self) -> (text: &'static str)
        ensures
            text@ == setup_text(*self),
    {
        match self {
            SetupMode::Listen => "l",
            SetupMode::Connect => "c",
        }
    }

    /// The mode of the other end.
    pub fn not(self) -> (mode: SetupMode)
        ensures
            mode == opposite(self),
    {
        match self {
            SetupMode::Listen => SetupMode::Connect,
            SetupMode::Connect => SetupMode::Listen,
        }
    }
}

/// The two setup modes are written differently, and each is the other's opposite: so one end
/// listens exactly where the other connects.
pub proof fn law_setup_modes(mode: SetupMode, other: SetupMode)
    ensures
        setup_text(mode) == setup_text(other) <==> mode == other,
        opposite(opposite(mode)) == mode,
        opposite(mode) != mode,
{
    reveal_strlit("l");
    reveal_strlit("c");
    assert("l"@[0] == 'l');
    assert("c"@[0] == 'c');
}

/// The mode of a client is known by its text, and by no other.
pub proof fn law_mode_texts(text: &str, result: Result<Mode, Error>)
    requires
        call_ensures(Mode::from_str, (text,), result),
    ensures
        result == Ok::<Mode, Error>(Mode::Local) <==> text@ == "l"@,
        result == Ok::<Mode, Error>(Mode::Controller) <==> text@ == "c"@,
        result == Ok::<Mode, Error>(Mode::Remote(true)) <==> text@ == "rs"@,
        result == Ok::<Mode, Error>(Mode::Remote(false)) <==> text@ == "rr"@,
        result matches Err(error) ==> error.kind == ErrorKind::UnknownMode,
{
    reveal_strlit("l");
    reveal_strlit("c");
    reveal_strlit("rs");
    reveal_strlit("rr");
    assert("l"@[0] == 'l' && "c"@[0] == 'c' && "rs"@[1] == 's' && "rr"@[1] == 'r');
}

/// A setup mode is read as it is written: `l` where the client listens, `c` where it connects.
pub proof fn law_setup_texts(
    mode: SetupMode,
    text: &'static str,
    result: Result<SetupMode, Error>,
    other: &str,
    read: Result<SetupMode, Error>,
    opposed: SetupMode,
)
    requires
        call_ensures(SetupMode::text, (&mode,), text),
        call_ensures(SetupMode::from_str, (text,), result),
        call_ensures(SetupMode::from_str, (other,), read),
        call_ensures(SetupMode::not, (mode,), opposed),
    ensures
        result == Ok::<SetupMode, Error>(mode),
        mode == SetupMode::Listen <==> text@ == "l"@,
        mode == SetupMode::Connect <==> text@ == "c"@,
        read is Ok <==> other@ == "l"@ || other@ == "c"@,
        opposed != mode,
{
    law_setup_modes(mode, SetupMode::Listen);
    law_setup_modes(mode, SetupMode::Connect);
    law_setup_modes(SetupMode::Listen, SetupMode::Connect);
    if let Ok(found) = result {
        law_setup_modes(mode, found);
    }
    if let Err(error) = result {
        assert(text@ != setup_text(mode));
    }
    if other@ == "l"@ {
        assert(other@ == setup_text(SetupMode::Listen));
    }
    if other@ == "c"@ {
        assert(other@ == setup_text(SetupMode::Connect));
    }
}

/// Faults of different kinds read differently, and what the system reported reads as that.
pub proof fn law_option_errors(error: Error, text: String, other: Error, other_text: String)
    requires
        call_ensures(Error::message, (&error,), text),
        call_ensures(Error::message, (&other,), other_text),
        !(error.kind is Io),
        !(other.kind is Io),
    ensures
        text@ == other_text@ <==> (error.kind == other.kind || error.kind is Decode
            && other.kind is Decode),
{
    reveal_strlit("description() is deprecated; use Display");
    reveal_strlit("invalid IoSpec, refer to --help for more information");
    reveal_strlit("the mode can be either sender or receiver");
    reveal_strlit("invalid cipher");
    reveal_strlit("invalid key");
    reveal_strlit("invalid IV");
    reveal_strlit("no such host");
    reveal_strlit("invalid port");
    assert("description() is deprecated; use Display"@[0] == 'd');
    assert("invalid IoSpec, refer to --help for more information"@.len() == 52);
    assert("the mode can be either sender or receiver"@[0] == 't');
    assert("invalid cipher"@.len() == 14);
    assert("invalid key"@.len() == 11);
    assert("invalid IV"@.len() == 10);
    assert("no such host"@[0] == 'n');
    assert("invalid port"@.len() == 12 && "invalid port"@[0] == 'i');
}

/// Faults are of the kinds that they are made as.
pub proof fn law_fault_kinds(
    key: Error,
    iv: Error,
    cipher: Error,
    spec: Error,
    host: Error,
    mode: Error,
    port: Error,
)
    requires
        call_ensures(Error::invalid_key, (), key),
        call_ensures(Error::invalid_iv, (), iv),
        call_ensures(Error::invalid_cipher, (), cipher),
        call_ensures(Error::invalid_io_spec, (), spec),
        call_ensures(Error::no_such_host, (), host),
        call_ensures(Error::unknown_mode, (), mode),
        call_ensures(Error::invalid_port, (), port),
    ensures
        key.kind is InvalidKey,
        iv.kind is InvalidIv,
        cipher.kind is InvalidCipher,
        spec.kind is InvalidIoSpec,
        host.kind is NoSuchHost,
        mode.kind is UnknownMode,
        port.kind is InvalidPort,
{
}

} // verus!
