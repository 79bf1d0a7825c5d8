//! Decides how a client runs: its ports, its part, its streams, and the remote command.

use crate::cipher::{
    crypto_ready, following_crypto, stream_key, unknown_cipher_text, CipherStream,
};
use crate::error::{Error, ErrorKind};
use crate::items::{cipher_of_number, iv_len, key_len, CryptoView};
use crate::options::command::Options;
use crate::options::crypto::{crypto_matches, law_crypto_text, CryptoFields};
use crate::options::io_spec::{is_local_spec, socket_text, IoSpec, SocketAddr};
use crate::options::Mode;
use crate::stats::{law_stats_line, stats_payload};
use crate::text::{
    contains, law_without_breaks, occurs_at, occurs_in, remove_breaks, same_text, without_breaks,
};
use vstd::prelude::*;

verus! {

/// What is wrong with the options of a local client.
#[derive(Clone, Copy, Debug, PartialEq, Eq, Structural)]
pub enum OptionFault {
    EndBeforeStart,
    TooFewPorts,
    BothLocal,
}

/// How a fault reads.
pub open spec fn fault_text(fault: OptionFault) -> Seq<char> {
    match fault {
        OptionFault::EndBeforeStart => "end port must be greater than start port"@,
        OptionFault::TooFewPorts => "a minimum of three ports are required"@,
        OptionFault::BothLocal => "both the source and destination cannot be local"@,
    }
}

impl OptionFault {
    /// How the fault reads.
    pub fn text(&self) -> (text: &'static str)
        ensures
            text@ == fault_text(*self),
    {
        match self {
            OptionFault::EndBeforeStart => "end port must be greater than start port",
            OptionFault::TooFewPorts => "a minimum of three ports are required",
            OptionFault::BothLocal => "both the source and destination cannot be local",
        }
    }
}

/// The last port and the number of threads that a client uses.
#[derive(Clone, Copy, Debug, PartialEq, Eq, Structural)]
pub struct Ports {
    pub end_port: u16,
    pub threads: usize,
}

/// How many of the ports from `start` to `end` carry data: the first two are used for control.
pub open spec fn data_ports(start: int, end: int) -> int {
    end - start - 1
}

/// The number of data streams that are wanted: one at least.
pub open spec fn wanted_streams(threads: usize) -> int {
    if threads == 0 {
        1
    } else {
        threads as int
    }
}

/// The ports and threads that fit each other: of each, only as many as of the other, and one at
/// least.
pub open spec fn fitted_ports(start: u16, end: u16, threads: usize) -> Result<Ports, OptionFault> {
    let ports = data_ports(start as int, end as int);
    let wanted = wanted_streams(threads);
    if start > end {
        Err(OptionFault::EndBeforeStart)
    } else if ports < 1 {
        Err(OptionFault::TooFewPorts)
    } else if ports < wanted {
        Ok(Ports { end_port: end, threads: ports as usize })
    } else {
        Ok(Ports { end_port: (start + wanted + 1) as u16, threads: wanted as usize })
    }
}

/// Makes the ports and the threads of a local client fit each other.
pub fn fit_ports(start: u16, end: u16, threads: usize) -> (result: Result<Ports, OptionFault>)
    requires
        !(start == 0 && end == u16::MAX),
    ensures
        result == fitted_ports(start, end, threads),
{
    if start > end {
        return Err(OptionFault::EndBeforeStart);
    }
    let port_count: u16 = end - start + 1;
    if port_count < 3 {
        return Err(OptionFault::TooFewPorts);
    }
    let ports: usize = (port_count - 2) as usize;
    let wanted: usize = if threads == 0 {
        1
    } else {
        threads
    };
    if ports < wanted {
        // decreasing threads
        Ok(Ports { end_port: end, threads: ports })
    } else {
        // dropping ports that no thread needs
        Ok(Ports { end_port: start + wanted as u16 + 1, threads: wanted })
    }
}

/// Fitted ports lie within the given ones, there are at least three of them, and behind the two
/// for control there is one for each thread and no other.
pub proof fn law_ports(start: u16, end: u16, threads: usize)
    requires
        fitted_ports(start, end, threads) is Ok,
    ensures
        ({
            let fitted = fitted_ports(start, end, threads)->Ok_0;
            &&& start + 2 <= fitted.end_port <= end
            &&& data_ports(start as int, fitted.end_port as int) == fitted.threads
            &&& 1 <= fitted.threads <= wanted_streams(threads)
        }),
{
}

/// The mode of a client, once it is known where the source and the destination are.
pub fn select_mode(source_local: bool, destination_local: bool) -> (result: Result<
    Mode,
    OptionFault,
>)
    ensures
        match result {
            Ok(mode) => {
                &&& !(source_local && destination_local)
                &&& mode == if !source_local && !destination_local {
                    Mode::Controller
                } else {
                    Mode::Local
                }
            },
            Err(fault) => source_local && destination_local && fault == OptionFault::BothLocal,
        },
{
    if source_local && destination_local {
        Err(OptionFault::BothLocal)
    } else if !source_local && !destination_local {
        // switching to controller mode
        Ok(Mode::Controller)
    } else {
        Ok(Mode::Local)
    }
}

/// Validates the options of a client, and fits them: only a local client needs to.
pub fn validate(options: &mut Options) -> (result: Result<(), OptionFault>)
    requires
        !(old(options).mode == Mode::Local && old(options).start_port == 0 && old(options).end_port
            == u16::MAX),
    ensures
        match result {
            Err(fault) => {
                &&& old(options).mode == Mode::Local
                &&& match fitted_ports(
                    old(options).start_port,
                    old(options).end_port,
                    old(options).threads,
                ) {
                    Err(ports) => fault == ports,
                    Ok(_) => is_local_spec(old(options).source) && is_local_spec(
                        old(options).destination,
                    ) && fault == OptionFault::BothLocal,
                }
                &&& *final(options) == *old(options)
            },
            Ok(()) => if old(options).mode == Mode::Local {
                &&& fitted_ports(
                    old(options).start_port,
                    old(options).end_port,
                    old(options).threads,
                ) == Ok::<Ports, OptionFault>(
                    Ports { end_port: final(options).end_port, threads: final(options).threads },
                )
                &&& !(is_local_spec(old(options).source) && is_local_spec(
                    old(options).destination,
                ))
                &&& *final(options) == (Options {
                    end_port: final(options).end_port,
                    threads: final(options).threads,
                    mode: if !is_local_spec(old(options).source) && !is_local_spec(
                        old(options).destination,
                    ) {
                        Mode::Controller
                    } else {
                        Mode::Local
                    },
                    ..*old(options)
                })
            } else {
                *final(options) == *old(options)
            },
        },
{
    match options.mode {
        Mode::Local => {},
        _ => return Ok(()),
    }
    let ports = match fit_ports(options.start_port, options.end_port, options.threads) {
        Err(fault) => return Err(fault),
        Ok(ports) => ports,
    };
    match select_mode(options.source.is_local(), options.destination.is_local()) {
        Err(fault) => Err(fault),
        Ok(mode) => {
            options.end_port = ports.end_port;
            options.threads = ports.threads;
            options.mode = mode;
            Ok(())
        },
    }
}

/// Where the log goes.
#[derive(Debug)]
pub enum LogTarget {
    File(String),
    Stderr,
}

/// Where a client logs: a local one to the file that was asked for, or to the error output; the
/// others to a file of their own.
pub fn log_target(mode: Mode, log_file: &Option<String>) -> (target: LogTarget)
    ensures
        match (mode, log_file) {
            (Mode::Local, Some(path)) => target matches LogTarget::File(file) && file@ == path@,
            (Mode::Local, None) => target is Stderr,
            _ => target matches LogTarget::File(file) && file@ == "cccp.log"@,
        },
{
    match mode {
        Mode::Local => match log_file {
            Some(path) => LogTarget::File(path.clone()),
            None => LogTarget::Stderr,
        },
        _ => LogTarget::File("cccp.log".to_owned()),
    }
}

/// The two ends of a transfer with one remote end.
pub struct Ends<'a> {
    /// whether the local end sends
    pub sender: bool,
    pub remote: &'a IoSpec,
    /// the host of the remote end
    pub host: &'a SocketAddr,
}

/// The ends of a transfer of which one is local; the other one has a host.
pub fn ends<'a>(source: &'a IoSpec, destination: &'a IoSpec) -> (ends: Ends<'a>)
    requires
        is_local_spec(*source) != is_local_spec(*destination),
    ensures
        ends.sender == is_local_spec(*source),
        *ends.remote == if is_local_spec(*source) {
            *destination
        } else {
            *source
        },
        ends.remote.host == Some(*ends.host),
{
    let sender = source.is_local();
    let remote = if sender {
        destination
    } else {
        source
    };
    // unwrap is safe because host must be specified for remote IoSpec
    Ends { sender, remote, host: remote.host.as_ref().unwrap() }
}

/// The hosts of a transfer of which both ends have one.
pub fn remote_hosts<'a>(source: &'a IoSpec, destination: &'a IoSpec) -> (hosts: (
    &'a SocketAddr,
    &'a SocketAddr,
))
    requires
        source.host is Some,
        destination.host is Some,
    ensures
        source.host == Some(*hosts.0),
        destination.host == Some(*hosts.1),
{
    (source.host.as_ref().unwrap(), destination.host.as_ref().unwrap())
}

/// Makes the next control stream: with the cipher of the settings as they are, which then get
/// the following initialisation vector, as the port gets the following number.
pub fn next_stream(options: &mut Options) -> (result: Result<CipherStream, Error>)
    requires
        cipher_of_number(old(options).control_crypto.cipher) is Some ==> crypto_ready(
            old(options).control_crypto@,
        ),
        old(options).start_port < u16::MAX,
    ensures
        match result {
            Ok(stream) => {
                &&& stream.cipher.starts(old(options).control_crypto@)
                &&& final(options).control_crypto@ == following_crypto(
                    old(options).control_crypto@,
                )
                &&& *final(options) == (Options {
                    control_crypto: final(options).control_crypto,
                    start_port: (old(options).start_port + 1) as u16,
                    ..*old(options)
                })
            },
            Err(error) => {
                &&& cipher_of_number(old(options).control_crypto.cipher) is None
                &&& error.kind matches ErrorKind::Decode(text) && text@ == unknown_cipher_text()
                &&& *final(options) == *old(options)
            },
        },
{
    match CipherStream::new(&options.control_crypto) {
        Ok(stream) => {
            options.control_crypto.next_iv();
            options.start_port = options.start_port + 1;
            Ok(stream)
        },
        Err(error) => Err(error),
    }
}

/// The settings after some streams.
pub open spec fn after_streams(crypto: CryptoView, count: nat) -> CryptoView
    decreases count,
{
    if count == 0 {
        crypto
    } else {
        following_crypto(after_streams(crypto, (count - 1) as nat))
    }
}

/// The two ends have the same streams: where the settings of one end fit their cipher, and the
/// other end has read them from how they are written, each stream has the same keystream at
/// both ends.
pub proof fn law_peer_streams(
    crypto: CryptoView,
    fields: CryptoFields,
    read: CryptoView,
    count: nat,
)
    requires
        cipher_of_number(crypto.cipher) is Some,
        crypto.key.len() == key_len(cipher_of_number(crypto.cipher)->0),
        crypto.iv.len() == iv_len(cipher_of_number(crypto.cipher)->0),
        fields == (CryptoFields {
            cipher: cipher_of_number(crypto.cipher),
            key: Some(Ok(crypto.key)),
            iv: Some(Ok(crypto.iv)),
        }),
        crypto_matches(fields, read),
    ensures
        stream_key(after_streams(crypto, count)) == stream_key(after_streams(read, count)),
{
    law_crypto_text(crypto, fields, read);
}

/// What the end of the remote command means: `Ok` only for success, on which the transfer goes
/// on by itself.
pub fn command_result(status: Result<u32, Error>) -> (result: Result<(), Error>)
    ensures
        match status {
            Ok(status) => if status != 0 {
                result matches Err(error) && error.kind == ErrorKind::CommandFailed(status)
            } else {
                result is Ok
            },
            Err(error) => result == Err::<(), Error>(error),
        },
{
    match status {
        Ok(status) => if status != 0 {
            Err(Error::command_failed(status))
        } else {
            Ok(())
        },
        Err(error) => Err(error),
    }
}

/// What comes from the channel of a remote command.
#[derive(Debug)]
pub enum ChannelEvent {
    /// bytes of its output
    Data(Vec<u8>),
    /// text of its error output
    Stderr(String),
    ExitStatus(u32),
    Other,
    Closed,
}

/// What an event leads to.
#[derive(Debug)]
pub enum CommandStep {
    /// a report of the remote client, encoded
    Report(Vec<u8>),
    /// something to log
    Log(String),
    /// the command has ended
    Exited(u32),
    Nothing,
}

/// What a shell of Windows says of a command that it does not know.
pub const NOT_RECOGNIZED: &'static str = "not recognized as an internal or external command";

/// What an event of a remote command leads to.
pub fn command_step(event: ChannelEvent) -> (result: Result<CommandStep, Error>)
    requires
        event matches ChannelEvent::Data(data) ==> data@.len() > 0,
    ensures
        match event {
            ChannelEvent::Data(data) => result matches Ok(CommandStep::Report(payload))
                && payload@ == data@.drop_last(),
            ChannelEvent::Stderr(text) => if occurs_in(
                NOT_RECOGNIZED@,
                without_breaks(text@, false),
            ) {
                result matches Err(error) && error.kind == ErrorKind::CommandNotFound
            } else {
                result matches Ok(CommandStep::Log(line)) && line@ == without_breaks(text@, false)
            },
            ChannelEvent::ExitStatus(status) => if status == 127 {
                result matches Err(error) && error.kind == ErrorKind::CommandNotFound
            } else {
                result == Ok::<CommandStep, Error>(CommandStep::Exited(status))
            },
            ChannelEvent::Other => result == Ok::<CommandStep, Error>(CommandStep::Nothing),
            ChannelEvent::Closed => result matches Err(error) && error.kind
                == ErrorKind::NoExitStatus,
        },
{
    match event {
        // the remote client sends stats messages to stdout
        ChannelEvent::Data(data) => Ok(CommandStep::Report(stats_payload(&data))),
        ChannelEvent::Stderr(text) => {
            let line = remove_breaks(text.as_str(), false);
            if contains(line.as_str(), NOT_RECOGNIZED) {
                Err(Error::command_not_found())
            } else {
                Ok(CommandStep::Log(line))
            }
        },
        ChannelEvent::ExitStatus(status) => if status == 127 {
            Err(Error::command_not_found())
        } else {
            Ok(CommandStep::Exited(status))
        },
        ChannelEvent::Other => Ok(CommandStep::Nothing),
        ChannelEvent::Closed => Err(Error::no_exit_status()),
    }
}

/// The line that tells a remote client to stop.
pub const STOP_LINE: &'static str = "STOP\n";

/// Whether a line of the input tells a client to stop.
pub fn is_stop(line: &str) -> (stop: bool)
    ensures
        stop == occurs_in("STOP"@, line@),
{
    contains(line, "STOP")
}

/// The line that tells a client to stop is understood, without the line feed at its end.
pub proof fn law_stop()
    ensures
        occurs_in("STOP"@, STOP_LINE@.drop_last()),
{
    reveal_strlit("STOP");
    reveal_strlit("STOP\n");
    let line = STOP_LINE@.drop_last();
    assert(line.subrange(0, 4) =~= "STOP"@);
    assert(occurs_at("STOP"@, line, 0));
}

/// Why a client could not connect by ssh.
#[derive(Clone, Copy, Debug, PartialEq, Eq, Structural)]
pub enum ConnectFault {
    KeyAuthFailed,
    PasswordWrong,
    Other,
}

/// Whether to try again with a password.
pub fn asks_password(fault: ConnectFault) -> (asks: bool)
    ensures
        asks == (fault != ConnectFault::Other),
{
    match fault {
        ConnectFault::KeyAuthFailed => true,
        ConnectFault::PasswordWrong => true,
        ConnectFault::Other => false,
    }
}

/// What the user is asked.
pub fn password_prompt(host: &SocketAddr) -> (prompt: String)
    ensures
        prompt@ == socket_text(*host) + " password: "@,
{
    host.text().concat(" password: ")
}

/// Whether the arguments of the program, the first of which is its name, ask for an
/// installation.
pub fn is_install(arguments: &Vec<String>) -> (install: bool)
    ensures
        install == (arguments@.len() > 1 && arguments@[1]@ == "install"@),
{
    arguments.len() > 1 && same_text(arguments[1].as_str(), "install")
}

/// The ports are fitted to the threads and the threads to the ports, and no further: there are two
/// ports for control and one for each thread, as many threads as were asked for, or as the ports
/// allow. It fails exactly where there are not three ports.
pub proof fn law_fit_ports(start: u16, end: u16, threads: usize, result: Result<Ports, OptionFault>)
    requires
        !(start == 0 && end == u16::MAX),
        call_ensures(fit_ports, (start, end, threads), result),
    ensures
        start > end ==> result == Err::<Ports, OptionFault>(OptionFault::EndBeforeStart),
        start <= end < start + 2 ==> result == Err::<Ports, OptionFault>(OptionFault::TooFewPorts),
        start + 2 <= end ==> (result matches Ok(ports) && {
            &&& start + 1 + ports.threads == ports.end_port
            &&& ports.end_port <= end
            &&& ports.threads >= 1
            &&& threads >= 1 ==> ports.threads <= threads
            &&& ports.threads < threads ==> ports.end_port == end
            &&& threads <= 1 ==> ports.threads == 1
        }),
{
}

/// A client is local where one end is here and the other is not, it controls two others where
/// neither is, and it does not run where both are.
pub proof fn law_select_mode(
    source_local: bool,
    destination_local: bool,
    result: Result<Mode, OptionFault>,
    swapped: Result<Mode, OptionFault>,
)
    requires
        call_ensures(select_mode, (source_local, destination_local), result),
        call_ensures(select_mode, (destination_local, source_local), swapped),
    ensures
        result == swapped,
        source_local != destination_local ==> result == Ok::<Mode, OptionFault>(Mode::Local),
        !source_local && !destination_local ==> result == Ok::<Mode, OptionFault>(Mode::Controller),
        source_local && destination_local ==> result == Err::<Mode, OptionFault>(
            OptionFault::BothLocal,
        ),
{
}

/// Validation leaves everything but the last port, the threads and the mode; it leaves these, too,
/// of a client that is not local, which is always valid; and of a local one it makes the ports fit,
/// and the mode the one that the two ends ask for.
pub proof fn law_validate(options: &mut Options, result: Result<(), OptionFault>)
    requires
        !(options.mode == Mode::Local && options.start_port == 0 && options.end_port == u16::MAX),
        call_ensures(validate, (options,), result),
    ensures
        ({
            let before = *old(options);
            let after = *final(options);
            let here = is_local_spec(before.source);
            let there = is_local_spec(before.destination);
            &&& after == Options {
                end_port: after.end_port,
                threads: after.threads,
                mode: after.mode,
                ..before
            }
            &&& before.mode != Mode::Local ==> result is Ok && after == before
            &&& result is Err ==> after == before
            &&& before.mode == Mode::Local ==> (result is Ok <==> before.start_port + 2
                <= before.end_port && !(here && there))
            &&& before.mode == Mode::Local && result is Ok ==> {
                &&& before.start_port + 1 + after.threads == after.end_port
                &&& after.end_port <= before.end_port
                &&& after.threads >= 1
                &&& after.threads < before.threads ==> after.end_port == before.end_port
                &&& after.threads <= before.threads || before.threads == 0 && after.threads == 1
                &&& after.mode == Mode::Controller <==> !here && !there
                &&& after.mode == Mode::Local <==> here != there
            }
            &&& before.mode == Mode::Local && before.start_port > before.end_port ==> result
                == Err::<(), OptionFault>(OptionFault::EndBeforeStart)
            &&& before.mode == Mode::Local && before.start_port <= before.end_port
                < before.start_port + 2 ==> result == Err::<(), OptionFault>(
                OptionFault::TooFewPorts,
            )
            &&& before.mode == Mode::Local && before.start_port + 2 <= before.end_port && here
                && there ==> result == Err::<(), OptionFault>(OptionFault::BothLocal)
        }),
{
}

/// Only a local client writes to the error output, and only where no file was asked for; the file
/// that was asked for is only for a local one.
pub proof fn law_log_target(mode: Mode, log_file: Option<String>, target: LogTarget)
    requires
        call_ensures(log_target, (mode, &log_file), target),
    ensures
        target is Stderr <==> mode == Mode::Local && log_file is None,
        mode == Mode::Local && log_file is Some ==> (target matches LogTarget::File(path) && path@
            == log_file->0@),
        mode != Mode::Local ==> (target matches LogTarget::File(path) && path@ == "cccp.log"@),
{
}

/// The remote end is the one that is not local, and the local end sends exactly where the source is
/// local.
pub proof fn law_ends<'a>(source: &'a IoSpec, destination: &'a IoSpec, result: Ends<'a>)
    requires
        is_local_spec(*source) != is_local_spec(*destination),
        call_ensures(ends, (source, destination), result),
    ensures
        !is_local_spec(*result.remote),
        result.sender ==> *result.remote == *destination,
        !result.sender ==> *result.remote == *source,
        result.sender <==> is_local_spec(*source),
        result.remote.host == Some(*result.host),
{
}

/// Every stream has a port of its own and, where there is a cipher, settings of its own, with the
/// same cipher and key; the other options stay.
pub proof fn law_next_stream(options: &mut Options, result: Result<CipherStream, Error>)
    requires
        cipher_of_number(options.control_crypto.cipher) is Some ==> crypto_ready(
            options.control_crypto@,
        ),
        options.start_port < u16::MAX,
        call_ensures(next_stream, (options,), result),
    ensures
        result is Ok <==> cipher_of_number(old(options).control_crypto.cipher) is Some,
        result matches Ok(stream) ==> {
            &&& stream.cipher.spec_position() == 0
            &&& stream.cipher.stream_key() == stream_key(old(options).control_crypto@)
            &&& final(options).start_port == old(options).start_port + 1
            &&& final(options).control_crypto.cipher == old(options).control_crypto.cipher
            &&& final(options).control_crypto.key@ == old(options).control_crypto.key@
            &&& final(options).end_port == old(options).end_port
            &&& final(options).threads == old(options).threads
            &&& final(options).source == old(options).source
            &&& final(options).destination == old(options).destination
            &&& final(options).stream_crypto == old(options).stream_crypto
            &&& final(options).mode == old(options).mode
        },
        result is Err ==> *final(options) == *old(options),
{
}

/// Only a status of zero is a success; any other ends the transfer, and is told.
pub proof fn law_command_result(status: u32, result: Result<(), Error>)
    requires
        call_ensures(command_result, (Ok(status),), result),
    ensures
        result is Ok <==> status == 0,
        result matches Err(error) ==> error.kind == ErrorKind::CommandFailed(status),
{
}

/// What the remote client writes as a report is understood as that report.
pub proof fn law_remote_report(
    encoded: Vec<u8>,
    line: Vec<u8>,
    result: Result<CommandStep, Error>,
)
    requires
        call_ensures(crate::stats::stats_line, (&encoded,), line),
        call_ensures(command_step, (ChannelEvent::Data(line),), result),
    ensures
        result matches Ok(CommandStep::Report(payload)) && payload@ == encoded@,
{
    law_stats_line(encoded@);
}

/// The end of the command is told with its status, but for the status that says that there is no
/// such command; a channel that closes before is an error, and anything else leads to nothing.
pub proof fn law_command_step(
    status: u32,
    exited: Result<CommandStep, Error>,
    closed: Result<CommandStep, Error>,
    other: Result<CommandStep, Error>,
    text: String,
    logged: Result<CommandStep, Error>,
)
    requires
        call_ensures(command_step, (ChannelEvent::ExitStatus(status),), exited),
        call_ensures(command_step, (ChannelEvent::Closed,), closed),
        call_ensures(command_step, (ChannelEvent::Other,), other),
        call_ensures(command_step, (ChannelEvent::Stderr(text),), logged),
    ensures
        status != 127 ==> exited == Ok::<CommandStep, Error>(CommandStep::Exited(status)),
        status == 127 ==> (exited matches Err(error) && error.kind == ErrorKind::CommandNotFound),
        closed matches Err(error) && error.kind == ErrorKind::NoExitStatus,
        other == Ok::<CommandStep, Error>(CommandStep::Nothing),
        logged matches Ok(step) ==> (step matches CommandStep::Log(line) && !line@.contains('\n')
            && line@ == without_breaks(text@, false)),
        logged matches Err(error) ==> error.kind == ErrorKind::CommandNotFound && occurs_in(
            "not recognized as an internal or external command"@,
            without_breaks(text@, false),
        ),
        occurs_in(
            "not recognized as an internal or external command"@,
            without_breaks(text@, false),
        ) ==> logged is Err,
{
    law_without_breaks(text@, Seq::empty(), ' ', false);
}

/// A line stops a client exactly where `STOP` stands in it.
pub proof fn law_is_stop(line: &str, stop: bool, before: Seq<char>, behind: Seq<char>)
    requires
        call_ensures(is_stop, (line,), stop),
    ensures
        line@ == before + "STOP"@ + behind ==> stop,
        stop ==> exists|i: int|
            0 <= i && i + 4 <= line@.len() && #[trigger] line@[i] == 'S' && line@[i + 1] == 'T'
                && line@[i + 2] == 'O' && line@[i + 3] == 'P',
{
    reveal_strlit("STOP");
    if line@ == before + "STOP"@ + behind {
        let at = before.len() as int;
        assert(line@.subrange(at, at + "STOP"@.len()) =~= "STOP"@);
        assert(occurs_at("STOP"@, line@, at));
    }
    if stop {
        let i = choose|i: int| #[trigger] occurs_at("STOP"@, line@, i);
        let part = line@.subrange(i, i + 4);
        assert(part[0] == 'S' && part[1] == 'T' && part[2] == 'O' && part[3] == 'P');
        assert(line@[i] == 'S');
    }
}

/// A password helps where the key or the password was refused, and only there.
pub proof fn law_asks_password(fault: ConnectFault, asks: bool)
    requires
        call_ensures(asks_password, (fault,), asks),
    ensures
        fault == ConnectFault::KeyAuthFailed || fault == ConnectFault::PasswordWrong ==> asks,
        fault == ConnectFault::Other ==> !asks,
{
}

/// An installation is asked for by the word behind the name of the program, and by no other.
pub proof fn law_is_install(arguments: Vec<String>, install: bool)
    requires
        call_ensures(is_install, (&arguments,), install),
    ensures
        install ==> arguments@.len() >= 2 && arguments@[1]@ == "install"@,
        arguments@.len() >= 2 && arguments@[1]@ == "install"@ ==> install,
{
}

/// The faults read differently.
pub proof fn law_fault_texts(fault: OptionFault, other: OptionFault)
    ensures
        fault_text(fault) == fault_text(other) <==> fault == other,
{
    reveal_strlit("end port must be greater than start port");
    reveal_strlit("a minimum of three ports are required");
    reveal_strlit("both the source and destination cannot be local");
    assert("end port must be greater than start port"@[0] == 'e');
    assert("a minimum of three ports are required"@[0] == 'a');
    assert("both the source and destination cannot be local"@[0] == 'b');
}

/// The user is told whose password is asked for.
pub proof fn law_password_prompt(host: SocketAddr, prompt: String)
    requires
        call_ensures(password_prompt, (&host,), prompt),
    ensures
        prompt@.len() == socket_text(host).len() + " password: "@.len(),
        prompt@.take(socket_text(host).len() as int) == socket_text(host),
        prompt@.skip(socket_text(host).len() as int) == " password: "@,
{
    let text = socket_text(host);
    assert(prompt@.take(text.len() as int) =~= text);
    assert(prompt@.skip(text.len() as int) =~= " password: "@);
}

/// The hosts are those of the source and of the destination.
pub proof fn law_remote_hosts<'a>(
    source: &'a IoSpec,
    destination: &'a IoSpec,
    hosts: (&'a SocketAddr, &'a SocketAddr),
)
    requires
        source.host is Some,
        destination.host is Some,
        call_ensures(remote_hosts, (source, destination), hosts),
    ensures
        *hosts.0 == source.host->0,
        *hosts.1 == destination.host->0,
{
}

} // verus!
