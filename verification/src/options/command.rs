//! The options of a transfer, and the command that runs it on a remote host.

use crate::items::{cipher_of_number, Crypto};
use crate::options::crypto::crypto_text;
use crate::options::io_spec::{spec_text, IoSpec};
use crate::options::{mode_of, setup_text, Mode, SetupMode};
use crate::packet::PACKET_SIZE;
use crate::text::{
    all_digits, decimal, decimal_string, digits_value, first_field, is_digit, join, joined,
    law_joined_parts, lemma_decimal, lemma_first_field, rest_fields,
};
use bytesize::ByteSize;
use vstd::arithmetic::power::{lemma_pow_positive, pow};
use vstd::prelude::*;

verus! {

/// How much is logged.
#[derive(Clone, Copy, Debug, PartialEq, Eq, Structural)]
pub enum LogLevel {
    Off,
    Error,
    Warn,
    Info,
    Debug,
    Trace,
}

/// How a log level is written.
pub open spec fn level_text(level: LogLevel) -> Seq<char> {
    match level {
        LogLevel::Off => "OFF"@,
        LogLevel::Error => "ERROR"@,
        LogLevel::Warn => "WARN"@,
        LogLevel::Info => "INFO"@,
        LogLevel::Debug => "DEBUG"@,
        LogLevel::Trace => "TRACE"@,
    }
}

impl LogLevel {
    /// How the level is written.
    pub fn text(&self) -> (text: &'static str)
        ensures
            text@ == level_text(*self),
    {
        match self {
            LogLevel::Off => "OFF",
            LogLevel::Error => "ERROR",
            LogLevel::Warn => "WARN",
            LogLevel::Info => "INFO",
            LogLevel::Debug => "DEBUG",
            LogLevel::Trace => "TRACE",
        }
    }
}

/// The options of a transfer.
#[derive(Debug)]
pub struct Options {
    pub mode: Mode,
    pub stream_setup_mode: SetupMode,
    /// First port to use
    pub start_port: u16,
    /// Last port to use
    pub end_port: u16,
    /// Parallel data streams
    pub threads: usize,
    pub log_level: LogLevel,
    /// Data send rate in bytes per second
    pub rate: u64,
    /// Maximum concurrent transfers
    pub max: usize,
    /// Encrypt the control stream
    pub control_crypto: Crypto,
    /// Encrypt the data stream
    pub stream_crypto: Crypto,
    /// Receive timeout in MS
    pub receive_timeout: u64,
    /// Limit for concurrent jobs
    pub job_limit: usize,
    /// Requeue interval in MS
    pub requeue_interval: u64,
    /// Maximum number of send/receive retries
    pub max_retries: usize,
    /// Command to execute cccp
    pub command: String,
    /// How often to print progress in MS
    pub progress_interval: u64,
    /// Verify integrity of transfers using blake3
    pub verify: bool,
    /// Overwrite existing files
    pub overwrite: bool,
    /// Include subdirectories recursively
    pub recursive: bool,
    /// Do not check destination's available storage
    pub force: bool,
    /// Forces the destination to be a directory
    pub directory: bool,
    /// Log to a file
    pub log_file: Option<String>,
    /// Source IoSpec (InSpec)
    pub source: IoSpec,
    /// Destination IoSpec (OutSpec)
    pub destination: IoSpec,
}

/// A number of tenths with its unit: the unit with the exponent `n` is the n-th power of 1000
/// bytes.
pub open spec fn scaled_text(tenths: nat, exponent: nat) -> Seq<char>
    recommends
        1 <= exponent <= 6,
{
    decimal(tenths / 10) + "."@ + decimal(tenths % 10) + " "@ + seq!["KMGTPE"@[exponent - 1]]
        + "B"@
}

/// Whether a text stands for a rate: below 1000 the bytes themselves; from there on a number
/// with one decimal place of some unit, at least one of it, and off by a tenth at most.
pub open spec fn stands_for(text: Seq<char>, rate: u64) -> bool {
    if rate < 1000 {
        text == decimal(rate as nat) + " B"@
    } else {
        exists|tenths: nat, exponent: nat|
            {
                &&& 1 <= exponent <= 6
                &&& 10 <= tenths
                &&& text == #[trigger] scaled_text(tenths, exponent)
                &&& tenths * pow(1000, exponent) <= 10 * rate + pow(1000, exponent)
                &&& 10 * rate <= (tenths + 1) * pow(1000, exponent)
            }
    }
}

/// `ByteSize::to_string` of the crate `bytesize`: below 1000 the bytes and the unit `B`; from
/// there on the number of a larger unit, of which there is at least one, rounded to one decimal
/// place. A logarithm in floating point picks the unit, so which one it is where two come close
/// is left open. There are no quotes in the text.
#[verifier::external_body]
fn rate_text(rate: u64) -> (text: String)
    ensures
        stands_for(text@, rate),
        !text@.contains('"'),
{
    ByteSize(rate).to_string()
}

/// A flag, where it is set.
pub open spec fn flag(set: bool, text: Seq<char>) -> Seq<Seq<char>> {
    if set {
        seq![text]
    } else {
        Seq::empty()
    }
}

/// How the mode of the remote client is written, where the local one sends or not.
pub open spec fn remote_mode_text(sender: bool) -> Seq<char> {
    if sender {
        "rr"@
    } else {
        "rs"@
    }
}

/// The arguments that are always there, behind the optional ones.
pub open spec fn fixed_arguments(
    options: Options,
    sender: bool,
    mode: SetupMode,
    rate: Seq<char>,
) -> Seq<Seq<char>> {
    seq![
        "--mode "@ + remote_mode_text(sender),
        "--stream-setup-mode "@ + setup_text(mode),
        "-s "@ + decimal(options.start_port as nat),
        "-e "@ + decimal(options.end_port as nat),
        "-t "@ + decimal(options.threads as nat),
        "-l "@ + level_text(options.log_level),
        "-r \""@ + rate + "\""@,
        "-m "@ + decimal(options.max as nat),
        "-T "@ + decimal(options.receive_timeout as nat),
        "-j "@ + decimal(options.job_limit as nat),
        "-c "@ + crypto_text(options.control_crypto@),
        "-S "@ + crypto_text(options.stream_crypto@),
        "-i "@ + decimal(options.requeue_interval as nat),
        "-M "@ + decimal(options.max_retries as nat),
        "\""@ + spec_text(options.source) + "\""@,
        "\""@ + spec_text(options.destination) + "\""@,
    ]
}

/// The words of the command: the program, the optional arguments, and the ones that are always
/// there, with the IoSpecs last.
pub open spec fn command_words(
    options: Options,
    sender: bool,
    mode: SetupMode,
    rate: Seq<char>,
) -> Seq<Seq<char>> {
    seq![options.command@] + flag(options.directory, "-d"@) + flag(options.force, "-f"@) + flag(
        options.recursive,
        "-R"@,
    ) + flag(options.verify, "-v"@) + flag(options.overwrite, "-o"@) + fixed_arguments(
        options,
        sender,
        mode,
        rate,
    )
}

/// The texts of some strings.
pub open spec fn texts(strings: Seq<String>) -> Seq<Seq<char>> {
    strings.map_values(|string: String| string@)
}

/// Whether the options can be written: their cipher settings are of known ciphers, and short
/// enough to be encoded.
pub open spec fn is_writable(options: Options) -> bool {
    &&& cipher_of_number(options.control_crypto.cipher) is Some
    &&& cipher_of_number(options.stream_crypto.cipher) is Some
    &&& options.control_crypto.key@.len() <= usize::MAX / 2
    &&& options.control_crypto.iv@.len() <= usize::MAX / 2
    &&& options.stream_crypto.key@.len() <= usize::MAX / 2
    &&& options.stream_crypto.iv@.len() <= usize::MAX / 2
}

/// Puts a word made of three parts behind the others.
fn push_word(words: &mut Vec<String>, first: &str, second: &str, third: &str)
    ensures
        texts(final(words)@) == texts(old(words)@).push(first@ + second@ + third@),
{
    words.push(first.to_owned().concat(second).concat(third));
    proof {
        assert(texts(words@) =~= texts(old(words)@).push(first@ + second@ + third@));
    }
}

/// Puts a flag behind the other words, where it is set.
fn push_flag(words: &mut Vec<String>, set: bool, text: &str)
    ensures
        texts(final(words)@) == texts(old(words)@) + flag(set, text@),
{
    if set {
        words.push(text.to_owned());
    }
    proof {
        assert(texts(words@) =~= texts(old(words)@) + flag(set, text@));
    }
}

impl Options {
    /// The arguments that are always there.
    fn fixed_words(&self, sender: bool, mode: SetupMode, rate: &str) -> (words: Vec<String>)
        requires
            is_writable(*self),
        ensures
            texts(words@) == fixed_arguments(*self, sender, mode, rate@),
    {
        let mut words: Vec<String> = Vec::new();
        let remote_mode = if sender {
            "rr"
        } else {
            "rs"
        };
        proof {
            reveal_strlit("");
            lemma_nothing();
            assert(texts(words@) =~= Seq::empty());
        }
        push_word(&mut words, "--mode ", remote_mode, "");
        push_word(&mut words, "--stream-setup-mode ", mode.text(), "");
        push_word(&mut words, "-s ", decimal_string(self.start_port as u64).as_str(), "");
        push_word(&mut words, "-e ", decimal_string(self.end_port as u64).as_str(), "");
        push_word(&mut words, "-t ", decimal_string(self.threads as u64).as_str(), "");
        push_word(&mut words, "-l ", self.log_level.text(), "");
        push_word(&mut words, "-r \"", rate, "\"");
        push_word(&mut words, "-m ", decimal_string(self.max as u64).as_str(), "");
        push_word(&mut words, "-T ", decimal_string(self.receive_timeout).as_str(), "");
        push_word(&mut words, "-j ", decimal_string(self.job_limit as u64).as_str(), "");
        push_word(&mut words, "-c ", self.control_crypto.text().unwrap().as_str(), "");
        push_word(&mut words, "-S ", self.stream_crypto.text().unwrap().as_str(), "");
        push_word(&mut words, "-i ", decimal_string(self.requeue_interval).as_str(), "");
        push_word(&mut words, "-M ", decimal_string(self.max_retries as u64).as_str(), "");
        push_word(&mut words, "\"", self.source.text().as_str(), "\"");
        push_word(&mut words, "\"", self.destination.text().as_str(), "\"");
        words
    }

    /// The command to run on the remote host, with the rate as it is written.
    pub fn format_command_with(&self, sender: bool, mode: SetupMode, rate: &str) -> (command:
        String)
        requires
            is_writable(*self),
        ensures
            command@ == joined(command_words(*self, sender, mode, rate@), " "@),
    {
        let mut words: Vec<String> = Vec::new();
        words.push(self.command.clone());
        proof {
            assert(texts(words@) =~= seq![self.command@]);
        }
        // optional arguments are always before the IoSpecs
        push_flag(&mut words, self.directory, "-d");
        push_flag(&mut words, self.force, "-f");
        push_flag(&mut words, self.recursive, "-R");
        push_flag(&mut words, self.verify, "-v");
        push_flag(&mut words, self.overwrite, "-o");
        let mut fixed = self.fixed_words(sender, mode, rate);
        let ghost before = words@;
        let ghost behind = fixed@;
        words.append(&mut fixed);
        proof {
            assert(texts(words@) =~= texts(before) + texts(behind));
        }
        join(&words, " ")
    }

    /// Returns the command to run on the remote host
    pub fn format_command(&self, sender: bool, mode: SetupMode) -> (command: String)
        requires
            is_writable(*self),
        ensures
            exists|rate: Seq<char>|
                {
                    &&& command@ == joined(
                        #[trigger] command_words(*self, sender, mode, rate),
                        " "@,
                    )
                    &&& stands_for(rate, self.rate)
                    &&& !rate.contains('"')
                },
    {
        let rate = rate_text(self.rate);
        let command = self.format_command_with(sender, mode, rate.as_str());
        proof {
            assert(command@ == joined(command_words(*self, sender, mode, rate@), " "@));
        }
        command
    }

    /// Calculates the send rate in packets per second
    pub fn pps(&self) -> (pps: u64)
        ensures
            pps == self.rate as int / PACKET_SIZE as int,
    {
        self.rate / PACKET_SIZE as u64
    }
}

proof fn lemma_nothing()
    ensures
        forall|text: Seq<char>| #[trigger] (text + ""@) == text,
{
    reveal_strlit("");
    assert forall|text: Seq<char>| #[trigger] (text + ""@) == text by {
        assert(text + ""@ =~= text);
    }
}

/// The packets of one second are as many as the rate allows: they do not exceed it, and one more
/// would.
pub proof fn law_pps(rate: u64)
    ensures
        (rate as int / PACKET_SIZE as int) * PACKET_SIZE <= rate,
        rate < (rate as int / PACKET_SIZE as int + 1) * PACKET_SIZE,
{
}

/// The remote client is the other end: it receives where the local one sends, and sends where
/// the local one receives.
pub proof fn law_remote_mode(sender: bool)
    ensures
        mode_of(remote_mode_text(sender)) == Some(Mode::Remote(!sender)),
{
    reveal_strlit("l");
    reveal_strlit("rr");
    reveal_strlit("rs");
    assert("rr"@[1] == 'r' && "rs"@[1] == 's');
    assert("l"@.len() == 1 && "rr"@.len() == 2 && "rs"@.len() == 2);
}

/// The IoSpecs are the last words of the command, whatever options are set.
pub proof fn law_specs_last(options: Options, sender: bool, mode: SetupMode, rate: Seq<char>)
    ensures
        ({
            let words = command_words(options, sender, mode, rate);
            &&& words[0] == options.command@
            &&& words[words.len() - 2] == "\""@ + spec_text(options.source) + "\""@
            &&& words[words.len() - 1] == "\""@ + spec_text(options.destination) + "\""@
        }),
{
}

/// Whether a text begins with another.
pub open spec fn begins_with(text: Seq<char>, start: Seq<char>) -> bool {
    text.len() >= start.len() && text.take(start.len() as int) == start
}

/// Whether an option has a value among the words behind the program: there is a word that begins
/// with the option and goes on with the value, and no word goes on otherwise.
pub open spec fn has_value(words: Seq<Seq<char>>, option: Seq<char>, value: Seq<char>) -> bool {
    &&& exists|i: int| 1 <= i < words.len() && #[trigger] words[i] == option + value
    &&& forall|i: int|
        1 <= i < words.len() && begins_with(#[trigger] words[i], option) ==> words[i] == option
            + value
}

/// Whether an option has a number in decimal as its value.
pub open spec fn has_number(words: Seq<Seq<char>>, option: Seq<char>, number: nat) -> bool {
    exists|value: Seq<char>| #[trigger]
        has_value(words, option, value) && value.len() > 0 && all_digits(value) && digits_value(
            value,
        ) == number
}

/// Whether a word is there behind the program.
pub open spec fn has_word(words: Seq<Seq<char>>, word: Seq<char>) -> bool {
    exists|i: int| 1 <= i < words.len() && #[trigger] words[i] == word
}

/// What the remote client reads from the words of the command is what the local client was given:
/// each number under its own option.
#[verifier::rlimit(40)]
pub proof fn law_command_numbers(options: Options, sender: bool, mode: SetupMode, rate: Seq<char>)
    ensures
        ({
            let words = command_words(options, sender, mode, rate);
            &&& has_number(words, "-s "@, options.start_port as nat)
            &&& has_number(words, "-e "@, options.end_port as nat)
            &&& has_number(words, "-t "@, options.threads as nat)
            &&& has_number(words, "-m "@, options.max as nat)
            &&& has_number(words, "-T "@, options.receive_timeout as nat)
            &&& has_number(words, "-j "@, options.job_limit as nat)
            &&& has_number(words, "-i "@, options.requeue_interval as nat)
            &&& has_number(words, "-M "@, options.max_retries as nat)
        }),
{
    let words = command_words(options, sender, mode, rate);
    assert(has_number(words, "-s "@, options.start_port as nat)) by {
        reveal_strlit("-s ");
        lemma_number(options, sender, mode, rate, "-s "@, options.start_port as nat, 2);
    }
    assert(has_number(words, "-e "@, options.end_port as nat)) by {
        reveal_strlit("-e ");
        lemma_number(options, sender, mode, rate, "-e "@, options.end_port as nat, 3);
    }
    assert(has_number(words, "-t "@, options.threads as nat)) by {
        reveal_strlit("-t ");
        lemma_number(options, sender, mode, rate, "-t "@, options.threads as nat, 4);
    }
    assert(has_number(words, "-m "@, options.max as nat)) by {
        reveal_strlit("-m ");
        lemma_number(options, sender, mode, rate, "-m "@, options.max as nat, 7);
    }
    assert(has_number(words, "-T "@, options.receive_timeout as nat)) by {
        reveal_strlit("-T ");
        lemma_number(options, sender, mode, rate, "-T "@, options.receive_timeout as nat, 8);
    }
    assert(has_number(words, "-j "@, options.job_limit as nat)) by {
        reveal_strlit("-j ");
        lemma_number(options, sender, mode, rate, "-j "@, options.job_limit as nat, 9);
    }
    assert(has_number(words, "-i "@, options.requeue_interval as nat)) by {
        reveal_strlit("-i ");
        lemma_number(options, sender, mode, rate, "-i "@, options.requeue_interval as nat, 12);
    }
    assert(has_number(words, "-M "@, options.max_retries as nat)) by {
        reveal_strlit("-M ");
        lemma_number(options, sender, mode, rate, "-M "@, options.max_retries as nat, 13);
    }
}

#[verifier::rlimit(40)]
proof fn lemma_number(
    options: Options,
    sender: bool,
    mode: SetupMode,
    rate: Seq<char>,
    option: Seq<char>,
    number: nat,
    at: int,
)
    requires
        0 <= at < 14,
        fixed_arguments(options, sender, mode, rate)[at] == option + decimal(number),
        option.len() >= 3,
    ensures
        has_number(command_words(options, sender, mode, rate), option, number),
{
    lemma_value(options, sender, mode, rate, option, decimal(number), at);
    lemma_decimal(number);
}

/// A flag is among the words of the command exactly where it is set.
#[verifier::rlimit(40)]
pub proof fn law_command_flags(options: Options, sender: bool, mode: SetupMode, rate: Seq<char>)
    ensures
        ({
            let words = command_words(options, sender, mode, rate);
            &&& has_word(words, "-d"@) <==> options.directory
            &&& has_word(words, "-f"@) <==> options.force
            &&& has_word(words, "-R"@) <==> options.recursive
            &&& has_word(words, "-v"@) <==> options.verify
            &&& has_word(words, "-o"@) <==> options.overwrite
        }),
{
    let set = lemma_flags(options);
    lemma_layout(options, sender, mode, rate);
    lemma_heads(options, sender, mode, rate);
    assert(has_word(command_words(options, sender, mode, rate), "-d"@) <==> set.contains("-d"@)) by {
        reveal_strlit("-d");
        lemma_word(
            command_words(options, sender, mode, rate),
            set,
            fixed_arguments(options, sender, mode, rate),
            "-d"@,
        );
    }
    assert(has_word(command_words(options, sender, mode, rate), "-f"@) <==> set.contains("-f"@)) by {
        reveal_strlit("-f");
        lemma_word(
            command_words(options, sender, mode, rate),
            set,
            fixed_arguments(options, sender, mode, rate),
            "-f"@,
        );
    }
    assert(has_word(command_words(options, sender, mode, rate), "-R"@) <==> set.contains("-R"@)) by {
        reveal_strlit("-R");
        lemma_word(
            command_words(options, sender, mode, rate),
            set,
            fixed_arguments(options, sender, mode, rate),
            "-R"@,
        );
    }
    assert(has_word(command_words(options, sender, mode, rate), "-v"@) <==> set.contains("-v"@)) by {
        reveal_strlit("-v");
        lemma_word(
            command_words(options, sender, mode, rate),
            set,
            fixed_arguments(options, sender, mode, rate),
            "-v"@,
        );
    }
    assert(has_word(command_words(options, sender, mode, rate), "-o"@) <==> set.contains("-o"@)) by {
        reveal_strlit("-o");
        lemma_word(
            command_words(options, sender, mode, rate),
            set,
            fixed_arguments(options, sender, mode, rate),
            "-o"@,
        );
    }
}

/// The log level, the rate, the cipher settings and the setup mode stand under their own options,
/// and the remote client is told the part that the local one leaves for it.
#[verifier::rlimit(40)]
pub proof fn law_command_texts(options: Options, sender: bool, mode: SetupMode, rate: Seq<char>)
    ensures
        ({
            let words = command_words(options, sender, mode, rate);
            &&& has_value(words, "-l "@, level_text(options.log_level))
            &&& has_value(words, "-r \""@, rate + "\""@)
            &&& has_value(words, "-c "@, crypto_text(options.control_crypto@))
            &&& has_value(words, "-S "@, crypto_text(options.stream_crypto@))
            &&& has_value(words, "--stream-setup-mode "@, setup_text(mode))
            &&& exists|text: Seq<char>| #[trigger]
                has_value(words, "--mode "@, text) && mode_of(text) == Some(Mode::Remote(!sender))
        }),
{
    let words = command_words(options, sender, mode, rate);
    assert(has_value(words, "-l "@, level_text(options.log_level))) by {
        reveal_strlit("-l ");
        lemma_value(options, sender, mode, rate, "-l "@, level_text(options.log_level), 5);
    }
    assert(has_value(words, "-r \""@, rate + "\""@)) by {
        reveal_strlit("-r \"");
        assert(fixed_arguments(options, sender, mode, rate)[6] =~= "-r \""@ + (rate + "\""@));
        lemma_value(options, sender, mode, rate, "-r \""@, rate + "\""@, 6);
    }
    assert(has_value(words, "-c "@, crypto_text(options.control_crypto@))) by {
        reveal_strlit("-c ");
        lemma_value(options, sender, mode, rate, "-c "@, crypto_text(options.control_crypto@), 10);
    }
    assert(has_value(words, "-S "@, crypto_text(options.stream_crypto@))) by {
        reveal_strlit("-S ");
        lemma_value(options, sender, mode, rate, "-S "@, crypto_text(options.stream_crypto@), 11);
    }
    assert(has_value(words, "--stream-setup-mode "@, setup_text(mode))) by {
        reveal_strlit("--stream-setup-mode ");
        lemma_value(options, sender, mode, rate, "--stream-setup-mode "@, setup_text(mode), 1);
    }
    assert(has_value(words, "--mode "@, remote_mode_text(sender))) by {
        reveal_strlit("--mode ");
        lemma_value(options, sender, mode, rate, "--mode "@, remote_mode_text(sender), 0);
    }
    law_remote_mode(sender);
}

/// The words are the program, the flags that are set, and the arguments that are always there.
spec fn is_layout(words: Seq<Seq<char>>, set: Seq<Seq<char>>, fixed: Seq<Seq<char>>) -> bool {
    &&& words.len() == 1 + set.len() + fixed.len()
    &&& forall|i: int| 1 <= i < 1 + set.len() ==> #[trigger] words[i] == set[i - 1]
    &&& forall|j: int|
        0 <= j < fixed.len() ==> words[1 + set.len() + j] == #[trigger] fixed[j]
}

proof fn lemma_is_layout(
    command: Seq<char>,
    a: Seq<Seq<char>>,
    b: Seq<Seq<char>>,
    c: Seq<Seq<char>>,
    d: Seq<Seq<char>>,
    e: Seq<Seq<char>>,
    fixed: Seq<Seq<char>>,
)
    ensures
        is_layout(seq![command] + a + b + c + d + e + fixed, a + b + c + d + e, fixed),
{
    let words = seq![command] + a + b + c + d + e + fixed;
    let set = a + b + c + d + e;
    assert(words =~= seq![command] + set + fixed);
}

#[verifier::rlimit(40)]
proof fn lemma_layout(options: Options, sender: bool, mode: SetupMode, rate: Seq<char>)
    ensures
        is_layout(
            command_words(options, sender, mode, rate),
            set_flags(options),
            fixed_arguments(options, sender, mode, rate),
        ),
{
    lemma_is_layout(
        options.command@,
        flag(options.directory, "-d"@),
        flag(options.force, "-f"@),
        flag(options.recursive, "-R"@),
        flag(options.verify, "-v"@),
        flag(options.overwrite, "-o"@),
        fixed_arguments(options, sender, mode, rate),
    );
}

/// The flags that are set.
spec fn set_flags(options: Options) -> Seq<Seq<char>> {
    flag(options.directory, "-d"@) + flag(options.force, "-f"@) + flag(options.recursive, "-R"@)
        + flag(options.verify, "-v"@) + flag(options.overwrite, "-o"@)
}

/// The flags that are set, and nothing else.
proof fn lemma_flags(options: Options) -> (set: Seq<Seq<char>>)
    ensures
        set == set_flags(options),
        are_short(set),
        set.contains("-d"@) <==> options.directory,
        set.contains("-f"@) <==> options.force,
        set.contains("-R"@) <==> options.recursive,
        set.contains("-v"@) <==> options.verify,
        set.contains("-o"@) <==> options.overwrite,
{
    reveal_strlit("-d");
    reveal_strlit("-f");
    reveal_strlit("-R");
    reveal_strlit("-v");
    reveal_strlit("-o");
    let none = Seq::<Seq<char>>::empty();
    let one = none + flag(options.directory, "-d"@);
    let two = one + flag(options.force, "-f"@);
    let three = two + flag(options.recursive, "-R"@);
    let four = three + flag(options.verify, "-v"@);
    let set = four + flag(options.overwrite, "-o"@);
    assert(one =~= flag(options.directory, "-d"@));
    assert("-d"@[1] == 'd' && "-f"@[1] == 'f' && "-R"@[1] == 'R' && "-v"@[1] == 'v' && "-o"@[1]
        == 'o');
    assert forall|text: Seq<char>| #[trigger]
        set.contains(text) <==> {
            ||| options.directory && text == "-d"@
            ||| options.force && text == "-f"@
            ||| options.recursive && text == "-R"@
            ||| options.verify && text == "-v"@
            ||| options.overwrite && text == "-o"@
        } by {
        lemma_flag_sum(none, options.directory, "-d"@, text);
        lemma_flag_sum(one, options.force, "-f"@, text);
        lemma_flag_sum(two, options.recursive, "-R"@, text);
        lemma_flag_sum(three, options.verify, "-v"@, text);
        lemma_flag_sum(four, options.overwrite, "-o"@, text);
    }
    assert forall|i: int| 0 <= i < set.len() implies (#[trigger] set[i]).len() == 2 by {
        assert(set.contains(set[i]));
    }
    set
}

proof fn lemma_flag_sum(words: Seq<Seq<char>>, set: bool, text: Seq<char>, word: Seq<char>)
    ensures
        (words + flag(set, text)).contains(word) <==> words.contains(word) || set && text == word,
{
    let sum = words + flag(set, text);
    if words.contains(word) {
        let i = choose|i: int| 0 <= i < words.len() && words[i] == word;
        assert(sum[i] == word);
    }
    if set && text == word {
        assert(sum[words.len() as int] == word);
    }
    if sum.contains(word) {
        let i = choose|i: int| 0 <= i < sum.len() && sum[i] == word;
        if i < words.len() {
            assert(words[i] == word);
        }
    }
}

/// Whether words have two characters each.
spec fn are_short(words: Seq<Seq<char>>) -> bool {
    forall|i: int| 0 <= i < words.len() ==> (#[trigger] words[i]).len() == 2
}

/// How the arguments that are always there begin.
spec fn has_heads(fixed: Seq<Seq<char>>) -> bool {
    &&& fixed.len() == 16
    &&& forall|j: int| 0 <= j < 14 ==> (#[trigger] fixed[j]).len() >= 3 && fixed[j][0] == '-'
    &&& fixed[14].len() >= 2 && fixed[14][0] == '"'
    &&& fixed[15].len() >= 2 && fixed[15][0] == '"'
    &&& fixed[0][1] == '-' && fixed[0][2] == 'm'
    &&& fixed[1][1] == '-' && fixed[1][2] == 's'
    &&& fixed[2][1] == 's'
    &&& fixed[3][1] == 'e'
    &&& fixed[4][1] == 't'
    &&& fixed[5][1] == 'l'
    &&& fixed[6][1] == 'r'
    &&& fixed[7][1] == 'm'
    &&& fixed[8][1] == 'T'
    &&& fixed[9][1] == 'j'
    &&& fixed[10][1] == 'c'
    &&& fixed[11][1] == 'S'
    &&& fixed[12][1] == 'i'
    &&& fixed[13][1] == 'M'
}

#[verifier::rlimit(40)]
proof fn lemma_heads(options: Options, sender: bool, mode: SetupMode, rate: Seq<char>)
    ensures
        has_heads(fixed_arguments(options, sender, mode, rate)),
{
    reveal_strlit("-d");
    reveal_strlit("-f");
    reveal_strlit("-R");
    reveal_strlit("-v");
    reveal_strlit("-o");
    reveal_strlit("--mode ");
    reveal_strlit("--stream-setup-mode ");
    reveal_strlit("-s ");
    reveal_strlit("-e ");
    reveal_strlit("-t ");
    reveal_strlit("-l ");
    reveal_strlit("-r \"");
    reveal_strlit("-m ");
    reveal_strlit("-T ");
    reveal_strlit("-j ");
    reveal_strlit("-c ");
    reveal_strlit("-S ");
    reveal_strlit("-i ");
    reveal_strlit("-M ");
    reveal_strlit("\"");
    let fixed = fixed_arguments(options, sender, mode, rate);
    assert forall|j: int| 0 <= j < 14 implies (#[trigger] fixed[j]).len() >= 3 && fixed[j][0]
        == '-' by {
        assert(j == 0 || j == 1 || j == 2 || j == 3 || j == 4 || j == 5 || j == 6 || j == 7 || j
            == 8 || j == 9 || j == 10 || j == 11 || j == 12 || j == 13);
    }
}

#[verifier::rlimit(40)]
proof fn lemma_value(
    options: Options,
    sender: bool,
    mode: SetupMode,
    rate: Seq<char>,
    option: Seq<char>,
    value: Seq<char>,
    at: int,
)
    requires
        0 <= at < 14,
        fixed_arguments(options, sender, mode, rate)[at] == option + value,
        option.len() >= 3,
    ensures
        has_value(command_words(options, sender, mode, rate), option, value),
{
    let set = lemma_flags(options);
    lemma_layout(options, sender, mode, rate);
    lemma_heads(options, sender, mode, rate);
    lemma_only_value(
        command_words(options, sender, mode, rate),
        set,
        fixed_arguments(options, sender, mode, rate),
        option,
        value,
        at,
    );
}

proof fn lemma_only_value(
    words: Seq<Seq<char>>,
    set: Seq<Seq<char>>,
    fixed: Seq<Seq<char>>,
    option: Seq<char>,
    value: Seq<char>,
    at: int,
)
    requires
        is_layout(words, set, fixed),
        has_heads(fixed),
        are_short(set),
        0 <= at < 14,
        fixed[at] == option + value,
        option.len() >= 3,
    ensures
        has_value(words, option, value),
{
    let base = 1int + set.len();
    assert(words[base + at] == fixed[at]);
    assert forall|i: int| 1 <= i < words.len() && begins_with(#[trigger] words[i], option) implies
        words[i] == option + value by {
        assert(words[i].take(option.len() as int)[0] == option[0]);
        assert(words[i].take(option.len() as int)[1] == option[1]);
        assert(words[i].take(option.len() as int)[2] == option[2]);
        assert(fixed[at][0] == option[0] && fixed[at][1] == option[1] && fixed[at][2] == option[2]);
        if i < base {
            assert(words[i] == set[i - 1]);
        }
        let j = i - base;
        assert(words[base + j] == fixed[j]);
        if j != at {
            assert(j == 0 || j == 1 || j == 2 || j == 3 || j == 4 || j == 5 || j == 6 || j == 7 || j
                == 8 || j == 9 || j == 10 || j == 11 || j == 12 || j == 13 || j == 14 || j == 15);
        }
    }
}

proof fn lemma_word(
    words: Seq<Seq<char>>,
    set: Seq<Seq<char>>,
    fixed: Seq<Seq<char>>,
    word: Seq<char>,
)
    requires
        is_layout(words, set, fixed),
        has_heads(fixed),
        word.len() == 2,
        word[0] == '-',
    ensures
        has_word(words, word) <==> set.contains(word),
{
    if set.contains(word) {
        let i = choose|i: int| 0 <= i < set.len() && set[i] == word;
        assert(words[i + 1] == word);
    }
    if has_word(words, word) {
        let i = choose|i: int| 1 <= i < words.len() && #[trigger] words[i] == word;
        if i < 1 + set.len() {
            assert(set[i - 1] == word);
        } else {
            let j = i - 1 - set.len();
            assert(words[1 + set.len() + j] == fixed[j]);
        }
    }
}

/// The command is these words with single spaces between them: each word stands in it.
pub proof fn law_command(
    options: Options,
    sender: bool,
    mode: SetupMode,
    rate: &str,
    command: String,
    i: int,
)
    requires
        is_writable(options),
        call_ensures(Options::format_command_with, (&options, sender, mode, rate), command),
        0 <= i < command_words(options, sender, mode, rate@).len(),
    ensures
        exists|before: Seq<char>, behind: Seq<char>|
            command@ == #[trigger] (before + command_words(options, sender, mode, rate@)[i]
                + behind) && (before.len() == 0 || before.last() == ' ') && (behind.len() == 0
                || behind[0] == ' '),
{
    reveal_strlit(" ");
    let words = command_words(options, sender, mode, rate@);
    law_joined_parts(words, " "@, i);
    let (before, behind) = choose|before: Seq<char>, behind: Seq<char>|
        joined(words, " "@) == #[trigger] (before + words[i] + behind) && (if i == 0 {
            before.len() == 0
        } else {
            before.len() >= 1 && before.skip(before.len() - 1) == " "@
        }) && (if i == words.len() - 1 {
            behind.len() == 0
        } else {
            behind.len() >= 1 && behind.take(1) == " "@
        });
    if i > 0 {
        assert(before.skip(before.len() - 1)[0] == ' ');
    }
    if i < words.len() - 1 {
        assert(behind.take(1)[0] == ' ');
    }
}

/// Different levels are written differently.
pub proof fn law_levels(level: LogLevel, other: LogLevel)
    ensures
        level_text(level) == level_text(other) <==> level == other,
{
    reveal_strlit("OFF");
    reveal_strlit("ERROR");
    reveal_strlit("WARN");
    reveal_strlit("INFO");
    reveal_strlit("DEBUG");
    reveal_strlit("TRACE");
    assert("OFF"@[0] == 'O' && "ERROR"@[0] == 'E' && "WARN"@[0] == 'W' && "INFO"@[0] == 'I'
        && "DEBUG"@[0] == 'D' && "TRACE"@[0] == 'T');
}

/// The packets of one second are as many as the rate allows: with 1044 bytes each, they do not
/// exceed it, and one more would.
pub proof fn law_packets_per_second(options: Options, pps: u64)
    requires
        call_ensures(Options::pps, (&options,), pps),
    ensures
        pps * 1044 <= options.rate < (pps + 1) * 1044,
{
}

/// A text stands for one rate, but for the rounding: the bytes themselves where there are less than
/// a thousand, and else nothing that is off by more than two parts in nine.
#[verifier::rlimit(40)]
pub proof fn law_rate(text: Seq<char>, a: u64, b: u64)
    requires
        stands_for(text, a),
        stands_for(text, b),
    ensures
        a < 1000 ==> a == b,
        9 * a <= 11 * b,
{
    reveal_strlit(" B");
    lemma_decimal(a as nat);
    lemma_decimal(b as nat);
    if a < 1000 {
        lemma_bytes_text(a as nat);
        if b < 1000 {
            lemma_bytes_text(b as nat);
            assert(first_field(text, ' ') == decimal(a as nat));
        } else {
            let (tenths, exponent) = choose|tenths: nat, exponent: nat|
                1 <= exponent <= 6 && text == #[trigger] scaled_text(tenths, exponent);
            lemma_scaled_text(tenths, exponent);
        }
    } else if b < 1000 {
        lemma_bytes_text(b as nat);
        let (tenths, exponent) = choose|tenths: nat, exponent: nat|
            1 <= exponent <= 6 && text == #[trigger] scaled_text(tenths, exponent);
        lemma_scaled_text(tenths, exponent);
    } else {
        let (t, e) = choose|tenths: nat, exponent: nat|
            {
                &&& 1 <= exponent <= 6
                &&& 10 <= tenths
                &&& text == #[trigger] scaled_text(tenths, exponent)
                &&& tenths * pow(1000, exponent) <= 10 * a + pow(1000, exponent)
                &&& 10 * a <= (tenths + 1) * pow(1000, exponent)
            };
        let (s, f) = choose|tenths: nat, exponent: nat|
            {
                &&& 1 <= exponent <= 6
                &&& 10 <= tenths
                &&& text == #[trigger] scaled_text(tenths, exponent)
                &&& tenths * pow(1000, exponent) <= 10 * b + pow(1000, exponent)
                &&& 10 * b <= (tenths + 1) * pow(1000, exponent)
            };
        lemma_scaled_text(t, e);
        lemma_scaled_text(s, f);
        assert(t / 10 == s / 10 && t % 10 == s % 10 && e == f);
        assert(t == s);
        let unit = pow(1000, e);
        lemma_pow_positive(1000, e);
        assert(9 * a <= 11 * b) by (nonlinear_arith)
            requires
                t >= 10,
                unit > 0,
                10 * a <= (t + 1) * unit,
                t * unit <= 10 * b + unit,
        ;
    }
}

/// The text of a number of bytes has the number before its space, and no dot.
proof fn lemma_bytes_text(n: nat)
    ensures
        ({
            let text = decimal(n) + " B"@;
            &&& digits_value(first_field(text, ' ')) == n
            &&& first_field(text, ' ') == decimal(n)
            &&& !text.contains('.')
        }),
{
    reveal_strlit(" B");
    lemma_decimal(n);
    let digits = decimal(n);
    let text = digits + " B"@;
    assert(!digits.contains(' ')) by {
        if digits.contains(' ') {
            let i = choose|i: int| 0 <= i < digits.len() && digits[i] == ' ';
            assert(is_digit(digits[i]));
        }
    }
    assert(text =~= digits + seq![' '] + seq!['B']);
    lemma_first_field(digits, ' ', seq!['B']);
    if text.contains('.') {
        let i = choose|i: int| 0 <= i < text.len() && text[i] == '.';
        if i < digits.len() {
            assert(is_digit(digits[i]));
        }
    }
}

/// The text of a number of tenths has the whole number before its dot, the tenths behind it, and the
/// unit behind the space.
proof fn lemma_scaled_text(tenths: nat, exponent: nat)
    requires
        1 <= exponent <= 6,
    ensures
        ({
            let text = scaled_text(tenths, exponent);
            let behind = rest_fields(text, '.')->0;
            let unit = rest_fields(behind, ' ')->0;
            &&& text.contains('.')
            &&& digits_value(first_field(text, '.')) == tenths / 10
            &&& digits_value(first_field(behind, ' ')) == tenths % 10
            &&& exponent == 1 <==> unit[0] == 'K'
            &&& exponent == 2 <==> unit[0] == 'M'
            &&& exponent == 3 <==> unit[0] == 'G'
            &&& exponent == 4 <==> unit[0] == 'T'
            &&& exponent == 5 <==> unit[0] == 'P'
            &&& exponent == 6 <==> unit[0] == 'E'
        }),
{
    reveal_strlit(".");
    reveal_strlit(" ");
    reveal_strlit("B");
    reveal_strlit("KMGTPE");
    let whole = decimal(tenths / 10);
    let part = decimal(tenths % 10);
    lemma_decimal(tenths / 10);
    lemma_decimal(tenths % 10);
    let unit = seq!["KMGTPE"@[exponent - 1]] + "B"@;
    let behind = part + seq![' '] + unit;
    let text = scaled_text(tenths, exponent);
    assert(text =~= whole + seq!['.'] + behind);
    assert(text[whole.len() as int] == '.');
    assert(!whole.contains('.')) by {
        if whole.contains('.') {
            let i = choose|i: int| 0 <= i < whole.len() && whole[i] == '.';
            assert(is_digit(whole[i]));
        }
    }
    assert(!part.contains(' ')) by {
        if part.contains(' ') {
            let i = choose|i: int| 0 <= i < part.len() && part[i] == ' ';
            assert(is_digit(part[i]));
        }
    }
    lemma_first_field(whole, '.', behind);
    lemma_first_field(part, ' ', unit);
    assert("KMGTPE"@[0] == 'K' && "KMGTPE"@[1] == 'M' && "KMGTPE"@[2] == 'G' && "KMGTPE"@[3] == 'T'
        && "KMGTPE"@[4] == 'P' && "KMGTPE"@[5] == 'E');
    assert(unit[0] == "KMGTPE"@[exponent - 1]);
}

/// The command has a rate that stands for the one that was given.
pub proof fn law_format_command(options: Options, sender: bool, mode: SetupMode, command: String)
    requires
        is_writable(options),
        call_ensures(Options::format_command, (&options, sender, mode), command),
    ensures
        exists|rate: Seq<char>|
            stands_for(rate, options.rate) && command@ == joined(
                #[trigger] command_words(options, sender, mode, rate),
                " "@,
            ) && has_value(
                command_words(options, sender, mode, rate),
                "-r \""@,
                rate + "\""@,
            ),
{
    let rate = choose|rate: Seq<char>|
        stands_for(rate, options.rate) && command@ == joined(
            #[trigger] command_words(options, sender, mode, rate),
            " "@,
        );
    law_command_texts(options, sender, mode, rate);
}

} // verus!
