//! Where a file is: on this host or on a remote one.

use crate::options::{Error, ErrorKind};
use crate::text::{
    decimal, decimal_string, digits_value, first_field, is_digit, law_port_text, lemma_decimal,
    lemma_fields_make_text, lemma_first_field, parse_u16, port_value, rest_fields, same_text, split_field, unsigned,
};
use regex::Regex;
use vstd::prelude::*;

verus! {

/// The parts of an IoSpec: `[user@][host:{port:}]file`.
#[verifier::ext_equal]
pub struct SpecParts {
    pub user: Option<Seq<char>>,
    pub host: Option<Seq<char>>,
    pub port: Option<Seq<char>>,
    pub file: Seq<char>,
}

impl SpecParts {
    /// How the parts are written.
    pub open spec fn text(self) -> Seq<char> {
        let user = match self.user {
            Some(user) => user + seq!['@'],
            None => Seq::empty(),
        };
        let host = match self.host {
            Some(host) => host + seq![':'],
            None => Seq::empty(),
        };
        let port = match self.port {
            Some(port) => port + seq![':'],
            None => Seq::empty(),
        };
        user + host + port + self.file
    }

    /// Whether the parts are plain: the names and the port consist of the characters that belong
    /// there, where there is a user or a port, there is a host, and the file has no line feed and
    /// does not begin like another part.
    pub open spec fn is_plain(self) -> bool {
        &&& self.user matches Some(user) ==> self.host is Some && is_user(user)
        &&& self.host matches Some(host) ==> is_name(host, true)
        &&& self.port matches Some(port) ==> self.host is Some && is_number(port)
        &&& self.file.len() > 0
        &&& !self.file.contains('\n')
        &&& match (self.host, self.port) {
            (Some(_), Some(_)) => true,
            (Some(_), None) => is_no_port(self.file),
            (None, _) => is_no_host(self.file),
        }
    }
}

/// Whether a file cannot be taken for a port and a file: it has no colon, or nothing stands
/// before the first one, or something there is no digit.
pub open spec fn is_no_port(file: Seq<char>) -> bool {
    let field = first_field(file, ':');
    ||| !file.contains(':')
    ||| field.len() == 0
    ||| exists|i: int| 0 <= i < field.len() && is_ascii(#[trigger] field[i]) && !is_digit(field[i])
}

/// Whether a character is an ASCII character.
pub open spec fn is_ascii(c: char) -> bool {
    c as u32 <= 127
}

/// Whether a file cannot be taken for a host and a file: it has no colon, or what stands before
/// the first one is no host, with or without a user.
pub open spec fn is_no_host(file: Seq<char>) -> bool {
    !file.contains(':') || is_no_name(first_field(file, ':'))
}

/// Whether a text cannot be a host, with or without a user: it is empty, it has an ASCII
/// character that belongs neither to names nor between them, it begins or ends with an `@`, it
/// has more than one, or there is a dot before it.
pub open spec fn is_no_name(text: Seq<char>) -> bool {
    ||| text.len() == 0
    ||| exists|i: int|
        0 <= i < text.len() && is_ascii(#[trigger] text[i]) && !is_name_char(text[i], true)
            && text[i] != '@'
    ||| text[0] == '@'
    ||| text.last() == '@'
    ||| exists|i: int, j: int|
        0 <= i < j < text.len() && (#[trigger] text[i] == '@' || text[i] == '.')
            && #[trigger] text[j] == '@'
}

/// Whether a text is that of a user: a plain name, or one that the expression has captured as a
/// user somewhere.
pub open spec fn is_user(text: Seq<char>) -> bool {
    is_name(text, false) || exists|whole: Seq<char>|
        (#[trigger] captured(IO_SPEC_PATTERN@, whole)) matches Some(parts) && parts.user == Some(
            text,
        )
}

/// Whether a text is a name: ASCII letters, digits, `_`, `-` and, where `dots` is set, `.`.
pub open spec fn is_name(text: Seq<char>, dots: bool) -> bool {
    &&& text.len() > 0
    &&& forall|i: int| 0 <= i < text.len() ==> is_name_char(#[trigger] text[i], dots)
}

pub open spec fn is_name_char(c: char, dots: bool) -> bool {
    ||| 'a' <= c <= 'z'
    ||| 'A' <= c <= 'Z'
    ||| is_digit(c)
    ||| c == '_'
    ||| c == '-'
    ||| dots && c == '.'
}

/// Whether a text is a number: one ASCII digit or more.
pub open spec fn is_number(text: Seq<char>) -> bool {
    text.len() > 0 && forall|i: int| 0 <= i < text.len() ==> is_digit(#[trigger] text[i])
}

/// What a regular expression with four groups, of which the last always takes part, captures
/// of a text.
pub uninterp spec fn captured(pattern: Seq<char>, text: Seq<char>) -> Option<SpecParts>;

/// The parts of an IoSpec, as far as they are there.
#[derive(Debug)]
pub struct Captures {
    pub user: Option<String>,
    pub host: Option<String>,
    pub port: Option<String>,
    pub file: String,
}

impl View for Captures {
    type V = SpecParts;

    open spec fn view(&self) -> SpecParts {
        SpecParts {
            user: text_view(self.user),
            host: text_view(self.host),
            port: text_view(self.port),
            file: self.file@,
        }
    }
}

pub open spec fn text_view(text: Option<String>) -> Option<Seq<char>> {
    match text {
        Some(text) => Some(text@),
        None => None,
    }
}

pub open spec fn captures_view(captures: Option<Captures>) -> Option<SpecParts> {
    match captures {
        Some(captures) => Some(captures@),
        None => None,
    }
}

/// The regular expression of an IoSpec.
pub const IO_SPEC_PATTERN: &'static str = "(?:(?:([\\w-]+)@)?([\\w.-]+)(?::(\\d+))?:)?(.+)";

/// Whether a text has nothing but line feeds in it.
pub open spec fn only_breaks(text: Seq<char>) -> bool {
    forall|i: int| 0 <= i < text.len() ==> #[trigger] text[i] == '\n'
}

/// Whether what was captured, if anything, has a file: one character or more, and no line feed.
pub open spec fn has_file(captures: Option<Captures>) -> bool {
    captures matches Some(captures) ==> captures.file@.len() > 0 && !captures.file@.contains('\n')
}

/// `Regex::new` and `Regex::captures` of the crate `regex`, for the regular expression of an
/// IoSpec: the first match in the text, by its four groups, of which the last is not optional.
/// A text that is made of plain parts is captured as these parts. The last group takes characters
/// other than line feeds, one or more, so that there is no match exactly where there are none. A
/// user is captured by its characters alone, so that one that was captured in a text is captured
/// in others too. What the parts are of a text that is not made of plain ones is left unsaid:
/// there, letters and digits of every script count.
#[verifier::external_body]
fn capture(pattern: &str, text: &str) -> (captures: Option<Captures>)
    requires
        pattern@ == IO_SPEC_PATTERN@,
    ensures
        captures_view(captures) == captured(pattern@, text@),
        forall|parts: SpecParts|
            #[trigger] parts.text() == text@ && parts.is_plain() ==> captures_view(captures)
                == Some(parts),
        captures is None <==> only_breaks(text@),
        has_file(captures),
{
    Regex::new(pattern).unwrap().captures(text).map(
        |captures| Captures {
            user: captures.get(1).map(|m| m.as_str().to_string()),
            host: captures.get(2).map(|m| m.as_str().to_string()),
            port: captures.get(3).map(|m| m.as_str().to_string()),
            file: captures.get(4).unwrap().as_str().to_string(),
        },
    )
}

/// `whoami::username` of the crate `whoami`: the name of the current user, which is a matter of
/// the system.
#[verifier::external_body]
fn current_user() -> (user: String) {
    whoami::username()
}

/// An IoSpec whose host has not been looked up.
#[derive(Debug)]
pub struct UnresolvedSpec {
    pub file_path: String,
    /// the name or the address of the host
    pub host: Option<String>,
    pub port: u16,
    pub username: String,
}

/// The port that some parts ask for; `None` for one that is not a number of 16 bits. If no port
/// is provided, port 22 is used.
pub open spec fn spec_port(parts: SpecParts) -> Option<u16> {
    match parts.port {
        Some(port) => port_value(port),
        None => Some(22),
    }
}

/// Whether a spec is what some parts ask for. If no user is set, it is the current user, who is
/// a matter of the system.
pub open spec fn is_spec_of(spec: UnresolvedSpec, parts: SpecParts) -> bool {
    &&& spec.file_path@ == parts.file
    &&& text_view(spec.host) == parts.host
    &&& spec_port(parts) == Some(spec.port)
    &&& parts.user matches Some(user) ==> spec.username@ == user
}

impl UnresolvedSpec {
    /// The spec of what was captured of a text, for the given current user.
    pub fn from_captures(captures: Option<Captures>, user: String) -> (result: Result<
        UnresolvedSpec,
        Error,
    >)
        ensures
            comes_of(result, captures_view(captures)),
            result matches Ok(spec) ==> (captures->0.user is None ==> spec.username@ == user@),
    {
        let captures = match captures {
            Some(captures) => captures,
            None => return Err(Error::invalid_io_spec()),
        };
        let username = match captures.user {
            Some(user) => user,
            None => user,
        };
        let port: u16 = match &captures.port {
            Some(port) => match parse_u16(port.as_str()) {
                Some(port) => port,
                None => return Err(Error::invalid_port()),
            },
            None => 22,
        };
        Ok(UnresolvedSpec { file_path: captures.file, host: captures.host, port, username })
    }

    /// Reads an IoSpec: `[user@][host:{port:}]file`.
    pub fn from_str(text: &str) -> (result: Result<UnresolvedSpec, Error>)
        ensures
            is_reading(text@, result),
    {
        UnresolvedSpec::from_captures(capture(IO_SPEC_PATTERN, text), current_user())
    }
}

/// Whether a result is what comes of captured parts: the spec that they ask for, or the error of
/// their port; and the error of the text where nothing was captured.
pub open spec fn comes_of(result: Result<UnresolvedSpec, Error>, parts: Option<SpecParts>) -> bool {
    match parts {
        None => result matches Err(error) && error.kind == ErrorKind::InvalidIoSpec,
        Some(parts) => match result {
            Ok(spec) => is_spec_of(spec, parts),
            Err(error) => spec_port(parts) is None && error.kind == ErrorKind::InvalidPort,
        },
    }
}

/// Whether a result is what a text reads as: it comes of what the expression captures, a text
/// that is made of plain parts reads as these, and the only texts that do not match are those
/// with nothing but line feeds.
pub open spec fn is_reading(text: Seq<char>, result: Result<UnresolvedSpec, Error>) -> bool {
    &&& comes_of(result, captured(IO_SPEC_PATTERN@, text))
    &&& forall|parts: SpecParts|
        #[trigger] parts.text() == text && parts.is_plain() ==> comes_of(result, Some(parts))
    &&& comes_of(result, None) <==> only_breaks(text)
    &&& result matches Ok(spec) ==> spec.file_path@.len() > 0 && !spec.file_path@.contains('\n')
}

/// The address of a host.
#[derive(Debug)]
pub enum IpAddr {
    V4 { octets: [u8; 4] },
    /// the text is how the address and its scope are written
    V6 { segments: [u16; 8], text: String },
}

/// Whether an address is one of the host itself: of version 4, each that begins with 127; of
/// version 6, the one that is all zeros but for a one at the end.
pub open spec fn is_loopback_addr(ip: IpAddr) -> bool {
    match ip {
        IpAddr::V4 { octets } => octets[0] == 127,
        IpAddr::V6 { segments, text } => segments@ == seq![0u16, 0, 0, 0, 0, 0, 0, 1],
    }
}

/// How four octets are written.
pub open spec fn octets_text(octets: [u8; 4]) -> Seq<char> {
    decimal(octets[0] as nat) + "."@ + decimal(octets[1] as nat) + "."@ + decimal(
        octets[2] as nat,
    ) + "."@ + decimal(octets[3] as nat)
}

/// Whether a text is how four octets are written.
pub open spec fn is_octets_text(text: Seq<char>) -> bool {
    exists|octets: [u8; 4]| #[trigger] octets_text(octets) == text
}

/// Reads an octet; there is none where the number has a sign or leading zeros.
fn parse_octet(text: &str) -> (octet: Option<u8>)
    ensures
        match octet {
            Some(octet) => text@ == decimal(octet as nat),
            None => forall|octet: u8| text@ != #[trigger] decimal(octet as nat),
        },
{
    let octet = match parse_u16(text) {
        Some(number) => if number <= 255 && same_text(
            decimal_string(number as u64).as_str(),
            text,
        ) {
            Some(number as u8)
        } else {
            None
        },
        None => None,
    };
    proof {
        if octet is None {
            assert forall|other: u8| text@ != #[trigger] decimal(other as nat) by {
                lemma_decimal_port(other as u16);
            }
        }
    }
    octet
}

proof fn lemma_decimal_port(number: u16)
    ensures
        port_value(decimal(number as nat)) == Some(number),
        is_number(decimal(number as nat)),
{
    lemma_decimal(number as nat);
    let text = decimal(number as nat);
    assert(is_digit(text[0]));
    assert(unsigned(text) == text);
}

proof fn lemma_octets_fields(octets: [u8; 4])
    ensures
        ({
            let behind_first = rest_fields(octets_text(octets), '.');
            let behind_second = rest_fields(behind_first->0, '.');
            let behind_third = rest_fields(behind_second->0, '.');
            &&& first_field(octets_text(octets), '.') == decimal(octets[0] as nat)
            &&& behind_first is Some
            &&& first_field(behind_first->0, '.') == decimal(octets[1] as nat)
            &&& behind_second is Some
            &&& first_field(behind_second->0, '.') == decimal(octets[2] as nat)
            &&& behind_third == Some(decimal(octets[3] as nat))
        }),
{
    reveal_strlit(".");
    assert("."@ =~= seq!['.']);
    let a = decimal(octets[0] as nat);
    let b = decimal(octets[1] as nat);
    let c = decimal(octets[2] as nat);
    let d = decimal(octets[3] as nat);
    lemma_no_dot(octets[0]);
    lemma_no_dot(octets[1]);
    lemma_no_dot(octets[2]);
    let third = c + seq!['.'] + d;
    let second = b + seq!['.'] + third;
    assert(octets_text(octets) =~= a + seq!['.'] + second);
    lemma_first_field(a, '.', second);
    lemma_first_field(b, '.', third);
    lemma_first_field(c, '.', d);
}

proof fn lemma_no_dot(octet: u8)
    ensures
        !decimal(octet as nat).contains('.'),
{
    lemma_decimal(octet as nat);
    let text = decimal(octet as nat);
    if text.contains('.') {
        let i = choose|i: int| 0 <= i < text.len() && text[i] == '.';
        assert(is_digit(text[i]));
    }
}

/// Reads an address of version 4: four numbers with dots between them.
pub fn parse_octets(text: &str) -> (result: Option<[u8; 4]>)
    ensures
        match result {
            Some(octets) => octets_text(octets) == text@,
            None => !is_octets_text(text@),
        },
{
    proof {
        reveal_strlit(".");
        assert("."@ =~= seq!['.']);
        assert forall|octets: [u8; 4]| octets_text(octets) == text@ implies ({
            let behind_first = rest_fields(text@, '.');
            let behind_second = rest_fields(behind_first->0, '.');
            let behind_third = rest_fields(behind_second->0, '.');
            &&& first_field(text@, '.') == decimal(#[trigger] octets[0] as nat)
            &&& behind_first is Some
            &&& first_field(behind_first->0, '.') == decimal(octets[1] as nat)
            &&& behind_second is Some
            &&& first_field(behind_second->0, '.') == decimal(octets[2] as nat)
            &&& behind_third == Some(decimal(octets[3] as nat))
        }) by {
            lemma_octets_fields(octets);
        }
        lemma_fields_make_text(text@, '.');
    }
    let (first, behind_first) = split_field(text, '.');
    let behind_first = match behind_first {
        Some(rest) => rest,
        None => return None,
    };
    proof {
        lemma_fields_make_text(behind_first@, '.');
    }
    let (second, behind_second) = split_field(behind_first.as_str(), '.');
    let behind_second = match behind_second {
        Some(rest) => rest,
        None => return None,
    };
    proof {
        lemma_fields_make_text(behind_second@, '.');
    }
    let (third, fourth) = split_field(behind_second.as_str(), '.');
    let fourth = match fourth {
        Some(rest) => rest,
        None => return None,
    };
    match (
        parse_octet(first.as_str()),
        parse_octet(second.as_str()),
        parse_octet(third.as_str()),
        parse_octet(fourth.as_str()),
    ) {
        (Some(a), Some(b), Some(c), Some(d)) => {
            let octets = [a, b, c, d];
            proof {
                assert(octets_text(octets) =~= text@);
            }
            Some(octets)
        },
        _ => None,
    }
}

impl IpAddr {
    pub fn is_loopback(&self) -> (loopback: bool)
        ensures
            loopback == is_loopback_addr(*self),
    {
        match self {
            IpAddr::V4 { octets } => octets[0] == 127,
            IpAddr::V6 { segments, text } => {
                let loopback = segments[0] == 0 && segments[1] == 0 && segments[2] == 0
                    && segments[3] == 0 && segments[4] == 0 && segments[5] == 0 && segments[6] == 0
                    && segments[7] == 1;
                proof {
                    let one = seq![0u16, 0, 0, 0, 0, 0, 0, 1];
                    if loopback {
                        assert(segments@ =~= one);
                    } else if segments@ == one {
                        assert(one[0] == 0 && one[1] == 0 && one[2] == 0 && one[3] == 0 && one[4]
                            == 0 && one[5] == 0 && one[6] == 0 && one[7] == 1);
                        assert(false);
                    }
                }
                loopback
            },
        }
    }
}

/// The address and the port of a host.
#[derive(Debug)]
pub struct SocketAddr {
    pub ip: IpAddr,
    pub port: u16,
}

/// How an address and a port are written.
pub open spec fn socket_text(addr: SocketAddr) -> Seq<char> {
    match addr.ip {
        IpAddr::V4 { octets } => octets_text(octets) + ":"@ + decimal(addr.port as nat),
        IpAddr::V6 { segments, text } => "["@ + text@ + "]:"@ + decimal(addr.port as nat),
    }
}

impl SocketAddr {
    /// How the address is written.
    pub fn text(&self) -> (text: String)
        ensures
            text@ == socket_text(*self),
    {
        let port = decimal_string(self.port as u64);
        match &self.ip {
            IpAddr::V4 { octets } => decimal_string(octets[0] as u64).concat(".").concat(
                decimal_string(octets[1] as u64).as_str(),
            ).concat(".").concat(decimal_string(octets[2] as u64).as_str()).concat(".").concat(
                decimal_string(octets[3] as u64).as_str(),
            ).concat(":").concat(port.as_str()),
            IpAddr::V6 { segments, text } => "[".to_owned().concat(text.as_str()).concat(
                "]:",
            ).concat(port.as_str()),
        }
    }
}

/// a file located anywhere
#[derive(Debug)]
pub struct IoSpec {
    pub file_path: String,
    pub host: Option<SocketAddr>,
    pub username: String,
}

/// How an IoSpec is written.
pub open spec fn spec_text(spec: IoSpec) -> Seq<char> {
    match spec.host {
        None => spec.username@ + "@localhost:"@ + spec.file_path@,
        Some(host) => spec.username@ + "@"@ + socket_text(host) + ":"@ + spec.file_path@,
    }
}

/// Whether an IoSpec is local: it has no host, or its host is this one.
pub open spec fn is_local_spec(spec: IoSpec) -> bool {
    match spec.host {
        None => true,
        Some(host) => is_loopback_addr(host.ip),
    }
}

/// Whether a result is what a spec is resolved to: a host that is written as an address of
/// version 4 is that address, and any other is what it was looked up as.
pub open spec fn is_resolution(
    spec: UnresolvedSpec,
    found: Result<Option<IpAddr>, String>,
    result: Result<IoSpec, Error>,
) -> bool {
    match result {
        Ok(resolved) => {
            &&& resolved.file_path@ == spec.file_path@
            &&& resolved.username@ == spec.username@
            &&& match (spec.host, resolved.host) {
                (None, None) => true,
                (Some(host), Some(addr)) => {
                    &&& addr.port == spec.port
                    &&& if is_octets_text(host@) {
                        addr.ip matches IpAddr::V4 { octets } && octets_text(octets) == host@
                    } else {
                        found == Ok::<Option<IpAddr>, String>(Some(addr.ip))
                    }
                },
                _ => false,
            }
        },
        Err(error) => {
            &&& spec.host matches Some(host) && !is_octets_text(host@)
            &&& match found {
                Err(report) => error.kind matches ErrorKind::Io(text) && text@ == report@,
                Ok(None) => error.kind == ErrorKind::NoSuchHost,
                Ok(Some(_)) => false,
            }
        },
    }
}

impl UnresolvedSpec {
    /// Whether the host has to be looked up: there is one, and it is not written as an address of
    /// version 4.
    pub fn needs_lookup(&self) -> (needs: bool)
        ensures
            needs == (self.host matches Some(host) && !is_octets_text(host@)),
    {
        match &self.host {
            None => false,
            Some(host) => match parse_octets(host.as_str()) {
                Some(octets) => {
                    proof {
                        assert(octets_text(octets) == host@);
                    }
                    false
                },
                None => true,
            },
        }
    }
}

impl IoSpec {
    /// The IoSpec with what its host was looked up as: the address, nothing, or how the system
    /// reported a failure. That counts only where the host has to be looked up.
    pub fn resolve(spec: UnresolvedSpec, found: Result<Option<IpAddr>, String>) -> (result: Result<
        IoSpec,
        Error,
    >)
        ensures
            is_resolution(spec, found, result),
    {
        let host = match &spec.host {
            None => None,
            Some(host) => match parse_octets(host.as_str()) {
                Some(octets) => {
                    proof {
                        assert(octets_text(octets) == host@);
                    }
                    Some(SocketAddr { ip: IpAddr::V4 { octets }, port: spec.port })
                },
                None => match found {
                    Ok(Some(ip)) => Some(SocketAddr { ip, port: spec.port }),
                    Ok(None) => return Err(Error::no_such_host()),
                    Err(report) => return Err(Error { kind: ErrorKind::Io(report) }),
                },
            },
        };
        Ok(IoSpec { file_path: spec.file_path, host, username: spec.username })
    }

    /// How the spec is written.
    pub fn text(&self) -> (text: String)
        ensures
            text@ == spec_text(*self),
    {
        match &self.host {
            None => self.username.clone().concat("@localhost:").concat(self.file_path.as_str()),
            Some(host) => self.username.clone().concat("@").concat(host.text().as_str()).concat(
                ":",
            ).concat(self.file_path.as_str()),
        }
    }

    pub fn is_local(&self) -> (local: bool)
        ensures
            local == is_local_spec(*self),
    {
        match &self.host {
            None => true,
            Some(host) => host.ip.is_loopback(),
        }
    }
}

/// An IoSpec reads as it was written: where its host has an address of version 4, and its user
/// and its file are such as an IoSpec can have, the text of it gives the same user, host, port and
/// file, whatever the host might be looked up as.
pub proof fn law_io_spec_text(
    spec: IoSpec,
    octets: [u8; 4],
    port: u16,
    reading: Result<UnresolvedSpec, Error>,
    found: Result<Option<IpAddr>, String>,
    result: Result<IoSpec, Error>,
)
    requires
        spec.host == Some(SocketAddr { ip: IpAddr::V4 { octets }, port }),
        is_user(spec.username@),
        spec.file_path@.len() > 0,
        !spec.file_path@.contains('\n'),
        is_reading(spec_text(spec), reading),
        reading matches Ok(unresolved) ==> is_resolution(unresolved, found, result),
    ensures
        reading is Ok,
        result matches Ok(read) && {
            &&& read.username@ == spec.username@
            &&& read.file_path@ == spec.file_path@
            &&& read.host matches Some(addr) && {
                &&& addr.port == port
                &&& addr.ip matches IpAddr::V4 { octets: same } && same@ == octets@
            }
        },
{
    reveal_strlit("@");
    reveal_strlit(":");
    assert("@"@ =~= seq!['@']);
    assert(":"@ =~= seq![':']);
    let host = octets_text(octets);
    let parts = SpecParts {
        user: Some(spec.username@),
        host: Some(host),
        port: Some(decimal(port as nat)),
        file: spec.file_path@,
    };
    lemma_decimal_port(port);
    lemma_octets_name(octets);
    assert(parts.text() =~= spec_text(spec));
    assert(parts.is_plain());
    assert(comes_of(reading, Some(parts)));
    let unresolved = reading->Ok_0;
    assert(is_octets_text(unresolved.host->0@));
    let same = result->Ok_0.host->0.ip->octets;
    lemma_octets_differ(same, octets);
}

/// Four octets as text consist of digits and dots.
proof fn lemma_octets_name(octets: [u8; 4])
    ensures
        is_name(octets_text(octets), true),
{
    reveal_strlit(".");
    lemma_decimal(octets[0] as nat);
    lemma_decimal(octets[1] as nat);
    lemma_decimal(octets[2] as nat);
    lemma_decimal(octets[3] as nat);
    let a = decimal(octets[0] as nat);
    let b = decimal(octets[1] as nat);
    let c = decimal(octets[2] as nat);
    let d = decimal(octets[3] as nat);
    let text = octets_text(octets);
    assert forall|i: int| 0 <= i < text.len() implies is_name_char(#[trigger] text[i], true) by {
        let second = a.len() + 1;
        let third = second + b.len() + 1;
        let fourth = third + c.len() + 1;
        if i < a.len() {
            assert(text[i] == a[i]);
            assert(is_digit(a[i]));
        } else if second <= i < second + b.len() {
            assert(text[i] == b[i - second]);
            assert(is_digit(b[i - second]));
        } else if third <= i < third + c.len() {
            assert(text[i] == c[i - third]);
            assert(is_digit(c[i - third]));
        } else if fourth <= i {
            assert(text[i] == d[i - fourth]);
            assert(is_digit(d[i - fourth]));
        } else {
            assert(text[i] == '.');
        }
    }
}

/// Different octets are written differently.
proof fn lemma_octets_differ(first: [u8; 4], second: [u8; 4])
    requires
        octets_text(first) == octets_text(second),
    ensures
        first@ == second@,
{
    lemma_octets_fields(first);
    lemma_octets_fields(second);
    assert forall|i: int| 0 <= i < 4 implies first[i] == second[i] by {
        lemma_decimal(first[i] as nat);
        lemma_decimal(second[i] as nat);
        assert(i == 0 || i == 1 || i == 2 || i == 3);
    }
    assert(first@ =~= second@);
}

/// The port of a spec is the one that is given, or 22; a number that 16 bits do not hold is none.
pub proof fn law_spec_port(parts: SpecParts, number: nat)
    ensures
        parts.port is None ==> spec_port(parts) == Some(22u16),
        parts.port == Some(decimal(number)) ==> spec_port(parts) == if number <= 65535 {
            Some(number as u16)
        } else {
            None
        },
{
    law_port_text(number);
}

/// A spec has the parts that were captured: the file, the host and the user; where there is no user,
/// it is the current one.
pub proof fn law_from_captures(
    captures: Captures,
    user: String,
    result: Result<UnresolvedSpec, Error>,
    nothing: Result<UnresolvedSpec, Error>,
    number: nat,
)
    requires
        call_ensures(UnresolvedSpec::from_captures, (Some(captures), user), result),
        call_ensures(UnresolvedSpec::from_captures, (None, user), nothing),
    ensures
        nothing matches Err(error) && error.kind == ErrorKind::InvalidIoSpec,
        captures.port is None ==> (result matches Ok(spec) && spec.port == 22),
        captures.port matches Some(port) ==> port@ == decimal(number) ==> {
            &&& number <= 65535 ==> (result matches Ok(spec) && spec.port == number)
            &&& number > 65535 ==> (result matches Err(error) && error.kind
                == ErrorKind::InvalidPort)
        },
        result matches Ok(spec) ==> {
            &&& spec.file_path@ == captures.file@
            &&& spec.host is Some <==> captures.host is Some
            &&& captures.host matches Some(host) ==> spec.host->0@ == host@
            &&& captures.user matches Some(name) ==> spec.username@ == name@
            &&& captures.user is None ==> spec.username@ == user@
        },
{
    law_spec_port(captures@, number);
}

/// A spec is local without a host, and with one of this host's own addresses; with any other it is
/// not.
pub proof fn law_is_local(spec: IoSpec, local: bool)
    requires
        call_ensures(IoSpec::is_local, (&spec,), local),
    ensures
        spec.host is None ==> local,
        spec.host matches Some(host) ==> match host.ip {
            IpAddr::V4 { octets } => local <==> octets[0] == 127,
            IpAddr::V6 { segments, text } => local <==> segments[7] == 1 && segments[0] == 0
                && segments[1] == 0 && segments[2] == 0 && segments[3] == 0 && segments[4] == 0
                && segments[5] == 0 && segments[6] == 0,
        },
{
    let one = seq![0u16, 0, 0, 0, 0, 0, 0, 1];
    if let Some(host) = spec.host {
        if let IpAddr::V6 { segments, text } = host.ip {
            if segments[7] == 1 && segments[0] == 0 && segments[1] == 0 && segments[2] == 0
                && segments[3] == 0 && segments[4] == 0 && segments[5] == 0 && segments[6] == 0 {
                assert(segments@ =~= one);
            }
            if segments@ == one {
                assert(one[0] == 0 && one[1] == 0 && one[2] == 0 && one[3] == 0 && one[4] == 0
                    && one[5] == 0 && one[6] == 0 && one[7] == 1);
            }
        }
    }
}

/// A host that is written as an address of version 4 is that address, any other is what it was
/// looked up as, on the port of the spec; the user and the file stay.
pub proof fn law_resolve(
    spec: UnresolvedSpec,
    found: Result<Option<IpAddr>, String>,
    result: Result<IoSpec, Error>,
    octets: [u8; 4],
)
    requires
        call_ensures(IoSpec::resolve, (spec, found), result),
    ensures
        spec.host is None ==> (result matches Ok(resolved) && resolved.host is None),
        spec.host matches Some(host) ==> host@ == octets_text(octets) ==> (result matches Ok(
            resolved,
        ) && (resolved.host matches Some(addr) && addr.port == spec.port && (addr.ip matches
            IpAddr::V4 { octets: same } && same@ == octets@))),
        spec.host matches Some(host) ==> !is_octets_text(host@) ==> match found {
            Ok(Some(ip)) => result matches Ok(resolved) && resolved.host == Some(
                SocketAddr { ip, port: spec.port },
            ),
            Ok(None) => result matches Err(error) && error.kind == ErrorKind::NoSuchHost,
            Err(report) => result matches Err(error) && (error.kind matches ErrorKind::Io(text)
                && text@ == report@),
        },
        result matches Ok(resolved) ==> resolved.file_path@ == spec.file_path@
            && resolved.username@ == spec.username@,
{
    if let Some(host) = spec.host {
        if host@ == octets_text(octets) {
            assert(is_octets_text(host@));
            if let Ok(resolved) = result {
                if let Some(addr) = resolved.host {
                    if let IpAddr::V4 { octets: same } = addr.ip {
                        lemma_octets_differ(same, octets);
                    }
                }
            }
        }
    }
}

/// The four numbers of an address stand in its text in their order, with dots between them.
pub proof fn law_octets_text(octets: [u8; 4])
    ensures
        ({
            let text = octets_text(octets);
            let second = rest_fields(text, '.');
            let third = rest_fields(second->0, '.');
            let fourth = rest_fields(third->0, '.');
            &&& digits_value(first_field(text, '.')) == octets[0]
            &&& second is Some && digits_value(first_field(second->0, '.')) == octets[1]
            &&& third is Some && digits_value(first_field(third->0, '.')) == octets[2]
            &&& fourth is Some && digits_value(fourth->0) == octets[3]
            &&& rest_fields(fourth->0, '.') is None
        }),
{
    lemma_octets_fields(octets);
    lemma_decimal(octets[0] as nat);
    lemma_decimal(octets[1] as nat);
    lemma_decimal(octets[2] as nat);
    lemma_decimal(octets[3] as nat);
    lemma_no_dot(octets[3]);
    lemma_first_field(decimal(octets[3] as nat), '.', Seq::empty());
}

/// The text of an address ends with a colon and the port; that of version 6 stands in brackets.
pub proof fn law_socket_text(addr: SocketAddr, text: String)
    requires
        call_ensures(SocketAddr::text, (&addr,), text),
    ensures
        ({
            let port = decimal(addr.port as nat);
            let at = text@.len() - port.len();
            &&& at >= 1
            &&& text@.skip(at) == port
            &&& text@[at - 1] == ':'
            &&& match addr.ip {
                IpAddr::V4 { octets } => text@.take(at - 1) == octets_text(octets),
                IpAddr::V6 { segments, text: inner } => at == inner@.len() + 3 && text@[0] == '['
                    && text@.subrange(1, at - 2) == inner@ && text@[at - 2] == ']',
            }
        }),
{
    reveal_strlit(":");
    reveal_strlit("[");
    reveal_strlit("]:");
    let port = decimal(addr.port as nat);
    let at = text@.len() - port.len();
    assert(text@.skip(at) =~= port);
    match addr.ip {
        IpAddr::V4 { octets } => {
            assert(text@.take(at - 1) =~= octets_text(octets));
        },
        IpAddr::V6 { segments, text: inner } => {
            assert(text@.subrange(1, at - 2) =~= inner@);
        },
    }
}

/// The text of a spec begins with the user and an `@`, and ends with a colon and the file; between
/// them stands the host, or `localhost`.
pub proof fn law_spec_text(spec: IoSpec, text: String)
    requires
        call_ensures(IoSpec::text, (&spec,), text),
    ensures
        ({
            let user = spec.username@.len() as int;
            let file = text@.len() - spec.file_path@.len();
            &&& text@.take(user) == spec.username@
            &&& text@[user] == '@'
            &&& text@.skip(file) == spec.file_path@
            &&& text@[file - 1] == ':'
            &&& text@.subrange(user + 1, file - 1) == match spec.host {
                Some(host) => socket_text(host),
                None => "localhost"@,
            }
        }),
{
    reveal_strlit("@");
    reveal_strlit(":");
    reveal_strlit("localhost");
    reveal_strlit("@localhost:");
    let user = spec.username@.len() as int;
    let file = text@.len() - spec.file_path@.len();
    assert(text@.take(user) =~= spec.username@);
    assert(text@.skip(file) =~= spec.file_path@);
    match spec.host {
        Some(host) => {
            assert(text@.subrange(user + 1, file - 1) =~= socket_text(host));
        },
        None => {
            assert(text@.subrange(user + 1, file - 1) =~= "localhost"@);
        },
    }
}

/// Whether a text is made of small letters and digits, and not empty.
pub open spec fn is_simple(text: Seq<char>) -> bool {
    text.len() > 0 && forall|i: int|
        0 <= i < text.len() ==> 'a' <= #[trigger] text[i] <= 'z' || '0' <= text[i] <= '9'
}

/// A text with a user, a host and a port reads as these and the file behind them, whatever the file
/// is called.
pub proof fn law_read_all(
    user: Seq<char>,
    host: Seq<char>,
    port: u16,
    file: Seq<char>,
    text: &str,
    result: Result<UnresolvedSpec, Error>,
)
    requires
        is_simple(user),
        is_simple(host),
        file.len() > 0,
        !file.contains('\n'),
        text@ == user + seq!['@'] + host + seq![':'] + decimal(port as nat) + seq![':'] + file,
        call_ensures(UnresolvedSpec::from_str, (text,), result),
    ensures
        result matches Ok(spec) && {
            &&& spec.username@ == user
            &&& spec.host matches Some(name) && name@ == host
            &&& spec.port == port
            &&& spec.file_path@ == file
        },
{
    let parts = SpecParts {
        user: Some(user),
        host: Some(host),
        port: Some(decimal(port as nat)),
        file,
    };
    lemma_decimal_port(port);
    assert(is_name(user, false));
    assert(is_name(host, true));
    assert(parts.text() =~= text@);
    assert(parts.is_plain());
    assert(comes_of(result, Some(parts)));
}

/// A text with a host alone reads as the host and the file, on the port 22.
pub proof fn law_read_host(
    host: Seq<char>,
    file: Seq<char>,
    text: &str,
    result: Result<UnresolvedSpec, Error>,
)
    requires
        is_simple(host),
        file.len() > 0,
        !file.contains('\n'),
        !file.contains(':'),
        text@ == host + seq![':'] + file,
        call_ensures(UnresolvedSpec::from_str, (text,), result),
    ensures
        result matches Ok(spec) && {
            &&& spec.host matches Some(name) && name@ == host
            &&& spec.port == 22
            &&& spec.file_path@ == file
        },
{
    let parts = SpecParts { user: None, host: Some(host), port: None, file };
    assert(is_name(host, true));
    assert(parts.text() =~= text@);
    assert(parts.is_plain());
    assert(comes_of(result, Some(parts)));
}

/// A text without a colon is a file on this host.
pub proof fn law_read_file(text: &str, result: Result<UnresolvedSpec, Error>)
    requires
        text@.len() > 0,
        !text@.contains('\n'),
        !text@.contains(':'),
        call_ensures(UnresolvedSpec::from_str, (text,), result),
    ensures
        result matches Ok(spec) && spec.host is None && spec.port == 22 && spec.file_path@ == text@,
{
    let parts = SpecParts { user: None, host: None, port: None, file: text@ };
    assert(parts.text() =~= text@);
    assert(parts.is_plain());
    assert(comes_of(result, Some(parts)));
}

/// A text is no spec exactly where nothing but line feeds is in it; and a spec always has a file.
pub proof fn law_read_nothing(text: &str, result: Result<UnresolvedSpec, Error>, i: int)
    requires
        call_ensures(UnresolvedSpec::from_str, (text,), result),
    ensures
        text@.len() == 0 ==> (result matches Err(error) && error.kind is InvalidIoSpec),
        0 <= i < text@.len() && text@[i] != '\n' ==> (result matches Err(error)
            ==> error.kind is InvalidPort),
        (forall|j: int| 0 <= j < text@.len() ==> #[trigger] text@[j] == '\n') ==> (
        result matches Err(error) && error.kind is InvalidIoSpec),
        result matches Ok(spec) ==> spec.file_path@.len() > 0,
{
    if text@.len() == 0 {
        assert(only_breaks(text@));
    }
    if 0 <= i < text@.len() && text@[i] != '\n' {
        assert(!only_breaks(text@));
        assert(!comes_of(result, None));
    }
    if forall|j: int| 0 <= j < text@.len() ==> #[trigger] text@[j] == '\n' {
        assert(only_breaks(text@));
        assert(comes_of(result, None));
    }
}

/// An address is read as it is written, and nothing else is one; so only a host that is no address
/// has to be looked up.
pub proof fn law_parse_octets(
    octets: [u8; 4],
    text: &str,
    result: Option<[u8; 4]>,
    spec: UnresolvedSpec,
    needs: bool,
)
    requires
        call_ensures(parse_octets, (text,), result),
        call_ensures(UnresolvedSpec::needs_lookup, (&spec,), needs),
    ensures
        text@ == octets_text(octets) ==> (result matches Some(same) && same@ == octets@),
        result matches Some(found) ==> text@ == octets_text(found),
        spec.host is None ==> !needs,
        spec.host matches Some(host) ==> host@ == text@ ==> (needs <==> result is None),
{
    if text@ == octets_text(octets) {
        assert(is_octets_text(text@));
        lemma_octets_differ(result->0, octets);
    }
    if let Some(found) = result {
        assert(octets_text(found) == text@);
        assert(is_octets_text(text@));
    }
}

} // verus!
