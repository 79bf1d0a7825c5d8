use cccp::items::{Cipher, Crypto};
use cccp::options::command::{LogLevel, Options};
use cccp::options::io_spec::{
    parse_octets, Captures, IoSpec, IpAddr, SocketAddr, UnresolvedSpec,
};
use cccp::options::{DecodeError, Error, ErrorKind, Mode, SetupMode};

fn v4(octets: [u8; 4], port: u16) -> Option<SocketAddr> {
    Some(SocketAddr {
        ip: IpAddr::V4 { octets },
        port,
    })
}

fn spec(host: Option<SocketAddr>, path: &str) -> IoSpec {
    IoSpec {
        file_path: path.to_string(),
        host,
        username: "me".to_string(),
    }
}

fn options() -> Options {
    Options {
        mode: Mode::Local,
        stream_setup_mode: SetupMode::Connect,
        start_port: 50000,
        end_port: 50009,
        threads: 8,
        log_level: LogLevel::Warn,
        rate: 999,
        max: 100,
        control_crypto: Crypto::default(),
        stream_crypto: Crypto {
            cipher: Cipher::Aes128.number(),
            key: (0..16).collect(),
            iv: vec![255; 16],
        },
        receive_timeout: 5000,
        job_limit: 1000,
        requeue_interval: 1000,
        max_retries: 10,
        command: "cccp".to_string(),
        progress_interval: 1000,
        verify: false,
        overwrite: false,
        recursive: false,
        force: false,
        directory: false,
        log_file: None,
        source: spec(None, "/tmp/a b"),
        destination: spec(v4([192, 168, 1, 20], 22), "b"),
    }
}

#[test]
fn modes() {
    assert_eq!(Mode::from_str("l").unwrap(), Mode::Local);
    assert_eq!(Mode::from_str("rr").unwrap(), Mode::Remote(false));
    assert_eq!(Mode::from_str("rs").unwrap(), Mode::Remote(true));
    assert_eq!(Mode::from_str("c").unwrap(), Mode::Controller);
    let error = Mode::from_str("x").unwrap_err();
    assert_eq!(error.message(), "the mode can be either sender or receiver");
}

#[test]
fn setup_modes() {
    assert_eq!(SetupMode::from_str("l").unwrap(), SetupMode::Listen);
    assert_eq!(SetupMode::from_str("c").unwrap(), SetupMode::Connect);
    assert!(SetupMode::from_str("L").is_err());
    for mode in [SetupMode::Listen, SetupMode::Connect] {
        assert_eq!(SetupMode::from_str(mode.text()).unwrap(), mode);
        assert_ne!(mode.not(), mode);
        assert_eq!(mode.not().not(), mode);
    }
}

#[test]
fn option_error_texts() {
    let text = |kind: ErrorKind| Error { kind }.message();
    assert_eq!(
        text(ErrorKind::InvalidIoSpec),
        "invalid IoSpec, refer to --help for more information"
    );
    assert_eq!(Error::invalid_cipher().message(), "invalid cipher");
    assert_eq!(Error::invalid_key().message(), "invalid key");
    assert_eq!(Error::invalid_iv().message(), "invalid IV");
    assert_eq!(Error::no_such_host().message(), "no such host");
    assert_eq!(Error::invalid_port().message(), "invalid port");
    assert_eq!(
        Error::invalid_io_spec().message(),
        "invalid IoSpec, refer to --help for more information"
    );
    assert_eq!(text(ErrorKind::Io("entity not found".to_string())), "entity not found");
    assert_eq!(
        text(ErrorKind::Decode(DecodeError::InvalidLength)),
        "description() is deprecated; use Display"
    );
}

#[test]
fn settings_with_key_and_iv() {
    let text = "aes128:AAECAwQFBgcICQoLDA0ODw://///////////////////w";
    let crypto = Crypto::from_str(text).unwrap();
    assert_eq!(crypto.cipher, Cipher::Aes128.number());
    assert_eq!(crypto.key, (0..16).collect::<Vec<u8>>());
    assert_eq!(crypto.iv, vec![255; 16]);
    assert_eq!(
        crypto.text().unwrap(),
        "AES128:AAECAwQFBgcICQoLDA0ODw://///////////////////w"
    );
    // more fields are not looked at
    assert!(Crypto::from_str(&format!("{}:more", text)).is_ok());
}

#[test]
fn settings_are_read_as_written() {
    for cipher in [
        Cipher::NoCipher,
        Cipher::Aes192,
        Cipher::Aes256,
        Cipher::Chacha8,
        Cipher::Chacha20,
    ] {
        let crypto = Crypto::from_str(cipher.name()).unwrap();
        assert_eq!(crypto.key.len(), cipher.key_length());
        assert_eq!(crypto.iv.len(), cipher.iv_length());
        let read = Crypto::from_str(&crypto.text().unwrap()).unwrap();
        assert_eq!(read.cipher, crypto.cipher);
        assert_eq!(read.key, crypto.key);
        assert_eq!(read.iv, crypto.iv);
    }
    assert_eq!(Crypto::default().text().unwrap(), "NONE::");
}

#[test]
fn missing_settings_are_random() {
    let first = Crypto::from_str("chacha20").unwrap();
    let second = Crypto::from_str("Chacha20").unwrap();
    assert_ne!(first.key, second.key);
    assert_ne!(first.iv, second.iv);
    let keyed = Crypto::from_str("aes128:AAECAwQFBgcICQoLDA0ODw").unwrap();
    assert_eq!(keyed.key, (0..16).collect::<Vec<u8>>());
    assert_eq!(keyed.iv.len(), 16);
}

#[test]
fn names_in_upper_case() {
    // the long s has the capital letter S
    let crypto = Crypto::from_str("ae\u{17f}256").unwrap();
    assert_eq!(crypto.cipher, Cipher::Aes256.number());
    assert!(matches!(
        Crypto::from_str("ßes256").unwrap_err().kind,
        ErrorKind::InvalidCipher
    ));
}

#[test]
fn faulty_settings() {
    let kind = |text: &str| Crypto::from_str(text).unwrap_err().kind;
    assert!(matches!(kind("rot13"), ErrorKind::InvalidCipher));
    assert!(matches!(kind(""), ErrorKind::InvalidCipher));
    // the cipher is looked at first
    assert!(matches!(kind("rot13:%"), ErrorKind::InvalidCipher));
    assert!(matches!(
        kind("AES128:%%%%:%"),
        ErrorKind::Decode(DecodeError::InvalidByte(0, b'%'))
    ));
    assert!(matches!(
        kind("AES128:A"),
        ErrorKind::Decode(DecodeError::InvalidLength)
    ));
    assert!(matches!(
        kind("AES128:AB"),
        ErrorKind::Decode(DecodeError::InvalidLastSymbol(1, b'B'))
    ));
    assert!(matches!(
        kind("AES128:AA=="),
        ErrorKind::Decode(DecodeError::InvalidPadding)
    ));
    assert!(matches!(
        kind("AES128:AA:A"),
        ErrorKind::Decode(DecodeError::InvalidLength)
    ));
    assert!(matches!(kind("AES128:AA"), ErrorKind::InvalidKey));
    assert!(matches!(kind("AES128::"), ErrorKind::InvalidKey));
    assert!(matches!(
        kind("AES128:AAECAwQFBgcICQoLDA0ODw:AA"),
        ErrorKind::InvalidIv
    ));
}

#[test]
fn settings_of_given_fields() {
    let crypto = Crypto::from_fields(Some(Cipher::NoCipher), None, Some(Ok(Vec::new()))).unwrap();
    assert!(crypto.key.is_empty() && crypto.iv.is_empty());
    let fault = |cipher, key, iv| Crypto::from_fields(cipher, key, iv).unwrap_err().kind;
    assert!(matches!(fault(None, None, None), ErrorKind::InvalidCipher));
    assert!(matches!(
        fault(
            Some(Cipher::NoCipher),
            Some(Err(DecodeError::InvalidPadding)),
            Some(Err(DecodeError::InvalidLength))
        ),
        ErrorKind::Decode(DecodeError::InvalidPadding)
    ));
    assert!(matches!(
        fault(
            Some(Cipher::NoCipher),
            Some(Ok(vec![1])),
            Some(Err(DecodeError::InvalidLength))
        ),
        ErrorKind::Decode(DecodeError::InvalidLength)
    ));
    assert!(matches!(
        fault(Some(Cipher::NoCipher), Some(Ok(vec![1])), Some(Ok(vec![1]))),
        ErrorKind::InvalidKey
    ));
}

#[test]
fn unknown_settings_have_no_text() {
    let crypto = Crypto {
        cipher: 77,
        key: Vec::new(),
        iv: Vec::new(),
    };
    assert!(crypto.text().is_none());
}

#[test]
fn specs_by_their_form() {
    let spec = UnresolvedSpec::from_str("/tmp/file").unwrap();
    assert_eq!(spec.file_path, "/tmp/file");
    assert!(spec.host.is_none());
    assert_eq!(spec.port, 22);
    assert_eq!(spec.username, whoami::username());
    let spec = UnresolvedSpec::from_str("host.example:dir/file").unwrap();
    assert_eq!(spec.file_path, "dir/file");
    assert_eq!(spec.host.as_deref(), Some("host.example"));
    assert_eq!(spec.port, 22);
    let spec = UnresolvedSpec::from_str("some-user@10.0.0.1:2222:file name").unwrap();
    assert_eq!(spec.file_path, "file name");
    assert_eq!(spec.host.as_deref(), Some("10.0.0.1"));
    assert_eq!(spec.port, 2222);
    assert_eq!(spec.username, "some-user");
    let spec = UnresolvedSpec::from_str("user@host:123").unwrap();
    assert_eq!(spec.port, 22);
    assert_eq!(spec.file_path, "123");
    let spec = UnresolvedSpec::from_str("a@b").unwrap();
    assert_eq!(spec.file_path, "a@b");
    assert!(spec.host.is_none());
    // with a port, the file may have colons
    let spec = UnresolvedSpec::from_str("host:1:2:3:c").unwrap();
    assert_eq!((spec.port, spec.file_path.as_str()), (1, "2:3:c"));
    // without one, it may if something else than digits is before the first of them
    let spec = UnresolvedSpec::from_str("host:a1:2").unwrap();
    assert_eq!((spec.port, spec.file_path.as_str()), (22, "a1:2"));
    assert_eq!(spec.host.as_deref(), Some("host"));
    let spec = UnresolvedSpec::from_str("./a:2:3").unwrap();
    assert!(spec.host.is_none());
    assert_eq!(spec.file_path, "./a:2:3");
    // what cannot be a host, with or without a user, belongs to the file
    for text in [
        ":f", "~a:f", "a b:f", "a+b:2:f", "(a):f", "@a:f", "a@:f", "a@b@c:f", "a.b@c:f",
    ] {
        let spec = UnresolvedSpec::from_str(text).unwrap();
        assert!(spec.host.is_none(), "{}", text);
        assert_eq!(spec.file_path, text);
    }
    let spec = UnresolvedSpec::from_str("h::2:f").unwrap();
    assert_eq!(spec.host.as_deref(), Some("h"));
    assert_eq!((spec.port, spec.file_path.as_str()), (22, ":2:f"));
    // the letters of a name may be of any script
    let spec = UnresolvedSpec::from_str("\u{fc}ser@h:5:f").unwrap();
    assert_eq!(spec.username, "\u{fc}ser");
    assert_eq!(spec.port, 5);
    let spec = UnresolvedSpec::from_str("\n\nf\ng").unwrap();
    assert_eq!(spec.file_path, "f");
}

#[test]
fn addresses_as_text() {
    assert_eq!(parse_octets("127.0.0.1"), Some([127, 0, 0, 1]));
    assert_eq!(parse_octets("255.255.255.255"), Some([255; 4]));
    for text in [
        "", "1.2.3", "1.2.3.4.5", "1.2.3.", ".1.2.3", "256.1.1.1", "01.2.3.4", "1.2.3.00",
        "+1.2.3.4", "1.2.3.4 ", "a.b.c.d", "host",
    ] {
        assert_eq!(parse_octets(text), None, "{}", text);
    }
}

#[test]
fn specs_read_as_written() {
    for (octets, port, path) in [
        ([10, 0, 0, 1], 22, "/tmp/file"),
        ([0, 0, 0, 0], 0, "1:2:3"),
        ([255, 1, 20, 127], 65535, "a b@c:d"),
    ] {
        let spec = spec(v4(octets, port), path);
        let read = UnresolvedSpec::from_str(&spec.text()).unwrap();
        assert!(!read.needs_lookup());
        let read = IoSpec::resolve(read, Ok(None)).unwrap();
        assert_eq!(read.text(), spec.text());
        assert_eq!(read.username, spec.username);
        assert_eq!(read.file_path, path);
        let host = read.host.unwrap();
        assert_eq!(host.port, port);
        assert!(matches!(host.ip, IpAddr::V4 { octets: same } if same == octets));
    }
}

#[test]
fn faulty_specs() {
    let kind = |text: &str| UnresolvedSpec::from_str(text).unwrap_err().kind;
    assert!(matches!(kind(""), ErrorKind::InvalidIoSpec));
    assert!(matches!(kind("\n"), ErrorKind::InvalidIoSpec));
    assert!(matches!(kind("\n\n\n"), ErrorKind::InvalidIoSpec));
    assert!(matches!(kind("host:65536:file"), ErrorKind::InvalidPort));
    // digits of another script are digits to the expression, but no port
    assert!(matches!(kind("host:\u{661}:file"), ErrorKind::InvalidPort));
}

#[test]
fn specs_of_given_captures() {
    let captures = |port: Option<&str>, user: Option<&str>| {
        Some(Captures {
            user: user.map(str::to_string),
            host: Some("h".to_string()),
            port: port.map(str::to_string),
            file: "f".to_string(),
        })
    };
    let me = || "me".to_string();
    let spec = UnresolvedSpec::from_captures(captures(None, None), me()).unwrap();
    assert_eq!((spec.port, spec.username.as_str()), (22, "me"));
    let spec = UnresolvedSpec::from_captures(captures(Some("80"), Some("you")), me()).unwrap();
    assert_eq!((spec.port, spec.username.as_str()), (80, "you"));
    assert!(matches!(
        UnresolvedSpec::from_captures(None, me()).unwrap_err().kind,
        ErrorKind::InvalidIoSpec
    ));
    assert!(matches!(
        UnresolvedSpec::from_captures(captures(Some("x"), None), me())
            .unwrap_err()
            .kind,
        ErrorKind::InvalidPort
    ));
}

#[test]
fn resolving() {
    let unresolved = |host: Option<&str>| UnresolvedSpec {
        file_path: "f".to_string(),
        host: host.map(str::to_string),
        port: 23,
        username: "me".to_string(),
    };
    let ip = || IpAddr::V4 {
        octets: [10, 0, 0, 1],
    };
    let resolved = IoSpec::resolve(unresolved(Some("h")), Ok(Some(ip()))).unwrap();
    assert_eq!(resolved.text(), "me@10.0.0.1:23:f");
    let resolved = IoSpec::resolve(unresolved(None), Ok(None)).unwrap();
    assert_eq!(resolved.text(), "me@localhost:f");
    // an address is taken as it is
    let resolved = IoSpec::resolve(unresolved(Some("1.2.3.4")), Ok(Some(ip()))).unwrap();
    assert_eq!(resolved.text(), "me@1.2.3.4:23:f");
    assert!(!unresolved(Some("1.2.3.4")).needs_lookup());
    assert!(!unresolved(None).needs_lookup());
    assert!(unresolved(Some("h")).needs_lookup());
    assert!(matches!(
        IoSpec::resolve(unresolved(Some("h")), Ok(None))
            .unwrap_err()
            .kind,
        ErrorKind::NoSuchHost
    ));
    match IoSpec::resolve(unresolved(Some("h")), Err("lookup failed".to_string()))
        .unwrap_err()
        .kind
    {
        ErrorKind::Io(text) => assert_eq!(text, "lookup failed"),
        other => panic!("{:?}", other),
    }
}

#[test]
fn local_specs() {
    assert!(spec(None, "f").is_local());
    assert!(spec(v4([127, 0, 0, 1], 22), "f").is_local());
    assert!(spec(v4([127, 200, 3, 4], 22), "f").is_local());
    assert!(!spec(v4([128, 0, 0, 1], 22), "f").is_local());
    let v6 = |segments: [u16; 8], text: &str| {
        Some(SocketAddr {
            ip: IpAddr::V6 {
                segments,
                text: text.to_string(),
            },
            port: 22,
        })
    };
    let loopback = spec(v6([0, 0, 0, 0, 0, 0, 0, 1], "::1"), "f");
    assert!(loopback.is_local());
    assert_eq!(loopback.text(), "me@[::1]:22:f");
    assert!(!spec(v6([0xfe80, 0, 0, 0, 0, 0, 0, 1], "fe80::1%3"), "f").is_local());
    assert!(!spec(v6([0; 8], "::"), "f").is_local());
}

#[test]
fn commands() {
    let options = options();
    assert_eq!(
        options.format_command(true, SetupMode::Listen),
        "cccp --mode rr --stream-setup-mode l -s 50000 -e 50009 -t 8 -l WARN -r \"999 B\" -m 100 \
         -T 5000 -j 1000 -c NONE:: -S AES128:AAECAwQFBgcICQoLDA0ODw://///////////////////w \
         -i 1000 -M 10 \"me@localhost:/tmp/a b\" \"me@192.168.1.20:22:b\""
    );
}

#[test]
fn commands_with_flags() {
    let mut options = options();
    options.overwrite = true;
    options.verify = true;
    options.recursive = true;
    options.force = true;
    options.directory = true;
    let command = options.format_command_with(false, SetupMode::Connect, "1.0 MB");
    assert!(command.starts_with(
        "cccp -d -f -R -v -o --mode rs --stream-setup-mode c -s 50000 -e 50009 -t 8"
    ));
    assert!(command.contains(" -r \"1.0 MB\" "));
    options.verify = false;
    options.force = false;
    let command = options.format_command_with(false, SetupMode::Connect, "1.0 MB");
    assert!(command.starts_with("cccp -d -R -o --mode rs"));
}

#[test]
fn rates() {
    let mut options = options();
    options.rate = 1_000_000;
    assert_eq!(options.pps(), 957);
    options.rate = 2_500_000;
    assert!(options
        .format_command(true, SetupMode::Listen)
        .contains(" -r \"2.5 MB\" "));
    options.rate = 1043;
    assert_eq!(options.pps(), 0);
    options.rate = 1044;
    assert_eq!(options.pps(), 1);
}

#[test]
fn log_levels() {
    for (level, text) in [
        (LogLevel::Off, "OFF"),
        (LogLevel::Error, "ERROR"),
        (LogLevel::Warn, "WARN"),
        (LogLevel::Info, "INFO"),
        (LogLevel::Debug, "DEBUG"),
        (LogLevel::Trace, "TRACE"),
    ] {
        assert_eq!(level.text(), text);
    }
}
