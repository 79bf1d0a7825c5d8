use cccp::error::{Error, ErrorKind};
use cccp::items::{Cipher, Crypto};
use cccp::options::command::{LogLevel, Options};
use cccp::options::io_spec::{IoSpec, IpAddr, SocketAddr};
use cccp::options::{Mode, SetupMode};
use cccp::session::{
    asks_password, command_result, command_step, ends, fit_ports, is_install, is_stop, log_target,
    next_stream, password_prompt, remote_hosts, select_mode, validate, ChannelEvent, CommandStep,
    ConnectFault, LogTarget, OptionFault, Ports, STOP_LINE,
};

fn spec(octets: Option<[u8; 4]>) -> IoSpec {
    IoSpec {
        file_path: "f".to_string(),
        host: octets.map(|octets| SocketAddr {
            ip: IpAddr::V4 { octets },
            port: 22,
        }),
        username: "me".to_string(),
    }
}

fn options(source: IoSpec, destination: IoSpec) -> Options {
    Options {
        mode: Mode::Local,
        stream_setup_mode: SetupMode::Connect,
        start_port: 50000,
        end_port: 50009,
        threads: 4,
        log_level: LogLevel::Warn,
        rate: 1_000_000,
        max: 100,
        control_crypto: Crypto {
            cipher: Cipher::Aes256.number(),
            key: vec![1; 32],
            iv: (0..16).collect(),
        },
        stream_crypto: Crypto::default(),
        receive_timeout: 5000,
        job_limit: 1000,
        requeue_interval: 1000,
        max_retries: 10,
        command: "cccp".to_string(),
        progress_interval: 1000,
        verify: false,
        overwrite: false,
        recursive: false,
        force: false,
        directory: false,
        log_file: None,
        source,
        destination,
    }
}

#[test]
fn ports_and_threads() {
    let fitted = |end_port, threads| Ok(Ports { end_port, threads });
    assert_eq!(fit_ports(50000, 50009, 8), fitted(50009, 8));
    // fewer threads than ports
    assert_eq!(fit_ports(50000, 50009, 3), fitted(50004, 3));
    // fewer ports than threads
    assert_eq!(fit_ports(50000, 50004, 8), fitted(50004, 3));
    assert_eq!(fit_ports(50000, 50002, 1), fitted(50002, 1));
    assert_eq!(fit_ports(2, 1, 8), Err(OptionFault::EndBeforeStart));
    assert_eq!(fit_ports(5, 5, 8), Err(OptionFault::TooFewPorts));
    assert_eq!(fit_ports(5, 6, 8), Err(OptionFault::TooFewPorts));
    assert_eq!(fit_ports(1, 65535, 70000), fitted(65535, 65533));
    // there is always one port for data
    assert_eq!(fit_ports(50000, 50009, 65536), fitted(50009, 8));
    assert_eq!(fit_ports(50000, 50009, 0), fitted(50002, 1));
    assert_eq!(fit_ports(50000, 50002, usize::MAX), fitted(50002, 1));
    assert_eq!(fit_ports(0, 65534, 65533), fitted(65534, 65533));
    assert_eq!(
        OptionFault::EndBeforeStart.text(),
        "end port must be greater than start port"
    );
    assert_eq!(
        OptionFault::TooFewPorts.text(),
        "a minimum of three ports are required"
    );
    assert_eq!(
        OptionFault::BothLocal.text(),
        "both the source and destination cannot be local"
    );
}

#[test]
fn modes_of_a_client() {
    assert_eq!(select_mode(true, false), Ok(Mode::Local));
    assert_eq!(select_mode(false, true), Ok(Mode::Local));
    assert_eq!(select_mode(false, false), Ok(Mode::Controller));
    assert_eq!(select_mode(true, true), Err(OptionFault::BothLocal));
}

#[test]
fn validation() {
    let remote = || spec(Some([10, 0, 0, 1]));
    let mut valid = options(spec(None), remote());
    assert!(validate(&mut valid).is_ok());
    assert_eq!(valid.mode, Mode::Local);
    assert_eq!(valid.end_port, 50005);
    let mut two_remotes = options(remote(), remote());
    assert!(validate(&mut two_remotes).is_ok());
    assert_eq!(two_remotes.mode, Mode::Controller);
    let mut local = options(spec(None), spec(Some([127, 0, 0, 1])));
    assert_eq!(validate(&mut local), Err(OptionFault::BothLocal));
    let mut few = options(spec(None), remote());
    few.end_port = 50001;
    assert_eq!(validate(&mut few), Err(OptionFault::TooFewPorts));
    // a remote client takes its options as they are
    let mut other = options(spec(None), spec(None));
    other.mode = Mode::Remote(true);
    other.end_port = 1;
    assert!(validate(&mut other).is_ok());
    assert_eq!(other.end_port, 1);
}

#[test]
fn logs() {
    assert!(matches!(log_target(Mode::Local, &None), LogTarget::Stderr));
    match log_target(Mode::Local, &Some("my.log".to_string())) {
        LogTarget::File(path) => assert_eq!(path, "my.log"),
        other => panic!("{:?}", other),
    }
    match log_target(Mode::Remote(true), &Some("my.log".to_string())) {
        LogTarget::File(path) => assert_eq!(path, "cccp.log"),
        other => panic!("{:?}", other),
    }
}

#[test]
fn ends_of_a_transfer() {
    let local = spec(None);
    let remote = spec(Some([10, 0, 0, 1]));
    let sending = ends(&local, &remote);
    assert!(sending.sender);
    assert_eq!(sending.host.text(), "10.0.0.1:22");
    let receiving = ends(&remote, &local);
    assert!(!receiving.sender);
    assert_eq!(receiving.remote.text(), "me@10.0.0.1:22:f");
    let other = spec(Some([10, 0, 0, 2]));
    // a host of this machine counts as one too
    let here = spec(Some([127, 0, 0, 1]));
    assert_eq!(remote_hosts(&here, &other).0.text(), "127.0.0.1:22");
    let (from, to) = remote_hosts(&remote, &other);
    assert_eq!(from.text(), "10.0.0.1:22");
    assert_eq!(to.text(), "10.0.0.2:22");
}

#[test]
fn peers_have_the_same_streams() {
    let mut here = options(spec(None), spec(Some([10, 0, 0, 1])));
    let mut there = options(spec(None), spec(None));
    // the other end reads the settings from the command
    there.control_crypto = Crypto::from_str(&here.control_crypto.text().unwrap()).unwrap();
    let mut frames = Vec::new();
    for _ in 0..2 {
        let mut writer = next_stream(&mut here).unwrap();
        let mut reader = next_stream(&mut there).unwrap();
        let frame = writer.write_message(&vec![1, 2, 3]);
        assert_eq!(reader.read_u32(frame[..4].to_vec()), 3);
        let mut body = frame[4..].to_vec();
        reader.read_exact(&mut body);
        assert_eq!(body, vec![1, 2, 3]);
        frames.push(frame);
    }
    // each stream has a keystream of its own
    assert_ne!(frames[0], frames[1]);
    assert_eq!(here.start_port, 50002);
    assert_eq!(there.start_port, 50002);
    let mut unknown = options(spec(None), spec(None));
    unknown.control_crypto.cipher = 50;
    assert!(next_stream(&mut unknown).is_err());
    assert_eq!(unknown.start_port, 50000);
}

#[test]
fn command_results() {
    assert!(command_result(Ok(0)).is_ok());
    assert!(matches!(
        command_result(Ok(3)).unwrap_err().kind,
        ErrorKind::CommandFailed(3)
    ));
    assert!(matches!(
        command_result(Err(Error::max_retries())).unwrap_err().kind,
        ErrorKind::MaxRetries
    ));
}

#[test]
fn command_steps() {
    match command_step(ChannelEvent::Data(vec![8, 1, 10])).unwrap() {
        CommandStep::Report(payload) => assert_eq!(payload, vec![8, 1]),
        other => panic!("{:?}", other),
    }
    match command_step(ChannelEvent::Stderr("a\nb\r".to_string())).unwrap() {
        CommandStep::Log(line) => assert_eq!(line, "ab\r"),
        other => panic!("{:?}", other),
    }
    let unknown = "'cccp' is not recognized as an internal\n or external command";
    assert!(matches!(
        command_step(ChannelEvent::Stderr(unknown.to_string()))
            .unwrap_err()
            .kind,
        ErrorKind::CommandNotFound
    ));
    assert!(matches!(
        command_step(ChannelEvent::ExitStatus(127)).unwrap_err().kind,
        ErrorKind::CommandNotFound
    ));
    assert!(matches!(
        command_step(ChannelEvent::ExitStatus(0)).unwrap(),
        CommandStep::Exited(0)
    ));
    assert!(matches!(
        command_step(ChannelEvent::ExitStatus(5)).unwrap(),
        CommandStep::Exited(5)
    ));
    assert!(matches!(
        command_step(ChannelEvent::Other).unwrap(),
        CommandStep::Nothing
    ));
    assert!(matches!(
        command_step(ChannelEvent::Closed).unwrap_err().kind,
        ErrorKind::NoExitStatus
    ));
}

#[test]
fn stopping() {
    assert!(is_stop(STOP_LINE.trim_end()));
    assert!(is_stop("please STOP now"));
    assert!(!is_stop("stop"));
}

#[test]
fn authentication() {
    assert!(asks_password(ConnectFault::KeyAuthFailed));
    assert!(asks_password(ConnectFault::PasswordWrong));
    assert!(!asks_password(ConnectFault::Other));
    assert_eq!(
        password_prompt(&spec(Some([10, 0, 0, 1])).host.unwrap()),
        "10.0.0.1:22 password: "
    );
}

#[test]
fn install_arguments() {
    let arguments = |list: &[&str]| list.iter().map(|a| a.to_string()).collect::<Vec<_>>();
    assert!(is_install(&arguments(&["cccp", "install", "host:path"])));
    assert!(!is_install(&arguments(&["cccp", "source", "install"])));
    assert!(!is_install(&arguments(&["install"])));
    assert!(!is_install(&Vec::new()));
}
