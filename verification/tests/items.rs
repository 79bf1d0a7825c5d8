use cccp::error::{Error, ErrorKind};
use cccp::items::{Body, Cipher, Crypto, FileDetail, Manifest, Message, StartIndex, Stats};
use cccp::stats::{stats_line, stats_payload, TransferStats};
use std::collections::HashMap;

#[test]
fn cipher_lengths() {
    assert_eq!(Cipher::NoCipher.key_length(), 0);
    assert_eq!(Cipher::Aes128.key_length(), 16);
    assert_eq!(Cipher::Aes192.key_length(), 24);
    assert_eq!(Cipher::Aes256.key_length(), 32);
    assert_eq!(Cipher::Chacha8.key_length(), 32);
    assert_eq!(Cipher::Chacha20.key_length(), 32);
    assert_eq!(Cipher::NoCipher.iv_length(), 0);
    assert_eq!(Cipher::Aes128.iv_length(), 16);
    assert_eq!(Cipher::Aes192.iv_length(), 16);
    assert_eq!(Cipher::Aes256.iv_length(), 16);
    assert_eq!(Cipher::Chacha8.iv_length(), 12);
    assert_eq!(Cipher::Chacha20.iv_length(), 12);
}

#[test]
fn cipher_numbers_and_names() {
    for (number, name) in [
        (0, "NONE"),
        (1, "AES128"),
        (2, "AES192"),
        (3, "AES256"),
        (4, "CHACHA8"),
        (5, "CHACHA20"),
    ] {
        let cipher = Cipher::from_number(number).unwrap();
        assert_eq!(cipher.number(), number);
        assert_eq!(cipher.name(), name);
        assert_eq!(Cipher::from_str_name(name), Some(cipher));
    }
    assert_eq!(Cipher::from_number(-1), None);
    assert_eq!(Cipher::from_number(6), None);
    assert_eq!(Cipher::from_str_name("aes128"), None);
    assert_eq!(Cipher::from_str_name(""), None);
}

#[test]
fn manifest_emptiness() {
    let mut manifest = Manifest {
        directories: Vec::new(),
        files: HashMap::new(),
    };
    assert!(manifest.is_empty());
    manifest.directories.push("a".to_string());
    assert!(!manifest.is_empty());
    manifest.directories.clear();
    manifest.files.insert(
        0,
        FileDetail {
            path: "f".to_string(),
            size: 1,
            signature: Vec::new(),
            crypto: Some(Crypto::default()),
        },
    );
    assert!(!manifest.is_empty());
    match Message::manifest(&manifest).message {
        Some(Body::Manifest(copy)) => {
            assert_eq!(copy.files.len(), 1);
            assert_eq!(copy.files[&0].path, "f");
        }
        other => panic!("{:?}", other),
    }
}

#[test]
fn messages() {
    assert_eq!(StartIndex::new(7).index, 7);
    assert!(matches!(
        Message::start(3).message,
        Some(Body::Start { id: 3 })
    ));
    assert!(matches!(Message::end(4).message, Some(Body::End { id: 4 })));
    assert!(matches!(
        Message::done(2).message,
        Some(Body::Done { reason: 2 })
    ));
    match Message::completed(vec![1, 5]).message {
        Some(Body::Completed { ids }) => assert_eq!(ids, vec![1, 5]),
        other => panic!("{:?}", other),
    }
    match Message::failure(1, 2, Some("full".to_string())).message {
        Some(Body::Failure {
            id,
            reason,
            description,
        }) => assert_eq!((id, reason, description.unwrap()), (1, 2, "full".to_string())),
        other => panic!("{:?}", other),
    }
    assert!(matches!(
        Message::confirmations(HashMap::new()).message,
        Some(Body::Confirmations { .. })
    ));
}

#[test]
fn error_texts() {
    let text = |kind: ErrorKind| Error::new(kind).message("");
    let report = || "report".to_string();
    assert_eq!(text(ErrorKind::Io(report())), "IO error: report");
    assert_eq!(
        text(ErrorKind::AddrParse(report())),
        "Address parse error: report"
    );
    assert_eq!(text(ErrorKind::Decode(report())), "Decode error: report");
    assert_eq!(text(ErrorKind::Join(report())), "Join error: report");
    assert_eq!(text(ErrorKind::Send(report())), "Send error: report");
    assert_eq!(text(ErrorKind::Receive(report())), "Receive error: report");
    assert_eq!(text(ErrorKind::Acquire(report())), "Acquire error: report");
    assert_eq!(text(ErrorKind::MissingQueue), "Missing queue");
    assert_eq!(text(ErrorKind::MaxRetries), "Max retries");
    assert_eq!(text(ErrorKind::StatusError), "Status error");
    assert_eq!(Error::failure(17).message(""), "failure: 17");
    assert_eq!(Error::empty_path().message(""), "empty path");
    assert_eq!(
        Error::invalid_extension().message(""),
        "invalid extension"
    );
    assert_eq!(Error::no_exit_status().message(""), "no exit status");
    assert_eq!(
        Error::command_not_found().message(""),
        "cccp command not found"
    );
    assert_eq!(
        Error::command_failed(203).message(""),
        "command failed with status 203"
    );
    assert!(matches!(
        Error::missing_queue().kind,
        ErrorKind::MissingQueue
    ));
    assert!(matches!(Error::max_retries().kind, ErrorKind::MaxRetries));
    assert!(matches!(Error::status_error().kind, ErrorKind::StatusError));
    assert_eq!(
        Error::unexpected_message(Message::done(9)).message("Done"),
        "unexpected message Done"
    );
    assert_eq!(
        text(ErrorKind::UnknownOs("a".to_string(), "b".to_string())),
        "unknown operating system: a b"
    );
}

#[test]
fn transfer_stats() {
    let mut stats = TransferStats::default();
    assert_eq!(stats.confirmed(), 0);
    assert!(!stats.is_complete());
    assert_eq!(stats.packet_loss(), None);
    stats.confirmed_packets = 3;
    stats.sent_packets = 10;
    stats.total_data = 5000;
    assert_eq!(stats.confirmed(), 3072);
    assert_eq!(stats.total(), 5000);
    let loss = stats.packet_loss().unwrap();
    assert_eq!((loss.lost, loss.sent), (7, 10));
    stats.confirmed_packets = 12;
    assert_eq!(stats.packet_loss().unwrap().lost, 0);
    let report = Stats::from(&stats);
    assert_eq!(
        (
            report.confirmed_packets,
            report.sent_packets,
            report.total_data
        ),
        (12, 10, 5000)
    );
    let mut local = TransferStats::default();
    local.report(&report, true, false, false);
    assert_eq!(
        (local.sent_packets, local.confirmed_packets, local.total_data),
        (10, 0, 0)
    );
    local.report(&report, false, true, true);
    assert_eq!(
        (local.sent_packets, local.confirmed_packets, local.total_data),
        (10, 12, 5000)
    );
}

#[test]
fn stats_lines() {
    let line = stats_line(&vec![8, 1, 16, 2]);
    assert_eq!(line, vec![8, 1, 16, 2, b'\n']);
    assert_eq!(stats_payload(&line), vec![8, 1, 16, 2]);
    assert_eq!(stats_payload(&stats_line(&Vec::new())), Vec::<u8>::new());
}
