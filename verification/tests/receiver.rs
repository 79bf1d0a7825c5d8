use cccp::error::ErrorKind;
use cccp::items::{Body, Cipher, Crypto, FileDetail, Manifest, Message};
use cccp::receiver::confirmations::{after_receive, group_confirmations, Batch, Reception};
use cccp::receiver::controller::{receive, Controller, ControllerEvent};
use cccp::receiver::files::{
    check_space, destination_is_dir, first_existing, free_bytes, is_below_destination,
    is_completed, partial_extension, receive_manifest, sort_files, start_index, Extension,
    FileDetails,
};
use cccp::receiver::metadata::Metadata;
use cccp::receiver::queue::SplitQueue;
use cccp::retry::Retries;
use std::collections::HashMap;

fn detail(size: u64, signature: Vec<u8>) -> FileDetail {
    FileDetail {
        path: "f".to_string(),
        size,
        signature,
        crypto: None,
    }
}

#[test]
fn first_messages() {
    let manifest = Manifest {
        directories: vec!["d".to_string()],
        files: HashMap::new(),
    };
    let received = receive_manifest(Message::manifest(&manifest)).unwrap();
    assert_eq!(received.unwrap().directories, vec!["d".to_string()]);
    assert!(receive_manifest(Message::done(0)).unwrap().is_none());
    for message in [Message::done(1), Message::end(0), Message { message: None }] {
        let error = receive_manifest(message).unwrap_err();
        assert!(matches!(error.kind, ErrorKind::UnexpectedMessage(_)));
    }
}

#[test]
fn destinations() {
    let mut manifest = Manifest {
        directories: Vec::new(),
        files: HashMap::new(),
    };
    manifest.files.insert(0, detail(1, Vec::new()));
    assert!(!destination_is_dir(false, &manifest));
    assert!(destination_is_dir(true, &manifest));
    manifest.files.insert(1, detail(1, Vec::new()));
    assert!(destination_is_dir(false, &manifest));
    assert!(is_below_destination(true, false));
    assert!(is_below_destination(false, true));
    assert!(!is_below_destination(false, false));
}

#[test]
fn existing_files() {
    assert!(is_completed(true, false));
    assert!(!is_completed(true, true));
    assert!(!is_completed(false, false));
    let files = vec![(4, true), (2, false), (7, true)];
    let sorted = sort_files(&files, false);
    assert_eq!(sorted.completed, vec![4, 7]);
    assert_eq!(sorted.wanted, vec![2]);
    let sorted = sort_files(&files, true);
    assert!(sorted.completed.is_empty());
    assert_eq!(sorted.wanted, vec![4, 2, 7]);
}

#[test]
fn partial_extensions() {
    assert_eq!(partial_extension(&Extension::Absent).unwrap(), "partial");
    assert_eq!(
        partial_extension(&Extension::Text("txt".to_string())).unwrap(),
        "txt.partial"
    );
    let error = partial_extension(&Extension::NotUnicode).unwrap_err();
    assert!(matches!(error.kind, ErrorKind::InvalidExtension));
}

#[test]
fn start_indexes() {
    assert_eq!(start_index(None), 0);
    assert_eq!(start_index(Some(0)), 0);
    assert_eq!(start_index(Some(1023)), 0);
    assert_eq!(start_index(Some(1024)), 1024);
    assert_eq!(start_index(Some(5000)), 4096);
    assert_eq!(start_index(Some(u64::MAX)), 18446744073709550592);
}

#[test]
fn details_of_wanted_files() {
    let details = FileDetails::new(3, detail(5000, vec![1]), Some(4100));
    assert_eq!(details.id, 3);
    assert_eq!(details.size, 5000);
    assert_eq!(details.start_index, 4096);
    assert_eq!(details.remaining(), 904);
    assert!(details.is_signed());
    // without settings there is no cipher
    assert_eq!(details.crypto.cipher, 0);
    let mut with_crypto = detail(1, Vec::new());
    with_crypto.crypto = Some(Crypto {
        cipher: Cipher::Aes128.number(),
        key: vec![1; 16],
        iv: vec![2; 16],
    });
    let details = FileDetails::new(0, with_crypto, None);
    assert_eq!(details.crypto.key, vec![1; 16]);
    assert!(!details.is_signed());
}

#[test]
fn signatures() {
    let signed = FileDetails::new(3, detail(1, vec![1, 2]), None);
    assert!(matches!(
        signed.finish(&Some(vec![1, 2])).unwrap().message,
        Some(Body::End { id: 3 })
    ));
    let refusal = signed.finish(&Some(vec![1, 3])).unwrap_err();
    assert!(matches!(refusal.error.kind, ErrorKind::Failure(0)));
    assert!(matches!(
        refusal.message.message,
        Some(Body::Failure {
            id: 3,
            reason: 0,
            description: None
        })
    ));
    let unsigned = FileDetails::new(4, detail(1, Vec::new()), None);
    assert!(matches!(
        unsigned.finish(&None).unwrap().message,
        Some(Body::End { id: 4 })
    ));
    match unsigned.writer_failure("disk full".to_string()).message {
        Some(Body::Failure {
            id: 4,
            reason: 2,
            description: Some(text),
        }) => assert_eq!(text, "disk full"),
        other => panic!("{:?}", other),
    }
}

#[test]
fn free_space() {
    assert!(check_space(Some(10), 10).is_ok());
    assert!(check_space(None, u64::MAX).is_ok());
    let refusal = check_space(Some(9), 10).unwrap_err();
    assert!(matches!(refusal.error.kind, ErrorKind::Failure(1)));
    assert!(matches!(
        refusal.message.message,
        Some(Body::Failure {
            id: 0,
            reason: 1,
            description: None
        })
    ));
    assert_eq!(free_bytes(1000, 4096), 4_096_000);
    assert_eq!(first_existing(&vec![false, false, true, true]).unwrap(), 2);
    let error = first_existing(&vec![false]).unwrap_err();
    assert!(matches!(error.kind, ErrorKind::EmptyPath));
}

#[test]
fn messages_of_the_sender() {
    assert_eq!(
        receive(Message::start(8)).unwrap(),
        ControllerEvent::Start(8)
    );
    assert_eq!(receive(Message::done(1)).unwrap(), ControllerEvent::Done);
    assert_eq!(receive(Message::done(2)).unwrap(), ControllerEvent::Done);
    for message in [Message::done(0), Message::done(3), Message::end(1)] {
        let error = receive(message).unwrap_err();
        assert!(matches!(error.kind, ErrorKind::UnexpectedMessage(_)));
    }
    assert!(receive(Message { message: None }).is_err());
}

#[test]
fn starting_files() {
    let mut files = HashMap::new();
    files.insert(1, FileDetails::new(1, detail(5000, Vec::new()), Some(3000)));
    let mut controller = Controller::new(files);
    assert!(controller.start(0, true).is_none());
    assert_eq!(controller.start(1, true).unwrap().index, 2048);
    // the partial file was removed: from the start again
    assert_eq!(controller.start(1, false).unwrap().index, 0);
    assert_eq!(controller.details(1).unwrap().start_index, 0);
    assert_eq!(controller.start(1, true).unwrap().index, 0);
    assert!(controller.details(2).is_none());
}

#[test]
fn grouping() {
    let map = group_confirmations(&vec![(1, 5), (2, 6), (1, 4), (1, 5)]);
    assert_eq!(map.len(), 2);
    assert_eq!(map[&1].inner, vec![5, 4, 5]);
    assert_eq!(map[&2].inner, vec![6]);
    assert!(group_confirmations(&Vec::new()).is_empty());
}

#[test]
fn batches() {
    let mut batch = Batch::new();
    assert!(batch.take().is_none());
    assert_eq!(batch.confirmed(), 0);
    batch.push(1, 5);
    batch.push(2, 6);
    batch.push(1, 5);
    assert_eq!(batch.confirmed(), 3);
    match batch.take().unwrap().message {
        Some(Body::Confirmations { indexes }) => {
            assert_eq!(indexes.len(), 2);
            assert_eq!(indexes[&1].inner, vec![5, 5]);
            assert_eq!(indexes[&2].inner, vec![6]);
        }
        other => panic!("{:?}", other),
    }
    assert!(batch.take().is_none());
    batch.push(3, 7);
    assert_eq!(batch.confirmed(), 4);
    match batch.take().unwrap().message {
        Some(Body::Confirmations { indexes }) => {
            assert_eq!(indexes.len(), 1);
            assert_eq!(indexes[&3].inner, vec![7]);
        }
        other => panic!("{:?}", other),
    }
}

#[test]
fn receiving() {
    let mut retries = Retries::new(2);
    let mut buf = vec![0; 1036];
    buf[3] = 9;
    buf[11] = 4;
    buf[12] = 77;
    assert!(after_receive(&buf, Reception::Failed, &mut retries).is_none());
    // nothing read: neither a failure nor a success
    assert!(after_receive(&buf, Reception::Read(0), &mut retries).is_none());
    let (id, job) = after_receive(&buf, Reception::Read(1036), &mut retries).unwrap();
    assert_eq!((id, job.index, job.data[0]), (9, 4, 77));
    assert!(after_receive(&buf, Reception::Failed, &mut retries).is_none());
    assert!(retries.more());
    assert!(after_receive(&buf, Reception::Read(0), &mut retries).is_none());
    assert!(after_receive(&buf, Reception::Failed, &mut retries).is_none());
    assert!(!retries.more());
}

#[test]
fn queues() {
    let mut queue: SplitQueue<&str, u8> = SplitQueue::new();
    assert!(queue.get_receiver(1).is_none());
    queue.push_queue(1, "in", 1);
    queue.push_queue(2, "other", 2);
    assert_eq!(queue.get_sender(1), Some(&"in"));
    assert_eq!(queue.get_receiver(1), Some(&1));
    queue.push_queue(1, "again", 3);
    assert_eq!(queue.get_sender(1), Some(&"again"));
    queue.pop_queue(1);
    assert!(queue.get_sender(1).is_none());
    assert!(queue.get_receiver(1).is_none());
    assert_eq!(queue.get_receiver(2), Some(&2));
}

#[test]
fn metadata_files() {
    assert_eq!(Metadata::new(&None).initial_index, 0);
    let mut content = Vec::new();
    assert_eq!(Metadata::load(&content).unwrap().initial_index, 0);
    content.extend(Metadata::complete(1024));
    content.extend(Metadata::complete(2048));
    assert_eq!(content.len(), 16);
    assert_eq!(Metadata::load(&content).unwrap().initial_index, 2048);
    assert_eq!(Metadata::new(&Some(content)).initial_index, 2048);
    // too short to hold an index
    assert!(Metadata::load(&vec![1, 2, 3]).is_none());
    assert_eq!(Metadata::new(&Some(vec![1, 2, 3])).initial_index, 0);
    assert_eq!(Metadata::format_path(), "metadata");
}
