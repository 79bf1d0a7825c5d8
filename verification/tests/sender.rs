use cccp::error::ErrorKind;
use cccp::items::{Body, Cipher, ConfirmationIndexes, Crypto, FileDetail, Message};
use cccp::receiver::confirmations::group_confirmations;
use cccp::retry::Retries;
use cccp::sender::confirmations::JobCache;
use cccp::sender::controller::{Controller, ControllerAction};
use cccp::sender::flow::{adds_permit, after_send, permit_interval, route, Route};
use cccp::sender::manifest::{
    announce, build_manifest, directory_path, file_detail, file_detail_with_iv, file_path, files_and_dirs, format_dir,
    receive_answer, Node, Place,
};
use cccp::sender::reader::Job;
use std::collections::HashMap;

fn detail(size: u64) -> FileDetail {
    FileDetail {
        path: format!("file{}", size),
        size,
        signature: Vec::new(),
        crypto: Some(Crypto::default()),
    }
}

fn details(ids: &[u32]) -> HashMap<u32, FileDetail> {
    ids.iter().map(|id| (*id, detail(*id as u64 + 100))).collect()
}

fn job(id: u32, index: u64) -> Job {
    Job {
        data: vec![1; 1036],
        index,
        id,
        cached_at: None,
    }
}

fn confirmations(list: &[(u32, u64)]) -> HashMap<u32, ConfirmationIndexes> {
    group_confirmations(&list.to_vec())
}

fn empty() -> Message {
    Message { message: None }
}

#[test]
fn controller_starts_in_order() {
    let mut controller = Controller::new(details(&[4, 0, 2]), 2);
    assert_eq!(controller.next_start(), Some(0));
    assert_eq!(controller.next_start(), Some(2));
    // as many as allowed are on their way
    assert_eq!(controller.next_start(), None);
    assert_eq!(controller.details(2).unwrap().size, 102);
    assert!(controller.details(4).is_none());
    assert!(!controller.is_finished());
    assert!(matches!(
        controller.receive(Message::end(0)),
        Ok(ControllerAction::Ended(0))
    ));
    assert_eq!(controller.next_start(), Some(4));
    assert_eq!(controller.next_start(), None);
    assert!(controller.receive(Message::end(4)).is_ok());
    assert!(controller.receive(Message::end(2)).is_ok());
    assert!(controller.is_finished());
}

#[test]
fn controller_failures() {
    let mut controller = Controller::new(details(&[0, 1]), 10);
    controller.next_start();
    controller.next_start();
    assert!(matches!(
        controller.receive(Message::failure(1, 0, None)),
        Ok(ControllerAction::Retry { id: 1, size: 101 })
    ));
    assert!(controller.details(1).is_some());
    assert!(matches!(
        controller.receive(Message::failure(7, 0, None)),
        Ok(ControllerAction::Unknown(7))
    ));
    assert!(matches!(
        controller.receive(Message::failure(1, 2, Some("full".to_string()))),
        Ok(ControllerAction::GivenUp(1))
    ));
    assert!(controller.details(1).is_none());
    assert!(matches!(
        controller.receive(Message::failure(1, 2, None)),
        Ok(ControllerAction::Unknown(1))
    ));
    assert!(matches!(
        controller.receive(Message::failure(0, 9, None)),
        Ok(ControllerAction::Ignored)
    ));
    assert!(matches!(
        controller.receive(Message::end(9)),
        Ok(ControllerAction::Unknown(9))
    ));
    assert!(!controller.is_finished());
    let error = controller.receive(Message::done(2)).unwrap_err();
    assert!(matches!(error.kind, ErrorKind::UnexpectedMessage(_)));
    assert!(controller.receive(empty()).is_err());
}

#[test]
fn controller_without_places() {
    let mut controller = Controller::new(details(&[0]), 0);
    assert_eq!(controller.next_start(), None);
    assert!(!controller.is_finished());
    assert!(Controller::new(HashMap::new(), 3).is_finished());
}

#[test]
fn confirmed_jobs_leave_the_cache() {
    let mut cache = JobCache::new();
    cache.insert(job(1, 0), 10);
    cache.insert(job(1, 1024), 10);
    cache.insert(job(2, 0), 10);
    assert_eq!(cache.confirm(&confirmations(&[(1, 0), (2, 0)])), 2);
    // a second confirmation is no news
    assert_eq!(cache.confirm(&confirmations(&[(1, 0)])), 0);
    let mut stale = cache.stale_keys(u64::MAX, 0);
    assert_eq!(stale.len(), 1);
    let requeue = cache.requeue(&stale);
    assert_eq!(requeue.confirmed, 0);
    assert_eq!(requeue.jobs.len(), 1);
    assert_eq!((requeue.jobs[0].id, requeue.jobs[0].index), (1, 1024));
    assert!(requeue.jobs[0].cached_at.is_none());
    stale = cache.stale_keys(u64::MAX, 0);
    assert!(stale.is_empty());
}

#[test]
fn keys_do_not_collide() {
    let mut cache = JobCache::new();
    cache.insert(job(0, u64::MAX), 0);
    cache.insert(job(1, 0), 0);
    cache.insert(job(u32::MAX, u64::MAX), 0);
    assert_eq!(cache.stale_keys(2_000_000, 1).len(), 3);
    assert_eq!(cache.confirm(&confirmations(&[(1, 0)])), 1);
    assert_eq!(cache.stale_keys(2_000_000, 1).len(), 2);
}

#[test]
fn jobs_get_stale() {
    let mut cache = JobCache::new();
    cache.insert(job(1, 0), 1_000_000);
    // one millisecond has to be over, not just reached
    assert!(cache.stale_keys(2_000_000, 1).is_empty());
    assert_eq!(cache.stale_keys(2_000_001, 1).len(), 1);
    assert!(cache.stale_keys(0, 0).is_empty());
    assert!(cache.stale_keys(u64::MAX, u64::MAX).is_empty());
}

#[test]
fn late_confirmation_is_kept() {
    let mut cache = JobCache::new();
    // the job was queued again, so it is not here when the confirmation arrives
    assert_eq!(cache.confirm(&confirmations(&[(3, 2048)])), 0);
    cache.insert(job(3, 2048), 5);
    let stale = cache.stale_keys(10_000_000, 1);
    let requeue = cache.requeue(&stale);
    assert!(requeue.jobs.is_empty());
    assert_eq!(requeue.confirmed, 1);
    // the confirmation is used up
    cache.insert(job(3, 2048), 5);
    let stale = cache.stale_keys(10_000_000, 1);
    let requeue = cache.requeue(&stale);
    assert_eq!(requeue.jobs.len(), 1);
    assert_eq!(requeue.confirmed, 0);
}

#[test]
fn repeated_confirmation_in_one_message() {
    let mut cache = JobCache::new();
    cache.insert(job(1, 0), 0);
    assert_eq!(cache.confirm(&confirmations(&[(1, 0), (1, 0)])), 1);
    cache.insert(job(1, 0), 0);
    let stale = cache.stale_keys(10_000_000, 1);
    assert_eq!(cache.requeue(&stale).confirmed, 1);
}

#[test]
fn sending() {
    let mut cache = JobCache::new();
    let mut retries = Retries::new(2);
    let back = after_send(job(1, 0), true, 0, &mut cache, &mut retries).unwrap();
    assert_eq!((back.id, back.index), (1, 0));
    assert!(cache.stale_keys(u64::MAX, 0).is_empty());
    assert!(after_send(back, false, 7, &mut cache, &mut retries).is_none());
    assert_eq!(cache.stale_keys(u64::MAX, 0).len(), 1);
    after_send(job(1, 1), true, 0, &mut cache, &mut retries);
    assert!(retries.more());
    after_send(job(1, 1), true, 0, &mut cache, &mut retries);
    assert!(!retries.more());
    assert!(retries.finish().is_err());
}

#[test]
fn permits() {
    assert_eq!(permit_interval(957), 1_044_932);
    assert_eq!(permit_interval(1), 1_000_000_000);
    assert_eq!(permit_interval(1_000_000_000), 1);
    assert!(adds_permit(999));
    assert!(!adds_permit(1000));
}

#[test]
fn routes() {
    assert!(matches!(
        route(Message::confirmations(confirmations(&[(1, 2)]))),
        Ok(Route::Confirmations(_))
    ));
    assert!(matches!(
        route(Message::end(1)),
        Ok(Route::Controller(Message {
            message: Some(Body::End { id: 1 })
        }))
    ));
    assert!(matches!(
        route(Message::failure(1, 0, None)),
        Ok(Route::Controller(_))
    ));
    let error = route(Message::start(1)).unwrap_err();
    assert!(matches!(error.kind, ErrorKind::UnexpectedMessage(_)));
    assert!(route(empty()).is_err());
}

fn tree() -> Option<Node<&'static str>> {
    Some(Node::Directory(
        "src",
        vec![
            Node::File("src/a"),
            Node::Directory(
                "src/d",
                vec![
                    Node::File("src/d/b"),
                    Node::Directory("src/d/e", vec![Node::File("src/d/e/f")]),
                ],
            ),
            Node::File("src/c"),
        ],
    ))
}

#[test]
fn searching() {
    let found = files_and_dirs(&tree(), true);
    assert_eq!(found.files, vec!["src/a", "src/d/b", "src/d/e/f", "src/c"]);
    assert_eq!(found.dirs, vec!["src/d", "src/d/e"]);
    let found = files_and_dirs(&tree(), false);
    assert_eq!(found.files, vec!["src/a", "src/c"]);
    assert!(found.dirs.is_empty());
    let found = files_and_dirs(&Some(Node::File("x")), false);
    assert_eq!(found.files, vec!["x"]);
    let found = files_and_dirs::<&str>(&None, true);
    assert!(found.files.is_empty() && found.dirs.is_empty());
}

#[test]
fn formatting_directories() {
    assert_eq!(format_dir("a\\b", true), "a/b");
    assert_eq!(format_dir("a\\b", false), "a\\b");
}

fn outside() -> Place {
    Place::Outside {
        path: "/x".to_string(),
        report: "prefix not found".to_string(),
    }
}

#[test]
fn places() {
    let path = |place: Place| file_path(&place, true);
    assert_eq!(
        path(Place::Source(Some("n\\m".to_string()))).unwrap(),
        "n/m"
    );
    assert_eq!(path(Place::Below("d\\f".to_string())).unwrap(), "d/f");
    let error = path(Place::Source(None)).unwrap_err();
    assert!(matches!(error.kind, ErrorKind::EmptyPath));
    let error = path(outside()).unwrap_err();
    assert_eq!(
        error.message(""),
        "StripPrefix error: prefix not found"
    );
    assert_eq!(directory_path(&outside(), false), "/x");
    assert_eq!(
        directory_path(&Place::Below("a\\b".to_string()), true),
        "a/b"
    );
    assert_eq!(directory_path(&Place::Source(None), true), "");
}

#[test]
fn file_details_of_a_manifest() {
    let crypto = Crypto {
        cipher: Cipher::Chacha20.number(),
        key: vec![1; 32],
        iv: vec![0; 12],
    };
    let place = Place::Below("f".to_string());
    let signed = file_detail(&place, 9, Some(vec![5; 32]), &crypto, false).unwrap();
    assert_eq!(signed.path, "f");
    assert_eq!(signed.size, 9);
    assert_eq!(signed.signature, vec![5; 32]);
    let used = signed.crypto.unwrap();
    assert_eq!(used.cipher, crypto.cipher);
    assert_eq!(used.key, crypto.key);
    assert_eq!(used.iv.len(), 12);
    assert_ne!(used.iv, crypto.iv);
    let plain = file_detail(&place, 9, None, &crypto, false).unwrap();
    assert!(plain.signature.is_empty());
    assert!(file_detail(&outside(), 9, None, &crypto, false).is_err());
    assert!(file_detail(&Place::Source(None), 9, None, &crypto, false).is_err());
}

#[test]
fn places_by_their_way() {
    let place = |is_source, name: Option<&str>, way: Result<&str, &str>| {
        Place::of(
            "/s/d/f".to_string(),
            is_source,
            name.map(str::to_string),
            way.map(str::to_string).map_err(str::to_string),
        )
    };
    let sent = |place: Place| (file_path(&place, false).ok(), directory_path(&place, false));
    assert_eq!(
        sent(place(true, Some("f"), Ok(""))),
        (Some("f".to_string()), String::new())
    );
    assert_eq!(sent(place(true, None, Ok(""))), (None, String::new()));
    assert_eq!(
        sent(place(false, Some("f"), Ok("d/f"))),
        (Some("d/f".to_string()), "d/f".to_string())
    );
    assert_eq!(
        sent(place(false, Some("f"), Err("prefix not found"))),
        (None, "/s/d/f".to_string())
    );
}

#[test]
fn file_details_with_a_given_vector() {
    let crypto = Crypto {
        cipher: Cipher::Chacha20.number(),
        key: vec![1; 32],
        iv: vec![0; 12],
    };
    let place = Place::Below("f".to_string());
    let detail =
        file_detail_with_iv(&place, 9, Some(vec![5; 32]), &crypto, vec![7; 12], false).unwrap();
    assert_eq!((detail.path.as_str(), detail.size), ("f", 9));
    assert_eq!(detail.signature, vec![5; 32]);
    let used = detail.crypto.unwrap();
    assert_eq!(used.cipher, crypto.cipher);
    assert_eq!(used.key, crypto.key);
    assert_eq!(used.iv, vec![7; 12]);
    assert!(file_detail_with_iv(&outside(), 9, None, &crypto, vec![7; 12], false).is_err());
}

#[test]
fn file_details_without_a_cipher() {
    let crypto = Crypto {
        cipher: Cipher::NoCipher.number(),
        key: vec![1, 2],
        iv: vec![3; 4],
    };
    let place = Place::Below("f".to_string());
    let used = file_detail(&place, 9, None, &crypto, false)
        .unwrap()
        .crypto
        .unwrap();
    assert_eq!((used.key, used.iv), (vec![1, 2], vec![3; 4]));
    assert_eq!(used.cipher, crypto.cipher);
}

#[test]
fn manifests() {
    let manifest = build_manifest(vec![detail(5), detail(6)], vec!["d".to_string()]);
    assert_eq!(manifest.files.len(), 2);
    assert_eq!(manifest.files[&0].size, 5);
    assert_eq!(manifest.files[&1].size, 6);
    assert_eq!(manifest.directories, vec!["d".to_string()]);
    let announcement = announce(&manifest);
    assert!(!announcement.finished);
    assert!(matches!(
        announcement.message.message,
        Some(Body::Manifest(_))
    ));
    let announcement = announce(&build_manifest(Vec::new(), Vec::new()));
    assert!(announcement.finished);
    assert!(matches!(
        announcement.message.message,
        Some(Body::Done { reason: 0 })
    ));
}

#[test]
fn answers_to_a_manifest() {
    let mut files = details(&[0, 1, 2]);
    let answer = receive_answer(&mut files, Message::completed(vec![1, 1, 9])).unwrap();
    assert_eq!(answer.completed, 101);
    assert!(!answer.finished);
    assert_eq!(files.len(), 2);
    let answer = receive_answer(&mut files, Message::completed(vec![2, 0])).unwrap();
    assert_eq!(answer.completed, 202);
    assert!(answer.finished);
    let mut files = details(&[0]);
    let error = receive_answer(&mut files, Message::failure(0, 1, None)).unwrap_err();
    assert!(matches!(error.kind, ErrorKind::Failure(1)));
    let error = receive_answer(&mut files, Message::end(0)).unwrap_err();
    assert!(matches!(error.kind, ErrorKind::UnexpectedMessage(_)));
    assert_eq!(files.len(), 1);
}
