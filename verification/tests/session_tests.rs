use remote_mirror::codec::{encode_manifest, encode_path_request};
use remote_mirror::digest::hash;
use remote_mirror::error::SyncError;
use remote_mirror::initiator::Initiator;
use remote_mirror::manifest::Manifest;
use remote_mirror::responder::Responder;
use remote_mirror::session::{cut_short_error, Action, Event, Phase};

fn manifest(files: &[(&str, &str)]) -> Manifest {
    let list = files
        .iter()
        .map(|(path, content)| (path.to_string(), hash(content.as_bytes())))
        .collect();
    Manifest::from_pairs(list).expect("a manifest")
}

/// A responder that has read the manifest `remote`, and its answer to it.
fn responder_after_manifest(local: &Manifest, remote: &Manifest) -> (Responder, Action) {
    let mut r = Responder::new(local.clone());
    let frame = encode_manifest(remote).expect("a frame");
    assert_eq!(r.step(Event::Ready), Action::Receive(4));
    assert_eq!(r.step(Event::Bytes(frame[..4].to_vec())), Action::Receive(frame.len() as u64 - 4));
    let answer = r.step(Event::Bytes(frame[4..].to_vec()));
    (r, answer)
}

/// An initiator that has sent its manifest and waits for a request.
fn initiator_after_manifest(manifest: &Manifest) -> Initiator {
    let mut i = Initiator::new(manifest.clone());
    assert_eq!(i.step(Event::Ready), Action::Send(encode_manifest(manifest).unwrap()));
    assert_eq!(i.phase(), Phase::ManifestSent);
    assert_eq!(i.step(Event::Ready), Action::Receive(4));
    assert_eq!(i.phase(), Phase::Transferring);
    i
}

#[test]
fn a_responder_goes_through_all_phases() {
    let local = manifest(&[("old.txt", "old"), ("same.txt", "same")]);
    let remote = manifest(&[("same.txt", "same"), ("new.txt", "new")]);
    let mut r = Responder::new(local.clone());
    assert_eq!(r.phase(), Phase::Connected);
    assert!(r.remote().is_none());
    assert!(r.local().same_as(&local));

    let frame = encode_manifest(&remote).unwrap();
    assert_eq!(r.step(Event::Ready), Action::Receive(4));
    assert_eq!(r.phase(), Phase::Connected);
    assert_eq!(r.step(Event::Bytes(frame[..4].to_vec())), Action::Receive(frame.len() as u64 - 4));
    assert_eq!(r.phase(), Phase::Connected);

    let request = encode_path_request("new.txt").unwrap();
    assert_eq!(r.step(Event::Bytes(frame[4..].to_vec())), Action::Send(request));
    assert_eq!(r.phase(), Phase::ManifestReceived);
    assert!(r.remote().expect("read").same_as(&remote));
    assert_eq!(r.fetch_paths(), &vec!["new.txt".to_string()]);
    assert_eq!(r.delete_paths(), &vec!["old.txt".to_string()]);
    assert_eq!((r.fetched(), r.deleted()), (0, 0));

    assert_eq!(r.step(Event::Ready), Action::Receive(8));
    assert_eq!(r.phase(), Phase::Transferring);
    assert_eq!(r.step(Event::Bytes(vec![0, 0, 0, 0, 0, 0, 0, 3])), Action::Receive(3));
    assert_eq!(
        r.step(Event::Bytes(b"new".to_vec())),
        Action::StoreFile("new.txt".to_string(), b"new".to_vec())
    );
    assert_eq!((r.fetched(), r.deleted()), (1, 0));
    assert_eq!(r.step(Event::Ready), Action::Send(vec![0, 0, 0, 0]));
    assert_eq!(r.phase(), Phase::Transferring);

    assert_eq!(r.step(Event::Ready), Action::DeleteFile("old.txt".to_string()));
    assert_eq!(r.phase(), Phase::Reconciling);
    assert_eq!((r.fetched(), r.deleted()), (1, 1));
    assert_eq!(r.step(Event::Ready), Action::Finish);
    assert_eq!(r.phase(), Phase::Closed);
    assert_eq!(r.failure(), None);

    // closed for good
    assert_eq!(r.step(Event::Ready), Action::Finish);
    assert_eq!(r.step(Event::Bytes(vec![1, 2, 3])), Action::Finish);
    assert_eq!(r.step(Event::Failed(SyncError::IoError)), Action::Finish);
    assert_eq!(r.phase(), Phase::Closed);
}

#[test]
fn a_responder_with_a_matching_mirror_asks_for_nothing() {
    let local = manifest(&[("a.txt", "a"), ("b.txt", "b")]);
    let remote = manifest(&[("b.txt", "b"), ("a.txt", "a")]);
    let (mut r, answer) = responder_after_manifest(&local, &remote);
    assert_eq!(answer, Action::Send(vec![0, 0, 0, 0]));
    assert!(r.fetch_paths().is_empty());
    assert!(r.delete_paths().is_empty());
    assert_eq!(r.step(Event::Ready), Action::Finish);
    assert_eq!(r.phase(), Phase::Closed);
    assert_eq!((r.fetched(), r.deleted()), (0, 0));
}

#[test]
fn a_responder_never_deletes_what_the_sender_lists() {
    let local = manifest(&[("a", "1"), ("b", "2"), ("c", "3"), ("d", "4")]);
    let remote = manifest(&[("b", "2"), ("d", "other")]);
    let (mut r, mut action) = responder_after_manifest(&local, &remote);
    let mut deleted: Vec<String> = Vec::new();
    loop {
        let event = match action {
            Action::Send(_) | Action::StoreFile(_, _) => Event::Ready,
            Action::Receive(8) => Event::Bytes(vec![0, 0, 0, 0, 0, 0, 0, 1]),
            Action::Receive(1) => Event::Bytes(vec![b'x']),
            Action::DeleteFile(path) => {
                assert!(!remote.contains(&path));
                deleted.push(path);
                Event::Ready
            }
            Action::Finish => break,
            other => panic!("unexpected {:?}", other),
        };
        action = r.step(event);
    }
    assert_eq!(deleted, vec!["a".to_string(), "c".to_string()]);
    assert_eq!(r.phase(), Phase::Closed);
}

#[test]
fn a_responder_stores_a_file_only_when_all_of_it_is_there() {
    let remote = manifest(&[("a.txt", "alpha")]);
    let (mut r, _) = responder_after_manifest(&Manifest::new(), &remote);
    assert_eq!(r.step(Event::Ready), Action::Receive(8));
    assert_eq!(r.step(Event::Bytes(vec![0, 0, 0, 0, 0, 0, 0, 5])), Action::Receive(5));
    assert_eq!(r.step(Event::Bytes(b"alph".to_vec())), Action::Abort(SyncError::ProtocolError));
    assert_eq!(r.phase(), Phase::Aborted);
    assert_eq!(r.failure(), Some(SyncError::ProtocolError));
    assert_eq!(r.fetched(), 0);
    // aborted for good
    assert_eq!(r.step(Event::Bytes(b"alpha".to_vec())), Action::Abort(SyncError::ProtocolError));
    assert_eq!(r.step(Event::Ready), Action::Abort(SyncError::ProtocolError));
    assert_eq!(r.fetched(), 0);
}

#[test]
fn a_responder_refuses_more_bytes_than_it_asked_for() {
    let remote = manifest(&[("a.txt", "alpha")]);
    let (mut r, _) = responder_after_manifest(&Manifest::new(), &remote);
    assert_eq!(r.step(Event::Ready), Action::Receive(8));
    assert_eq!(r.step(Event::Bytes(vec![0, 0, 0, 0, 0, 0, 0, 5])), Action::Receive(5));
    assert_eq!(r.step(Event::Bytes(b"alphas".to_vec())), Action::Abort(SyncError::ProtocolError));
}

#[test]
fn a_responder_stores_an_empty_file_that_is_announced_as_empty() {
    let remote = manifest(&[("empty.txt", "")]);
    let (mut r, _) = responder_after_manifest(&Manifest::new(), &remote);
    assert_eq!(r.step(Event::Ready), Action::Receive(8));
    assert_eq!(r.step(Event::Bytes(vec![0; 8])), Action::Receive(0));
    assert_eq!(
        r.step(Event::Bytes(Vec::new())),
        Action::StoreFile("empty.txt".to_string(), Vec::new())
    );
}

#[test]
fn a_stream_that_ends_between_frames_is_an_io_error() {
    assert_eq!(cut_short_error(0), SyncError::IoError);
    assert_eq!(cut_short_error(1), SyncError::ProtocolError);
    assert_eq!(cut_short_error(3), SyncError::ProtocolError);

    let mut r = Responder::new(Manifest::new());
    assert_eq!(r.step(Event::Ready), Action::Receive(4));
    assert_eq!(r.step(Event::Bytes(Vec::new())), Action::Abort(SyncError::IoError));

    let remote = manifest(&[("a.txt", "alpha")]);
    let (mut r, _) = responder_after_manifest(&Manifest::new(), &remote);
    assert_eq!(r.step(Event::Ready), Action::Receive(8));
    assert_eq!(r.step(Event::Bytes(Vec::new())), Action::Abort(SyncError::IoError));

    let mut i = initiator_after_manifest(&remote);
    assert_eq!(i.step(Event::Bytes(Vec::new())), Action::Abort(SyncError::IoError));
    assert_eq!(i.failure(), Some(SyncError::IoError));
}

#[test]
fn a_stream_that_ends_inside_a_frame_is_a_protocol_error() {
    let mut r = Responder::new(Manifest::new());
    assert_eq!(r.step(Event::Ready), Action::Receive(4));
    assert_eq!(r.step(Event::Bytes(vec![0, 0])), Action::Abort(SyncError::ProtocolError));

    let mut r = Responder::new(Manifest::new());
    assert_eq!(r.step(Event::Ready), Action::Receive(4));
    assert_eq!(r.step(Event::Bytes(vec![0, 0, 0, 9])), Action::Receive(9));
    assert_eq!(r.step(Event::Bytes(vec![0; 8])), Action::Abort(SyncError::ProtocolError));

    let remote = manifest(&[("a.txt", "alpha")]);
    let (mut r, _) = responder_after_manifest(&Manifest::new(), &remote);
    assert_eq!(r.step(Event::Ready), Action::Receive(8));
    assert_eq!(r.step(Event::Bytes(vec![0; 7])), Action::Abort(SyncError::ProtocolError));

    let mut i = initiator_after_manifest(&remote);
    assert_eq!(i.step(Event::Bytes(vec![0, 0, 0])), Action::Abort(SyncError::ProtocolError));
    let mut i = initiator_after_manifest(&remote);
    assert_eq!(i.step(Event::Bytes(vec![0, 0, 0, 5])), Action::Receive(5));
    assert_eq!(i.step(Event::Bytes(b"a.tx".to_vec())), Action::Abort(SyncError::ProtocolError));
}

#[test]
fn a_responder_refuses_a_manifest_that_is_too_long_before_it_reads_it() {
    let mut r = Responder::new(Manifest::new());
    assert_eq!(r.step(Event::Ready), Action::Receive(4));
    assert_eq!(r.step(Event::Bytes(vec![4, 0, 0, 1])), Action::Abort(SyncError::ProtocolError));
    let mut r = Responder::new(Manifest::new());
    assert_eq!(r.step(Event::Ready), Action::Receive(4));
    assert_eq!(r.step(Event::Bytes(vec![4, 0, 0, 0])), Action::Receive(64 * 1024 * 1024));
}

#[test]
fn a_responder_refuses_a_manifest_of_no_bytes() {
    let mut r = Responder::new(Manifest::new());
    assert_eq!(r.step(Event::Ready), Action::Receive(4));
    assert_eq!(r.step(Event::Bytes(vec![0, 0, 0, 0])), Action::Receive(0));
    assert_eq!(r.step(Event::Bytes(Vec::new())), Action::Abort(SyncError::ProtocolError));
    assert_eq!(r.phase(), Phase::Aborted);
}

#[test]
fn a_responder_refuses_a_manifest_with_a_path_twice() {
    let list = vec![("a.txt".to_string(), hash(b"1")), ("a.txt".to_string(), hash(b"2"))];
    let payload = bincode::encode_to_vec(&list, bincode::config::standard()).unwrap();
    let mut r = Responder::new(Manifest::new());
    assert_eq!(r.step(Event::Ready), Action::Receive(4));
    assert_eq!(
        r.step(Event::Bytes(vec![0, 0, 0, payload.len() as u8])),
        Action::Receive(payload.len() as u64)
    );
    assert_eq!(r.step(Event::Bytes(payload)), Action::Abort(SyncError::ProtocolError));
    assert!(r.remote().is_none());
    assert!(r.fetch_paths().is_empty());
    assert!(r.delete_paths().is_empty());
}

#[test]
fn a_failure_aborts_a_session_with_that_failure() {
    for error in [
        SyncError::IoError,
        SyncError::TransportError,
        SyncError::ProtocolError,
        SyncError::UnknownPeer,
    ] {
        let mut r = Responder::new(Manifest::new());
        assert_eq!(r.step(Event::Failed(error)), Action::Abort(error));
        assert_eq!(r.phase(), Phase::Aborted);
        assert_eq!(r.failure(), Some(error));
        assert_eq!(r.step(Event::Ready), Action::Abort(error));

        let mut i = Initiator::new(Manifest::new());
        assert_eq!(i.step(Event::Ready), Action::Send(vec![0, 0, 0, 1, 0]));
        assert_eq!(i.step(Event::Failed(error)), Action::Abort(error));
        assert_eq!(i.phase(), Phase::Aborted);
        assert_eq!(i.failure(), Some(error));
        assert_eq!(i.step(Event::Ready), Action::Abort(error));
    }
}

#[test]
fn an_event_that_answers_nothing_aborts_a_session() {
    let mut r = Responder::new(Manifest::new());
    assert_eq!(r.step(Event::Bytes(vec![0, 0, 0, 0])), Action::Abort(SyncError::ProtocolError));
    let mut r = Responder::new(Manifest::new());
    assert_eq!(r.step(Event::File(Vec::new())), Action::Abort(SyncError::ProtocolError));
    let mut r = Responder::new(Manifest::new());
    assert_eq!(r.step(Event::Ready), Action::Receive(4));
    assert_eq!(r.step(Event::Ready), Action::Abort(SyncError::ProtocolError));

    let mut i = Initiator::new(Manifest::new());
    assert_eq!(i.step(Event::Bytes(vec![0, 0, 0, 0])), Action::Abort(SyncError::ProtocolError));
    let mut i = Initiator::new(Manifest::new());
    assert_eq!(i.step(Event::File(Vec::new())), Action::Abort(SyncError::ProtocolError));
    let mut i = initiator_after_manifest(&Manifest::new());
    assert_eq!(i.step(Event::Ready), Action::Abort(SyncError::ProtocolError));
}

#[test]
fn an_initiator_answers_a_request_with_length_and_content() {
    let m = manifest(&[("a.txt", "alpha"), ("dir/b.txt", "beta")]);
    let mut i = Initiator::new(m.clone());
    assert_eq!(i.phase(), Phase::Connected);
    assert!(i.manifest().same_as(&m));
    assert_eq!(i.step(Event::Ready), Action::Send(encode_manifest(&m).unwrap()));
    assert_eq!(i.phase(), Phase::ManifestSent);
    assert_eq!(i.step(Event::Ready), Action::Receive(4));
    assert_eq!(i.phase(), Phase::Transferring);

    assert_eq!(i.step(Event::Bytes(vec![0, 0, 0, 9])), Action::Receive(9));
    assert_eq!(i.step(Event::Bytes(b"dir/b.txt".to_vec())), Action::LoadFile("dir/b.txt".to_string()));
    assert_eq!(i.step(Event::File(b"beta".to_vec())), Action::Send(vec![0, 0, 0, 0, 0, 0, 0, 4]));
    assert_eq!(i.step(Event::Ready), Action::Send(b"beta".to_vec()));
    assert_eq!(i.step(Event::Ready), Action::Receive(4));
    assert_eq!(i.phase(), Phase::Transferring);

    assert_eq!(i.step(Event::Bytes(vec![0, 0, 0, 0])), Action::Finish);
    assert_eq!(i.phase(), Phase::Closed);
    assert_eq!(i.failure(), None);
    assert_eq!(i.step(Event::Ready), Action::Finish);
    assert_eq!(i.step(Event::Failed(SyncError::IoError)), Action::Finish);
}

#[test]
fn an_initiator_sends_an_empty_file_as_a_length_of_zero() {
    let m = manifest(&[("empty", "")]);
    let mut i = initiator_after_manifest(&m);
    assert_eq!(i.step(Event::Bytes(vec![0, 0, 0, 5])), Action::Receive(5));
    assert_eq!(i.step(Event::Bytes(b"empty".to_vec())), Action::LoadFile("empty".to_string()));
    assert_eq!(i.step(Event::File(Vec::new())), Action::Send(vec![0; 8]));
    assert_eq!(i.step(Event::Ready), Action::Send(Vec::new()));
    assert_eq!(i.step(Event::Ready), Action::Receive(4));
}

#[test]
fn an_initiator_refuses_a_path_that_its_manifest_does_not_list() {
    let m = manifest(&[("a.txt", "alpha")]);
    let mut i = initiator_after_manifest(&m);
    assert_eq!(i.step(Event::Bytes(vec![0, 0, 0, 5])), Action::Receive(5));
    assert_eq!(i.step(Event::Bytes(b"b.txt".to_vec())), Action::Abort(SyncError::ProtocolError));
    assert_eq!(i.phase(), Phase::Aborted);
    assert_eq!(i.failure(), Some(SyncError::ProtocolError));

    for path in ["../a.txt", "/etc/passwd", "a.tx", "a.txt/", "A.TXT"] {
        let mut i = initiator_after_manifest(&m);
        let request = path.as_bytes().to_vec();
        assert_eq!(
            i.step(Event::Bytes(vec![0, 0, 0, request.len() as u8])),
            Action::Receive(request.len() as u64)
        );
        assert_eq!(i.step(Event::Bytes(request)), Action::Abort(SyncError::ProtocolError));
    }
}

#[test]
fn an_initiator_refuses_a_request_that_is_malformed() {
    let m = manifest(&[("a.txt", "alpha")]);
    // a path that is not UTF-8
    let mut i = initiator_after_manifest(&m);
    assert_eq!(i.step(Event::Bytes(vec![0, 0, 0, 2])), Action::Receive(2));
    assert_eq!(i.step(Event::Bytes(vec![0xff, 0xfe])), Action::Abort(SyncError::ProtocolError));
    // a path that is too long to be one
    let mut i = initiator_after_manifest(&m);
    assert_eq!(i.step(Event::Bytes(vec![0, 0, 16, 1])), Action::Abort(SyncError::ProtocolError));
    let mut i = initiator_after_manifest(&m);
    assert_eq!(i.step(Event::Bytes(vec![0, 0, 16, 0])), Action::Receive(4096));
}

#[test]
fn an_initiator_without_a_file_to_read_is_aborted_by_the_failure() {
    let m = manifest(&[("a.txt", "alpha")]);
    let mut i = initiator_after_manifest(&m);
    assert_eq!(i.step(Event::Bytes(vec![0, 0, 0, 5])), Action::Receive(5));
    assert_eq!(i.step(Event::Bytes(b"a.txt".to_vec())), Action::LoadFile("a.txt".to_string()));
    assert_eq!(i.step(Event::Failed(SyncError::IoError)), Action::Abort(SyncError::IoError));
}
