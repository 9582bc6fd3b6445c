use anime_downloader::errors::ErrorKind;
use anime_downloader::transfer::{content_length, TransferAction, TransferEvent, TransferPhase};

fn drive(events: Vec<TransferEvent>) -> (TransferPhase, Vec<TransferAction>) {
    let (mut phase, first) = TransferPhase::start();
    let mut actions = vec![first];
    for e in events {
        let (p, a) = phase.next(&e);
        phase = p;
        actions.push(a);
    }
    (phase, actions)
}

fn probe(h: &str) -> TransferEvent {
    TransferEvent::ProbeAnswered { length: Some(h.to_string()) }
}

#[test]
fn content_length_reads_the_header() {
    assert_eq!(content_length(Some("1234")), Ok(1234));
    assert_eq!(content_length(Some("18446744073709551615")), Ok(u64::MAX));
    assert_eq!(content_length(Some("18446744073709551616")), Err(ErrorKind::MissingLength));
    assert_eq!(content_length(Some("12a")), Err(ErrorKind::MissingLength));
    assert_eq!(content_length(Some("")), Err(ErrorKind::MissingLength));
    assert_eq!(content_length(None), Err(ErrorKind::MissingLength));
}

#[test]
fn complete_file_is_not_fetched_again() {
    for _ in 0..2 {
        let (phase, actions) = drive(vec![TransferEvent::Opened { len: 100 }, probe("100")]);
        assert_eq!(phase, TransferPhase::Finished { result: Ok(()) });
        assert_eq!(
            actions,
            vec![
                TransferAction::OpenFile,
                TransferAction::Probe,
                TransferAction::AlreadyComplete { total: 100 },
            ]
        );
    }
}

#[test]
fn partial_file_resumes_from_its_length() {
    let (phase, actions) = drive(vec![
        TransferEvent::Opened { len: 40 },
        probe("100"),
        TransferEvent::ChunkWritten { len: 30 },
        TransferEvent::ChunkWritten { len: 30 },
        TransferEvent::StreamEnded,
        TransferEvent::Flushed,
    ]);
    assert_eq!(phase, TransferPhase::Finished { result: Ok(()) });
    assert_eq!(actions[2], TransferAction::RequestRange { offset: 40, total: 100 });
    assert_eq!(actions[3], TransferAction::Progress { transferred: 70, total: 100 });
    assert_eq!(actions[4], TransferAction::Progress { transferred: 100, total: 100 });
    assert_eq!(actions[5], TransferAction::Flush);
    assert_eq!(actions[6], TransferAction::Finish { result: Ok(()) });
}

#[test]
fn truncated_file_resumes_from_the_new_length() {
    let (_, actions) = drive(vec![TransferEvent::Opened { len: 10 }, probe("100")]);
    assert_eq!(actions[2], TransferAction::RequestRange { offset: 10, total: 100 });
}

#[test]
fn progress_is_clamped_to_the_declared_size() {
    let (_, actions) = drive(vec![
        TransferEvent::Opened { len: 0 },
        probe("10"),
        TransferEvent::ChunkWritten { len: 8 },
        TransferEvent::ChunkWritten { len: u64::MAX },
    ]);
    assert_eq!(actions[4], TransferAction::Progress { transferred: 10, total: 10 });
}

#[test]
fn short_body_is_an_incomplete_stream() {
    let (phase, _) = drive(vec![
        TransferEvent::Opened { len: 0 },
        probe("100"),
        TransferEvent::ChunkWritten { len: 60 },
        TransferEvent::StreamEnded,
        TransferEvent::Flushed,
    ]);
    assert_eq!(phase, TransferPhase::Finished { result: Err(ErrorKind::IncompleteStream) });
}

#[test]
fn missing_size_header_fails_the_transfer() {
    let (phase, actions) = drive(vec![
        TransferEvent::Opened { len: 5 },
        TransferEvent::ProbeAnswered { length: None },
    ]);
    assert_eq!(phase, TransferPhase::Finished { result: Err(ErrorKind::MissingLength) });
    assert_eq!(actions[2], TransferAction::Finish { result: Err(ErrorKind::MissingLength) });
}

#[test]
fn a_failed_step_ends_the_transfer() {
    let (phase, _) = drive(vec![
        TransferEvent::Opened { len: 0 },
        probe("100"),
        TransferEvent::Failed { kind: ErrorKind::Network },
    ]);
    assert_eq!(phase, TransferPhase::Finished { result: Err(ErrorKind::Network) });
    let (phase, _) = drive(vec![TransferEvent::Failed { kind: ErrorKind::Filesystem }]);
    assert_eq!(phase, TransferPhase::Finished { result: Err(ErrorKind::Filesystem) });
}

#[test]
fn events_after_the_end_change_nothing() {
    let (phase, actions) = drive(vec![
        TransferEvent::Opened { len: 100 },
        probe("50"),
        TransferEvent::ChunkWritten { len: 1 },
    ]);
    assert_eq!(phase, TransferPhase::Finished { result: Ok(()) });
    assert_eq!(actions[3], TransferAction::Wait);
}
