use anime_downloader::errors::ErrorKind;
use anime_downloader::retry::RetryState;
use anime_downloader::transfer::{TransferEvent, TransferPhase};

fn count_attempts(max: usize, mut attempt: impl FnMut(usize) -> Result<(), ErrorKind>) -> (usize, Option<Result<(), ErrorKind>>) {
    let mut state = RetryState::new(max);
    let mut n: usize = 0;
    while state.is_attempting() {
        let outcome = attempt(n);
        n += 1;
        state = state.after_attempt(outcome);
    }
    (n, state.result())
}

#[test]
fn retries_stop_after_the_budget() {
    for k in 1..6 {
        let (n, result) = count_attempts(k - 1, |_| Err(ErrorKind::Resolve));
        assert_eq!(n, k);
        assert_eq!(result, Some(Err(ErrorKind::Resolve)));
        let (n, result) = count_attempts(k - 1, |_| Err(ErrorKind::Network));
        assert_eq!(n, k);
        assert_eq!(result, Some(Err(ErrorKind::Network)));
    }
}

#[test]
fn success_ends_the_loop() {
    let (n, result) = count_attempts(5, |i| if i < 2 { Err(ErrorKind::IncompleteStream) } else { Ok(()) });
    assert_eq!(n, 3);
    assert_eq!(result, Some(Ok(())));
}

#[test]
fn label_errors_are_not_retried() {
    let (n, result) = count_attempts(4, |_| Err(ErrorKind::Format));
    assert_eq!(n, 1);
    assert_eq!(result, Some(Err(ErrorKind::Format)));
    let (n, _) = count_attempts(4, |_| Err(ErrorKind::EmptyCandidates));
    assert_eq!(n, 1);
}

#[test]
fn missing_length_then_success_with_one_retry() {
    let (n, result) = count_attempts(1, |i| {
        let header = if i == 0 { None } else { Some("10".to_string()) };
        let (phase, _) = TransferPhase::start();
        let (phase, _) = phase.next(&TransferEvent::Opened { len: 10 });
        let (phase, _) = phase.next(&TransferEvent::ProbeAnswered { length: header });
        match phase {
            TransferPhase::Finished { result } => result,
            _ => panic!("transfer not finished"),
        }
    });
    assert_eq!(n, 2);
    assert_eq!(result, Some(Ok(())));
    assert_eq!(RetryState::new(1).after_attempt(Err(ErrorKind::MissingLength)), RetryState::Attempting { remaining: 0 });
}
