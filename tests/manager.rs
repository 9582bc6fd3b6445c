use anime_downloader::errors::{DownloadError, ErrorKind};
use anime_downloader::manager::{ConcurrentDownloadManager, DownloadJob};

fn job(id: &str) -> DownloadJob {
    DownloadJob {
        id: id.to_string(),
        target_path: id.to_string(),
        item_url: format!("http://site/{}", id),
        preferred_quality: Some("1280x720".to_string()),
        retries: 0,
    }
}

#[test]
fn never_more_jobs_than_permits() {
    let mut m = ConcurrentDownloadManager::new(2, 0);
    for i in 0..6 {
        m.submit(job(&format!("ep{}", i)));
    }
    let mut running: Vec<String> = Vec::new();
    let mut max_seen = 0;
    let mut done = 0;
    while done < 6 {
        while let Some(j) = m.next_job() {
            running.push(j.id);
            max_seen = max_seen.max(m.active());
            assert!(m.active() <= 2);
        }
        assert_eq!(running.len(), 2.min(6 - done));
        let id = running.remove(0);
        assert!(m.finish_job(id, Ok(())));
        done += 1;
    }
    assert_eq!(max_seen, 2);
    let results = m.await_results().unwrap();
    assert_eq!(results.len(), 6);
}

#[test]
fn jobs_start_in_submission_order() {
    let mut m = ConcurrentDownloadManager::new(3, 1);
    m.submit(job("a"));
    m.submit(job("b"));
    assert_eq!(m.next_job().unwrap().id, "a");
    assert_eq!(m.next_job().unwrap().id, "b");
    assert!(m.next_job().is_none());
}

#[test]
fn later_submission_of_an_id_wins() {
    let mut m = ConcurrentDownloadManager::new(1, 0);
    m.submit(job("a"));
    let mut second = job("a");
    second.item_url = "http://site/other".to_string();
    m.submit(second);
    let j = m.next_job().unwrap();
    assert_eq!(j.item_url, "http://site/other");
    assert!(m.next_job().is_none());
}

#[test]
fn results_wait_for_every_job() {
    let mut m = ConcurrentDownloadManager::new(1, 0);
    m.add_gogo_download("1280x720", "/tmp/a.mp4", "http://site/a");
    m.add_gogo_download("1280x720", "/tmp/b.mp4", "http://site/b");
    assert!(m.await_results().is_none());
    let a = m.next_job().unwrap();
    assert_eq!(a.target_path, "/tmp/a.mp4");
    assert_eq!(a.preferred_quality, Some("1280x720".to_string()));
    assert!(m.next_job().is_none());
    assert!(m.finish_job(a.id, Ok(())));
    assert!(m.await_results().is_none());
    let b = m.next_job().unwrap();
    assert!(m.finish_job(b.id, Err(DownloadError::new(ErrorKind::Network))));
    let results = m.await_results().unwrap();
    assert_eq!(
        results,
        vec![
            ("/tmp/a.mp4".to_string(), Ok(())),
            ("/tmp/b.mp4".to_string(), Err(DownloadError { kind: ErrorKind::Network })),
        ]
    );
    // The manager is empty again and takes a new batch.
    assert_eq!(m.await_results(), Some(Vec::new()));
}

#[test]
fn finishing_an_unknown_job_changes_nothing() {
    let mut m = ConcurrentDownloadManager::new(1, 0);
    assert!(!m.finish_job("nope".to_string(), Ok(())));
    assert_eq!(m.await_results(), Some(Vec::new()));
}

#[test]
fn zero_permits_start_nothing() {
    let mut m = ConcurrentDownloadManager::new(0, 0);
    m.submit(job("a"));
    assert!(m.next_job().is_none());
    assert!(m.await_results().is_none());
}

#[test]
fn one_outcome_per_id() {
    let mut m = ConcurrentDownloadManager::new(1, 0);
    m.submit(job("a"));
    let a = m.next_job().unwrap();
    assert!(m.finish_job(a.id, Err(DownloadError::new(ErrorKind::Network))));
    m.submit(job("a"));
    let a = m.next_job().unwrap();
    assert!(m.finish_job(a.id, Ok(())));
    assert_eq!(m.await_results().unwrap(), vec![("a".to_string(), Ok(()))]);
}

#[test]
fn error_messages_are_not_empty() {
    for k in [ErrorKind::Filesystem, ErrorKind::Network, ErrorKind::MissingLength, ErrorKind::IncompleteStream, ErrorKind::Format, ErrorKind::EmptyCandidates, ErrorKind::Resolve] {
        assert!(!DownloadError::new(k).message().is_empty());
        assert_eq!(k.is_retryable(), !matches!(k, ErrorKind::Format | ErrorKind::EmptyCandidates));
    }
}
