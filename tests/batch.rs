use anime_downloader::batch::{check_end_index, episode_range, tally, valid_start_index, EndIndexCheck};
use anime_downloader::errors::{DownloadError, ErrorKind};

#[test]
fn start_index_bounds() {
    assert!(!valid_start_index(0, 5));
    assert!(valid_start_index(1, 5));
    assert!(valid_start_index(5, 5));
    assert!(!valid_start_index(6, 5));
    assert!(!valid_start_index(1, 0));
}

#[test]
fn end_index_bounds() {
    assert_eq!(check_end_index(3, 2, 5), EndIndexCheck::Valid);
    assert_eq!(check_end_index(2, 2, 5), EndIndexCheck::Valid);
    assert_eq!(check_end_index(1, 2, 5), EndIndexCheck::BeforeStart);
    assert_eq!(check_end_index(6, 2, 5), EndIndexCheck::PastTotal);
}

#[test]
fn range_of_episodes() {
    let links: Vec<String> = (1..=5).map(|i| format!("episode{}", i)).collect();
    assert_eq!(episode_range(&links, 2, 4), vec!["episode2", "episode3", "episode4"]);
    assert_eq!(episode_range(&links, 5, 5), vec!["episode5"]);
    assert_eq!(episode_range(&links, 1, 5), links);
}

#[test]
fn tally_counts_outcomes() {
    let results = vec![
        ("a".to_string(), Ok(())),
        ("b".to_string(), Err(DownloadError::new(ErrorKind::Network))),
        ("c".to_string(), Ok(())),
    ];
    assert_eq!(tally(&results), (2, 1));
    assert_eq!(tally(&Vec::new()), (0, 0));
}
