use anime_downloader::errors::ErrorKind;
use anime_downloader::resolution::{
    calculate_distance, closest_index, closest_resolution, parse_resolution, select_link,
};

fn labels(v: &[&str]) -> Vec<String> {
    v.iter().map(|s| s.to_string()).collect()
}

#[test]
fn exact_match_is_chosen() {
    let owned = labels(&["640x480", "1280x720", "1920x1080"]);
    let refs: Vec<&String> = owned.iter().collect();
    assert_eq!(closest_resolution(&refs, "1280x720"), Ok("1280x720".to_string()));
}

#[test]
fn nearest_label_by_manhattan_distance() {
    let owned = labels(&["640x480", "1280x720", "1920x1080"]);
    let refs: Vec<&String> = owned.iter().collect();
    assert_eq!(closest_resolution(&refs, "1000x700"), Ok("1280x720".to_string()));
    assert_eq!(closest_index(&refs, "1000x700"), Ok(1));
}

#[test]
fn distances_of_the_example() {
    // 280 + 20, 360 + 220 and 920 + 380: the same order as the labels are
    // ranked in.
    assert_eq!(calculate_distance((1280, 720), (1000, 700)), 300);
    assert_eq!(calculate_distance((640, 480), (1000, 700)), 580);
    assert_eq!(calculate_distance((1920, 1080), (1000, 700)), 1300);
    assert_eq!(calculate_distance((0, 0), (u32::MAX, u32::MAX)), 2 * (u32::MAX as u64));
}

#[test]
fn tie_goes_to_the_first_candidate() {
    let owned = labels(&["100x100", "300x100", "200x200"]);
    let refs: Vec<&String> = owned.iter().collect();
    // 200x100 is 100 away from both of the first two labels.
    assert_eq!(closest_resolution(&refs, "200x100"), Ok("100x100".to_string()));
}

#[test]
fn result_is_a_member_of_the_candidates() {
    let owned = labels(&["360x240", "854x480", "3840x2160"]);
    let refs: Vec<&String> = owned.iter().collect();
    for target in ["1x1", "800x600", "4000x3000", "854x480"] {
        let r = closest_resolution(&refs, target).unwrap();
        assert!(owned.contains(&r));
    }
}

#[test]
fn empty_candidates_fail_for_any_target() {
    let refs: Vec<&String> = Vec::new();
    assert_eq!(closest_resolution(&refs, "1280x720"), Err(ErrorKind::EmptyCandidates));
    assert_eq!(closest_resolution(&refs, "bogus"), Err(ErrorKind::EmptyCandidates));
}

#[test]
fn malformed_labels_fail_with_format() {
    let owned = labels(&["640x480", "HDx720"]);
    let refs: Vec<&String> = owned.iter().collect();
    assert_eq!(closest_resolution(&refs, "640x480"), Err(ErrorKind::Format));
    let good = labels(&["640x480"]);
    let refs: Vec<&String> = good.iter().collect();
    assert_eq!(closest_resolution(&refs, "640"), Err(ErrorKind::Format));
    assert_eq!(closest_resolution(&refs, "640x"), Err(ErrorKind::Format));
}

#[test]
fn parse_resolution_reads_width_and_height() {
    assert_eq!(parse_resolution("1920x1080"), Ok((1920, 1080)));
    assert_eq!(parse_resolution("4294967295x0"), Ok((u32::MAX, 0)));
    assert_eq!(parse_resolution("4294967296x1"), Err(ErrorKind::Format));
    assert_eq!(parse_resolution("x1080"), Err(ErrorKind::Format));
    assert_eq!(parse_resolution("12a4x1080"), Err(ErrorKind::Format));
    assert_eq!(parse_resolution("1x2x3"), Err(ErrorKind::Format));
    assert_eq!(parse_resolution(""), Err(ErrorKind::Format));
}

#[test]
fn select_link_follows_the_preferred_quality() {
    let links = vec![
        ("640x360".to_string(), "http://a/360".to_string()),
        ("1280x720".to_string(), "http://a/720".to_string()),
        ("1920x1080".to_string(), "http://a/1080".to_string()),
    ];
    assert_eq!(select_link(&links, Some("1920x1000")), Ok("http://a/1080".to_string()));
    assert_eq!(select_link(&links, None), Ok("http://a/360".to_string()));
    assert_eq!(select_link(&Vec::new(), Some("1x1")), Err(ErrorKind::EmptyCandidates));
    let bad = vec![("HD".to_string(), "http://a/hd".to_string())];
    assert_eq!(select_link(&bad, Some("1x1")), Err(ErrorKind::Format));
}
