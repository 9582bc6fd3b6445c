use anime_downloader::gogo::{
    cookie_in, Anime, AnimeDetailedInfo, GogoAnime, GogoFailedToFetchDownloadLinks,
    GogoFetchingDetailsFailed, GogoInitError, GogoSearchFailedError,
};

fn site() -> GogoAnime {
    GogoAnime::new("https://site.example", "https://api.example/{ANIME_ID}/{END_EP}", "pw", vec!["a@b.c".to_string()])
}

#[test]
fn cookie_found_among_pairs() {
    assert!(cookie_in("a=1; auth=xyz; b=2", "auth"));
    assert!(cookie_in("auth=", "auth"));
    assert!(cookie_in("x=1; auth=2", "auth"));
}

#[test]
fn cookie_not_found() {
    assert!(!cookie_in("xauth=1; b=2", "auth"));
    assert!(!cookie_in("a=auth", "auth"));
    assert!(!cookie_in("auth", "auth"));
    assert!(!cookie_in("a=1;auth=2", "auth"));
    assert!(!cookie_in("", "auth"));
    assert!(!cookie_in("a=b=c", "a=b"));
}

#[test]
fn site_addresses() {
    let s = site();
    assert_eq!(s.login_url(), "https://site.example/login.html");
    assert_eq!(s.page_url("/category/x"), "https://site.example/category/x");
    assert_eq!(s.search_url("one piece!"), "https://site.example/search.html?keyword=one%20piece%21");
    assert_eq!(s.search_url("naruto"), "https://site.example/search.html?keyword=naruto");
}

#[test]
fn records_keep_their_fields() {
    let a = Anime::new("Name", "2020", "thumb.png", "https://site.example/x");
    assert_eq!(a.name, "Name");
    assert_eq!(a.released, "2020");
    assert_eq!(a.thumbnail, "thumb.png");
    assert_eq!(a.url, "https://site.example/x");
    let d = AnimeDetailedInfo::new("N", "t", vec![("type".to_string(), "TV".to_string())], vec!["e1".to_string()]);
    assert_eq!(d.name, "N");
    assert_eq!(d.about.len(), 1);
    assert_eq!(d.episode_links, vec!["e1".to_string()]);
}

#[test]
fn site_error_messages() {
    assert_eq!(GogoInitError.message(), "Failed to initialize Gogo");
    assert_eq!(GogoSearchFailedError.message(), "Failed to search anime on Gogo");
    assert_eq!(GogoFetchingDetailsFailed.message(), "Failed to fetch anime details");
    assert_eq!(GogoFailedToFetchDownloadLinks.message(), "Failed to fetch download links for the episode");
}

use anime_downloader::gogo::{about_key, about_value, insert_pair, plot_summary, release_date};

#[test]
fn release_date_follows_its_label() {
    assert_eq!(release_date("\n   Released: 2004   \n"), "2004");
    assert_eq!(release_date("  1999 "), "1999");
    assert_eq!(release_date("Released: a: b"), "a: b");
    assert_eq!(release_date("Released:2004"), "Released:2004");
    assert_eq!(release_date(""), "");
}

#[test]
fn about_keys_and_values() {
    assert_eq!(about_key("Plot Summary"), "plot_summary");
    assert_eq!(about_key("Other name"), "other_name");
    assert_eq!(about_value("  TV Series \n"), "TV Series");
    assert_eq!(plot_summary("One.\n\n Two.\n\n Three."), "One.\n\nTwo.\n\nThree.");
}

#[test]
fn insert_pair_replaces_or_appends() {
    let mut pairs: Vec<(String, String)> = Vec::new();
    insert_pair(&mut pairs, "1280x720".to_string(), "u1".to_string());
    insert_pair(&mut pairs, "640x360".to_string(), "u2".to_string());
    insert_pair(&mut pairs, "1280x720".to_string(), "u3".to_string());
    assert_eq!(
        pairs,
        vec![
            ("1280x720".to_string(), "u3".to_string()),
            ("640x360".to_string(), "u2".to_string()),
        ]
    );
}

#[test]
fn episode_addresses() {
    let s = site();
    assert_eq!(s.episode_list_url("42", "12"), "https://api.example/42/12");
    let hrefs = vec![" /ep-3".to_string(), "/ep-2 ".to_string(), "/ep-1".to_string()];
    assert_eq!(
        s.episode_links(&hrefs),
        vec![
            "https://site.example/ep-1".to_string(),
            "https://site.example/ep-2".to_string(),
            "https://site.example/ep-3".to_string(),
        ]
    );
    assert!(s.episode_links(&Vec::new()).is_empty());
}
