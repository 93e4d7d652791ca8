use plex_poster_launcher::models::MediaItem;
use plex_poster_launcher::plex::{
    continue_watching_items, dedup_history_rating_keys, history_viewed_at_map,
    is_continue_candidate, media_item_from_video, merge_continue_watching, metadata_paths,
    movie_page, movie_sections, sort_newest_first, DirectoryNode, HistoryVideoNode, HubNode,
    MediaContainer, MediaNode, PartNode, VideoNode,
};

fn video(key: &str) -> VideoNode {
    VideoNode {
        rating_key: key.to_string(),
        title: format!("Movie {key}"),
        year: Some(2001),
        summary: None,
        thumb: Some(format!("/library/metadata/{key}/thumb")),
        library_section_title: None,
        duration: None,
        view_offset: None,
        last_viewed_at: None,
        media: Vec::new(),
    }
}

fn container() -> MediaContainer {
    MediaContainer { size: None, total_size: None, directories: Vec::new(), hubs: Vec::new(), videos: Vec::new() }
}

fn history(key: Option<&str>, kind: Option<&str>, viewed_at: Option<i64>) -> HistoryVideoNode {
    HistoryVideoNode {
        rating_key: key.map(str::to_string),
        kind: kind.map(str::to_string),
        viewed_at,
    }
}

fn item(key: &str, offset: Option<u64>, duration: Option<u64>, viewed: Option<i64>) -> MediaItem {
    MediaItem {
        rating_key: key.to_string(),
        title: key.to_string(),
        view_offset: offset,
        duration,
        last_viewed_at: viewed,
        ..Default::default()
    }
}

fn keys(items: &[MediaItem]) -> Vec<&str> {
    items.iter().map(|i| i.rating_key.as_str()).collect()
}

#[test]
fn media_item_takes_the_first_part_key_and_duration() {
    let mut v = video("1");
    v.summary = Some("   ".to_string());
    v.media = vec![
        MediaNode { duration: None, parts: vec![PartNode { key: None }] },
        MediaNode { duration: Some(5000), parts: vec![PartNode { key: None }, PartNode { key: Some("/p/2".into()) }] },
        MediaNode { duration: Some(7000), parts: vec![PartNode { key: Some("/p/3".into()) }] },
    ];
    let m = media_item_from_video(v);
    assert_eq!(m.part_key.as_deref(), Some("/p/2"));
    assert_eq!(m.duration, Some(5000));
    assert_eq!(m.summary, None);
    assert_eq!(m.rating_key, "1");
    assert_eq!(m.year, Some(2001));
}

#[test]
fn media_item_keeps_its_own_duration_and_summary() {
    let mut v = video("2");
    v.duration = Some(100);
    v.summary = Some(" A film ".to_string());
    v.media = vec![MediaNode { duration: Some(5), parts: Vec::new() }];
    let m = media_item_from_video(v);
    assert_eq!(m.duration, Some(100));
    assert_eq!(m.summary.as_deref(), Some(" A film "));
    assert_eq!(m.part_key, None);
}

#[test]
fn only_movie_sections_are_listed() {
    let mut c = container();
    c.directories = vec![
        DirectoryNode { key: "1".into(), title: "Movies".into(), kind: Some("movie".into()) },
        DirectoryNode { key: "2".into(), title: "Shows".into(), kind: Some("show".into()) },
        DirectoryNode { key: "3".into(), title: "Odd".into(), kind: None },
        DirectoryNode { key: "4".into(), title: "4K".into(), kind: Some("movie".into()) },
    ];
    let s = movie_sections(c);
    assert_eq!(s.len(), 2);
    assert_eq!((s[0].id.as_str(), s[0].title.as_str()), ("1", "Movies"));
    assert_eq!((s[1].id.as_str(), s[1].title.as_str()), ("4", "4K"));
}

#[test]
fn page_total_prefers_total_size_then_size() {
    let mut c = container();
    c.videos = vec![video("a"), video("b")];
    c.size = Some(2);
    c.total_size = Some(90);
    let p = movie_page(c.clone(), 60);
    assert_eq!((p.start, p.total_size, p.items.len()), (60, 90, 2));
    assert_eq!(keys(&p.items), vec!["a", "b"]);
    c.total_size = None;
    assert_eq!(movie_page(c.clone(), 0).total_size, 2);
    c.size = None;
    assert_eq!(movie_page(c, 0).total_size, 0);
}

#[test]
fn continue_watching_reads_matching_hubs_once_per_movie() {
    let mut c = container();
    c.hubs = vec![
        HubNode { hub_identifier: Some("continueWatching".into()), key: None, videos: vec![video("1"), video("2")] },
        HubNode { hub_identifier: Some("recentlyAdded".into()), key: Some("/hubs/recent".into()), videos: vec![video("9")] },
        HubNode { hub_identifier: None, key: Some("/hubs/home/continueWatching".into()), videos: vec![video("2"), video("3")] },
    ];
    let items = continue_watching_items(c);
    assert_eq!(keys(&items), vec!["1", "2", "3"]);
}

#[test]
fn history_keys_are_movies_not_seen_each_once() {
    let h = vec![
        history(Some("1"), Some("movie"), Some(10)),
        history(Some("2"), Some("episode"), Some(9)),
        history(Some("3"), Some("movie"), None),
        history(None, Some("movie"), Some(8)),
        history(Some("1"), Some("movie"), Some(7)),
        history(Some("4"), Some("movie"), Some(6)),
    ];
    let seen = vec!["4".to_string()];
    assert_eq!(dedup_history_rating_keys(&h, &seen), vec!["1".to_string(), "3".to_string()]);
}

#[test]
fn viewed_at_map_keeps_the_first_time() {
    let h = vec![
        history(Some("1"), Some("movie"), None),
        history(Some("1"), Some("movie"), Some(50)),
        history(Some("2"), None, Some(40)),
        history(Some("1"), Some("movie"), Some(30)),
    ];
    let m = history_viewed_at_map(&h);
    assert_eq!(m.get(&"1".to_string()), Some(50));
    assert_eq!(m.get(&"2".to_string()), Some(40));
    assert_eq!(m.get(&"3".to_string()), None);
}

#[test]
fn continue_candidates_are_partly_watched() {
    assert!(!is_continue_candidate(&item("a", Some(59_999), Some(1_000_000), None)));
    assert!(is_continue_candidate(&item("a", Some(60_000), Some(1_000_000), None)));
    assert!(is_continue_candidate(&item("a", Some(949_999), Some(1_000_000), None)));
    assert!(!is_continue_candidate(&item("a", Some(950_000), Some(1_000_000), None)));
    assert!(!is_continue_candidate(&item("a", Some(60_000), Some(0), None)));
    assert!(!is_continue_candidate(&item("a", None, Some(1_000_000), None)));
    assert!(!is_continue_candidate(&item("a", Some(60_000), None, None)));
    // The product saturates: u64::MAX / 100 is the limit.
    assert!(is_continue_candidate(&item("a", Some(u64::MAX / 100 - 1), Some(u64::MAX), None)));
    assert!(!is_continue_candidate(&item("a", Some(u64::MAX / 100), Some(u64::MAX), None)));
}

#[test]
fn sorting_is_newest_first_and_stable() {
    let items = vec![
        item("none1", None, None, None),
        item("old", None, None, Some(5)),
        item("new", None, None, Some(9)),
        item("none2", None, None, None),
        item("old2", None, None, Some(5)),
    ];
    let sorted = sort_newest_first(items);
    assert_eq!(keys(&sorted), vec!["new", "old", "old2", "none1", "none2"]);
}

#[test]
fn merge_adds_stamped_candidates_and_sorts() {
    let base = vec![item("1", Some(70_000), Some(1_000_000), Some(100)), item("2", None, None, None)];
    let h = vec![
        history(Some("3"), Some("movie"), Some(300)),
        history(Some("4"), Some("movie"), Some(50)),
        history(Some("1"), Some("movie"), Some(999)),
    ];
    let viewed = history_viewed_at_map(&h);
    let fetched = vec![
        item("3", Some(70_000), Some(1_000_000), None),
        item("4", Some(10), Some(1_000_000), None),
        item("1", Some(70_000), Some(1_000_000), None),
        item("3", Some(70_000), Some(1_000_000), None),
    ];
    let page = merge_continue_watching(base, &viewed, fetched);
    assert_eq!(keys(&page.items), vec!["3", "1", "2"]);
    assert_eq!(page.items[0].last_viewed_at, Some(300));
    assert_eq!(page.items[1].last_viewed_at, Some(100));
    assert_eq!((page.start, page.total_size), (0, 3));
}

#[test]
fn metadata_paths_take_fifty_keys_at_a_time() {
    let keys: Vec<String> = (0..120).map(|i| i.to_string()).collect();
    let paths = metadata_paths(&keys);
    assert_eq!(paths.len(), 3);
    let first: Vec<String> = (0..50).map(|i| i.to_string()).collect();
    assert_eq!(paths[0], format!("/library/metadata/{}", first.join(",")));
    assert_eq!(paths[2], format!("/library/metadata/{}", (100..120).map(|i| i.to_string()).collect::<Vec<_>>().join(",")));
    assert!(metadata_paths(&[]).is_empty());
    assert_eq!(metadata_paths(&["7".to_string()]), vec!["/library/metadata/7".to_string()]);
    let fifty: Vec<String> = (0..50).map(|i| i.to_string()).collect();
    assert_eq!(metadata_paths(&fifty).len(), 1);
}
