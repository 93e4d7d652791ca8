use plex_poster_launcher::config::AppConfig;
use plex_poster_launcher::text::{
    chars_of, contains, decimal_string, same_text, starts_with, trim,
    trim_trailing_slashes, white_space,
};
use plex_poster_launcher::ui::poster_grid::filtered_items;
use plex_poster_launcher::models::MediaItem;

fn config(server_url: &str, token: &str) -> AppConfig {
    AppConfig {
        server_url: server_url.to_string(),
        token: token.to_string(),
        vlc_path: String::new(),
        selected_library_id: String::new(),
    }
}

fn item(title: &str) -> MediaItem {
    MediaItem { rating_key: title.to_string(), title: title.to_string(), ..Default::default() }
}

#[test]
fn trim_removes_unicode_white_space_on_both_ends() {
    assert_eq!(trim("  a b \n"), "a b");
    assert_eq!(trim("\u{3000}\u{2003}x\u{85}"), "x");
    assert_eq!(trim(" \t "), "");
    assert_eq!(trim(""), "");
}

#[test]
fn white_space_matches_std() {
    for c in ['\t', '\n', ' ', '\u{a0}', '\u{1680}', '\u{2028}', '\u{3000}', 'a', '\u{200b}', '/'] {
        assert_eq!(white_space(c), c.is_whitespace(), "{:?}", c);
    }
}

#[test]
fn trailing_slashes_are_removed() {
    assert_eq!(trim_trailing_slashes("http://host:32400///"), "http://host:32400");
    assert_eq!(trim_trailing_slashes("///"), "");
    assert_eq!(trim_trailing_slashes("a/b"), "a/b");
}

#[test]
fn substring_search_and_prefixes() {
    assert!(contains("the matrix reloaded", "matrix"));
    assert!(contains("abc", ""));
    assert!(!contains("ab", "abc"));
    assert!(!contains("matrix", "xm"));
    assert!(starts_with("https://x", "https://"));
    assert!(!starts_with("http", "https://"));
    assert!(same_text("movie", "movie"));
    assert!(!same_text("movie", "movies"));
    assert_eq!(chars_of("héllo"), vec!['h', 'é', 'l', 'l', 'o']);
}

#[test]
fn decimal_rendering() {
    assert_eq!(decimal_string(0), "0");
    assert_eq!(decimal_string(7), "7");
    assert_eq!(decimal_string(1234), "1234");
    assert_eq!(decimal_string(u64::MAX), u64::MAX.to_string());
}

#[test]
fn server_url_is_trimmed_then_slashes_dropped() {
    assert_eq!(config("  http://192.168.1.100:32400/ ", "t").server_url_trimmed(), "http://192.168.1.100:32400");
    assert_eq!(config("http://h/ ", "t").server_url_trimmed(), "http://h");
    // White space before the slashes stays once the slashes are gone.
    assert_eq!(config("h /", "t").server_url_trimmed(), "h ");
}

#[test]
fn readiness_needs_address_and_token() {
    assert!(config("http://h", "abc").is_ready());
    assert!(!config("http://h", "   ").is_ready());
    assert!(!config(" / ", "abc").is_ready());
    assert!(!AppConfig::default().is_ready());
}

#[test]
fn default_config_is_empty() {
    let c = AppConfig::default();
    assert_eq!(c.server_url, "");
    assert_eq!(c.token, "");
    assert_eq!(c.vlc_path, "");
    assert_eq!(c.selected_library_id, "");
}

#[test]
fn blank_search_selects_everything() {
    let items = vec![item("A"), item("B"), item("C")];
    assert_eq!(filtered_items(&items, "   "), vec![0, 1, 2]);
    assert_eq!(filtered_items(&[], ""), Vec::<usize>::new());
}

#[test]
fn search_ignores_case_and_surrounding_space() {
    let items = vec![item("The Matrix"), item("Up"), item("Matrix Reloaded"), item("ÉLAN")];
    assert_eq!(filtered_items(&items, "  MATRIX "), vec![0, 2]);
    assert_eq!(filtered_items(&items, "élan"), vec![3]);
    assert_eq!(filtered_items(&items, "zzz"), Vec::<usize>::new());
    // Both sides are lowercased, so an uppercase needle finds a mixed-case title.
    assert_eq!(filtered_items(&[item("Élan Vital")], "ÉLAN V"), vec![0]);
}
