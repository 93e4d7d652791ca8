use std::path::PathBuf;

use plex_poster_launcher::cache::ThumbnailCache;
use plex_poster_launcher::config::AppConfig;
use plex_poster_launcher::launcher::{
    format_resume_time, missing_part_message, BrowseMode, LauncherState, WorkerCommand, PAGE_SIZE,
};
use plex_poster_launcher::models::{LibrarySection, MediaItem, MoviePage};
use plex_poster_launcher::paths::choose_app_paths;
use plex_poster_launcher::player::{plan_vlc_launch, PlayerError};

fn ready_config(library: &str) -> AppConfig {
    AppConfig {
        server_url: "http://h:32400".to_string(),
        token: "abc".to_string(),
        vlc_path: "/usr/bin/vlc".to_string(),
        selected_library_id: library.to_string(),
    }
}

fn item(key: &str) -> MediaItem {
    MediaItem { rating_key: key.to_string(), title: format!("T{key}"), ..Default::default() }
}

fn page(start: usize, n: usize, total: usize) -> MoviePage {
    MoviePage { items: (start..start + n).map(|i| item(&i.to_string())).collect(), start, total_size: total }
}

#[test]
fn vlc_plan_needs_a_path() {
    assert!(matches!(plan_vlc_launch("   ", "http://m", "T"), Err(PlayerError::MissingPath)));
}

#[test]
fn vlc_plan_passes_title_then_url() {
    let plan = plan_vlc_launch(" /usr/bin/vlc ", "http://m", "Up").unwrap();
    assert_eq!(plan.program, "/usr/bin/vlc");
    assert_eq!(plan.args, vec!["--meta-title", "Up", "--input-title-format", "Up", "http://m"]);
    let untitled = plan_vlc_launch("vlc", "http://m", "  ").unwrap();
    assert_eq!(untitled.args, vec!["http://m"]);
}

#[test]
fn posters_are_named_by_rating_key() {
    assert_eq!(ThumbnailCache::poster_file_name("123"), "123.jpg");
    let cache = ThumbnailCache::new(PathBuf::from("cache"));
    assert_eq!(cache.poster_path("123"), PathBuf::from("cache").join("123.jpg"));
    assert_eq!(cache.root(), &PathBuf::from("cache"));
}

#[test]
fn resume_times() {
    assert_eq!(format_resume_time(0), "00:00");
    assert_eq!(format_resume_time(999), "00:00");
    assert_eq!(format_resume_time(61_000), "01:01");
    assert_eq!(format_resume_time(3_599_999), "59:59");
    assert_eq!(format_resume_time(3_661_000), "01:01:01");
    assert_eq!(format_resume_time(360_000_000), "100:00:00");
}

#[test]
fn new_launcher_lists_libraries_when_ready() {
    let (state, cmd) = LauncherState::new(ready_config(""));
    assert!(matches!(cmd, Some(WorkerCommand::LoadSections(_))));
    assert!(state.is_loading_sections);
    assert_eq!(state.status_text, "Loading Plex movie libraries...");
    let (idle, none) = LauncherState::new(AppConfig::default());
    assert!(none.is_none());
    assert_eq!(idle.status_text, "Fill in Plex URL, token, and VLC path first.");
}

#[test]
fn load_sections_refused_without_token() {
    let (mut state, _) = LauncherState::new(AppConfig::default());
    assert!(state.load_sections().is_none());
    assert_eq!(state.error_text.as_deref(), Some("A valid Plex URL and token are required."));
}

#[test]
fn listing_chooses_first_library_and_loads_its_first_page() {
    let (mut state, _) = LauncherState::new(ready_config("zz"));
    let libs = vec![
        LibrarySection { id: "1".into(), title: "Movies".into() },
        LibrarySection { id: "2".into(), title: "4K".into() },
    ];
    let r = state.sections_loaded(Ok(libs));
    assert!(r.clear_posters);
    match r.command {
        Some(WorkerCommand::LoadMovies { section_id, start, size, .. }) => {
            assert_eq!((section_id.as_str(), start, size), ("1", 0, PAGE_SIZE));
        }
        _ => panic!("expected a page request"),
    }
    assert_eq!(state.config.selected_library_id, "1");
    assert_eq!(state.status_text, "Loading page 1...");
    assert!(state.is_loading_movies);
    assert!(!state.is_loading_sections);
    assert_eq!(state.selected_library_title(), "Movies");
}

#[test]
fn listing_keeps_a_listed_choice() {
    let (mut state, _) = LauncherState::new(ready_config("2"));
    let libs = vec![
        LibrarySection { id: "1".into(), title: "Movies".into() },
        LibrarySection { id: "2".into(), title: "4K".into() },
    ];
    state.sections_loaded(Ok(libs));
    assert_eq!(state.config.selected_library_id, "2");
    assert_eq!(state.selected_library_title(), "4K");
}

#[test]
fn listing_error_is_shown() {
    let (mut state, _) = LauncherState::new(ready_config(""));
    let r = state.sections_loaded(Err("boom".to_string()));
    assert!(r.command.is_none());
    assert_eq!(state.error_text.as_deref(), Some("boom"));
    assert!(!state.is_loading_sections);
    assert_eq!(state.selected_library_title(), "Choose library");
}

#[test]
fn pages_continue_where_the_loaded_movies_end() {
    let (mut state, _) = LauncherState::new(ready_config("1"));
    let r = state.reload_movies();
    assert!(r.clear_posters);
    assert!(matches!(r.command, Some(WorkerCommand::LoadMovies { start: 0, .. })));
    assert!(state.load_more_movies().is_none(), "no second request while loading");
    state.movies_loaded(Ok(page(0, 60, 130)));
    assert_eq!(state.status_text, "Loaded 60/130 movies.");
    assert!(state.can_load_more());
    match state.load_more_movies() {
        Some(WorkerCommand::LoadMovies { start, .. }) => assert_eq!(start, 60),
        _ => panic!("expected the second page"),
    }
    assert_eq!(state.status_text, "Loading page 2...");
    state.movies_loaded(Ok(page(60, 60, 130)));
    state.load_more_movies();
    state.movies_loaded(Ok(page(120, 10, 130)));
    assert_eq!(state.items.len(), 130);
    assert_eq!(state.next_start, 130);
    assert!(!state.can_load_more());
    assert_eq!(state.status_text, "Loaded 130/130 movies.");
}

#[test]
fn shown_total_never_below_loaded_count() {
    let (mut state, _) = LauncherState::new(ready_config("1"));
    state.reload_movies();
    state.movies_loaded(Ok(page(0, 5, 3)));
    assert_eq!(state.status_text, "Loaded 5/5 movies.");
}

#[test]
fn reload_without_library_is_refused() {
    let (mut state, _) = LauncherState::new(ready_config("  "));
    let r = state.reload_movies();
    assert!(r.command.is_none() && !r.clear_posters);
    assert_eq!(state.error_text.as_deref(), Some("Choose a movie library first."));
}

#[test]
fn continue_watching_switches_mode_and_blocks_paging() {
    let (mut state, _) = LauncherState::new(ready_config("1"));
    let r = state.load_continue_watching();
    assert!(matches!(r.command, Some(WorkerCommand::LoadContinueWatching(_))));
    assert_eq!(state.browse_mode, BrowseMode::ContinueWatching);
    assert_eq!(state.browse_mode_title(), "Recent & Continue Watching");
    assert!(state.load_continue_watching().command.is_none());
    state.movies_loaded(Ok(page(0, 3, 3)));
    assert_eq!(state.status_text, "Loaded 3 recent / continue items.");
    assert!(state.load_more_movies().is_none());
    assert!(!state.can_load_more());
}

#[test]
fn failed_page_keeps_the_list() {
    let (mut state, _) = LauncherState::new(ready_config("1"));
    state.reload_movies();
    state.movies_loaded(Err("timeout".to_string()));
    assert!(!state.is_loading_movies);
    assert_eq!(state.error_text.as_deref(), Some("timeout"));
    assert!(state.items.is_empty());
}

#[test]
fn selection_finds_the_first_matching_movie() {
    let (mut state, _) = LauncherState::new(ready_config("1"));
    state.reload_movies();
    state.movies_loaded(Ok(page(0, 3, 3)));
    assert!(state.selected_item().is_none());
    state.selected_item_key = Some("1".to_string());
    assert_eq!(state.selected_item().map(|i| i.title.as_str()), Some("T1"));
    state.selected_item_key = Some("9".to_string());
    assert!(state.selected_item().is_none());
}

#[test]
fn play_messages() {
    let (mut state, _) = LauncherState::new(ready_config("1"));
    let mut m = item("1");
    m.title = "Up".to_string();
    m.view_offset = Some(3_661_000);
    state.play_started(&m);
    assert_eq!(state.status_text, "Launched VLC for Up at 01:01:01");
    m.view_offset = Some(999);
    state.play_started(&m);
    assert_eq!(state.status_text, "Launched VLC for Up");
    assert_eq!(missing_part_message("Up"), "Up does not expose a playable media part.");
    state.report_error("x".to_string());
    assert_eq!(state.error_text.as_deref(), Some("x"));
}

#[test]
fn local_config_wins_then_project_dirs_then_working_directory() {
    let cwd = PathBuf::from("work");
    let dirs = Some((PathBuf::from("cfg"), PathBuf::from("cch")));
    let local = choose_app_paths(cwd.clone(), true, dirs.clone());
    assert_eq!(local.config_dir, cwd);
    assert_eq!(local.config_file, cwd.join("config.toml"));
    assert_eq!(local.cache_dir, cwd.join("cache"));
    let project = choose_app_paths(cwd.clone(), false, dirs);
    assert_eq!(project.config_dir, PathBuf::from("cfg"));
    assert_eq!(project.config_file, PathBuf::from("cfg").join("config.toml"));
    assert_eq!(project.cache_dir, PathBuf::from("cch"));
    let fallback = choose_app_paths(cwd.clone(), false, None);
    assert_eq!(fallback.config_dir, cwd);
    assert_eq!(fallback.cache_dir, cwd.join("cache"));
}
