use std::path::PathBuf;

use plex_poster_launcher::config::AppConfig;
use plex_poster_launcher::keyboard::touch_keyboard_candidates;
use plex_poster_launcher::launcher::LauncherState;
use plex_poster_launcher::models::{LibrarySection, MediaItem, MoviePage};
use plex_poster_launcher::plex::PlexClient;
use plex_poster_launcher::cache::ThumbnailCache;
use plex_poster_launcher::posters::{decode_poster, PosterState, PosterStep};

fn ready_config(library: &str) -> AppConfig {
    AppConfig {
        server_url: "http://h:32400".to_string(),
        token: "abc".to_string(),
        vlc_path: "/usr/bin/vlc".to_string(),
        selected_library_id: library.to_string(),
    }
}

fn movie(key: &str, thumb: Option<&str>) -> MediaItem {
    MediaItem {
        rating_key: key.to_string(),
        title: format!("T{key}"),
        thumb: thumb.map(|t| t.to_string()),
        ..Default::default()
    }
}

fn libraries() -> Vec<LibrarySection> {
    vec![
        LibrarySection { id: "1".into(), title: "Movies".into() },
        LibrarySection { id: "2".into(), title: "4K".into() },
    ]
}

#[test]
fn poster_is_fetched_once_then_shown() {
    let mut posters = PosterState::new();
    let m = movie("7", Some("/thumb/7"));
    match posters.step(&m, false) {
        PosterStep::Fetch { rating_key, thumb_path } => {
            assert_eq!(rating_key, "7");
            assert_eq!(thumb_path, "/thumb/7");
        }
        other => panic!("expected a fetch, got {other:?}"),
    }
    assert!(posters.is_handled("7"));
    assert!(matches!(posters.step(&m, false), PosterStep::Nothing));
    assert!(matches!(posters.step(&m, true), PosterStep::Nothing));
    posters.texture_loaded("7");
    assert!(posters.is_handled("7"));
    assert!(matches!(posters.step(&m, false), PosterStep::Nothing));
}

#[test]
fn cached_poster_is_loaded_without_a_fetch() {
    let mut posters = PosterState::new();
    let m = movie("8", Some("/thumb/8"));
    assert!(matches!(posters.step(&m, true), PosterStep::LoadCached));
    assert!(!posters.is_handled("8"));
}

#[test]
fn movie_without_thumbnail_is_left_alone() {
    let mut posters = PosterState::new();
    assert!(matches!(posters.step(&movie("9", None), false), PosterStep::Nothing));
    assert!(!posters.is_handled("9"));
}

#[test]
fn failed_fetch_may_be_tried_again() {
    let mut posters = PosterState::new();
    let m = movie("10", Some("/t"));
    assert!(matches!(posters.step(&m, false), PosterStep::Fetch { .. }));
    posters.fetch_failed("10");
    assert!(!posters.is_handled("10"));
    assert!(matches!(posters.step(&m, false), PosterStep::Fetch { .. }));
}

#[test]
fn clearing_forgets_every_poster() {
    let mut posters = PosterState::new();
    posters.texture_loaded("1");
    assert!(matches!(posters.step(&movie("2", Some("/t")), false), PosterStep::Fetch { .. }));
    posters.clear();
    assert!(!posters.is_handled("1"));
    assert!(!posters.is_handled("2"));
}

#[test]
fn chosen_library_is_saved_when_it_changed() {
    let (mut state, _) = LauncherState::new(ready_config(""));
    let r = state.sections_loaded(Ok(libraries()));
    assert!(r.save_config);
    assert_eq!(state.config.selected_library_id, "1");
}

#[test]
fn kept_library_needs_no_save() {
    let (mut state, _) = LauncherState::new(ready_config("2"));
    let r = state.sections_loaded(Ok(libraries()));
    assert!(!r.save_config);
    let (mut failed, _) = LauncherState::new(ready_config("2"));
    assert!(!failed.sections_loaded(Err("boom".to_string())).save_config);
    let reload = state.reload_movies();
    assert!(!reload.save_config);
}

#[test]
fn search_text_survives_a_new_page() {
    let (mut state, _) = LauncherState::new(ready_config("1"));
    state.search_text = "up".to_string();
    let page = MoviePage { items: vec![movie("1", None)], start: 0, total_size: 1 };
    state.movies_loaded(Ok(page));
    assert_eq!(state.search_text, "up");
}

#[test]
fn fragment_stays_after_the_token() {
    let client = PlexClient::new("http://h", "abc");
    let url = client.absolute_url("http://a/b#f", &[]).unwrap();
    assert_eq!(url.as_str(), "http://a/b?X-Plex-Token=abc#f");
    let with_query = client.absolute_url("http://a/b?x=1#f", &[("y", "2")]).unwrap();
    assert_eq!(with_query.as_str(), "http://a/b?x=1&y=2&X-Plex-Token=abc#f");
}

#[test]
fn keyboard_is_looked_for_below_the_set_directories_first() {
    let fixed = [
        PathBuf::from("C:\\Program Files\\Common Files\\microsoft shared\\ink\\TabTip.exe"),
        PathBuf::from("C:\\Program Files (x86)\\Common Files\\microsoft shared\\ink\\TabTip.exe"),
    ];
    let none = touch_keyboard_candidates(None, None);
    assert_eq!(none, fixed.to_vec());
    let both = touch_keyboard_candidates(Some("A"), Some("B"));
    assert_eq!(both.len(), 4);
    assert_eq!(both[0], PathBuf::from("A").join("microsoft shared/ink/TabTip.exe"));
    assert_eq!(both[1], PathBuf::from("B").join("microsoft shared/ink/TabTip.exe"));
    assert_eq!(&both[2..], &fixed[..]);
    let x86_only = touch_keyboard_candidates(None, Some("B"));
    assert_eq!(x86_only[0], PathBuf::from("B").join("microsoft shared/ink/TabTip.exe"));
    assert_eq!(x86_only.len(), 3);
}

#[test]
fn playing_a_movie_without_part_shows_why() {
    let (mut state, _) = LauncherState::new(ready_config("1"));
    let m = movie("3", None);
    assert!(state.stream_request(&m).is_none());
    assert_eq!(state.error_text.as_deref(), Some("T3 does not expose a playable media part."));
}

#[test]
fn playing_builds_the_stream_url_then_reports_the_launch() {
    let (mut state, _) = LauncherState::new(ready_config("1"));
    let mut m = movie("4", None);
    m.part_key = Some("/library/parts/4/file.mkv".to_string());
    m.view_offset = Some(61_000);
    let url = state.stream_request(&m).unwrap().unwrap();
    assert_eq!(url, "http://h:32400/library/parts/4/file.mkv?download=1&X-Plex-Token=abc");
    state.play_finished(&m, Ok(()));
    assert_eq!(state.status_text, "Launched VLC for T4 at 01:01");
    assert!(state.error_text.is_none());
    state.play_finished(&m, Err("VLC path is not configured".to_string()));
    assert_eq!(state.error_text.as_deref(), Some("VLC path is not configured"));
    assert_eq!(state.status_text, "Launched VLC for T4 at 01:01");
}

#[test]
fn stream_url_error_names_its_kind() {
    let mut config = ready_config("1");
    config.server_url = "not a url".to_string();
    let (mut state, _) = LauncherState::new(config);
    let mut m = movie("5", None);
    m.part_key = Some("/p".to_string());
    assert!(matches!(
        state.stream_request(&m),
        Some(Err(plex_poster_launcher::plex::PlexError::Url(
            plex_poster_launcher::web::UrlErrorKind::RelativeUrlWithoutBase
        )))
    ));
}

fn png_bytes(width: u32, height: u32, rgba: Vec<u8>) -> Vec<u8> {
    let image = image::RgbaImage::from_raw(width, height, rgba).unwrap();
    let mut out = std::io::Cursor::new(Vec::new());
    image::DynamicImage::ImageRgba8(image)
        .write_to(&mut out, image::ImageOutputFormat::Png)
        .unwrap();
    out.into_inner()
}

#[test]
fn poster_bytes_decode_to_their_pixels() {
    let pixels = vec![255, 0, 0, 255, 0, 0, 255, 128];
    let bytes = png_bytes(2, 1, pixels.clone());
    let poster = decode_poster(&bytes).unwrap();
    assert_eq!((poster.width, poster.height), (2, 1));
    assert_eq!(poster.rgba, pixels);
}

#[test]
fn grey_poster_decodes_to_rgba() {
    let grey = image::GrayImage::from_raw(1, 2, vec![10, 200]).unwrap();
    let mut out = std::io::Cursor::new(Vec::new());
    image::DynamicImage::ImageLuma8(grey).write_to(&mut out, image::ImageOutputFormat::Png).unwrap();
    let poster = decode_poster(&out.into_inner()).unwrap();
    assert_eq!((poster.width, poster.height), (1, 2));
    assert_eq!(poster.rgba, vec![10, 10, 10, 255, 200, 200, 200, 255]);
}

#[test]
fn bytes_that_are_no_image_decode_to_nothing() {
    assert!(decode_poster(b"not an image").is_none());
    assert!(decode_poster(&[]).is_none());
}

#[test]
fn saving_the_configuration_is_reported() {
    let (mut state, _) = LauncherState::new(ready_config("1"));
    state.report_error("old".to_string());
    state.config_saved(Ok("/home/u/config.toml".to_string()));
    assert!(state.error_text.is_none());
    assert_eq!(state.status_text, "Configuration saved to /home/u/config.toml");
    state.config_saved(Err("permission denied".to_string()));
    assert_eq!(state.error_text.as_deref(), Some("permission denied"));
    assert_eq!(state.status_text, "Configuration saved to /home/u/config.toml");
}

#[test]
fn poster_paths_differ_per_key() {
    let cache = ThumbnailCache::new(PathBuf::from("cache"));
    assert_ne!(cache.poster_path("1"), cache.poster_path("11"));
    assert_eq!(cache.poster_path("1").parent(), Some(std::path::Path::new("cache")));
    assert_eq!(cache.poster_path("1").file_name().unwrap(), "1.jpg");
}
