use plex_poster_launcher::plex::{PlexClient, PlexError};
use plex_poster_launcher::web::UrlErrorKind;

fn client() -> PlexClient {
    PlexClient::new("  http://192.168.1.100:32400/ ", " abc ")
}

#[test]
fn stream_url_carries_download_flag_then_token() {
    assert_eq!(
        client().build_stream_url("/library/parts/1/file.mkv").unwrap(),
        "http://192.168.1.100:32400/library/parts/1/file.mkv?download=1&X-Plex-Token=abc"
    );
}

#[test]
fn thumbnail_url_wraps_the_encoded_image_url() {
    assert_eq!(
        client().build_thumbnail_url("/library/metadata/1/thumb/123", 180, 270).unwrap(),
        "http://192.168.1.100:32400/photo/:/transcode?width=180&height=270&minSize=1&upscale=0\
&url=http%3A%2F%2F192.168.1.100%3A32400%2Flibrary%2Fmetadata%2F1%2Fthumb%2F123%3FX-Plex-Token%3Dabc\
&X-Plex-Token=abc"
    );
}

#[test]
fn absolute_paths_are_parsed_on_their_own() {
    let url = client().absolute_url("https://images.example/poster.jpg", &[("a", "b c")]).unwrap();
    assert_eq!(url.as_str(), "https://images.example/poster.jpg?a=b+c&X-Plex-Token=abc");
}

#[test]
fn relative_paths_join_the_server() {
    let url = client().absolute_url("library/sections", &[]).unwrap();
    assert_eq!(url.as_str(), "http://192.168.1.100:32400/library/sections?X-Plex-Token=abc");
}

#[test]
fn invalid_server_address_is_an_error() {
    let bad = PlexClient::new("not a url", "abc");
    assert!(matches!(bad.build_stream_url("/x"), Err(PlexError::Url(UrlErrorKind::RelativeUrlWithoutBase))));
    let empty_host = PlexClient::new("http://", "abc");
    assert!(matches!(empty_host.sections_url(), Err(PlexError::Url(UrlErrorKind::EmptyHost))));
    let bad_port = PlexClient::new("http://h:99999", "abc");
    assert!(matches!(bad_port.build_thumbnail_url("/t", 1, 1), Err(PlexError::Url(UrlErrorKind::InvalidPort))));
}

#[test]
fn request_urls() {
    let c = client();
    assert_eq!(
        c.sections_url().unwrap().as_str(),
        "http://192.168.1.100:32400/library/sections?X-Plex-Token=abc"
    );
    assert_eq!(
        c.movies_page_url("7", 120, 60).unwrap().as_str(),
        "http://192.168.1.100:32400/library/sections/7/all?type=1&X-Plex-Container-Start=120\
&X-Plex-Container-Size=60&X-Plex-Token=abc"
    );
    assert_eq!(
        c.continue_watching_url(200).unwrap().as_str(),
        "http://192.168.1.100:32400/hubs/continueWatching?count=200&X-Plex-Token=abc"
    );
    assert_eq!(
        c.playback_history_url(400).unwrap().as_str(),
        "http://192.168.1.100:32400/status/sessions/history/all?sort=viewedAt%3Adesc\
&X-Plex-Container-Start=0&X-Plex-Container-Size=400&X-Plex-Token=abc"
    );
}

#[test]
fn token_is_trimmed_and_encoded() {
    let c = PlexClient::new("http://h", " a&b ");
    assert_eq!(c.build_stream_url("/p").unwrap(), "http://h/p?download=1&X-Plex-Token=a%26b");
}
