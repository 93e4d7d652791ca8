//! What the library makes of Plex: the request URLs, with the token always
//! attached, and the conversion of parsed Plex responses into sections, pages
//! and the continue-watching list.
use vstd::prelude::*;

use crate::models::{copy_text, LibrarySection, MediaItem, MoviePage};
use crate::config::normalized_server_url;
use crate::text::{
    contains, contains_text, decimal, decimal_string, has_prefix, lemma_trimmed_idempotent,
    lemma_without_trailing_slashes_idempotent, same_text, starts_with, trim,
    trim_trailing_slashes, trimmed,
};
use crate::web::{
    append_query_pair, join_url, joined_url, pair_fits, pair_fits_check, parse_url, parsed_url,
    url_text, url_to_string, url_with_pair, UrlErrorKind,
};
use url::Url;

verus! {

/// A `<Directory>` element of a section listing.
#[derive(Clone, Debug)]
pub struct DirectoryNode {
    pub key: String,
    pub title: String,
    pub kind: Option<String>,
}

/// A `<Part>` element: one playable file of a media version.
#[derive(Clone, Debug)]
pub struct PartNode {
    pub key: Option<String>,
}

/// A `<Media>` element: one version of a movie with its parts.
#[derive(Clone, Debug)]
pub struct MediaNode {
    pub duration: Option<u64>,
    pub parts: Vec<PartNode>,
}

/// A `<Video>` element: one movie as Plex lists it.
#[derive(Clone, Debug)]
pub struct VideoNode {
    pub rating_key: String,
    pub title: String,
    pub year: Option<i32>,
    pub summary: Option<String>,
    pub thumb: Option<String>,
    pub library_section_title: Option<String>,
    pub duration: Option<u64>,
    pub view_offset: Option<u64>,
    pub last_viewed_at: Option<i64>,
    pub media: Vec<MediaNode>,
}

/// A `<Hub>` element of the hub listing.
#[derive(Clone, Debug)]
pub struct HubNode {
    pub hub_identifier: Option<String>,
    pub key: Option<String>,
    pub videos: Vec<VideoNode>,
}

/// The `<MediaContainer>` root of a Plex response.
#[derive(Clone, Debug)]
pub struct MediaContainer {
    pub size: Option<usize>,
    pub total_size: Option<usize>,
    pub directories: Vec<DirectoryNode>,
    pub hubs: Vec<HubNode>,
    pub videos: Vec<VideoNode>,
}

/// A `<Video>` element of the playback history.
#[derive(Clone, Debug)]
pub struct HistoryVideoNode {
    pub rating_key: Option<String>,
    pub kind: Option<String>,
    pub viewed_at: Option<i64>,
}

/// The root of a playback-history response.
#[derive(Clone, Debug)]
pub struct HistoryContainer {
    pub videos: Vec<HistoryVideoNode>,
}

/// The first part key that is present, in document order.
pub open spec fn first_key_of_parts(parts: Seq<PartNode>) -> Option<String>
    decreases parts.len(),
{
    if parts.len() == 0 {
        None
    } else if parts[0].key is Some {
        parts[0].key
    } else {
        first_key_of_parts(parts.drop_first())
    }
}

/// The first part key present in any media version, versions in order.
pub open spec fn first_part_key(media: Seq<MediaNode>) -> Option<String>
    decreases media.len(),
{
    if media.len() == 0 {
        None
    } else if first_key_of_parts(media[0].parts@) is Some {
        first_key_of_parts(media[0].parts@)
    } else {
        first_part_key(media.drop_first())
    }
}

/// The first duration present among the media versions.
pub open spec fn first_media_duration(media: Seq<MediaNode>) -> Option<u64>
    decreases media.len(),
{
    if media.len() == 0 {
        None
    } else if media[0].duration is Some {
        media[0].duration
    } else {
        first_media_duration(media.drop_first())
    }
}

/// A summary is kept only where it holds more than white space.
pub open spec fn kept_summary(summary: Option<String>) -> Option<String> {
    match summary {
        Some(s) => if trimmed(s@).len() > 0 { Some(s) } else { None },
        None => None,
    }
}

/// The movie entry for a `<Video>` element: its own fields, the first part
/// key among its media, its own duration or else the first media duration,
/// and its summary where that is not blank.
pub open spec fn media_item_of(video: VideoNode) -> MediaItem {
    MediaItem {
        rating_key: video.rating_key,
        title: video.title,
        year: video.year,
        summary: kept_summary(video.summary),
        thumb: video.thumb,
        library_section_title: video.library_section_title,
        duration: if video.duration is Some { video.duration } else { first_media_duration(video.media@) },
        view_offset: video.view_offset,
        last_viewed_at: video.last_viewed_at,
        part_key: first_part_key(video.media@),
    }
}


fn first_key_in(parts: &Vec<PartNode>) -> (r: Option<String>)
    ensures
        r == first_key_of_parts(parts@),
{
    let mut i: usize = 0;
    assert(parts@.skip(0) =~= parts@);
    while i < parts.len()
        invariant
            i <= parts@.len(),
            first_key_of_parts(parts@) == first_key_of_parts(parts@.skip(i as int)),
        decreases parts@.len() - i,
    {
        assert(parts@.skip(i as int)[0] == parts@[i as int]);
        if parts[i].key.is_some() {
            return copy_text(&parts[i].key);
        }
        assert(parts@.skip(i as int).drop_first() =~= parts@.skip(i + 1));
        i += 1;
    }
    None
}

fn part_key_of(media: &Vec<MediaNode>) -> (r: Option<String>)
    ensures
        r == first_part_key(media@),
{
    let mut i: usize = 0;
    assert(media@.skip(0) =~= media@);
    while i < media.len()
        invariant
            i <= media@.len(),
            first_part_key(media@) == first_part_key(media@.skip(i as int)),
        decreases media@.len() - i,
    {
        assert(media@.skip(i as int)[0] == media@[i as int]);
        let k = first_key_in(&media[i].parts);
        if k.is_some() {
            return k;
        }
        assert(media@.skip(i as int).drop_first() =~= media@.skip(i + 1));
        i += 1;
    }
    None
}

fn media_duration_of(media: &Vec<MediaNode>) -> (r: Option<u64>)
    ensures
        r == first_media_duration(media@),
{
    let mut i: usize = 0;
    assert(media@.skip(0) =~= media@);
    while i < media.len()
        invariant
            i <= media@.len(),
            first_media_duration(media@) == first_media_duration(media@.skip(i as int)),
        decreases media@.len() - i,
    {
        assert(media@.skip(i as int)[0] == media@[i as int]);
        if media[i].duration.is_some() {
            return media[i].duration;
        }
        assert(media@.skip(i as int).drop_first() =~= media@.skip(i + 1));
        i += 1;
    }
    None
}

fn summary_of(summary: &Option<String>) -> (r: Option<String>)
    ensures
        r == kept_summary(*summary),
{
    match summary {
        Some(s) => if trim(s.as_str()).unicode_len() != 0 { Some(s.clone()) } else { None },
        None => None,
    }
}

/// The movie entry for a borrowed `<Video>` element.
pub fn media_item_from_video_ref(video: &VideoNode) -> (r: MediaItem)
    ensures
        r == media_item_of(*video),
        r.rating_key == video.rating_key,
        r.title == video.title,
        r.year == video.year,
        r.thumb == video.thumb,
        r.library_section_title == video.library_section_title,
        r.view_offset == video.view_offset,
        r.last_viewed_at == video.last_viewed_at,
{
    let duration = if video.duration.is_some() { video.duration } else { media_duration_of(&video.media) };
    MediaItem {
        rating_key: video.rating_key.clone(),
        title: video.title.clone(),
        year: video.year,
        summary: summary_of(&video.summary),
        thumb: copy_text(&video.thumb),
        library_section_title: copy_text(&video.library_section_title),
        duration,
        view_offset: video.view_offset,
        last_viewed_at: video.last_viewed_at,
        part_key: part_key_of(&video.media),
    }
}

/// The movie entry for a `<Video>` element.
pub fn media_item_from_video(video: VideoNode) -> (r: MediaItem)
    ensures
        r == media_item_of(video),
        r.rating_key == video.rating_key,
        r.title == video.title,
        r.year == video.year,
        r.thumb == video.thumb,
        r.library_section_title == video.library_section_title,
        r.view_offset == video.view_offset,
        r.last_viewed_at == video.last_viewed_at,
{
    media_item_from_video_ref(&video)
}


/// The movie entry made from a `<Video>` element keeps the element's own
/// rating key, title, year, poster thumb, library section, resume offset
/// and last-viewed time: the poster wall fetches the thumb it names, and the
/// resume position is the one Plex reported.
pub proof fn law_video_fields_carry_over(video: VideoNode)
    ensures
        media_item_of(video).rating_key == video.rating_key,
        media_item_of(video).title == video.title,
        media_item_of(video).year == video.year,
        media_item_of(video).thumb == video.thumb,
        media_item_of(video).library_section_title == video.library_section_title,
        media_item_of(video).view_offset == video.view_offset,
        media_item_of(video).last_viewed_at == video.last_viewed_at,
{
}

/// A `<Video>` element with a positive duration of its own and a resume
/// offset of at least a minute and below 95 percent of that duration makes
/// a movie entry that belongs on the continue-watching list.
pub proof fn law_partly_watched_video_is_continue_candidate(video: VideoNode)
    requires
        video.view_offset is Some,
        video.duration is Some,
        video.duration->0 > 0,
        video.view_offset->0 >= 60_000,
        video.view_offset->0 < saturating_product(video.duration->0, 95) / 100,
    ensures
        continue_candidate(media_item_of(video)),
{
}

/// A `type` attribute that names a movie.
pub open spec fn is_movie_kind(kind: Option<String>) -> bool {
    kind matches Some(k) && k@ == "movie"@
}

fn movie_kind(kind: &Option<String>) -> (b: bool)
    ensures
        b == is_movie_kind(*kind),
{
    match kind {
        Some(k) => same_text(k.as_str(), "movie"),
        None => false,
    }
}

/// The section a `<Directory>` element describes.
pub open spec fn section_of(d: DirectoryNode) -> LibrarySection {
    LibrarySection { id: d.key, title: d.title }
}

/// The movie sections among `dirs`, in document order.
pub open spec fn movie_sections_of(dirs: Seq<DirectoryNode>) -> Seq<LibrarySection>
    decreases dirs.len(),
{
    if dirs.len() == 0 {
        Seq::empty()
    } else {
        let prev = movie_sections_of(dirs.drop_last());
        if is_movie_kind(dirs.last().kind) {
            prev.push(section_of(dirs.last()))
        } else {
            prev
        }
    }
}

/// The movie libraries of a section listing: the `<Directory>` elements of
/// type `movie`, in document order.
pub fn movie_sections(container: MediaContainer) -> (r: Vec<LibrarySection>)
    ensures
        r@ == movie_sections_of(container.directories@),
{
    let dirs = &container.directories;
    let mut r: Vec<LibrarySection> = Vec::new();
    let mut i: usize = 0;
    while i < dirs.len()
        invariant
            i <= dirs@.len(),
            r@ == movie_sections_of(dirs@.take(i as int)),
        decreases dirs@.len() - i,
    {
        assert(dirs@.take(i + 1).drop_last() =~= dirs@.take(i as int));
        if movie_kind(&dirs[i].kind) {
            r.push(LibrarySection { id: dirs[i].key.clone(), title: dirs[i].title.clone() });
        }
        i += 1;
    }
    assert(dirs@.take(dirs@.len() as int) =~= dirs@);
    r
}

/// The total a listing reports: `totalSize`, else `size`, else zero.
pub open spec fn reported_total(container: MediaContainer) -> usize {
    match container.total_size {
        Some(t) => t,
        None => match container.size {
            Some(s) => s,
            None => 0,
        },
    }
}

/// The movie entries for a sequence of `<Video>` elements.
pub open spec fn media_items_of(videos: Seq<VideoNode>) -> Seq<MediaItem> {
    videos.map_values(|v: VideoNode| media_item_of(v))
}

fn media_items_from(videos: &Vec<VideoNode>) -> (r: Vec<MediaItem>)
    ensures
        r@ == media_items_of(videos@),
{
    let mut r: Vec<MediaItem> = Vec::new();
    let mut i: usize = 0;
    while i < videos.len()
        invariant
            i <= videos@.len(),
            r@ == media_items_of(videos@.take(i as int)),
        decreases videos@.len() - i,
    {
        r.push(media_item_from_video_ref(&videos[i]));
        assert(media_items_of(videos@.take(i + 1)) =~= media_items_of(videos@.take(i as int)).push(
            media_item_of(videos@[i as int]),
        ));
        i += 1;
    }
    assert(videos@.take(videos@.len() as int) =~= videos@);
    r
}

/// One page of a movie library starting at `start`: every `<Video>` element
/// as a movie entry, in document order, with the total that Plex reported.
pub fn movie_page(container: MediaContainer, start: usize) -> (r: MoviePage)
    ensures
        r.items@ == media_items_of(container.videos@),
        r.start == start,
        r.total_size == reported_total(container),
{
    let total_size = match container.total_size {
        Some(t) => t,
        None => match container.size {
            Some(s) => s,
            None => 0,
        },
    };
    MoviePage { items: media_items_from(&container.videos), start, total_size }
}


/// A hub that holds the continue-watching list: its identifier is
/// `continueWatching`, or its key mentions `continueWatching`.
pub open spec fn is_continue_hub(hub: HubNode) -> bool {
    ||| hub.hub_identifier matches Some(id) && id@ == "continueWatching"@
    ||| hub.key matches Some(k) && contains_text(k@, "continueWatching"@)
}

/// The `<Video>` elements of the continue-watching hubs, hubs in order.
pub open spec fn continue_videos(hubs: Seq<HubNode>) -> Seq<VideoNode>
    decreases hubs.len(),
{
    if hubs.len() == 0 {
        Seq::empty()
    } else {
        let prev = continue_videos(hubs.drop_last());
        if is_continue_hub(hubs.last()) {
            prev + hubs.last().videos@
        } else {
            prev
        }
    }
}

/// Some entry of `items` has rating key `key`.
pub open spec fn has_rating_key(items: Seq<MediaItem>, key: Seq<char>) -> bool {
    exists|i: int| 0 <= i < items.len() && items[i].rating_key@ == key
}

/// `items` with every entry dropped whose rating key an earlier entry has.
pub open spec fn first_of_each_key(items: Seq<MediaItem>) -> Seq<MediaItem>
    decreases items.len(),
{
    if items.len() == 0 {
        Seq::empty()
    } else {
        let prev = first_of_each_key(items.drop_last());
        if has_rating_key(prev, items.last().rating_key@) {
            prev
        } else {
            prev.push(items.last())
        }
    }
}

fn is_continue(hub: &HubNode) -> (b: bool)
    ensures
        b == is_continue_hub(*hub),
{
    let by_id = match &hub.hub_identifier {
        Some(id) => same_text(id.as_str(), "continueWatching"),
        None => false,
    };
    if by_id {
        return true;
    }
    match &hub.key {
        Some(k) => contains(k.as_str(), "continueWatching"),
        None => false,
    }
}

/// An entry with rating key `key` among `items` keeps its key on
/// the list with each key once.
proof fn lemma_first_of_each_key_keeps_keys(items: Seq<MediaItem>, key: Seq<char>)
    requires
        has_rating_key(items, key),
    ensures
        has_rating_key(first_of_each_key(items), key),
    decreases items.len(),
{
    let prev = first_of_each_key(items.drop_last());
    let w = choose|w: int| 0 <= w < items.len() && items[w].rating_key@ == key;
    if w < items.len() - 1 {
        assert(items.drop_last()[w] == items[w]);
        lemma_first_of_each_key_keeps_keys(items.drop_last(), key);
        if !has_rating_key(prev, items.last().rating_key@) {
            let v = choose|v: int| 0 <= v < prev.len() && prev[v].rating_key@ == key;
            assert(prev.push(items.last())[v] == prev[v]);
        }
    } else {
        if !has_rating_key(prev, items.last().rating_key@) {
            assert(prev.push(items.last())[prev.len() as int] == items.last());
        }
    }
}

/// The movies of every continue-watching hub are among the movie entries of
/// `continue_videos`.
proof fn lemma_continue_hub_videos_listed(hubs: Seq<HubNode>, h: int, j: int)
    requires
        0 <= h < hubs.len(),
        0 <= j < hubs[h].videos@.len(),
        (((hubs[h]).hub_identifier matches Some(id) && id@ == "continueWatching"@) || ((hubs[h]).key matches Some(k) && contains_text(k@, "continueWatching"@))),
    ensures
        has_rating_key(media_items_of(continue_videos(hubs)), hubs[h].videos@[j].rating_key@),
    decreases hubs.len(),
{
    let prev = continue_videos(hubs.drop_last());
    let all = continue_videos(hubs);
    if h < hubs.len() - 1 {
        assert(hubs.drop_last()[h] == hubs[h]);
        lemma_continue_hub_videos_listed(hubs.drop_last(), h, j);
        let w = choose|w: int|
            0 <= w < media_items_of(prev).len() && media_items_of(prev)[w].rating_key@
                == hubs[h].videos@[j].rating_key@;
        if is_continue_hub(hubs.last()) {
            assert(all[w] == prev[w]);
        }
        assert(media_items_of(all)[w] == media_item_of(all[w]));
    } else {
        assert(is_continue_hub(hubs.last()));
        let w = prev.len() + j;
        assert(all[w] == hubs[h].videos@[j]);
        assert(media_items_of(all)[w] == media_item_of(all[w]));
    }
}

/// Every movie of a hub whose identifier is `continueWatching`, or whose key
/// mentions `continueWatching`, is on the continue-watching list, whatever
/// the hub's other field says: its rating key is among the listed entries.
pub proof fn law_continue_hub_movies_are_listed(hubs: Seq<HubNode>, h: int, j: int)
    requires
        0 <= h < hubs.len(),
        0 <= j < hubs[h].videos@.len(),
        (hubs[h].hub_identifier matches Some(id) && id@ == "continueWatching"@) || (
        hubs[h].key matches Some(k) && contains_text(k@, "continueWatching"@)),
    ensures
        has_rating_key(
            first_of_each_key(media_items_of(continue_videos(hubs))),
            hubs[h].videos@[j].rating_key@,
        ),
{
    lemma_continue_hub_videos_listed(hubs, h, j);
    lemma_first_of_each_key_keeps_keys(
        media_items_of(continue_videos(hubs)),
        hubs[h].videos@[j].rating_key@,
    );
}

/// Decides whether some entry of `items` has rating key `key`.
pub fn holds_rating_key(items: &Vec<MediaItem>, key: &String) -> (b: bool)
    ensures
        b == has_rating_key(items@, key@),
{
    let mut i: usize = 0;
    while i < items.len()
        invariant
            i <= items@.len(),
            forall|j: int| 0 <= j < i ==> items@[j].rating_key@ != key@,
        decreases items@.len() - i,
    {
        if items[i].rating_key == *key {
            return true;
        }
        i += 1;
    }
    false
}

/// The continue-watching list of a hub listing: the movies of the
/// continue-watching hubs, in order, each rating key once (the first
/// occurrence stays).
pub fn continue_watching_items(container: MediaContainer) -> (r: Vec<MediaItem>)
    ensures
        r@ == first_of_each_key(media_items_of(continue_videos(container.hubs@))),
        forall|h: int, j: int|
            0 <= h < container.hubs@.len() && 0 <= j < container.hubs@[h].videos@.len() && (((container.hubs@[h]).hub_identifier matches Some(id) && id@ == "continueWatching"@) || ((container.hubs@[h]).key matches Some(k) && contains_text(k@, "continueWatching"@)))
                ==> has_rating_key(r@, (#[trigger] container.hubs@[h].videos@[j]).rating_key@),
{
    let hubs = &container.hubs;
    let mut r: Vec<MediaItem> = Vec::new();
    let mut h: usize = 0;
    while h < hubs.len()
        invariant
            h <= hubs@.len(),
            r@ == first_of_each_key(media_items_of(continue_videos(hubs@.take(h as int)))),
        decreases hubs@.len() - h,
    {
        let ghost done = continue_videos(hubs@.take(h as int));
        assert(hubs@.take(h + 1).drop_last() =~= hubs@.take(h as int));
        if is_continue(&hubs[h]) {
            let videos = &hubs[h].videos;
            let mut j: usize = 0;
            assert(done + videos@.take(0) =~= done);
            while j < videos.len()
                invariant
                    j <= videos@.len(),
                    r@ == first_of_each_key(media_items_of(done + videos@.take(j as int))),
                decreases videos@.len() - j,
            {
                let ghost before = done + videos@.take(j as int);
                let item = media_item_from_video_ref(&videos[j]);
                assert(media_items_of(done + videos@.take(j + 1)) =~= media_items_of(before).push(
                    item,
                ));
                assert(media_items_of(before).push(item).drop_last() =~= media_items_of(before));
                if !holds_rating_key(&r, &item.rating_key) {
                    r.push(item);
                }
                j += 1;
            }
            assert(done + videos@.take(videos@.len() as int) =~= done + videos@);
        }
        h += 1;
    }
    assert(hubs@.take(hubs@.len() as int) =~= hubs@);
    assert forall|h: int, j: int|
        0 <= h < container.hubs@.len() && 0 <= j < container.hubs@[h].videos@.len() && (((container.hubs@[h]).hub_identifier matches Some(id) && id@ == "continueWatching"@) || ((container.hubs@[h]).key matches Some(k) && contains_text(k@, "continueWatching"@)))
            implies has_rating_key(r@, (#[trigger] container.hubs@[h].videos@[j]).rating_key@) by {
        law_continue_hub_movies_are_listed(container.hubs@, h, j);
    }
    r
}


/// Some text of `keys` equals `key`.
pub open spec fn among(keys: Seq<String>, key: Seq<char>) -> bool {
    exists|i: int| 0 <= i < keys.len() && keys[i]@ == key
}

/// The rating keys worth looking up from the playback history: those of
/// movie entries, in history order, each once, leaving out the keys in `seen`.
pub open spec fn history_rating_keys(history: Seq<HistoryVideoNode>, seen: Seq<String>) -> Seq<String>
    decreases history.len(),
{
    if history.len() == 0 {
        Seq::empty()
    } else {
        let prev = history_rating_keys(history.drop_last(), seen);
        let e = history.last();
        match e.rating_key {
            Some(k) => if is_movie_kind(e.kind) && !among(seen, k@) && !among(prev, k@) {
                prev.push(k)
            } else {
                prev
            },
            None => prev,
        }
    }
}

/// Decides whether some text of `keys` equals `key`.
pub fn holds_text(keys: &[String], key: &String) -> (b: bool)
    ensures
        b == among(keys@, key@),
{
    let mut i: usize = 0;
    while i < keys.len()
        invariant
            i <= keys@.len(),
            forall|j: int| 0 <= j < i ==> keys@[j]@ != key@,
        decreases keys@.len() - i,
    {
        if keys[i] == *key {
            return true;
        }
        i += 1;
    }
    false
}

/// The rating keys of the movies in `history` that are not in `seen`, each
/// once, in history order.
pub fn dedup_history_rating_keys(history: &[HistoryVideoNode], seen: &[String]) -> (r: Vec<String>)
    ensures
        r@ == history_rating_keys(history@, seen@),
{
    let mut r: Vec<String> = Vec::new();
    let mut i: usize = 0;
    while i < history.len()
        invariant
            i <= history@.len(),
            r@ == history_rating_keys(history@.take(i as int), seen@),
        decreases history@.len() - i,
    {
        assert(history@.take(i + 1).drop_last() =~= history@.take(i as int));
        if movie_kind(&history[i].kind) {
            match &history[i].rating_key {
                Some(k) => {
                    if !holds_text(seen, k) && !holds_text(r.as_slice(), k) {
                        r.push(k.clone());
                    }
                },
                None => {},
            }
        }
        i += 1;
    }
    assert(history@.take(history@.len() as int) =~= history@);
    r
}

/// When `history` says `key` was last viewed: the `viewedAt` of the first
/// entry for `key` that has one.
pub open spec fn first_viewed_at(history: Seq<HistoryVideoNode>, key: Seq<char>) -> Option<i64>
    decreases history.len(),
{
    if history.len() == 0 {
        None
    } else {
        let prev = first_viewed_at(history.drop_last(), key);
        if prev is Some {
            prev
        } else {
            match (history.last().rating_key, history.last().viewed_at) {
                (Some(k), Some(v)) => if k@ == key { Some(v) } else { None },
                _ => None,
            }
        }
    }
}

/// The value of the first pair for `key`.
pub open spec fn lookup(entries: Seq<(String, i64)>, key: Seq<char>) -> Option<i64>
    decreases entries.len(),
{
    if entries.len() == 0 {
        None
    } else {
        let prev = lookup(entries.drop_last(), key);
        if prev is Some {
            prev
        } else if entries.last().0@ == key {
            Some(entries.last().1)
        } else {
            None
        }
    }
}

proof fn lemma_lookup_settled(entries: Seq<(String, i64)>, key: Seq<char>, k: int)
    requires
        0 <= k <= entries.len(),
        lookup(entries.take(k), key) is Some,
    ensures
        lookup(entries, key) == lookup(entries.take(k), key),
    decreases entries.len() - k,
{
    if k < entries.len() {
        assert(entries.take(k + 1).drop_last() =~= entries.take(k));
        lemma_lookup_settled(entries, key, k + 1);
    } else {
        assert(entries.take(k) =~= entries);
    }
}

/// When each movie of a playback history was last viewed, by rating key.
pub struct ViewedAtMap {
    entries: Vec<(String, i64)>,
    source: Ghost<Seq<HistoryVideoNode>>,
}

impl ViewedAtMap {
    #[verifier::type_invariant]
    spec fn agrees(self) -> bool {
        forall|key: Seq<char>| lookup(self.entries@, key) == first_viewed_at(self.source@, key)
    }

    /// The history the map was built from.
    pub closed spec fn history(self) -> Seq<HistoryVideoNode> {
        self.source@
    }

    /// When `key` was last viewed according to the history, if it says so.
    pub fn get(&self, key: &String) -> (r: Option<i64>)
        ensures
            r == first_viewed_at(self.history(), key@),
    {
        proof {
            use_type_invariant(self);
            assert(lookup(self.entries@, key@) == first_viewed_at(self.source@, key@));
        }
        let entries = &self.entries;
        let mut i: usize = 0;
        while i < entries.len()
            invariant
                i <= entries@.len(),
                lookup(entries@, key@) == first_viewed_at(self.history(), key@),
                lookup(entries@.take(i as int), key@) is None,
            decreases entries@.len() - i,
        {
            assert(entries@.take(i + 1).drop_last() =~= entries@.take(i as int));
            if entries[i].0 == *key {
                proof {
                    assert(entries@.take(i + 1).last() == entries@[i as int]);
                    assert(lookup(entries@.take(i + 1), key@) == Some(entries@[i as int].1));
                    lemma_lookup_settled(entries@, key@, i + 1);
                }
                return Some(entries[i].1);
            }
            i += 1;
        }
        assert(entries@.take(entries@.len() as int) =~= entries@);
        None
    }
}

/// The last-viewed time of every movie in `history`; where a rating key
/// occurs more than once, its first entry with a time counts.
pub fn history_viewed_at_map(history: &[HistoryVideoNode]) -> (m: ViewedAtMap)
    ensures
        m.history() == history@,
{
    let mut entries: Vec<(String, i64)> = Vec::new();
    let mut i: usize = 0;
    while i < history.len()
        invariant
            i <= history@.len(),
            forall|key: Seq<char>|
                lookup(entries@, key) == first_viewed_at(history@.take(i as int), key),
        decreases history@.len() - i,
    {
        let ghost before = entries@;
        assert(history@.take(i + 1).drop_last() =~= history@.take(i as int));
        match (&history[i].rating_key, history[i].viewed_at) {
            (Some(k), Some(v)) => {
                let mut present = false;
                let mut j: usize = 0;
                while j < entries.len()
                    invariant
                        j <= entries@.len(),
                        entries@ == before,
                        !present ==> lookup(entries@.take(j as int), k@) is None,
                        present ==> lookup(entries@, k@) is Some,
                    decreases entries@.len() - j,
                {
                    assert(entries@.take(j + 1).drop_last() =~= entries@.take(j as int));
                    if !present && entries[j].0 == *k {
                        proof {
                            assert(entries@.take(j + 1).last() == entries@[j as int]);
                            assert(lookup(entries@.take(j + 1), k@) is Some);
                            lemma_lookup_settled(entries@, k@, j + 1);
                        }
                        present = true;
                    }
                    j += 1;
                }
                assert(entries@.take(entries@.len() as int) =~= entries@);
                if !present {
                    entries.push((k.clone(), v));
                    assert(entries@.drop_last() =~= before);
                }
                assert forall|key: Seq<char>|
                    lookup(entries@, key) == first_viewed_at(history@.take(i + 1), key) by {
                    assert(history@.take(i + 1).last() == history@[i as int]);
                    assert(first_viewed_at(history@.take(i as int), key) == lookup(before, key));
                }
            },
            _ => {
                assert forall|key: Seq<char>|
                    lookup(entries@, key) == first_viewed_at(history@.take(i + 1), key) by {
                    assert(history@.take(i + 1).last() == history@[i as int]);
                    assert(first_viewed_at(history@.take(i as int), key) == lookup(before, key));
                }
            },
        }
        i += 1;
    }
    assert(history@.take(history@.len() as int) =~= history@);
    let m = ViewedAtMap { entries, source: Ghost(history@) };
    m
}

/// `d * k`, or `u64::MAX` where the product does not fit.
pub open spec fn saturating_product(d: u64, k: u64) -> u64 {
    if d * k > u64::MAX { u64::MAX } else { (d * k) as u64 }
}

/// A movie belongs on the continue-watching list when both its offset and
/// its duration are known, the duration is positive, at least one minute has
/// been watched, and less than 95 percent.
pub open spec fn continue_candidate(item: MediaItem) -> bool {
    match (item.view_offset, item.duration) {
        (Some(offset), Some(duration)) => duration > 0 && offset >= 60_000 && offset
            < saturating_product(duration, 95) / 100,
        _ => false,
    }
}

/// Whether `item` is a partly watched movie worth continuing.
pub fn is_continue_candidate(item: &MediaItem) -> (b: bool)
    ensures
        b == continue_candidate(*item),
{
    match (item.view_offset, item.duration) {
        (Some(offset), Some(duration)) => {
            let scaled = match duration.checked_mul(95) {
                Some(p) => p,
                None => u64::MAX,
            };
            duration > 0 && offset >= 60_000 && offset < scaled / 100
        },
        _ => false,
    }
}


/// `a` ranks at or before `b` when ordering by last-viewed time, newest
/// first: a known time before none, later times before earlier ones.
pub open spec fn viewed_no_earlier(a: Option<i64>, b: Option<i64>) -> bool {
    match (a, b) {
        (_, None) => true,
        (None, Some(_)) => false,
        (Some(x), Some(y)) => x >= y,
    }
}

/// `items` is ordered newest first by last-viewed time.
pub open spec fn newest_first(items: Seq<MediaItem>) -> bool {
    forall|a: int, b: int|
        0 <= a < b < items.len() ==> viewed_no_earlier(
            #[trigger] items[a].last_viewed_at,
            #[trigger] items[b].last_viewed_at,
        )
}

/// Selects the entries last viewed at `v`.
pub open spec fn viewed_at_time(v: Option<i64>) -> spec_fn(MediaItem) -> bool {
    |item: MediaItem| item.last_viewed_at == v
}

/// `r` is `items` sorted newest first, stably: the same entries, and the
/// entries with equal last-viewed times in their original order.
pub open spec fn is_stable_newest_first(items: Seq<MediaItem>, r: Seq<MediaItem>) -> bool {
    &&& newest_first(r)
    &&& r.to_multiset() == items.to_multiset()
    &&& forall|v: Option<i64>| #[trigger] r.filter(viewed_at_time(v)) == items.filter(viewed_at_time(v))
}

fn no_earlier(a: Option<i64>, b: Option<i64>) -> (r: bool)
    ensures
        r == viewed_no_earlier(a, b),
{
    match (a, b) {
        (_, None) => true,
        (None, Some(_)) => false,
        (Some(x), Some(y)) => x >= y,
    }
}

/// `items` sorted newest first by last-viewed time, keeping the order of
/// entries viewed at the same time.
pub fn sort_newest_first(items: Vec<MediaItem>) -> (r: Vec<MediaItem>)
    ensures
        is_stable_newest_first(items@, r@),
{
    let mut out: Vec<MediaItem> = Vec::new();
    let n = items.len();
    let mut i: usize = 0;
    assert(items@.take(0) =~= Seq::<MediaItem>::empty());
    while i < n
        invariant
            n == items@.len(),
            i <= n,
            newest_first(out@),
            out@.to_multiset() == items@.take(i as int).to_multiset(),
            forall|v: Option<i64>|
                #[trigger] out@.filter(viewed_at_time(v)) == items@.take(i as int).filter(
                    viewed_at_time(v),
                ),
        decreases n - i,
    {
        let x = items[i].clone();
        let mut p: usize = 0;
        while p < out.len() && no_earlier(out[p].last_viewed_at, x.last_viewed_at)
            invariant
                p <= out@.len(),
                forall|q: int| 0 <= q < p ==> viewed_no_earlier(#[trigger] out@[q].last_viewed_at, x.last_viewed_at),
            decreases out@.len() - p,
        {
            p += 1;
        }
        let ghost before = out@;
        proof {
            assert forall|q: int| p <= q < before.len() implies !viewed_no_earlier(
                #[trigger] before[q].last_viewed_at,
                x.last_viewed_at,
            ) by {
                assert(viewed_no_earlier(before[p as int].last_viewed_at, before[q].last_viewed_at) || q == p);
            }
        }
        out.insert(p, x);
        proof {
            vstd::seq_lib::to_multiset_insert(before, p as int, x);
            items@.take(i as int).to_multiset_ensures();
            assert(out@ == before.insert(p as int, x));
            let a = before.subrange(0, p as int);
            let b = before.subrange(p as int, before.len() as int);
            assert(before =~= a + b);
            assert(out@ =~= a.push(x) + b);
            assert(items@.take(i + 1) =~= items@.take(i as int).push(x));
            assert forall|v: Option<i64>|
                #[trigger] out@.filter(viewed_at_time(v)) == items@.take(i + 1).filter(
                    viewed_at_time(v),
                ) by {
                let f = viewed_at_time(v);
                Seq::filter_distributes_over_add(a, b, f);
                Seq::filter_distributes_over_add(a.push(x), b, f);
                a.lemma_filter_push(x, f);
                items@.take(i as int).lemma_filter_push(x, f);
                if x.last_viewed_at == v {
                    assert(b.all(|y: MediaItem| !f(y))) by {
                        assert forall|k: int| 0 <= k < b.len() implies !f(#[trigger] b[k]) by {
                            assert(b[k] == before[p + k]);
                        }
                    }
                    b.lemma_all_neg_filter_empty(f);
                    assert(b.filter(f) =~= Seq::<MediaItem>::empty());
                }
            }
            assert forall|c: int, d: int| 0 <= c < d < out@.len() implies viewed_no_earlier(
                #[trigger] out@[c].last_viewed_at,
                #[trigger] out@[d].last_viewed_at,
            ) by {
                if c < p && d == p {
                } else if c < p && d > p {
                    assert(out@[d] == before[d - 1]);
                } else if c == p && d > p {
                    assert(out@[d] == before[d - 1]);
                } else if c > p {
                    assert(out@[d] == before[d - 1]);
                    assert(out@[c] == before[c - 1]);
                }
            }
        }
        i += 1;
    }
    assert(items@.take(n as int) =~= items@);
    out
}


/// `item` with the last-viewed time that `history` gives for it, where it
/// gives one.
pub open spec fn stamped(item: MediaItem, history: Seq<HistoryVideoNode>) -> MediaItem {
    match first_viewed_at(history, item.rating_key@) {
        Some(v) => MediaItem { last_viewed_at: Some(v), ..item },
        None => item,
    }
}

/// The continue-watching list `base` extended by the `fetched` movies, in
/// order, each stamped with its history time, where it is a continue
/// candidate and its rating key is not on the list yet.
pub open spec fn merged_items(
    base: Seq<MediaItem>,
    history: Seq<HistoryVideoNode>,
    fetched: Seq<MediaItem>,
) -> Seq<MediaItem>
    decreases fetched.len(),
{
    if fetched.len() == 0 {
        base
    } else {
        let prev = merged_items(base, history, fetched.drop_last());
        let item = stamped(fetched.last(), history);
        if continue_candidate(item) && !has_rating_key(prev, item.rating_key@) {
            prev.push(item)
        } else {
            prev
        }
    }
}

/// The enhanced continue-watching page: Plex's own continue-watching list
/// `items`, then the partly watched movies among `fetched` (looked up from the
/// playback history) that it lacks, all sorted newest first by last-viewed
/// time; the page starts at zero and its total is its length.
pub fn merge_continue_watching(
    items: Vec<MediaItem>,
    viewed: &ViewedAtMap,
    fetched: Vec<MediaItem>,
) -> (r: MoviePage)
    ensures
        is_stable_newest_first(merged_items(items@, viewed.history(), fetched@), r.items@),
        distinct_rating_keys(items@) ==> distinct_rating_keys(r.items@),
        r.start == 0,
        r.total_size == r.items@.len(),
{
    let mut list = items;
    let ghost base = list@;
    let mut i: usize = 0;
    assert(fetched@.take(0) =~= Seq::<MediaItem>::empty());
    while i < fetched.len()
        invariant
            i <= fetched@.len(),
            list@ == merged_items(base, viewed.history(), fetched@.take(i as int)),
        decreases fetched@.len() - i,
    {
        assert(fetched@.take(i + 1).drop_last() =~= fetched@.take(i as int));
        let mut item = fetched[i].clone();
        match viewed.get(&item.rating_key) {
            Some(v) => {
                item.last_viewed_at = Some(v);
            },
            None => {},
        }
        assert(item == stamped(fetched@[i as int], viewed.history()));
        if is_continue_candidate(&item) && !holds_rating_key(&list, &item.rating_key) {
            list.push(item);
        }
        i += 1;
    }
    assert(fetched@.take(fetched@.len() as int) =~= fetched@);
    let sorted = sort_newest_first(list);
    proof {
        lemma_merged_extends_base(base, viewed.history(), fetched@);
        if distinct_rating_keys(base) {
            lemma_reordering_keeps_keys_distinct(list@, sorted@);
        }
    }
    let total_size = sorted.len();
    MoviePage { items: sorted, start: 0, total_size }
}

/// The rating keys separated by commas.
pub open spec fn comma_joined(keys: Seq<String>) -> Seq<char>
    decreases keys.len(),
{
    if keys.len() == 0 {
        Seq::empty()
    } else if keys.len() == 1 {
        keys[0]@
    } else {
        comma_joined(keys.drop_last()) + ","@ + keys.last()@
    }
}

/// The metadata path that looks up the movies with these rating keys at once.
pub open spec fn metadata_path(keys: Seq<String>) -> Seq<char> {
    "/library/metadata/"@ + comma_joined(keys)
}

/// How many rating keys one metadata request asks for at most.
pub const METADATA_BATCH: usize = 50;

/// The metadata paths that look up `keys`, fifty at a time, in order.
pub fn metadata_paths(keys: &[String]) -> (r: Vec<String>)
    ensures
        r@.len() == (keys@.len() + 49) / 50,
        forall|c: int|
            0 <= c < r@.len() ==> #[trigger] r@[c]@ == metadata_path(
                keys@.subrange(50 * c, if 50 * c + 50 <= keys@.len() { 50 * c + 50 } else { keys@.len() as int }),
            ),
{
    let n = keys.len();
    let mut r: Vec<String> = Vec::new();
    let mut start: usize = 0;
    while start < n
        invariant
            n == keys@.len(),
            start <= n,
            start < n ==> start == 50 * r@.len(),
            start == n ==> r@.len() == (n + 49) / 50,
            forall|c: int|
                0 <= c < r@.len() ==> #[trigger] r@[c]@ == metadata_path(
                    keys@.subrange(50 * c, if 50 * c + 50 <= keys@.len() { 50 * c + 50 } else { keys@.len() as int }),
                ),
        decreases n - start,
    {
        let ghost c = r@.len();
        let end = if n - start >= METADATA_BATCH { start + METADATA_BATCH } else { n };
        let mut path = String::from_str("/library/metadata/");
        let mut k: usize = start;
        while k < end
            invariant
                start < end <= n,
                n == keys@.len(),
                start <= k <= end,
                path@ == metadata_path(keys@.subrange(start as int, k as int)),
            decreases end - k,
        {
            let ghost prev = keys@.subrange(start as int, k as int);
            assert(keys@.subrange(start as int, k + 1).drop_last() =~= prev);
            if k > start {
                path.append(",");
            }
            path.append(keys[k].as_str());
            assert(path@ =~= metadata_path(keys@.subrange(start as int, k + 1)));
            k += 1;
        }
        r.push(path);
        proof {
            if end == n {
                assert((n + 49) / 50 == c + 1) by (nonlinear_arith)
                    requires
                        50 * c < n,
                        n <= 50 * c + 50,
                ;
            }
        }
        start = end;
    }
    r
}


/// Why a Plex URL could not be built.
#[derive(Debug)]
pub enum PlexError {
    /// The server address or the path is not a valid URL (the kind of error
    /// the `url` crate reported), or the URL would put the start of its query
    /// or fragment past the 4 GiB the `url` crate stores offsets for
    /// (`Overflow`).
    Url(UrlErrorKind),
}

/// The texts of a list of query pairs.
pub open spec fn pair_views(params: Seq<(&str, &str)>) -> Seq<(Seq<char>, Seq<char>)> {
    params.map_values(|p: (&str, &str)| (p.0@, p.1@))
}

/// The URL serialized as `url` with the query pairs appended in order.
pub open spec fn with_query_pairs(url: Seq<char>, pairs: Seq<(Seq<char>, Seq<char>)>) -> Seq<char>
    decreases pairs.len(),
{
    if pairs.len() == 0 {
        url
    } else {
        url_with_pair(with_query_pairs(url, pairs.drop_last()), pairs.last().0, pairs.last().1)
    }
}

/// Each pair fits onto the URL that the pairs before it produce.
pub open spec fn pairs_fit(url: Seq<char>, pairs: Seq<(Seq<char>, Seq<char>)>) -> bool
    decreases pairs.len(),
{
    if pairs.len() == 0 {
        true
    } else {
        pairs_fit(url, pairs.drop_last()) && pair_fits(
            with_query_pairs(url, pairs.drop_last()),
            pairs.last().0,
            pairs.last().1,
        )
    }
}

/// Where a request path leads: an absolute `http://` or `https://` address
/// is parsed on its own, anything else is resolved against the server URL.
pub open spec fn target_url(base: Seq<char>, path: Seq<char>) -> Result<Seq<char>, UrlErrorKind> {
    if has_prefix(path, "http://"@) || has_prefix(path, "https://"@) {
        parsed_url(path)
    } else {
        joined_url(base, path)
    }
}

/// The query pairs of a request: the given ones, then the token.
pub open spec fn request_pairs(token: Seq<char>, params: Seq<(Seq<char>, Seq<char>)>) -> Seq<
    (Seq<char>, Seq<char>),
> {
    params.push(("X-Plex-Token"@, token))
}

/// The serialized URL of a request to the server `server` for `path` with
/// the query pairs `params` and then `X-Plex-Token=token`; the `url` crate's
/// error where the server address or the path does not parse, and `Overflow`
/// where appending a pair would put the start of the query or of the
/// fragment past `u32::MAX` bytes, where the `url` crate panics.
pub open spec fn plex_url(
    server: Seq<char>,
    token: Seq<char>,
    path: Seq<char>,
    params: Seq<(Seq<char>, Seq<char>)>,
) -> Result<Seq<char>, UrlErrorKind> {
    match parsed_url(server) {
        Ok(base) => match target_url(base, path) {
            Ok(t) => if pairs_fit(t, request_pairs(token, params)) {
                Ok(with_query_pairs(t, request_pairs(token, params)))
            } else {
                Err(UrlErrorKind::Overflow)
            },
            Err(e) => Err(e),
        },
        Err(e) => Err(e),
    }
}

/// The serialized URL of the server-side transcode of the image at
/// `thumb_path` to `width` by `height` pixels: the request URL of the image
/// itself goes into the transcode request's `url` pair.
pub open spec fn thumbnail_url(
    server: Seq<char>,
    token: Seq<char>,
    thumb_path: Seq<char>,
    width: u32,
    height: u32,
) -> Result<Seq<char>, UrlErrorKind> {
    match plex_url(server, token, thumb_path, Seq::empty()) {
        Ok(image) => plex_url(server, token, "/photo/:/transcode"@, transcode_pairs(width, height, image)),
        Err(e) => Err(e),
    }
}

/// A successful outcome with the text `t`.
pub open spec fn ok_text(t: Seq<char>) -> Result<Seq<char>, UrlErrorKind> {
    Ok(t)
}

/// What a URL builder's result says: the URL's serialization, or the kind of
/// URL error.
pub open spec fn url_outcome(r: Result<Url, PlexError>) -> Result<Seq<char>, UrlErrorKind> {
    match r {
        Ok(u) => Ok(url_text(u)),
        Err(PlexError::Url(e)) => Err(e),
    }
}

/// What a URL text builder's result says: the text, or the kind of URL
/// error.
pub open spec fn text_outcome(r: Result<String, PlexError>) -> Result<Seq<char>, UrlErrorKind> {
    match r {
        Ok(t) => Ok(t@),
        Err(PlexError::Url(e)) => Err(e),
    }
}

/// The query pairs of a thumbnail transcode request for the image at the
/// serialized URL `image`.
pub open spec fn transcode_pairs(width: u32, height: u32, image: Seq<char>) -> Seq<(Seq<char>, Seq<char>)> {
    seq![
        ("width"@, decimal(width as nat)),
        ("height"@, decimal(height as nat)),
        ("minSize"@, "1"@),
        ("upscale"@, "0"@),
        ("url"@, image),
    ]
}

/// The path of a library section's movie listing.
pub open spec fn section_listing_path(section_id: Seq<char>) -> Seq<char> {
    "/library/sections/"@ + section_id + "/all"@
}

/// The query pairs asking for `size` movies from position `start` on.
pub open spec fn page_pairs(start: usize, size: usize) -> Seq<(Seq<char>, Seq<char>)> {
    seq![
        ("type"@, "1"@),
        ("X-Plex-Container-Start"@, decimal(start as nat)),
        ("X-Plex-Container-Size"@, decimal(size as nat)),
    ]
}

/// The query pairs asking for the newest `size` history entries.
pub open spec fn history_pairs(size: usize) -> Seq<(Seq<char>, Seq<char>)> {
    seq![
        ("sort"@, "viewedAt:desc"@),
        ("X-Plex-Container-Start"@, "0"@),
        ("X-Plex-Container-Size"@, decimal(size as nat)),
    ]
}

/// The address and the token of a Plex server; every URL built from it
/// carries the token.
pub struct PlexClient {
    server_url: String,
    token: String,
}

impl PlexClient {
    /// The normalized server address.
    pub closed spec fn server(self) -> Seq<char> {
        self.server_url@
    }

    /// The trimmed token.
    pub closed spec fn token_text(self) -> Seq<char> {
        self.token@
    }

    /// A client for the server at `server_url` (surrounding white space and
    /// trailing slashes removed) with the token `token` (trimmed).
    pub fn new(server_url: &str, token: &str) -> (c: Self)
        ensures
            c.server() == normalized_server_url(server_url@),
            c.token_text() == trimmed(token@),
    {
        PlexClient {
            server_url: trim_trailing_slashes(trim(server_url)).to_owned(),
            token: trim(token).to_owned(),
        }
    }

    /// The URL of a request for `path` with the query pairs `params`, the
    /// token appended last.
    pub fn absolute_url(&self, path: &str, params: &[(&str, &str)]) -> (r: Result<Url, PlexError>)
        ensures
            url_outcome(r) == plex_url(self.server(), self.token_text(), path@, pair_views(params@)),
    {
        let base = match parse_url(self.server_url.as_str()) {
            Ok(b) => b,
            Err(e) => return Err(PlexError::Url(e)),
        };
        let target = if starts_with(path, "http://") || starts_with(path, "https://") {
            parse_url(path)
        } else {
            join_url(&base, path)
        };
        let mut url = match target {
            Ok(u) => u,
            Err(e) => return Err(PlexError::Url(e)),
        };
        let ghost t = url_text(url);
        assert(target_url(url_text(base), path@) == ok_text(t));
        let ghost pairs = request_pairs(self.token_text(), pair_views(params@));
        let n = params.len();
        let mut i: usize = 0;
        assert(pairs.take(0) =~= Seq::<(Seq<char>, Seq<char>)>::empty());
        while i < n
            invariant
                n == params@.len(),
                i <= n,
                pairs == request_pairs(self.token_text(), pair_views(params@)),
                pairs.len() == n + 1,
                pairs_fit(t, pairs.take(i as int)),
                url_text(url) == with_query_pairs(t, pairs.take(i as int)),
                parsed_url(self.server()) == ok_text(url_text(base)),
                target_url(url_text(base), path@) == ok_text(t),
            decreases n - i,
        {
            assert(pairs[i as int] == (params@[i as int].0@, params@[i as int].1@));
            assert(pairs.take(i + 1).drop_last() =~= pairs.take(i as int));
            if !try_append(&mut url, params[i].0, params[i].1) {
                proof {
                    assert(pairs.take(i + 1).last() == pairs[i as int]);
                    assert(!pairs_fit(t, pairs.take(i + 1)));
                    lemma_pairs_fit_prefix(t, pairs, i + 1);
                }
                return Err(PlexError::Url(UrlErrorKind::Overflow));
            }
            i += 1;
        }
        assert(pairs[n as int] == ("X-Plex-Token"@, self.token_text()));
        assert(pairs.take(n + 1).drop_last() =~= pairs.take(n as int));
        assert(pairs.take(n + 1) =~= pairs);
        if !try_append(&mut url, "X-Plex-Token", self.token.as_str()) {
            return Err(PlexError::Url(UrlErrorKind::Overflow));
        }
        Ok(url)
    }

    /// The URL from which a player streams the media part `part_key`.
    pub fn build_stream_url(&self, part_key: &str) -> (r: Result<String, PlexError>)
        ensures
            text_outcome(r) == plex_url(self.server(), self.token_text(), part_key@, seq![("download"@, "1"@)]),
    {
        let params = vec![("download", "1")];
        proof {
            assert(pair_views(params@) =~= seq![("download"@, "1"@)]);
        }
        match self.absolute_url(part_key, params.as_slice()) {
            Ok(u) => Ok(url_to_string(&u)),
            Err(e) => Err(e),
        }
    }

    /// The URL of the server-side transcode of the image at `thumb_path` to
    /// `width` by `height` pixels.
    pub fn build_thumbnail_url(&self, thumb_path: &str, width: u32, height: u32) -> (r: Result<String, PlexError>)
        ensures
            text_outcome(r) == thumbnail_url(self.server(), self.token_text(), thumb_path@, width, height),
    {
        let none: Vec<(&str, &str)> = Vec::new();
        proof {
            assert(pair_views(none@) =~= Seq::empty());
        }
        let image = match self.absolute_url(thumb_path, none.as_slice()) {
            Ok(u) => url_to_string(&u),
            Err(e) => return Err(e),
        };
        let w = decimal_string(width as u64);
        let h = decimal_string(height as u64);
        let params = vec![
            ("width", w.as_str()),
            ("height", h.as_str()),
            ("minSize", "1"),
            ("upscale", "0"),
            ("url", image.as_str()),
        ];
        proof {
            assert(pair_views(params@) =~= transcode_pairs(width, height, image@));
        }
        match self.absolute_url("/photo/:/transcode", params.as_slice()) {
            Ok(u) => Ok(url_to_string(&u)),
            Err(e) => Err(e),
        }
    }
}

impl PlexClient {
    /// The URL that lists the library sections.
    pub fn sections_url(&self) -> (r: Result<Url, PlexError>)
        ensures
            url_outcome(r) == plex_url(self.server(), self.token_text(), "/library/sections"@, Seq::empty()),
    {
        let none: Vec<(&str, &str)> = Vec::new();
        proof {
            assert(pair_views(none@) =~= Seq::empty());
        }
        self.absolute_url("/library/sections", none.as_slice())
    }

    /// The URL that lists `size` movies of section `section_id` from
    /// position `start` on.
    pub fn movies_page_url(&self, section_id: &str, start: usize, size: usize) -> (r: Result<Url, PlexError>)
        ensures
            url_outcome(r) == plex_url(self.server(), self.token_text(), section_listing_path(section_id@), page_pairs(start, size)),
    {
        let mut path = String::from_str("/library/sections/");
        path.append(section_id);
        path.append("/all");
        let start_text = decimal_string(start as u64);
        let size_text = decimal_string(size as u64);
        let params = vec![
            ("type", "1"),
            ("X-Plex-Container-Start", start_text.as_str()),
            ("X-Plex-Container-Size", size_text.as_str()),
        ];
        proof {
            assert(path@ =~= section_listing_path(section_id@));
            assert(pair_views(params@) =~= page_pairs(start, size));
        }
        self.absolute_url(path.as_str(), params.as_slice())
    }

    /// The URL of the continue-watching hub, asking for up to `count` entries.
    pub fn continue_watching_url(&self, count: usize) -> (r: Result<Url, PlexError>)
        ensures
            url_outcome(r) == plex_url(self.server(), self.token_text(), "/hubs/continueWatching"@, seq![("count"@, decimal(count as nat))]),
    {
        let count_text = decimal_string(count as u64);
        let params = vec![("count", count_text.as_str())];
        proof {
            assert(pair_views(params@) =~= seq![("count"@, decimal(count as nat))]);
        }
        self.absolute_url("/hubs/continueWatching", params.as_slice())
    }

    /// The URL of the newest `size` entries of the playback history.
    pub fn playback_history_url(&self, size: usize) -> (r: Result<Url, PlexError>)
        ensures
            url_outcome(r) == plex_url(self.server(), self.token_text(), "/status/sessions/history/all"@, history_pairs(size)),
    {
        let size_text = decimal_string(size as u64);
        let params = vec![
            ("sort", "viewedAt:desc"),
            ("X-Plex-Container-Start", "0"),
            ("X-Plex-Container-Size", size_text.as_str()),
        ];
        proof {
            assert(pair_views(params@) =~= history_pairs(size));
        }
        self.absolute_url("/status/sessions/history/all", params.as_slice())
    }
}

/// Appends the pair where it fits; reports whether it did.
fn try_append(url: &mut Url, name: &str, value: &str) -> (ok: bool)
    ensures
        ok == pair_fits(url_text(*old(url)), name@, value@),
        ok ==> url_text(*final(url)) == url_with_pair(url_text(*old(url)), name@, value@),
        !ok ==> *final(url) == *old(url),
{
    let current = url_to_string(url);
    if !pair_fits_check(current.as_str(), name, value) {
        return false;
    }
    append_query_pair(url, name, value);
    true
}

proof fn lemma_pairs_fit_prefix(url: Seq<char>, pairs: Seq<(Seq<char>, Seq<char>)>, k: int)
    requires
        0 <= k <= pairs.len(),
        !pairs_fit(url, pairs.take(k)),
    ensures
        !pairs_fit(url, pairs),
    decreases pairs.len() - k,
{
    if k < pairs.len() {
        assert(pairs.take(k + 1).drop_last() =~= pairs.take(k));
        lemma_pairs_fit_prefix(url, pairs, k + 1);
    } else {
        assert(pairs.take(k) =~= pairs);
    }
}


/// No two entries share a rating key.
pub open spec fn distinct_rating_keys(items: Seq<MediaItem>) -> bool {
    forall|a: int, b: int|
        0 <= a < b < items.len() ==> #[trigger] items[a].rating_key@ != #[trigger] items[b].rating_key@
}

/// No two texts are equal.
pub open spec fn distinct_texts(keys: Seq<String>) -> bool {
    forall|a: int, b: int| 0 <= a < b < keys.len() ==> #[trigger] keys[a]@ != #[trigger] keys[b]@
}

/// Keeping the first entry of each rating key leaves every rating key once.
pub proof fn lemma_first_of_each_key_distinct(items: Seq<MediaItem>)
    ensures
        distinct_rating_keys(first_of_each_key(items)),
    decreases items.len(),
{
    if items.len() > 0 {
        lemma_first_of_each_key_distinct(items.drop_last());
    }
}

/// The continue-watching list names each movie once.
pub proof fn lemma_continue_watching_distinct(hubs: Seq<HubNode>)
    ensures
        distinct_rating_keys(first_of_each_key(media_items_of(continue_videos(hubs)))),
{
    lemma_first_of_each_key_distinct(media_items_of(continue_videos(hubs)));
}

/// The history keys to look up are distinct, none of them is in `seen`, and
/// each belongs to a movie entry of the history.
pub proof fn lemma_history_keys_new_and_distinct(history: Seq<HistoryVideoNode>, seen: Seq<String>)
    ensures
        distinct_texts(history_rating_keys(history, seen)),
        forall|i: int|
            0 <= i < history_rating_keys(history, seen).len() ==> !among(
                seen,
                #[trigger] history_rating_keys(history, seen)[i]@,
            ),
        forall|i: int|
            0 <= i < history_rating_keys(history, seen).len() ==> exists|j: int|
                0 <= j < history.len() && is_movie_kind(history[j].kind) && history[j].rating_key
                    == Some(#[trigger] history_rating_keys(history, seen)[i]),
    decreases history.len(),
{
    if history.len() > 0 {
        let prev = history.drop_last();
        lemma_history_keys_new_and_distinct(prev, seen);
        let r = history_rating_keys(history, seen);
        let p = history_rating_keys(prev, seen);
        assert forall|i: int| 0 <= i < r.len() implies exists|j: int|
            0 <= j < history.len() && is_movie_kind(history[j].kind) && history[j].rating_key
                == Some(#[trigger] r[i]) by {
            if i < p.len() {
                assert(r[i] == p[i]);
                let j = choose|j: int|
                    0 <= j < prev.len() && is_movie_kind(prev[j].kind) && prev[j].rating_key
                        == Some(p[i]);
                assert(history[j] == prev[j]);
            } else {
                assert(history[history.len() - 1] == history.last());
            }
        }
    }
}

/// Merging keeps Plex's own list in front, and names each movie once where
/// that list does.
pub proof fn lemma_merged_extends_base(
    base: Seq<MediaItem>,
    history: Seq<HistoryVideoNode>,
    fetched: Seq<MediaItem>,
)
    ensures
        merged_items(base, history, fetched).len() >= base.len(),
        merged_items(base, history, fetched).take(base.len() as int) == base,
        distinct_rating_keys(base) ==> distinct_rating_keys(merged_items(base, history, fetched)),
    decreases fetched.len(),
{
    if fetched.len() > 0 {
        lemma_merged_extends_base(base, history, fetched.drop_last());
        let p = merged_items(base, history, fetched.drop_last());
        let m = merged_items(base, history, fetched);
        assert(m.take(base.len() as int) =~= p.take(base.len() as int));
    } else {
        assert(base.take(base.len() as int) =~= base);
    }
}

/// Every URL built for a request ends its query with the token: it is the
/// target URL with the request's own pairs and then `X-Plex-Token`.
pub proof fn lemma_token_comes_last(
    server: Seq<char>,
    token: Seq<char>,
    path: Seq<char>,
    params: Seq<(Seq<char>, Seq<char>)>,
)
    ensures
        plex_url(server, token, path, params) is Ok ==> exists|t: Seq<char>|
            plex_url(server, token, path, params) == ok_text(
                url_with_pair(#[trigger] with_query_pairs(t, params), "X-Plex-Token"@, token),
            ),
{
    if plex_url(server, token, path, params) is Ok {
        let t = target_url(parsed_url(server)->Ok_0, path)->Ok_0;
        let pairs = request_pairs(token, params);
        assert(pairs.drop_last() =~= params);
        assert(plex_url(server, token, path, params) == ok_text(
            url_with_pair(with_query_pairs(t, params), "X-Plex-Token"@, token),
        ));
    }
}

/// Reordering keeps rating keys distinct: a sequence with the same entries
/// as one whose rating keys are distinct has distinct rating keys too.
pub proof fn lemma_reordering_keeps_keys_distinct(a: Seq<MediaItem>, b: Seq<MediaItem>)
    requires
        distinct_rating_keys(a),
        a.to_multiset() == b.to_multiset(),
    ensures
        distinct_rating_keys(b),
{
    broadcast use vstd::seq_lib::group_to_multiset_ensures;

    assert(a.no_duplicates()) by {
        assert forall|i: int, j: int| 0 <= i < a.len() && 0 <= j < a.len() && i != j implies a[i]
            != a[j] by {
            if i < j {
                assert(a[i].rating_key@ != a[j].rating_key@);
            } else {
                assert(a[j].rating_key@ != a[i].rating_key@);
            }
        }
    }
    a.lemma_multiset_has_no_duplicates();
    b.lemma_multiset_has_no_duplicates_conv();
    assert forall|i: int, j: int| 0 <= i < j < b.len() implies #[trigger] b[i].rating_key@
        != #[trigger] b[j].rating_key@ by {
        assert(b.contains(b[i]));
        assert(b.contains(b[j]));
        assert(b.to_multiset().count(b[i]) > 0);
        assert(b.to_multiset().count(b[j]) > 0);
        assert(a.to_multiset().count(b[i]) > 0);
        assert(a.to_multiset().count(b[j]) > 0);
        assert(a.contains(b[i]));
        assert(a.contains(b[j]));
        let p = choose|p: int| 0 <= p < a.len() && a[p] == b[i];
        let q = choose|q: int| 0 <= q < a.len() && a[q] == b[j];
        assert(p != q);
        if p < q {
            assert(a[p].rating_key@ != a[q].rating_key@);
        } else {
            assert(a[q].rating_key@ != a[p].rating_key@);
        }
    }
}

/// Two clients agree when one is built from the other's settings: the
/// normalized address of `server` (where it has no surrounding white space
/// left) and the trimmed `token` normalize to themselves, so every request
/// URL and every thumbnail URL of the one is that of the other, and where
/// one fails the other fails with the same kind of URL error.
pub proof fn lemma_renormalized_client_agrees(
    server: Seq<char>,
    token: Seq<char>,
    path: Seq<char>,
    params: Seq<(Seq<char>, Seq<char>)>,
    width: u32,
    height: u32,
)
    requires
        trimmed(normalized_server_url(server)) == normalized_server_url(server),
    ensures
        normalized_server_url(normalized_server_url(server)) == normalized_server_url(server),
        trimmed(trimmed(token)) == trimmed(token),
        plex_url(
            normalized_server_url(normalized_server_url(server)),
            trimmed(trimmed(token)),
            path,
            params,
        ) == plex_url(normalized_server_url(server), trimmed(token), path, params),
        thumbnail_url(
            normalized_server_url(normalized_server_url(server)),
            trimmed(trimmed(token)),
            path,
            width,
            height,
        ) == thumbnail_url(normalized_server_url(server), trimmed(token), path, width, height),
{
    lemma_without_trailing_slashes_idempotent(trimmed(server));
    lemma_trimmed_idempotent(token);
}
} // verus!
