//! The plain records that the library hands around: library sections, movie
//! entries and pages of them.
use vstd::prelude::*;

verus! {

/// A Plex library section (only movie sections are used).
#[derive(Debug, Default)]
pub struct LibrarySection {
    pub id: String,
    pub title: String,
}

impl Clone for LibrarySection {
    fn clone(&self) -> (r: Self)
        ensures
            r == *self,
    {
        LibrarySection { id: self.id.clone(), title: self.title.clone() }
    }
}

/// The fields of one movie that the poster wall and the player use.
#[derive(Debug, Default)]
pub struct MediaItem {
    pub rating_key: String,
    pub title: String,
    pub year: Option<i32>,
    pub summary: Option<String>,
    pub thumb: Option<String>,
    pub library_section_title: Option<String>,
    pub duration: Option<u64>,
    pub view_offset: Option<u64>,
    pub last_viewed_at: Option<i64>,
    /// API path of the first playable part, used to build the stream URL.
    pub part_key: Option<String>,
}

impl Clone for MediaItem {
    fn clone(&self) -> (r: Self)
        ensures
            r == *self,
    {
        MediaItem {
            rating_key: self.rating_key.clone(),
            title: self.title.clone(),
            year: self.year,
            summary: copy_text(&self.summary),
            thumb: copy_text(&self.thumb),
            library_section_title: copy_text(&self.library_section_title),
            duration: self.duration,
            view_offset: self.view_offset,
            last_viewed_at: self.last_viewed_at,
            part_key: copy_text(&self.part_key),
        }
    }
}

/// A copy of an optional text.
pub fn copy_text(t: &Option<String>) -> (r: Option<String>)
    ensures
        r == *t,
{
    match t {
        Some(s) => Some(s.clone()),
        None => None,
    }
}

/// One page of movies and the total count that Plex reported, for paging.
#[derive(Clone, Debug, Default)]
pub struct MoviePage {
    pub items: Vec<MediaItem>,
    pub start: usize,
    pub total_size: usize,
}

} // verus!
