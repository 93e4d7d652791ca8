//! The launcher's state between user actions and background results: which
//! libraries and movies are loaded, what is being loaded, and what the status
//! line says. Each action or result is a transition that may hand back a
//! request for the background worker.
use vstd::prelude::*;

use crate::config::{normalized_server_url, AppConfig};
use crate::plex::{plex_url, text_outcome, PlexClient, PlexError};
use crate::models::{LibrarySection, MediaItem, MoviePage};
use crate::text::{decimal, decimal_string, same_text, trim, trimmed};

verus! {

/// How many movies one library page holds.
pub const PAGE_SIZE: usize = 60;

/// How many continue-watching entries are asked of Plex.
pub const CONTINUE_WATCHING_COUNT: usize = 200;

/// How many playback-history entries are searched for more of them.
pub const CONTINUE_WATCHING_HISTORY_SIZE: usize = 400;

/// What the poster wall shows.
#[derive(Clone, Copy, Debug, PartialEq, Eq, Structural)]
pub enum BrowseMode {
    /// The movies of the chosen library, page by page.
    Library,
    /// Recently watched and partly watched movies.
    ContinueWatching,
}

/// Work for the background worker.
#[derive(Debug)]
pub enum WorkerCommand {
    /// List the movie libraries.
    LoadSections(AppConfig),
    /// Load one page of a library.
    LoadMovies { config: AppConfig, section_id: String, start: usize, size: usize },
    /// Load the continue-watching list.
    LoadContinueWatching(AppConfig),
}

/// What a transition asks of the caller: whether the loaded posters belong
/// to a list that was just emptied, whether the configuration changed and is
/// to be saved, and what to hand to the worker.
#[derive(Debug)]
pub struct Refresh {
    pub clear_posters: bool,
    pub save_config: bool,
    pub command: Option<WorkerCommand>,
}

/// The launcher's state.
#[derive(Debug)]
pub struct LauncherState {
    pub config: AppConfig,
    pub libraries: Vec<LibrarySection>,
    pub items: Vec<MediaItem>,
    pub search_text: String,
    pub selected_item_key: Option<String>,
    pub status_text: String,
    pub error_text: Option<String>,
    pub is_loading_sections: bool,
    pub is_loading_movies: bool,
    pub next_start: usize,
    pub total_size: usize,
    pub browse_mode: BrowseMode,
}

/// A text that holds nothing but white space.
pub open spec fn blank(s: Seq<char>) -> bool {
    trimmed(s).len() == 0
}

/// `s` holds the message `text`.
pub open spec fn says(s: Option<String>, text: Seq<char>) -> bool {
    s matches Some(m) && m@ == text
}

/// The status line while the page after `next_start` movies loads.
pub open spec fn loading_page_text(next_start: usize) -> Seq<char> {
    "Loading page "@ + decimal((next_start / PAGE_SIZE + 1) as nat) + "..."@
}

/// The status line once `n` libraries are listed.
pub open spec fn libraries_loaded_text(n: nat) -> Seq<char> {
    "Loaded "@ + decimal(n) + " movie libraries."@
}

/// The status line once `n` movies of the `total` that Plex reported are
/// loaded; the total shown is never below `n`.
pub open spec fn movies_loaded_text(mode: BrowseMode, n: nat, total: nat) -> Seq<char> {
    match mode {
        BrowseMode::Library => "Loaded "@ + decimal(n) + "/"@ + decimal(if total >= n { total } else { n })
            + " movies."@,
        BrowseMode::ContinueWatching => "Loaded "@ + decimal(n) + " recent / continue items."@,
    }
}

/// Nothing is listed: no movies, none selected, paging at the start.
pub open spec fn listing_reset(s: LauncherState) -> bool {
    &&& s.items@.len() == 0
    &&& s.selected_item_key is None
    &&& s.next_start == 0
    &&& s.total_size == 0
}

/// A reset listing holds no movies, selects none, and pages from the start
/// with no total known.
pub proof fn law_reset_listing_is_empty(s: LauncherState)
    requires
        listing_reset(s),
    ensures
        s.items@.len() == 0,
        s.selected_item_key is None,
        s.next_start == 0,
        s.total_size == 0,
{
}

/// `b` holds what `a` holds apart from the loading flags and the messages:
/// configuration, libraries, movies, search, selection, paging and mode.
pub open spec fn same_content(a: LauncherState, b: LauncherState) -> bool {
    &&& b.config == a.config
    &&& b.libraries == a.libraries
    &&& b.items == a.items
    &&& b.search_text == a.search_text
    &&& b.selected_item_key == a.selected_item_key
    &&& b.next_start == a.next_start
    &&& b.total_size == a.total_size
    &&& b.browse_mode == a.browse_mode
}

/// `b` holds what `a` holds, loading flags included; only the messages may
/// differ.
pub open spec fn same_listing(a: LauncherState, b: LauncherState) -> bool {
    &&& same_content(a, b)
    &&& b.is_loading_sections == a.is_loading_sections
    &&& b.is_loading_movies == a.is_loading_movies
}

/// A library page can be requested: library mode, nothing loading, and a
/// library chosen.
pub open spec fn page_request_allowed(s: LauncherState) -> bool {
    !s.is_loading_movies && s.browse_mode == BrowseMode::Library && !blank(
        s.config.selected_library_id@,
    )
}

/// The request for the next page of the chosen library.
pub open spec fn next_page_command(s: LauncherState) -> WorkerCommand {
    WorkerCommand::LoadMovies {
        config: s.config,
        section_id: s.config.selected_library_id,
        start: s.next_start,
        size: PAGE_SIZE,
    }
}

/// The library id chosen once `libs` are listed: the current one where it is
/// set and listed, else the first listed one, else the current one.
pub open spec fn chosen_library(current: Seq<char>, libs: Seq<LibrarySection>) -> Seq<char> {
    if (blank(current) || !(exists|i: int| 0 <= i < libs.len() && libs[i].id@ == current))
        && libs.len() > 0 {
        libs[0].id@
    } else {
        current
    }
}

fn text_of(s: &str) -> (r: String)
    ensures
        r@ == s@,
{
    String::from_str(s)
}

fn loading_page_status(next_start: usize) -> (r: String)
    ensures
        r@ == loading_page_text(next_start),
{
    let mut r = text_of("Loading page ");
    r.append(decimal_string((next_start / PAGE_SIZE + 1) as u64).as_str());
    r.append("...");
    r
}

fn libraries_loaded_status(n: usize) -> (r: String)
    ensures
        r@ == libraries_loaded_text(n as nat),
{
    let mut r = text_of("Loaded ");
    r.append(decimal_string(n as u64).as_str());
    r.append(" movie libraries.");
    r
}

fn movies_loaded_status(mode: BrowseMode, n: usize, total: usize) -> (r: String)
    ensures
        r@ == movies_loaded_text(mode, n as nat, total as nat),
{
    let mut r = text_of("Loaded ");
    r.append(decimal_string(n as u64).as_str());
    match mode {
        BrowseMode::Library => {
            r.append("/");
            let shown = if total >= n { total } else { n };
            r.append(decimal_string(shown as u64).as_str());
            r.append(" movies.");
        },
        BrowseMode::ContinueWatching => {
            r.append(" recent / continue items.");
        },
    }
    r
}


/// A number shown with at least two digits.
pub open spec fn two_digits(n: nat) -> Seq<char> {
    if n < 10 {
        "0"@ + decimal(n)
    } else {
        decimal(n)
    }
}

/// A playback position of `offset_ms` milliseconds as `HH:MM:SS`, or as
/// `MM:SS` under an hour; hours may take more than two digits.
pub open spec fn resume_time_text(offset_ms: u64) -> Seq<char> {
    let total = offset_ms / 1000;
    let hours = total / 3600;
    let minutes = (total % 3600) / 60;
    let seconds = total % 60;
    if hours > 0 {
        two_digits(hours as nat) + ":"@ + two_digits(minutes as nat) + ":"@ + two_digits(seconds as nat)
    } else {
        two_digits(minutes as nat) + ":"@ + two_digits(seconds as nat)
    }
}

fn push_two_digits(r: &mut String, n: u64)
    ensures
        final(r)@ == old(r)@ + two_digits(n as nat),
{
    if n < 10 {
        r.append("0");
    }
    r.append(decimal_string(n).as_str());
}

/// The playback position `offset_ms` in whole seconds, as `HH:MM:SS` or,
/// under an hour, `MM:SS`.
pub fn format_resume_time(offset_ms: u64) -> (r: String)
    ensures
        r@ == resume_time_text(offset_ms),
{
    let total = offset_ms / 1000;
    let hours = total / 3600;
    let minutes = (total % 3600) / 60;
    let seconds = total % 60;
    let mut r = String::new();
    if hours > 0 {
        push_two_digits(&mut r, hours);
        r.append(":");
    }
    push_two_digits(&mut r, minutes);
    r.append(":");
    push_two_digits(&mut r, seconds);
    r
}

/// The error shown for a movie without a playable part.
pub open spec fn missing_part_text(title: Seq<char>) -> Seq<char> {
    title + " does not expose a playable media part."@
}

/// The error shown for the movie `title` that exposes no playable part.
pub fn missing_part_message(title: &str) -> (r: String)
    ensures
        r@ == missing_part_text(title@),
{
    let mut r = text_of(title);
    r.append(" does not expose a playable media part.");
    r
}

/// The status line after the player was started for `title`: with the
/// resume position where at least a second has been watched.
pub open spec fn launched_text(title: Seq<char>, view_offset: Option<u64>) -> Seq<char> {
    match view_offset {
        Some(offset) => if offset >= 1000 {
            "Launched VLC for "@ + title + " at "@ + resume_time_text(offset)
        } else {
            "Launched VLC for "@ + title
        },
        None => "Launched VLC for "@ + title,
    }
}

/// The first library listed with id `id`, if any.
pub open spec fn first_library_with(libs: Seq<LibrarySection>, id: Seq<char>, i: int) -> bool {
    0 <= i < libs.len() && libs[i].id@ == id && forall|j: int| 0 <= j < i ==> libs[j].id@ != id
}

/// The first movie with rating key `key`, if any.
pub open spec fn first_item_with(items: Seq<MediaItem>, key: Seq<char>, i: int) -> bool {
    0 <= i < items.len() && items[i].rating_key@ == key && forall|j: int|
        0 <= j < i ==> items[j].rating_key@ != key
}

impl LauncherState {
    /// A launcher for `config` with nothing loaded, and the request that
    /// lists the libraries where the configuration is ready.
    pub fn new(config: AppConfig) -> (r: (Self, Option<WorkerCommand>))
        ensures
            r.0.config == config,
            r.0.libraries@.len() == 0,
            r.0.search_text@.len() == 0,
            listing_reset(r.0),
            r.0.items@.len() == 0,
            r.0.selected_item_key is None,
            r.0.next_start == 0,
            r.0.total_size == 0,
            r.0.browse_mode == BrowseMode::Library,
            !r.0.is_loading_movies,
            r.0.error_text is None,
            r.1 is Some <==> config.ready(),
            config.ready() ==> r.1 == Some(WorkerCommand::LoadSections(config)) && r.0.is_loading_sections
                && r.0.status_text@ == "Loading Plex movie libraries..."@,
            !config.ready() ==> !r.0.is_loading_sections && r.0.status_text@
                == "Fill in Plex URL, token, and VLC path first."@,
    {
        let mut state = LauncherState {
            config,
            libraries: Vec::new(),
            items: Vec::new(),
            search_text: String::new(),
            selected_item_key: None,
            status_text: text_of("Fill in Plex URL, token, and VLC path first."),
            error_text: None,
            is_loading_sections: false,
            is_loading_movies: false,
            next_start: 0,
            total_size: 0,
            browse_mode: BrowseMode::Library,
        };
        let command = if state.config.is_ready() { state.load_sections() } else { None };
        (state, command)
    }

    /// Asks for the library listing; refused, with an error, while the
    /// configuration lacks a server address or a token.
    pub fn load_sections(&mut self) -> (cmd: Option<WorkerCommand>)
        ensures
            !old(self).config.ready() ==> {
                &&& cmd is None
                &&& same_listing(*old(self), *final(self))
                &&& final(self).status_text == old(self).status_text
                &&& says(final(self).error_text, "A valid Plex URL and token are required."@)
            },
            old(self).config.ready() ==> {
                &&& cmd == Some(WorkerCommand::LoadSections(old(self).config))
                &&& same_content(*old(self), *final(self))
                &&& final(self).is_loading_sections
                &&& final(self).is_loading_movies == old(self).is_loading_movies
                &&& final(self).error_text is None
                &&& final(self).status_text@ == "Loading Plex movie libraries..."@
            },
    {
        if !self.config.is_ready() {
            self.error_text = Some(text_of("A valid Plex URL and token are required."));
            return None;
        }
        self.error_text = None;
        self.is_loading_sections = true;
        self.status_text = text_of("Loading Plex movie libraries...");
        Some(WorkerCommand::LoadSections(self.config.clone()))
    }

    /// Asks for the next page of the chosen library, unless a list is
    /// loading, the continue-watching list is shown or no library is chosen.
    pub fn load_more_movies(&mut self) -> (cmd: Option<WorkerCommand>)
        ensures
            !page_request_allowed(*old(self)) ==> cmd is None && *final(self) == *old(self),
            page_request_allowed(*old(self)) ==> {
                &&& cmd == Some(next_page_command(*old(self)))
                &&& same_content(*old(self), *final(self))
                &&& final(self).is_loading_movies
                &&& final(self).is_loading_sections == old(self).is_loading_sections
                &&& final(self).error_text is None
                &&& final(self).status_text@ == loading_page_text(old(self).next_start)
            },
    {
        if self.is_loading_movies || self.browse_mode != BrowseMode::Library || trim(
            self.config.selected_library_id.as_str(),
        ).unicode_len() == 0 {
            return None;
        }
        self.error_text = None;
        self.is_loading_movies = true;
        self.status_text = loading_page_status(self.next_start);
        Some(
            WorkerCommand::LoadMovies {
                config: self.config.clone(),
                section_id: self.config.selected_library_id.clone(),
                start: self.next_start,
                size: PAGE_SIZE,
            },
        )
    }

    /// Starts the chosen library over from its first page; refused, with an
    /// error, while no library is chosen.
    pub fn reload_movies(&mut self) -> (r: Refresh)
        ensures
            !r.save_config,
            blank(old(self).config.selected_library_id@) ==> {
                &&& r.command is None
                &&& !r.clear_posters
                &&& same_listing(*old(self), *final(self))
                &&& final(self).status_text == old(self).status_text
                &&& says(final(self).error_text, "Choose a movie library first."@)
            },
            !blank(old(self).config.selected_library_id@) ==> {
                &&& r.clear_posters
                &&& listing_reset(*final(self))
                &&& final(self).items@.len() == 0
                &&& final(self).selected_item_key is None
                &&& final(self).next_start == 0
                &&& final(self).total_size == 0
                &&& final(self).browse_mode == BrowseMode::Library
                &&& final(self).config == old(self).config
                &&& final(self).libraries == old(self).libraries
                &&& final(self).search_text == old(self).search_text
                &&& final(self).is_loading_sections == old(self).is_loading_sections
                &&& final(self).is_loading_movies
                &&& final(self).error_text is None
                &&& !old(self).is_loading_movies ==> r.command == Some(next_page_command(*final(self)))
                    && final(self).status_text@ == loading_page_text(0)
                &&& old(self).is_loading_movies ==> r.command is None && final(self).status_text
                    == old(self).status_text
            },
    {
        if trim(self.config.selected_library_id.as_str()).unicode_len() == 0 {
            self.error_text = Some(text_of("Choose a movie library first."));
            return Refresh { clear_posters: false, save_config: false, command: None };
        }
        self.browse_mode = BrowseMode::Library;
        self.error_text = None;
        self.items = Vec::new();
        self.selected_item_key = None;
        self.next_start = 0;
        self.total_size = 0;
        let command = self.load_more_movies();
        Refresh { clear_posters: true, save_config: false, command }
    }

    /// Switches to the continue-watching list and asks for it, unless a
    /// list is loading.
    pub fn load_continue_watching(&mut self) -> (r: Refresh)
        ensures
            !r.save_config,
            old(self).is_loading_movies ==> r.command is None && !r.clear_posters && *final(self)
                == *old(self),
            !old(self).is_loading_movies ==> {
                &&& r.clear_posters
                &&& r.command == Some(WorkerCommand::LoadContinueWatching(old(self).config))
                &&& listing_reset(*final(self))
                &&& final(self).items@.len() == 0
                &&& final(self).selected_item_key is None
                &&& final(self).next_start == 0
                &&& final(self).total_size == 0
                &&& final(self).browse_mode == BrowseMode::ContinueWatching
                &&& final(self).config == old(self).config
                &&& final(self).libraries == old(self).libraries
                &&& final(self).search_text == old(self).search_text
                &&& final(self).is_loading_sections == old(self).is_loading_sections
                &&& final(self).is_loading_movies
                &&& final(self).error_text is None
                &&& final(self).status_text@ == "Loading recent and continue-watching items..."@
            },
    {
        if self.is_loading_movies {
            return Refresh { clear_posters: false, save_config: false, command: None };
        }
        self.browse_mode = BrowseMode::ContinueWatching;
        self.error_text = None;
        self.items = Vec::new();
        self.selected_item_key = None;
        self.next_start = 0;
        self.total_size = 0;
        self.is_loading_movies = true;
        self.status_text = text_of("Loading recent and continue-watching items...");
        Refresh {
            clear_posters: true,
            save_config: false,
            command: Some(WorkerCommand::LoadContinueWatching(self.config.clone())),
        }
    }
}


impl LauncherState {
    /// Takes in the page `page` of the list being shown: the movies are
    /// appended, paging continues after the page, and the total is the one
    /// the page reports.
    pub fn apply_movie_page(&mut self, page: MoviePage)
        requires
            page.start + page.items@.len() <= usize::MAX,
        ensures
            final(self).items@ == old(self).items@ + page.items@,
            final(self).next_start == page.start + page.items@.len(),
            final(self).total_size == page.total_size,
            final(self).status_text@ == movies_loaded_text(
                old(self).browse_mode,
                final(self).items@.len(),
                page.total_size as nat,
            ),
            final(self).config == old(self).config,
            final(self).libraries == old(self).libraries,
            final(self).search_text == old(self).search_text,
            final(self).selected_item_key == old(self).selected_item_key,
            final(self).browse_mode == old(self).browse_mode,
            final(self).is_loading_sections == old(self).is_loading_sections,
            final(self).is_loading_movies == old(self).is_loading_movies,
            final(self).error_text == old(self).error_text,
            // A page that starts where the loaded movies end keeps the next
            // request starting where they end.
            old(self).next_start == old(self).items@.len() && page.start == old(self).next_start
                ==> final(self).next_start == final(self).items@.len(),
    {
        let mut items = page.items;
        self.next_start = page.start + items.len();
        self.total_size = page.total_size;
        self.items.append(&mut items);
        self.status_text = movies_loaded_status(self.browse_mode, self.items.len(), self.total_size);
    }

    /// Takes in the result of a page or continue-watching request: the page
    /// is applied, or its error shown; either way nothing is loading any more.
    pub fn movies_loaded(&mut self, result: Result<MoviePage, String>)
        requires
            result matches Ok(page) ==> page.start + page.items@.len() <= usize::MAX,
        ensures
            !final(self).is_loading_movies,
            final(self).is_loading_sections == old(self).is_loading_sections,
            final(self).config == old(self).config,
            final(self).libraries == old(self).libraries,
            final(self).browse_mode == old(self).browse_mode,
            final(self).selected_item_key == old(self).selected_item_key,
            final(self).search_text == old(self).search_text,
            result matches Err(e) ==> {
                &&& final(self).error_text == Some(e)
                &&& final(self).items == old(self).items
                &&& final(self).next_start == old(self).next_start
                &&& final(self).total_size == old(self).total_size
                &&& final(self).status_text == old(self).status_text
            },
            result matches Ok(page) ==> {
                &&& final(self).error_text is None
                &&& final(self).items@ == old(self).items@ + page.items@
                &&& final(self).next_start == page.start + page.items@.len()
                &&& final(self).total_size == page.total_size
                &&& final(self).status_text@ == movies_loaded_text(
                    old(self).browse_mode,
                    final(self).items@.len(),
                    page.total_size as nat,
                )
            },
    {
        self.is_loading_movies = false;
        match result {
            Ok(page) => {
                self.error_text = None;
                self.apply_movie_page(page);
            },
            Err(error) => {
                self.error_text = Some(error);
            },
        }
    }

    /// Takes in the result of the library listing: the libraries are kept,
    /// a library is chosen (the current one where it is listed, else the
    /// first) and, where that changes the configuration, the configuration is
    /// to be saved; where a library is chosen and no movies are shown its
    /// first page is asked for. An error is shown instead where the listing
    /// failed.
    pub fn sections_loaded(&mut self, result: Result<Vec<LibrarySection>, String>) -> (r: Refresh)
        ensures
            !final(self).is_loading_sections,
            result matches Err(e) ==> {
                &&& r.command is None
                &&& !r.clear_posters
                &&& !r.save_config
                &&& final(self).error_text == Some(e)
                &&& same_content(*old(self), *final(self))
                &&& final(self).is_loading_movies == old(self).is_loading_movies
                &&& final(self).status_text == old(self).status_text
            },
            result matches Ok(libs) ==> {
                let chosen = chosen_library(old(self).config.selected_library_id@, libs@);
                let reload = !blank(chosen) && old(self).items@.len() == 0;
                &&& final(self).libraries == libs
                &&& final(self).config.selected_library_id@ == chosen
                &&& final(self).config.server_url == old(self).config.server_url
                &&& final(self).config.token == old(self).config.token
                &&& final(self).config.vlc_path == old(self).config.vlc_path
                &&& final(self).error_text is None
                &&& final(self).search_text == old(self).search_text
                &&& r.clear_posters == reload
                &&& r.save_config == (chosen != old(self).config.selected_library_id@)
                &&& !reload ==> {
                    &&& r.command is None
                    &&& final(self).items == old(self).items
                    &&& final(self).selected_item_key == old(self).selected_item_key
                    &&& final(self).next_start == old(self).next_start
                    &&& final(self).total_size == old(self).total_size
                    &&& final(self).browse_mode == old(self).browse_mode
                    &&& final(self).is_loading_movies == old(self).is_loading_movies
                    &&& final(self).status_text@ == libraries_loaded_text(libs@.len())
                }
                &&& reload ==> {
                    &&& listing_reset(*final(self))
                    &&& final(self).items@.len() == 0
                    &&& final(self).selected_item_key is None
                    &&& final(self).next_start == 0
                    &&& final(self).total_size == 0
                    &&& final(self).browse_mode == BrowseMode::Library
                    &&& final(self).is_loading_movies
                    &&& !old(self).is_loading_movies ==> r.command == Some(
                        next_page_command(*final(self)),
                    ) && final(self).status_text@ == loading_page_text(0)
                    &&& old(self).is_loading_movies ==> r.command is None && final(self).status_text@
                        == libraries_loaded_text(libs@.len())
                }
            },
    {
        self.is_loading_sections = false;
        match result {
            Ok(sections) => {
                self.error_text = None;
                self.libraries = sections;
                let previous = self.config.selected_library_id.clone();
                let current_blank = trim(self.config.selected_library_id.as_str()).unicode_len() == 0;
                let listed = self.library_index(self.config.selected_library_id.as_str()).is_some();
                if (current_blank || !listed) && self.libraries.len() > 0 {
                    self.config.selected_library_id = self.libraries[0].id.clone();
                }
                let changed = !same_text(
                    self.config.selected_library_id.as_str(),
                    previous.as_str(),
                );
                self.status_text = libraries_loaded_status(self.libraries.len());
                if trim(self.config.selected_library_id.as_str()).unicode_len() != 0
                    && self.items.len() == 0 {
                    let mut r = self.reload_movies();
                    r.save_config = changed;
                    return r;
                }
                Refresh { clear_posters: false, save_config: changed, command: None }
            },
            Err(error) => {
                self.error_text = Some(error);
                Refresh { clear_posters: false, save_config: false, command: None }
            },
        }
    }

    /// The position of the first library listed with id `id`.
    pub fn library_index(&self, id: &str) -> (r: Option<usize>)
        ensures
            r matches Some(i) ==> first_library_with(self.libraries@, id@, i as int),
            r is None ==> forall|j: int| 0 <= j < self.libraries@.len() ==> self.libraries@[j].id@ != id@,
    {
        let mut i: usize = 0;
        while i < self.libraries.len()
            invariant
                i <= self.libraries@.len(),
                forall|j: int| 0 <= j < i ==> self.libraries@[j].id@ != id@,
            decreases self.libraries@.len() - i,
        {
            if same_text(self.libraries[i].id.as_str(), id) {
                return Some(i);
            }
            i += 1;
        }
        None
    }

    /// The name of the chosen library, or a prompt to choose one where it is
    /// not listed.
    pub fn selected_library_title(&self) -> (r: String)
        ensures
            (exists|i: int| first_library_with(self.libraries@, self.config.selected_library_id@, i)
                && r@ == self.libraries@[i].title@) || ((forall|j: int|
                0 <= j < self.libraries@.len() ==> self.libraries@[j].id@
                    != self.config.selected_library_id@) && r@ == "Choose library"@),
    {
        match self.library_index(self.config.selected_library_id.as_str()) {
            Some(i) => self.libraries[i].title.clone(),
            None => text_of("Choose library"),
        }
    }

    /// The heading of what the poster wall shows.
    pub fn browse_mode_title(&self) -> (r: &'static str)
        ensures
            self.browse_mode == BrowseMode::Library ==> r@ == "Library"@,
            self.browse_mode == BrowseMode::ContinueWatching ==> r@ == "Recent & Continue Watching"@,
    {
        match self.browse_mode {
            BrowseMode::Library => "Library",
            BrowseMode::ContinueWatching => "Recent & Continue Watching",
        }
    }

    /// The selected movie: the first shown movie with the selected rating key.
    pub fn selected_item(&self) -> (r: Option<&MediaItem>)
        ensures
            self.selected_item_key is None ==> r is None,
            self.selected_item_key matches Some(k) ==> (r matches Some(item) ==> exists|i: int|
                first_item_with(self.items@, k@, i) && *item == self.items@[i]),
            self.selected_item_key matches Some(k) ==> (r is None <==> forall|j: int|
                0 <= j < self.items@.len() ==> self.items@[j].rating_key@ != k@),
    {
        let key = match &self.selected_item_key {
            Some(k) => k,
            None => return None,
        };
        let mut i: usize = 0;
        while i < self.items.len()
            invariant
                i <= self.items@.len(),
                self.selected_item_key == Some(*key),
                forall|j: int| 0 <= j < i ==> self.items@[j].rating_key@ != key@,
            decreases self.items@.len() - i,
        {
            if self.items[i].rating_key == *key {
                assert(first_item_with(self.items@, key@, i as int));
                return Some(&self.items[i]);
            }
            i += 1;
        }
        None
    }

    /// Whether another library page can be asked for: library mode, nothing
    /// loading, and fewer movies shown than Plex reported.
    pub fn can_load_more(&self) -> (b: bool)
        ensures
            b == (self.browse_mode == BrowseMode::Library && !self.is_loading_movies
                && self.total_size > 0 && self.items@.len() < self.total_size),
    {
        self.browse_mode == BrowseMode::Library && !self.is_loading_movies && self.total_size > 0
            && self.items.len() < self.total_size
    }

    /// Records that the player was started for `item`: the error is cleared
    /// and the status line names the movie and, where one is known, its
    /// resume position.
    pub fn play_started(&mut self, item: &MediaItem)
        ensures
            same_listing(*old(self), *final(self)),
            final(self).error_text is None,
            final(self).status_text@ == launched_text(item.title@, item.view_offset),
    {
        let mut status = text_of("Launched VLC for ");
        status.append(item.title.as_str());
        match item.view_offset {
            Some(offset) => {
                if offset >= 1000 {
                    status.append(" at ");
                    status.append(format_resume_time(offset).as_str());
                }
            },
            None => {},
        }
        self.error_text = None;
        self.status_text = status;
    }

    /// The first step of playing `item`: the stream URL of its media part,
    /// built by a client for the configured server address and token. Where
    /// the movie has no part, the missing-part error is shown instead and
    /// nothing is returned.
    pub fn stream_request(&mut self, item: &MediaItem) -> (r: Option<Result<String, PlexError>>)
        ensures
            item.part_key is None ==> {
                &&& r is None
                &&& same_listing(*old(self), *final(self))
                &&& final(self).status_text == old(self).status_text
                &&& final(self).error_text matches Some(m) && m@ == missing_part_text(item.title@)
            },
            item.part_key matches Some(k) ==> {
                &&& *final(self) == *old(self)
                &&& r matches Some(u) && text_outcome(u) == plex_url(
                    normalized_server_url(normalized_server_url(old(self).config.server_url@)),
                    trimmed(old(self).config.token@),
                    k@,
                    seq![("download"@, "1"@)],
                )
            },
    {
        match &item.part_key {
            None => {
                self.report_error(missing_part_message(item.title.as_str()));
                None
            },
            Some(part_key) => {
                let server = self.config.server_url_trimmed();
                let client = PlexClient::new(server.as_str(), self.config.token.as_str());
                Some(client.build_stream_url(part_key.as_str()))
            },
        }
    }

    /// The last step of playing `item`: `outcome` says that the player
    /// started, or why the stream URL or the player failed.
    pub fn play_finished(&mut self, item: &MediaItem, outcome: Result<(), String>)
        ensures
            same_listing(*old(self), *final(self)),
            outcome is Ok ==> final(self).error_text is None && final(self).status_text@
                == launched_text(item.title@, item.view_offset),
            outcome matches Err(m) ==> final(self).error_text == Some(m)
                && final(self).status_text == old(self).status_text,
    {
        match outcome {
            Ok(()) => self.play_started(item),
            Err(message) => self.report_error(message),
        }
    }

    /// Records how saving the configuration ended: `Ok` with the saved
    /// file's path as shown to the user clears the error and names the file
    /// in the status line; `Err` shows its message.
    pub fn config_saved(&mut self, outcome: Result<String, String>)
        ensures
            same_listing(*old(self), *final(self)),
            outcome matches Ok(path) ==> final(self).error_text is None && final(self).status_text@
                == "Configuration saved to "@ + path@,
            outcome matches Err(m) ==> final(self).error_text == Some(m)
                && final(self).status_text == old(self).status_text,
    {
        match outcome {
            Ok(path) => {
                let mut status = text_of("Configuration saved to ");
                status.append(path.as_str());
                self.error_text = None;
                self.status_text = status;
            },
            Err(message) => self.report_error(message),
        }
    }

    /// Shows the error `message`.
    pub fn report_error(&mut self, message: String)
        ensures
            same_listing(*old(self), *final(self)),
            final(self).status_text == old(self).status_text,
            final(self).error_text == Some(message),
    {
        self.error_text = Some(message);
    }
}
} // verus!
