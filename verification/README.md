# plex_poster_launcher

A desktop launcher that shows a Plex movie library as a poster wall and plays
movies in VLC. The crate's library (`src/`) is written in Verus and verified:

- `text` — white space, trimming, substring search, decimal rendering.
- `config` — the saved settings and when they are complete.
- `models` — sections, movies and pages.
- `plex` — request URLs (the token always last), and what is made of Plex's
  answers: movie sections, pages, the continue-watching list merged with the
  playback history and sorted newest first.
- `web` — the `url` crate calls, with the contracts they are trusted to meet:
  the kinds of URL error, and the form encoding a query pair is written in.
- `launcher` — the state behind the window: paging, the chosen library,
  loading flags and status messages, as transitions that hand back requests.
- `posters` — which posters are shown or being fetched, whether a wanted
  poster is loaded from the cache, fetched once, or left alone, and the
  decoding of a poster file into pixels (through the `image` crate).
- `player`, `cache`, `paths`, `keyboard`, `ui::poster_grid` — the VLC command
  line, poster file names, where data is kept, where the on-screen keyboard is
  looked for, and the title search.

`app/` is the program around it: the egui window, HTTP, XML and TOML reading,
files, and the VLC process. `tests/` runs the library on concrete values.
