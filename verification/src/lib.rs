//! Verified core of a poster-wall launcher for a Plex movie library.
pub mod cache;
pub mod config;
pub mod keyboard;
pub mod launcher;
pub mod models;
pub mod paths;
pub mod player;
pub mod posters;
pub mod plex;
pub mod text;
pub mod ui;
pub mod web;
