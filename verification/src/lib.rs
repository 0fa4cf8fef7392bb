//! Verified core of a terminal Spotify client: command parsing, key bindings,
//! the playback queue, Spotify URI/URL recognition, lyrics handling and the
//! token and configuration rules.
use vstd::prelude::*;

pub mod application;
pub mod authentication;
pub mod command;
pub mod commands;
pub mod config;
pub mod eq;
pub mod events;
pub mod float_text;
pub mod library;
pub mod lyrics;
pub mod lyrics_fetcher;
pub mod media_control;
pub mod model;
pub mod num;
pub mod queue;
pub mod serialization;
pub mod sort;
pub mod spotify;
pub mod spotify_url;
pub mod text;

verus! {
} // verus!
