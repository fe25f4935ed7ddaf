//! The logic of a music player that drives mpv.
//!
//! Here is what the player reads from mpv's messages and from ID3 tags, what it shows, what it sends
//! to mpv, to Last.fm and to Discord, and in which order. Sockets, files and processes belong to the
//! program around this library, and so does all that is counted in fractions of seconds: whether a
//! moment has come is handed to the library as a yes or no.

pub mod args;
pub mod color;
pub mod config;
pub mod integrations;
pub mod json;
pub mod metadata;
pub mod mpv;
pub mod paths;
pub mod player;
pub mod playlists;
pub mod retry;
pub mod tag;
pub mod text;
pub mod track;
pub mod update;
pub mod url;
