//! Derivation of a textual "now playing" presence from media-player metadata.
//!
//! The crate selects which of several media players to report on, extracts
//! and filters its metadata, and renders the two presence lines. Every
//! function is verified against a contract stated over sequences of
//! characters and mathematical integers.

pub mod filter;
pub mod metadata;
pub mod render;
pub mod select;
pub mod snapshot;
pub mod style;
pub mod text;
pub mod time_format;
pub mod truncate;
pub mod variants;
