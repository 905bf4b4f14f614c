//! The data that the pipeline works on: configuration and player snapshots.

use vstd::prelude::*;
use vstd::string::*;
use crate::text::{opt_text, texts};

verus! {

/// What a player reports about its playback.
#[derive(Clone, Copy, Debug, PartialEq, Eq, Structural)]
pub enum PlaybackStatus {
    Playing,
    Paused,
    Stopped,
    Unknown,
}

/// The now-playing state of one player service at one poll tick.
#[derive(Clone, Debug)]
pub struct Snapshot {
    pub service_id: String,
    pub status: PlaybackStatus,
    pub position_seconds: i64,
    pub title: Option<String>,
    pub album: Option<String>,
    pub artists: Vec<String>,
    pub url: Option<String>,
}

/// A snapshot as mathematical data.
pub struct SnapshotView {
    pub service_id: Seq<char>,
    pub status: PlaybackStatus,
    pub position_seconds: int,
    pub title: Option<Seq<char>>,
    pub album: Option<Seq<char>>,
    pub artists: Seq<Seq<char>>,
    pub url: Option<Seq<char>>,
}

impl View for Snapshot {
    type V = SnapshotView;

    open spec fn view(&self) -> SnapshotView {
        SnapshotView {
            service_id: self.service_id@,
            status: self.status,
            position_seconds: self.position_seconds as int,
            title: opt_text(self.title),
            album: opt_text(self.album),
            artists: texts(self.artists@),
            url: opt_text(self.url),
        }
    }
}

/// The filtering and rendering options, fixed for the life of the process.
#[derive(Clone, Debug)]
pub struct Config {
    pub keyword_whitelist: Vec<String>,
    pub use_whitelist: bool,
    pub play_no_url: bool,
    pub artist_keyword_blacklist: Vec<String>,
    pub use_artist_blacklist: bool,
    pub embolden_titles: bool,
}

/// A configuration as mathematical data.
pub struct ConfigView {
    pub keyword_whitelist: Seq<Seq<char>>,
    pub use_whitelist: bool,
    pub play_no_url: bool,
    pub artist_keyword_blacklist: Seq<Seq<char>>,
    pub use_artist_blacklist: bool,
    pub embolden_titles: bool,
}

impl View for Config {
    type V = ConfigView;

    open spec fn view(&self) -> ConfigView {
        ConfigView {
            keyword_whitelist: texts(self.keyword_whitelist@),
            use_whitelist: self.use_whitelist,
            play_no_url: self.play_no_url,
            artist_keyword_blacklist: texts(self.artist_keyword_blacklist@),
            use_artist_blacklist: self.use_artist_blacklist,
            embolden_titles: self.embolden_titles,
        }
    }
}

} // verus!
