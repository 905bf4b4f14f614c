//! The allow-list and block-list rules that decide whether a snapshot may be
//! reported.

use vstd::prelude::*;
use vstd::string::*;
use crate::snapshot::{Config, ConfigView, Snapshot, SnapshotView};
use crate::text::{contains, is_substring, texts};

verus! {

/// Why a snapshot was turned down.
#[derive(Clone, Copy, Debug, PartialEq, Eq, Structural)]
pub enum RejectReason {
    NotWhitelisted,
    NoUrl,
    BlacklistedArtist,
}

/// Whether `text` contains at least one of `keywords`.
pub open spec fn mentions_any(text: Seq<char>, keywords: Seq<Seq<char>>) -> bool {
    exists|k: int| 0 <= k < keywords.len() && is_substring(#[trigger] keywords[k], text)
}

/// Whether at least one of `artists` contains at least one of `keywords`.
pub open spec fn any_mentions_any(artists: Seq<Seq<char>>, keywords: Seq<Seq<char>>) -> bool {
    exists|a: int| 0 <= a < artists.len() && mentions_any(#[trigger] artists[a], keywords)
}

/// The rule on the URL. A snapshot without a URL passes only where that is
/// allowed. With the allow-list in use, a URL has to contain one of its
/// keywords.
pub open spec fn url_verdict(url: Option<Seq<char>>, config: ConfigView) -> Option<RejectReason> {
    match url {
        None => if config.play_no_url {
            None
        } else {
            Some(RejectReason::NoUrl)
        },
        Some(u) => if config.use_whitelist && !mentions_any(u, config.keyword_whitelist) {
            Some(RejectReason::NotWhitelisted)
        } else {
            None
        },
    }
}

/// The rules in order: first the URL, then the artists.
pub open spec fn verdict(snapshot: SnapshotView, config: ConfigView) -> Result<(), RejectReason> {
    match url_verdict(snapshot.url, config) {
        Some(reason) => Err(reason),
        None => if config.use_artist_blacklist && any_mentions_any(
            snapshot.artists,
            config.artist_keyword_blacklist,
        ) {
            Err(RejectReason::BlacklistedArtist)
        } else {
            Ok(())
        },
    }
}

/// Whether `text` contains at least one of `keywords`.
pub fn contains_any(text: &str, keywords: &Vec<String>) -> (found: bool)
    ensures
        found == mentions_any(text@, texts(keywords@)),
{
    let mut k: usize = 0;
    while k < keywords.len()
        invariant
            k <= keywords.len(),
            forall|j: int| 0 <= j < k ==> !is_substring(#[trigger] texts(keywords@)[j], text@),
        decreases keywords.len() - k,
    {
        if contains(text, keywords[k].as_str()) {
            assert(is_substring(texts(keywords@)[k as int], text@));
            return true;
        }
        k += 1;
    }
    false
}

/// Applies the filter rules to `snapshot`.
pub fn check(snapshot: &Snapshot, config: &Config) -> (r: Result<(), RejectReason>)
    ensures
        r == verdict(snapshot@, config@),
{
    match &snapshot.url {
        None => {
            if !config.play_no_url {
                return Err(RejectReason::NoUrl);
            }
        },
        Some(url) => {
            if config.use_whitelist && !contains_any(url.as_str(), &config.keyword_whitelist) {
                return Err(RejectReason::NotWhitelisted);
            }
        },
    }
    if config.use_artist_blacklist {
        let mut a: usize = 0;
        while a < snapshot.artists.len()
            invariant
                a <= snapshot.artists.len(),
                config.use_artist_blacklist,
                url_verdict(snapshot@.url, config@) is None,
                forall|j: int|
                    0 <= j < a ==> !mentions_any(
                        #[trigger] snapshot@.artists[j],
                        config@.artist_keyword_blacklist,
                    ),
            decreases snapshot.artists.len() - a,
        {
            if contains_any(snapshot.artists[a].as_str(), &config.artist_keyword_blacklist) {
                assert(mentions_any(snapshot@.artists[a as int], config@.artist_keyword_blacklist));
                return Err(RejectReason::BlacklistedArtist);
            }
            a += 1;
        }
    }
    Ok(())
}

} // verus!
