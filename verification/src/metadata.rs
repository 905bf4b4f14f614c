//! Turning the raw properties of one player service into a snapshot.
//!
//! Properties arrive loosely typed. Every field is read with an explicit
//! default, so extraction cannot fail: a missing or mistyped property leaves
//! its field unset.

use vstd::prelude::*;
use vstd::string::*;
use crate::snapshot::{PlaybackStatus, Snapshot, SnapshotView};
use crate::text::{opt_text, same_text, texts};

verus! {

/// A property value as the transport hands it over.
#[derive(Debug)]
pub enum PropValue {
    Str(String),
    Int(i64),
    Array(Vec<PropValue>),
    Dict(Vec<(PropValue, PropValue)>),
    Other,
}

/// The three properties that are read from a player; `None` where the
/// player does not have the property.
#[derive(Debug)]
pub struct PlayerProperties {
    pub playback_status: Option<PropValue>,
    pub position: Option<PropValue>,
    pub metadata: Option<PropValue>,
}

/// The text of a string value; nothing for any other value.
pub open spec fn text_of(v: PropValue) -> Option<Seq<char>> {
    match v {
        PropValue::Str(s) => Some(s@),
        _ => None,
    }
}

/// The value stored under the string key `key`. Entries with a key that is
/// not a string are passed over; of two entries with the same key the later
/// one counts.
pub open spec fn lookup(entries: Seq<(PropValue, PropValue)>, key: Seq<char>) -> Option<PropValue>
    decreases entries.len(),
{
    if entries.len() == 0 {
        None
    } else if text_of(entries.last().0) == Some(key) {
        Some(entries.last().1)
    } else {
        lookup(entries.drop_last(), key)
    }
}

/// The value under `key` in a metadata block; nothing where the block is
/// missing or is not a dictionary.
pub open spec fn field(metadata: Option<PropValue>, key: Seq<char>) -> Option<PropValue> {
    match metadata {
        Some(PropValue::Dict(entries)) => lookup(entries@, key),
        _ => None,
    }
}

/// The text under `key` in a metadata block, where there is a string.
pub open spec fn text_field(metadata: Option<PropValue>, key: Seq<char>) -> Option<Seq<char>> {
    match field(metadata, key) {
        Some(v) => text_of(v),
        None => None,
    }
}

/// The strings among `items`, in their order.
pub open spec fn strings_in(items: Seq<PropValue>) -> Seq<Seq<char>>
    decreases items.len(),
{
    if items.len() == 0 {
        Seq::empty()
    } else {
        match items.last() {
            PropValue::Str(s) => strings_in(items.drop_last()).push(s@),
            _ => strings_in(items.drop_last()),
        }
    }
}

/// The artists named in a metadata block: the strings of the array under
/// `xesam:artist`, and none where there is no such array.
pub open spec fn artists_of(metadata: Option<PropValue>) -> Seq<Seq<char>> {
    match field(metadata, "xesam:artist"@) {
        Some(PropValue::Array(items)) => strings_in(items@),
        _ => Seq::empty(),
    }
}

/// The status that a status name stands for.
pub open spec fn status_named(name: Seq<char>) -> PlaybackStatus {
    if name == "Playing"@ {
        PlaybackStatus::Playing
    } else if name == "Paused"@ {
        PlaybackStatus::Paused
    } else if name == "Stopped"@ {
        PlaybackStatus::Stopped
    } else {
        PlaybackStatus::Unknown
    }
}

/// The status that a `PlaybackStatus` property reports; unknown where it is
/// missing or not a string.
pub open spec fn status_of(v: Option<PropValue>) -> PlaybackStatus {
    match v {
        Some(PropValue::Str(s)) => status_named(s@),
        _ => PlaybackStatus::Unknown,
    }
}

/// Microseconds as whole seconds, rounded toward zero.
pub open spec fn whole_seconds(micros: int) -> int {
    if micros >= 0 {
        micros / 1_000_000
    } else {
        -((-micros) / 1_000_000)
    }
}

/// The position that a `Position` property reports, in seconds; zero where
/// it is missing or not an integer.
pub open spec fn seconds_of(v: Option<PropValue>) -> int {
    match v {
        Some(PropValue::Int(micros)) => whole_seconds(micros as int),
        _ => 0,
    }
}

/// The snapshot that the properties of a service describe.
pub open spec fn snapshot_of(service_id: Seq<char>, props: PlayerProperties) -> SnapshotView {
    SnapshotView {
        service_id,
        status: status_of(props.playback_status),
        position_seconds: seconds_of(props.position),
        title: text_field(props.metadata, "xesam:title"@),
        album: text_field(props.metadata, "xesam:album"@),
        artists: artists_of(props.metadata),
        url: text_field(props.metadata, "xesam:url"@),
    }
}

/// Reads a status name.
pub fn parse_status(name: &str) -> (status: PlaybackStatus)
    ensures
        status == status_named(name@),
{
    if same_text(name, "Playing") {
        PlaybackStatus::Playing
    } else if same_text(name, "Paused") {
        PlaybackStatus::Paused
    } else if same_text(name, "Stopped") {
        PlaybackStatus::Stopped
    } else {
        PlaybackStatus::Unknown
    }
}

/// Converts a position in microseconds to whole seconds, rounding toward
/// zero.
pub fn micros_to_seconds(micros: i64) -> (secs: i64)
    ensures
        secs == whole_seconds(micros as int),
{
    if micros >= 0 {
        ((micros as u64) / 1_000_000) as i64
    } else {
        let magnitude: u64 = (-(micros as i128)) as u64;
        -((magnitude / 1_000_000) as i64)
    }
}

/// Finds the value stored under the string key `key`.
pub fn get<'a>(entries: &'a Vec<(PropValue, PropValue)>, key: &str) -> (found: Option<&'a PropValue>)
    ensures
        match found {
            Some(v) => lookup(entries@, key@) == Some(*v),
            None => lookup(entries@, key@) is None,
        },
{
    let mut i: usize = entries.len();
    assert(entries@.take(i as int) == entries@);
    while i > 0
        invariant
            i <= entries.len(),
            lookup(entries@, key@) == lookup(entries@.take(i as int), key@),
        decreases i,
    {
        i -= 1;
        assert(entries@.take(i + 1).drop_last() == entries@.take(i as int));
        match &entries[i].0 {
            PropValue::Str(name) => {
                if same_text(name.as_str(), key) {
                    return Some(&entries[i].1);
                }
            },
            _ => {},
        }
    }
    assert(entries@.take(0).len() == 0);
    None
}

/// Finds the value under `key` in a metadata block.
pub fn get_field<'a>(metadata: &'a Option<PropValue>, key: &str) -> (found: Option<&'a PropValue>)
    ensures
        match found {
            Some(v) => field(*metadata, key@) == Some(*v),
            None => field(*metadata, key@) is None,
        },
{
    match metadata {
        Some(PropValue::Dict(entries)) => get(entries, key),
        _ => None,
    }
}

/// Reads the text under `key` in a metadata block.
pub fn get_text(metadata: &Option<PropValue>, key: &str) -> (found: Option<String>)
    ensures
        opt_text(found) == text_field(*metadata, key@),
{
    match get_field(metadata, key) {
        Some(PropValue::Str(s)) => Some(s.clone()),
        _ => None,
    }
}

/// Collects the strings among `items`, in their order.
pub fn collect_strings(items: &Vec<PropValue>) -> (out: Vec<String>)
    ensures
        texts(out@) == strings_in(items@),
{
    let mut out: Vec<String> = Vec::new();
    let mut i: usize = 0;
    assert(items@.take(0).len() == 0);
    while i < items.len()
        invariant
            i <= items.len(),
            texts(out@) == strings_in(items@.take(i as int)),
        decreases items.len() - i,
    {
        assert(items@.take(i + 1).drop_last() == items@.take(i as int));
        match &items[i] {
            PropValue::Str(s) => {
                let ghost before = out@;
                out.push(s.clone());
                assert(texts(out@) == texts(before).push(s@));
            },
            _ => {},
        }
        i += 1;
    }
    assert(items@.take(i as int) == items@);
    out
}

/// Builds the snapshot of the service `service_id` from its properties.
pub fn extract(service_id: String, props: &PlayerProperties) -> (snapshot: Snapshot)
    ensures
        snapshot@ == snapshot_of(service_id@, *props),
{
    let status = match &props.playback_status {
        Some(PropValue::Str(name)) => parse_status(name.as_str()),
        _ => PlaybackStatus::Unknown,
    };
    let position_seconds = match &props.position {
        Some(PropValue::Int(micros)) => micros_to_seconds(*micros),
        _ => 0,
    };
    let title = get_text(&props.metadata, "xesam:title");
    let url = get_text(&props.metadata, "xesam:url");
    let album = get_text(&props.metadata, "xesam:album");
    let artists = match get_field(&props.metadata, "xesam:artist") {
        Some(PropValue::Array(items)) => collect_strings(items),
        _ => Vec::new(),
    };
    let snapshot = Snapshot { service_id, status, position_seconds, title, album, artists, url };
    assert(texts(Seq::<String>::empty()) == Seq::<Seq<char>>::empty());
    snapshot
}

} // verus!
