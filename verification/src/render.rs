//! Rendering the two presence lines from the selected snapshot.

use vstd::prelude::*;
use vstd::string::*;
use crate::select::SelectError;
use crate::snapshot::{Config, ConfigView, PlaybackStatus, Snapshot, SnapshotView};
use crate::style::{change, computes, styled};
use crate::text::texts;
use crate::time_format::{format_time, time_text};
use crate::truncate::{truncate_utf8_bytes, truncated};
use crate::variants::{
    bold,
    bold_script,
    italic,
    math_bold_of,
    math_bold_script_of,
    math_italic_of,
};

verus! {

/// The most bytes that the details line may take before it is cut.
pub const DETAILS_MAX_BYTES: usize = 125;

/// The presence that is handed to the publishing sink.
#[derive(Clone, Debug)]
pub struct Presence {
    pub state: String,
    pub details: String,
    pub large_image: String,
    pub large_text: String,
}

/// What the sink is told at the end of a tick.
#[derive(Clone, Debug)]
pub enum Outcome {
    Publish(Presence),
    Clear,
}

/// The styled form of `s`, or `s` itself where styling fails.
pub open spec fn styled_or_plain(s: Seq<char>, variant: spec_fn(char) -> Option<char>) -> Seq<char> {
    match styled(s, variant) {
        Some(t) => t,
        None => s,
    }
}

/// `s` styled where `wanted`, else as it is.
pub open spec fn shown(wanted: bool, s: Seq<char>, variant: spec_fn(char) -> Option<char>) -> Seq<
    char,
> {
    if wanted {
        styled_or_plain(s, variant)
    } else {
        s
    }
}

/// The texts of `items`, with `", "` between neighbours.
pub open spec fn joined(items: Seq<Seq<char>>) -> Seq<char>
    decreases items.len(),
{
    if items.len() == 0 {
        Seq::empty()
    } else if items.len() == 1 {
        items[0]
    } else {
        joined(items.drop_last()) + ", "@ + items.last()
    }
}

/// The text of an optional field; empty where it is unset.
pub open spec fn text_or_empty(field: Option<Seq<char>>) -> Seq<char> {
    match field {
        Some(t) => t,
        None => Seq::empty(),
    }
}

/// The artists as they are shown: joined, and in italics where styling is
/// wanted.
pub open spec fn artists_line(
    snapshot: SnapshotView,
    config: ConfigView,
    italic: spec_fn(char) -> Option<char>,
) -> Seq<char> {
    shown(config.embolden_titles, joined(snapshot.artists), italic)
}

/// The state line. A playing snapshot reads `By: ` and the artists, the word
/// `By` in bold script where styling is wanted. Any other snapshot reads as
/// paused at the remembered position.
pub open spec fn state_line(
    snapshot: SnapshotView,
    config: ConfigView,
    remembered: Seq<char>,
    italic: spec_fn(char) -> Option<char>,
    script: spec_fn(char) -> Option<char>,
) -> Seq<char> {
    if snapshot.status == PlaybackStatus::Playing {
        shown(config.embolden_titles, "By"@, script) + ": "@ + artists_line(
            snapshot,
            config,
            italic,
        )
    } else {
        "Paused @ "@ + remembered + " • \nBy: "@ + artists_line(snapshot, config, italic)
    }
}

/// The details line before it is cut: title and album between their marks,
/// the title in bold where styling is wanted.
pub open spec fn details_text(
    snapshot: SnapshotView,
    config: ConfigView,
    bold: spec_fn(char) -> Option<char>,
) -> Seq<char> {
    "🎵 "@ + shown(config.embolden_titles, text_or_empty(snapshot.title), bold) + " • 💿 "@
        + text_or_empty(snapshot.album)
}

/// The details line.
pub open spec fn details_line(
    snapshot: SnapshotView,
    config: ConfigView,
    bold: spec_fn(char) -> Option<char>,
) -> Seq<char> {
    truncated(details_text(snapshot, config, bold), DETAILS_MAX_BYTES as nat)
}

/// The remembered position after a tick: the position of a playing snapshot,
/// else what was remembered before.
pub open spec fn remembered_after(snapshot: SnapshotView, remembered: Seq<char>) -> Seq<char> {
    if snapshot.status == PlaybackStatus::Playing {
        time_text(snapshot.position_seconds)
    } else {
        remembered
    }
}

/// The remembered position at startup, before any player was seen playing.
pub fn initial_position() -> (remembered: String)
    ensures
        remembered@ == "0"@,
{
    String::from_str("0")
}

/// Joins `items` with `", "` between neighbours.
pub fn join(items: &Vec<String>) -> (out: String)
    ensures
        out@ == joined(texts(items@)),
{
    let ghost all = texts(items@);
    let mut out = String::new();
    let mut i: usize = 0;
    assert(all.take(0).len() == 0);
    while i < items.len()
        invariant
            i <= items.len(),
            all == texts(items@),
            out@ == joined(all.take(i as int)),
        decreases items.len() - i,
    {
        let ghost before = out@;
        assert(all.take(i + 1).drop_last() == all.take(i as int));
        if i > 0 {
            out.append(", ");
        }
        out.append(items[i].as_str());
        proof {
            if i == 0 {
                assert(before + all[0] == all[0]);
            } else if i == 1 {
                assert(all.take(1)[0] == all[0]);
            }
        }
        i += 1;
    }
    assert(all.take(i as int) == all);
    out
}

/// Styles `s` with `modifier`, keeping `s` as it is where styling fails.
pub fn style_or_keep<F: Fn(char) -> Option<char>>(s: String, modifier: F) -> (out: String)
    requires
        forall|c: char| call_requires(modifier, (c,)),
    ensures
        forall|variant: spec_fn(char) -> Option<char>| #[trigger]
            computes(modifier, variant) ==> out@ == styled_or_plain(s@, variant),
{
    match change(s.as_str(), modifier) {
        Ok(out) => out,
        Err(_) => s,
    }
}

/// Renders the presence of `snapshot` with the given character mappings:
/// `bold` for the title, `italic` for the artists, and `script` for the word
/// `By`. The remembered position is overwritten by a playing snapshot and
/// read otherwise.
pub fn render_with<B, I, S>(
    snapshot: &Snapshot,
    config: &Config,
    remembered: &mut String,
    bold: B,
    italic: I,
    script: S,
) -> (presence: Presence) where
    B: Fn(char) -> Option<char>,
    I: Fn(char) -> Option<char>,
    S: Fn(char) -> Option<char>,

    requires
        forall|c: char| call_requires(bold, (c,)),
        forall|c: char| call_requires(italic, (c,)),
        forall|c: char| call_requires(script, (c,)),
    ensures
        forall|
            b: spec_fn(char) -> Option<char>,
            i: spec_fn(char) -> Option<char>,
            s: spec_fn(char) -> Option<char>,
        |
            #![trigger computes(bold, b), computes(italic, i), computes(script, s)]
            computes(bold, b) && computes(italic, i) && computes(script, s) ==> {
                &&& presence.state@ == state_line(snapshot@, config@, old(remembered)@, i, s)
                &&& presence.details@ == details_line(snapshot@, config@, b)
            },
        presence.large_image@ == "arch_icon"@,
        presence.large_text@ == "#ARCHONTOP"@,
        final(remembered)@ == remembered_after(snapshot@, old(remembered)@),
{
    let mut title = match &snapshot.title {
        Some(t) => t.clone(),
        None => String::new(),
    };
    let album = match &snapshot.album {
        Some(a) => a.clone(),
        None => String::new(),
    };
    let mut artists = join(&snapshot.artists);
    let mut label = String::from_str("By");
    if config.embolden_titles {
        title = style_or_keep(title, bold);
        artists = style_or_keep(artists, italic);
    }
    let mut state: String;
    match snapshot.status {
        PlaybackStatus::Playing => {
            if config.embolden_titles {
                label = style_or_keep(label, script);
            }
            state = label;
            state.append(": ");
            state.append(artists.as_str());
            *remembered = format_time(snapshot.position_seconds);
        },
        _ => {
            state = String::from_str("Paused @ ");
            state.append(remembered.as_str());
            state.append(" • \nBy: ");
            state.append(artists.as_str());
        },
    }
    let mut details = String::from_str("🎵 ");
    details.append(title.as_str());
    details.append(" • 💿 ");
    details.append(album.as_str());
    let details = truncate_utf8_bytes(details, DETAILS_MAX_BYTES);
    Presence {
        state,
        details,
        large_image: String::from_str("arch_icon"),
        large_text: String::from_str("#ARCHONTOP"),
    }
}

/// Renders the presence of `snapshot`, styling with the bold, italic and
/// bold script tables of mathematical symbols.
pub fn render(snapshot: &Snapshot, config: &Config, remembered: &mut String) -> (presence: Presence)
    ensures
        presence.state@ == state_line(
            snapshot@,
            config@,
            old(remembered)@,
            |c: char| math_italic_of(c),
            |c: char| math_bold_script_of(c),
        ),
        presence.details@ == details_line(snapshot@, config@, |c: char| math_bold_of(c)),
        presence.large_image@ == "arch_icon"@,
        presence.large_text@ == "#ARCHONTOP"@,
        final(remembered)@ == remembered_after(snapshot@, old(remembered)@),
{
    let presence = render_with(snapshot, config, remembered, bold, italic, bold_script);
    proof {
        assert(computes(bold, |c: char| math_bold_of(c)));
        assert(computes(italic, |c: char| math_italic_of(c)));
        assert(computes(bold_script, |c: char| math_bold_script_of(c)));
    }
    presence
}

/// One tick of the poll loop: a selected snapshot is rendered and published;
/// a failed selection clears the presence and leaves the remembered position
/// as it was.
pub fn tick(selection: &Result<Snapshot, SelectError>, config: &Config, remembered: &mut String) -> (outcome:
    Outcome)
    ensures
        match *selection {
            Ok(snapshot) => {
                &&& outcome matches Outcome::Publish(presence)
                &&& presence.state@ == state_line(
                    snapshot@,
                    config@,
                    old(remembered)@,
                    |c: char| math_italic_of(c),
                    |c: char| math_bold_script_of(c),
                )
                &&& presence.details@ == details_line(snapshot@, config@, |c: char| math_bold_of(c))
                &&& presence.large_image@ == "arch_icon"@
                &&& presence.large_text@ == "#ARCHONTOP"@
                &&& final(remembered)@ == remembered_after(snapshot@, old(remembered)@)
            },
            Err(_) => outcome is Clear && final(remembered)@ == old(remembered)@,
        },
{
    match selection {
        Ok(snapshot) => Outcome::Publish(render(snapshot, config, remembered)),
        Err(_) => Outcome::Clear,
    }
}

} // verus!
