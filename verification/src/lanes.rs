//! The label at the top of a track's lane on the timeline: the track's
//! place in the playlist, its name, its original tempo, whether keylock is
//! on, the gain volume leveling wrote for it, and, for a track the window
//! has no audio for, what is wrong with its file; and the curves a lane
//! can show.

use vstd::prelude::*;
use crate::relinking::{label_of, NoFile};
use crate::text::{decimal, decimal_text, joined};

verus! {

/// What a lane's label says about keylock.
pub open spec fn keylock_words(keylock: bool) -> Seq<char> {
    if keylock {
        "Keylock on"@
    } else {
        "Keylock off"@
    }
}

/// The label of the lane of the track at `track` in the playlist, counted
/// from zero, whose name is `name`, whose tempo and gain are written as
/// `bpm_text` and `gain_text`, and whose file has the note `no_file`, if
/// any. The place is counted from one, and the note ends the label.
pub open spec fn lane_label_of(
    track: nat,
    name: Seq<char>,
    bpm_text: Seq<char>,
    keylock: bool,
    gain_text: Seq<char>,
    no_file: Option<NoFile>,
) -> Seq<char> {
    decimal(track + 1) + ". "@ + name + "  \u{b7}  "@ + bpm_text + " BPM  \u{b7}  "@
        + keylock_words(keylock) + "  \u{b7}  "@ + gain_text + " dB"@ + match no_file {
        Some(note) => label_of(note),
        None => Seq::empty(),
    }
}

/// The label of a lane, as [`lane_label_of`] says: `1. kalifornia  ·  140.0
/// BPM  ·  Keylock off  ·  -6.0 dB`, with the file's note after it for a
/// track the window has no audio for.
pub fn lane_label(
    track: usize,
    name: &str,
    bpm_text: &str,
    keylock: bool,
    gain_text: &str,
    no_file: Option<NoFile>,
) -> (r: String)
    requires
        track < usize::MAX,
    ensures
        r@ == lane_label_of(track as nat, name@, bpm_text@, keylock, gain_text@, no_file),
{
    let place = decimal_text(track as u64 + 1);
    let a = joined(place.as_str(), ". ");
    let b = joined(a.as_str(), name);
    let c = joined(b.as_str(), "  \u{b7}  ");
    let d = joined(c.as_str(), bpm_text);
    let e = joined(d.as_str(), " BPM  \u{b7}  ");
    let words = if keylock {
        "Keylock on"
    } else {
        "Keylock off"
    };
    let f = joined(e.as_str(), words);
    let g = joined(f.as_str(), "  \u{b7}  ");
    let h = joined(g.as_str(), gain_text);
    let i = joined(h.as_str(), " dB");
    let r = match no_file {
        Some(note) => joined(i.as_str(), note.label()),
        None => i,
    };
    assert(r@ =~= lane_label_of(track as nat, name@, bpm_text@, keylock, gain_text@, no_file));
    r
}

/// The curves a lane can show and edit: the track's volume and the three
/// bands of its EQ.
#[derive(Clone, Copy, Debug, PartialEq, Eq, Structural)]
pub enum Curve {
    /// The track's volume.
    Volume,
    /// The low band of the EQ.
    Low,
    /// The middle band of the EQ.
    Mid,
    /// The high band of the EQ.
    High,
}

/// Every curve, in the order the window's selector lists them.
pub const CURVES: [Curve; 4] = [Curve::Volume, Curve::Low, Curve::Mid, Curve::High];

/// What a curve is called in the window.
pub open spec fn curve_name_of(curve: Curve) -> Seq<char> {
    match curve {
        Curve::Volume => "Volume"@,
        Curve::Low => "Low"@,
        Curve::Mid => "Mid"@,
        Curve::High => "High"@,
    }
}

/// What a curve is called in the window, as [`curve_name_of`] says.
pub fn curve_name(curve: Curve) -> (r: &'static str)
    ensures
        r@ == curve_name_of(curve),
{
    match curve {
        Curve::Volume => "Volume",
        Curve::Low => "Low",
        Curve::Mid => "Mid",
        Curve::High => "High",
    }
}

} // verus!
