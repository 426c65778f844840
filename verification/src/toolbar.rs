//! What the main window's toolbar shows: the transport clock and which
//! view tabs can be switched to.
use crate::text::{decimal, decimal_string, push_char, push_zero_padded, zero_pad};
use vstd::prelude::*;

verus! {

/// The clock in seconds mode, `MM:SS:CC`: whole minutes, the seconds within
/// the minute and hundredths of a second, each at least two digits.
pub open spec fn seconds_clock_text(seconds: nat, centiseconds: nat) -> Seq<char> {
    zero_pad(decimal(seconds / 60), 2) + seq![':'] + zero_pad(decimal(seconds % 60), 2) + seq![':']
        + zero_pad(decimal(centiseconds), 2)
}

/// The clock in beats mode, `BBB:b`: the bar counted from one with at least
/// three digits, then the beat in the bar counted from one, padded to as many
/// digits as the time signature's numerator has.
pub open spec fn beats_clock_text(bar: nat, beat_in_bar: nat, numerator: nat) -> Seq<char> {
    zero_pad(decimal(bar + 1), 3) + seq![':'] + zero_pad(
        decimal(beat_in_bar + 1),
        decimal(numerator).len(),
    )
}

/// Formats the playback position in seconds mode.  `centiseconds` is the
/// fractional second in hundredths.
pub fn seconds_clock(seconds: u64, centiseconds: u8) -> (text: String)
    ensures
        text@ == seconds_clock_text(seconds as nat, centiseconds as nat),
{
    let mut text = String::new();
    push_zero_padded(&mut text, seconds / 60, 2);
    push_char(&mut text, ':');
    push_zero_padded(&mut text, seconds % 60, 2);
    push_char(&mut text, ':');
    push_zero_padded(&mut text, centiseconds as u64, 2);
    text
}

/// Formats the playback position in beats mode.  Bars and beats are counted
/// from zero and shown from one.
pub fn beats_clock(bar: u32, beat_in_bar: u32, numerator: u8) -> (text: String)
    requires
        numerator > 0,
    ensures
        text@ == beats_clock_text(bar as nat, beat_in_bar as nat, numerator as nat),
{
    let width = decimal_string(numerator as u64).as_str().unicode_len();
    let mut text = String::new();
    push_zero_padded(&mut text, bar as u64 + 1, 3);
    push_char(&mut text, ':');
    push_zero_padded(&mut text, beat_in_bar as u64 + 1, width);
    text
}

/// The views of the arrangement.
#[derive(Clone, Copy, Debug, PartialEq, Eq, Structural)]
pub enum Tab {
    Playlist,
    Mixer,
    PianoRoll,
}

/// Which tab buttons can be pressed.
#[derive(Clone, Copy, Debug, PartialEq, Eq, Structural)]
pub struct TabButtons {
    pub playlist: bool,
    pub mixer: bool,
    pub piano_roll: bool,
}

/// A tab button switches to its view unless that view is already shown; the
/// piano roll also needs a MIDI clip to be open.
pub fn tab_buttons(current: Tab, has_midi_clip: bool) -> (buttons: TabButtons)
    ensures
        buttons.playlist == (current != Tab::Playlist),
        buttons.mixer == (current != Tab::Mixer),
        buttons.piano_roll == (has_midi_clip && current != Tab::PianoRoll),
{
    TabButtons {
        playlist: current != Tab::Playlist,
        mixer: current != Tab::Mixer,
        piano_roll: has_midi_clip && current != Tab::PianoRoll,
    }
}

} // verus!
