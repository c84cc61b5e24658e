//! What is made of the user's answers: which frame rate was asked for.

use vstd::prelude::*;
use crate::decimal::{natural_of_text, parse_u32};
use crate::edit::frame_rate_accepted;
use crate::text::{same_text, trim, trimmed};

verus! {

/// The frame rate that is taken where an answer is no number.
pub const DEFAULT_FRAME_RATE: u32 = 60;

/// The answer that takes the refresh rate of the monitor as the frame rate.
pub const CONFIRM_ANSWER: &'static str = "Yes";

/// The choice that lets the user type a frame rate.
pub const CUSTOM_CHOICE: &'static str = "Custom";

/// What the user chose from the list of frame rates.
#[derive(Clone, Copy, Debug, PartialEq, Eq, Structural)]
pub enum Choice {
    /// This frame rate.
    Rate(u32),
    /// A frame rate that is still to be typed.
    Custom,
}

/// The frame rate that `text` writes, or the default where it writes none
/// that fits in 32 bits.
pub open spec fn frame_rate_or_default(text: Seq<char>) -> u32 {
    match natural_of_text(text) {
        Some(n) => if n <= u32::MAX {
            n as u32
        } else {
            DEFAULT_FRAME_RATE
        },
        None => DEFAULT_FRAME_RATE,
    }
}

/// What the choice `selection` from the list of frame rates amounts to; no
/// choice amounts to the default.
pub open spec fn chosen(selection: Option<Seq<char>>) -> Choice {
    match selection {
        Some(text) => if text == CUSTOM_CHOICE@ {
            Choice::Custom
        } else {
            Choice::Rate(frame_rate_or_default(text))
        },
        None => Choice::Rate(DEFAULT_FRAME_RATE),
    }
}

/// The frame rates that are offered by name.
pub fn frame_rate_presets() -> (presets: Vec<u32>)
    ensures
        presets@ == seq![30u32, 60u32, 72u32, 90u32, 120u32, 144u32, 165u32, 240u32],
        forall|at: int| 0 <= at < presets@.len() ==> frame_rate_accepted(presets@[at] as int),
{
    let presets = vec![30u32, 60u32, 72u32, 90u32, 120u32, 144u32, 165u32, 240u32];
    assert(presets@ =~= seq![30u32, 60u32, 72u32, 90u32, 120u32, 144u32, 165u32, 240u32]);
    presets
}

/// The frame rate that `text` writes, or the default.
pub fn frame_rate_of(text: &str) -> (rate: u32)
    ensures
        rate == frame_rate_or_default(text@),
{
    match parse_u32(text) {
        Some(rate) => rate,
        None => DEFAULT_FRAME_RATE,
    }
}

/// The frame rate that the user typed on `line`: the line is read without
/// the white space around it, the end of the line included.
pub fn frame_rate_of_line(line: &str) -> (rate: u32)
    ensures
        rate == frame_rate_or_default(trimmed(line@)),
{
    frame_rate_of(trim(line))
}

/// Tells whether the user took the refresh rate of the monitor as the frame
/// rate: only the confirming answer does, and no answer does not.
pub fn accepts_monitor_rate(answer: Option<&str>) -> (accepted: bool)
    ensures
        accepted == match answer {
            Some(text) => text@ == CONFIRM_ANSWER@,
            None => false,
        },
{
    match answer {
        Some(text) => same_text(text, CONFIRM_ANSWER),
        None => false,
    }
}

/// Tells what the user's choice from the list of frame rates amounts to.
pub fn choice_of(selection: Option<&str>) -> (choice: Choice)
    ensures
        choice == chosen(
            match selection {
                Some(text) => Some(text@),
                None => None,
            },
        ),
{
    match selection {
        Some(text) => {
            if same_text(text, CUSTOM_CHOICE) {
                Choice::Custom
            } else {
                Choice::Rate(frame_rate_of(text))
            }
        },
        None => Choice::Rate(DEFAULT_FRAME_RATE),
    }
}

} // verus!
