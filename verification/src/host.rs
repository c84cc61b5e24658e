//! What is made of the answers of the machine the program runs on: the modes
//! of its monitor and the names of its processes.

use vstd::prelude::*;
use crate::text::{contains, occurs};

verus! {

/// The refresh rate to offer where the monitor has none to tell.
pub const FALLBACK_REFRESH_RATE: u32 = 60;

/// What the name of a process of the game holds.
pub const GAME_PROCESS_NAME: &'static str = "Wuthering Waves";

/// One mode of a monitor.
#[derive(Clone, Copy, Debug, PartialEq, Eq, Structural)]
pub struct VideoMode {
    pub width: u32,
    pub height: u32,
    pub refresh_rate: u32,
}

/// Whether two modes have the same resolution.
pub open spec fn same_resolution(a: VideoMode, b: VideoMode) -> bool {
    a.width == b.width && a.height == b.height
}

/// Whether position `at` of `modes` holds a mode of the resolution of
/// `current`.
pub open spec fn fits_at(current: VideoMode, modes: Seq<VideoMode>, at: int) -> bool {
    0 <= at < modes.len() && same_resolution(modes[at], current)
}

/// Whether `rate` is the highest refresh rate among the modes of `modes` that
/// have the resolution of `current`, or the fallback where none has it.
pub open spec fn is_best_refresh_rate(current: VideoMode, modes: Seq<VideoMode>, rate: u32) -> bool {
    if exists|at: int| fits_at(current, modes, at) {
        &&& exists|at: int| fits_at(current, modes, at) && modes[at].refresh_rate == rate
        &&& forall|at: int| fits_at(current, modes, at) ==> modes[at].refresh_rate <= rate
    } else {
        rate == FALLBACK_REFRESH_RATE
    }
}

/// The highest refresh rate that the monitor offers at the resolution it runs
/// at: `current` is the mode it runs in, `modes` are all that it offers.
pub fn best_refresh_rate(current: &VideoMode, modes: &Vec<VideoMode>) -> (rate: u32)
    ensures
        is_best_refresh_rate(*current, modes@, rate),
{
    let mut best: Option<u32> = None;
    let mut at: usize = 0;
    while at < modes.len()
        invariant
            at <= modes.len(),
            match best {
                Some(rate) => {
                    &&& exists|i: int| 0 <= i < at && fits_at(*current, modes@, i) && modes@[i].refresh_rate == rate
                    &&& forall|i: int|
                        0 <= i < at && fits_at(*current, modes@, i) ==> modes@[i].refresh_rate
                            <= rate
                },
                None => forall|i: int| 0 <= i < at ==> !fits_at(*current, modes@, i),
            },
        decreases modes.len() - at,
    {
        let mode = &modes[at];
        if mode.width == current.width && mode.height == current.height {
            assert(fits_at(*current, modes@, at as int));
            match best {
                Some(rate) => {
                    if mode.refresh_rate > rate {
                        best = Some(mode.refresh_rate);
                    }
                },
                None => {
                    best = Some(mode.refresh_rate);
                },
            }
        }
        at += 1;
    }
    match best {
        Some(rate) => rate,
        None => FALLBACK_REFRESH_RATE,
    }
}

/// The refresh rate to offer for the primary monitor: its best at the
/// resolution it runs at, or the fallback where there is no monitor.
pub fn monitor_refresh_rate(monitor: &Option<(VideoMode, Vec<VideoMode>)>) -> (rate: u32)
    ensures
        match monitor {
            Some(seen) => is_best_refresh_rate(seen.0, seen.1@, rate),
            None => rate == FALLBACK_REFRESH_RATE,
        },
{
    match monitor {
        Some(seen) => best_refresh_rate(&seen.0, &seen.1),
        None => FALLBACK_REFRESH_RATE,
    }
}

/// Whether a process called `name` is one of the game.
pub open spec fn is_game_process(name: Seq<char>) -> bool {
    occurs(name, GAME_PROCESS_NAME@)
}

/// Tells whether the game runs, from the names of the processes that do.
pub fn game_is_running(names: &Vec<String>) -> (running: bool)
    ensures
        running == exists|at: int| 0 <= at < names.len() && is_game_process(#[trigger] names@[at]@),
{
    let mut at: usize = 0;
    while at < names.len()
        invariant
            at <= names.len(),
            forall|i: int| 0 <= i < at ==> !is_game_process(#[trigger] names@[i]@),
        decreases names.len() - at,
    {
        if contains(names[at].as_str(), GAME_PROCESS_NAME) {
            return true;
        }
        at += 1;
    }
    false
}

} // verus!
