//! The voice-activity detector's decision: speech starts after three loud
//! frames in a row and stops after ten quiet ones.
use vstd::prelude::*;

verus! {

/// Frames in a row above the threshold that start speech.
pub const FRAMES_TO_START: u32 = 3;

/// Frames in a row at or below the threshold that end speech.
pub const FRAMES_TO_STOP: u32 = 10;

#[derive(Debug, Clone, Copy, PartialEq, Eq, Structural)]
pub struct VadHysteresis {
    pub speaking: bool,
    pub frames_above: u32,
    pub frames_below: u32,
}

impl VadHysteresis {
    pub fn new() -> (res: VadHysteresis)
        ensures
            res == (VadHysteresis { speaking: false, frames_above: 0, frames_below: 0 }),
    {
        VadHysteresis { speaking: false, frames_above: 0, frames_below: 0 }
    }

    /// The state after one frame, loud when `above`.
    pub open spec fn after(self, above: bool) -> VadHysteresis {
        let a = if above {
            (self.frames_above + 1) as u32
        } else {
            0
        };
        let b = if above {
            0
        } else {
            (self.frames_below + 1) as u32
        };
        let speaking = if a >= FRAMES_TO_START {
            true
        } else if b >= FRAMES_TO_STOP {
            false
        } else {
            self.speaking
        };
        VadHysteresis { speaking, frames_above: a, frames_below: b }
    }

    /// One frame; returns whether speech is heard.
    pub fn step(&mut self, above: bool) -> (res: bool)
        requires
            above ==> old(self).frames_above < u32::MAX,
            !above ==> old(self).frames_below < u32::MAX,
        ensures
            *final(self) == old(self).after(above),
            res == final(self).speaking,
    {
        if above {
            self.frames_above = self.frames_above + 1;
            self.frames_below = 0;
        } else {
            self.frames_above = 0;
            self.frames_below = self.frames_below + 1;
        }
        if self.frames_above >= FRAMES_TO_START {
            self.speaking = true;
        } else if self.frames_below >= FRAMES_TO_STOP {
            self.speaking = false;
        }
        self.speaking
    }
}

/// Three loud frames in a row always mean speech.
pub proof fn law_three_loud_frames_start_speech(v: VadHysteresis)
    requires
        v.frames_above < u32::MAX - 3,
    ensures
        v.after(true).after(true).after(true).speaking,
{
}

/// Ten quiet frames in a row always end speech.
pub proof fn law_ten_quiet_frames_stop_speech(v: VadHysteresis)
    requires
        v.frames_below < u32::MAX - 10,
    ensures
        v.after(false).after(false).after(false).after(false).after(false).after(false).after(
            false,
        ).after(false).after(false).after(false).speaking == false,
{
}

} // verus!
