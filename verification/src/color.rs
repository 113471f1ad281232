//! The color fader: a current RGB color plus a running linear transition.
//!
//! A transition is started by `change_color`, which divides the distance
//! to the target by the transition time into per-channel steps, and
//! advanced by one step on every `rgb` call until the step count runs
//! out.  Note the channel asymmetry inherited from the rule set: the red
//! step divides the whole distance by the transition time, while the
//! green and blue steps subtract only the divided current channel.

use vstd::prelude::*;

use crate::fixed::{clamp, div_trunc64, tdiv};

verus! {

/// Color object to paint effects and advance color changes.
pub struct Color {
    /// The current color.
    pub color: [u8; 3],
    /// How many frames the next color change takes.
    pub transition_time: u8,
    /// Frames still needed to finish the running color change.
    pub transition_step: Option<u8>,
    /// Per-channel step added to the color on every frame of a change.
    pub transition_color: Option<[i16; 3]>,
}

/// The red step of a transition: the channel distance divided by the
/// transition time.
pub open spec fn step_red(from: int, to: int, t: int) -> int {
    tdiv(to - from, t)
}

/// The green and blue steps of a transition: the target channel minus
/// the current channel divided by the transition time — division binds
/// tighter than subtraction on these two channels.
pub open spec fn step_green_blue(from: int, to: int, t: int) -> int {
    to - tdiv(from, t)
}

impl Color {
    /// The default number of frames a color change takes.
    pub const DEFAULT_TRANSITION_TIME: u8 = 20;

    /// A transition runs over at least one frame, the step count and the
    /// step color exist only together, and each channel step fits the
    /// span of a byte.
    pub open spec fn wf(&self) -> bool {
        &&& self.transition_time >= 1
        &&& (self.transition_step is Some <==> self.transition_color is Some)
        &&& (self.transition_color matches Some(tc) ==> -255 <= tc[0] <= 255 && -255 <= tc[1]
            <= 255 && -255 <= tc[2] <= 255)
    }

    /// Create a new color object from an RGB triple.
    pub fn new(rgb: [u8; 3]) -> (c: Self)
        ensures
            c.wf(),
            c.color == rgb,
            c.transition_time == Color::DEFAULT_TRANSITION_TIME,
            c.transition_step is None,
            c.transition_color is None,
    {
        Color {
            color: rgb,
            transition_time: Self::DEFAULT_TRANSITION_TIME,
            transition_step: None,
            transition_color: None,
        }
    }

    /// A white color object.
    pub fn white() -> (c: Self)
        ensures
            c.wf(),
            c.color == [255u8, 255u8, 255u8],
            c.transition_time == Color::DEFAULT_TRANSITION_TIME,
            c.transition_step is None,
            c.transition_color is None,
    {
        Self::new([255, 255, 255])
    }

    /// The current color; while a transition runs, first advance it by
    /// one frame.  A finished transition (zero steps remaining) is
    /// cleared and leaves the color as it is; otherwise the step color
    /// is added per channel, saturating into the byte range, and the
    /// remaining step count drops by one.
    pub fn rgb(&mut self) -> (c: [u8; 3])
        requires
            old(self).wf(),
        ensures
            final(self).wf(),
            c == final(self).color,
            final(self).transition_time == old(self).transition_time,
            old(self).transition_step is None ==> *final(self) == *old(self),
            old(self).transition_step == Some(0u8) ==> final(self).transition_step is None
                && final(self).transition_color is None && final(self).color == old(self).color,
            old(self).transition_step is Some && old(self).transition_step->Some_0 >= 1 ==> final(self).transition_step == Some((old(self).transition_step->Some_0 - 1) as u8) && final(self).transition_color == old(self).transition_color,
            old(self).transition_step is Some && old(self).transition_step->Some_0 >= 1 ==> final(self).color[0] as int == clamp(
                old(self).color[0] + old(self).transition_color->Some_0[0],
                0,
                255,
            ) && final(self).color[1] as int == clamp(
                old(self).color[1] + old(self).transition_color->Some_0[1],
                0,
                255,
            ) && final(self).color[2] as int == clamp(
                old(self).color[2] + old(self).transition_color->Some_0[2],
                0,
                255,
            ),
    {
        match self.transition_step {
            None => {},
            Some(step) => {
                // a finished transition is cleared before it is read
                if step == 0 {
                    self.transition_step = None;
                    self.transition_color = None;
                }
                match self.transition_color {
                    None => {},
                    Some(tc) => {
                        let r = self.color[0] as i16 + tc[0];
                        let g = self.color[1] as i16 + tc[1];
                        let b = self.color[2] as i16 + tc[2];
                        self.color = [saturate_byte(r), saturate_byte(g), saturate_byte(b)];
                        self.transition_step = Some(step - 1);
                    },
                }
            },
        }
        self.color
    }

    /// Start a color change toward `rgb`: the red step is the channel
    /// distance divided by the transition time, the green and blue steps
    /// divide only the current channel before subtracting, and the step
    /// count is set to the transition time.
    pub fn change_color(&mut self, rgb: [u8; 3])
        requires
            old(self).wf(),
        ensures
            final(self).wf(),
            final(self).color == old(self).color,
            final(self).transition_time == old(self).transition_time,
            final(self).transition_step == Some(old(self).transition_time),
            final(self).transition_color matches Some(tc) && tc[0] as int == step_red(
                old(self).color[0] as int,
                rgb[0] as int,
                old(self).transition_time as int,
            ) && tc[1] as int == step_green_blue(
                old(self).color[1] as int,
                rgb[1] as int,
                old(self).transition_time as int,
            ) && tc[2] as int == step_green_blue(
                old(self).color[2] as int,
                rgb[2] as int,
                old(self).transition_time as int,
            ),
    {
        let t = self.transition_time as i64;
        let step_r = div_trunc64(rgb[0] as i64 - self.color[0] as i64, t) as i16;
        let step_g = (rgb[1] as i64 - div_trunc64(self.color[1] as i64, t)) as i16;
        let step_b = (rgb[2] as i64 - div_trunc64(self.color[2] as i64, t)) as i16;

        self.transition_step = Some(self.transition_time);
        self.transition_color = Some([step_r, step_g, step_b]);
    }

    /// Set how many frames the next color change will take; a change
    /// needs at least one frame.
    pub fn change_transition_time(&mut self, transition_time: u8)
        requires
            old(self).wf(),
            transition_time >= 1,
        ensures
            final(self).wf(),
            final(self).transition_time == transition_time,
            final(self).color == old(self).color,
            final(self).transition_step == old(self).transition_step,
            final(self).transition_color == old(self).transition_color,
    {
        self.transition_time = transition_time;
    }
}

/// Clamp a channel value into the byte range.
fn saturate_byte(x: i16) -> (b: u8)
    ensures
        b as int == clamp(x as int, 0, 255),
{
    if x < 0 {
        0
    } else if x > 255 {
        255
    } else {
        x as u8
    }
}

} // verus!
