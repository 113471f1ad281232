//! The stream state shared between the audio callback and the
//! configuration surface: the settings, the overlap buffer of the last
//! PCM frame, the current color and the current effect.  The embedder
//! holds one `InnerStream` behind its lock and calls the mutators here;
//! every mutation takes effect at the next tick boundary.

use vstd::prelude::*;

use crate::effects::Effect;
use crate::fixed::RAW_MAX;

verus! {

/// Largest number of intensity bins the configuration surface offers.
pub const N_BINS_MAX: usize = 100;

/// Largest frequency the configuration surface offers, in Hz.
pub const FREQUENCY_MAX: u16 = 20000;

/// The audio settings of a stream.
#[derive(Debug, Clone, Copy, PartialEq, Eq, Structural)]
pub struct Settings {
    /// Requested length of the intensity vector, in `[1, 100]`.
    pub n_bins: usize,
    /// Lower edge of the mel filter range, in Hz.
    pub min_frequency: u16,
    /// Upper edge of the mel filter range, in Hz; above the lower edge.
    pub max_frequency: u16,
}

impl Settings {
    /// The bin count is in range and the frequency range is non-empty.
    pub open spec fn wf(&self) -> bool {
        &&& 1 <= self.n_bins <= N_BINS_MAX
        &&& self.min_frequency < self.max_frequency
        &&& self.max_frequency <= FREQUENCY_MAX
    }
}

impl Default for Settings {
    /// The settings a stream starts with: 60 bins over 20 Hz to 12 kHz.
    fn default() -> (s: Settings)
        ensures
            s.wf(),
            s.n_bins == 60,
            s.min_frequency == 20,
            s.max_frequency == 12000,
    {
        Settings { n_bins: 60, min_frequency: 20, max_frequency: 12000 }
    }
}

/// The state of one open stream, shared between the audio callback and
/// the configuration surface; the embedder keeps it behind a lock.
pub struct InnerStream {
    /// The previous callback's PCM frame, kept for the overlap; empty
    /// until the first tick, then of invariant length.
    pub last_frame: Vec<i64>,
    /// The current audio settings.
    pub settings: Settings,
    /// The sample rate of the open stream, in Hz.
    pub sample_rate: u32,
    /// The color effects paint with.
    pub color: [u8; 3],
    /// The current effect, exclusively owned here.
    pub effect: Effect,
}

impl InnerStream {
    /// The settings are well-formed, so is the effect's state, and the
    /// kept PCM frame stays within the raw amplitude range.
    pub open spec fn wf(&self) -> bool {
        &&& self.settings.wf()
        &&& self.effect.wf()
        &&& forall|i: int|
            0 <= i < self.last_frame@.len() ==> -RAW_MAX <= #[trigger] self.last_frame@[i]
                <= RAW_MAX
    }

    /// A fresh stream state: no previous frame, white color.
    pub fn new(settings: Settings, sample_rate: u32, effect: Effect) -> (s: InnerStream)
        requires
            settings.wf(),
            effect.wf(),
        ensures
            s.wf(),
            s.last_frame@.len() == 0,
            s.settings == settings,
            s.sample_rate == sample_rate,
            s.color == [255u8, 255u8, 255u8],
            s.effect == effect,
    {
        InnerStream {
            last_frame: Vec::new(),
            settings,
            sample_rate,
            color: [255, 255, 255],
            effect,
        }
    }

    /// Replace the settings; takes effect at the next tick.
    pub fn update_settings(&mut self, settings: Settings)
        requires
            old(self).wf(),
            settings.wf(),
        ensures
            final(self).wf(),
            final(self).settings == settings,
            final(self).last_frame == old(self).last_frame,
            final(self).sample_rate == old(self).sample_rate,
            final(self).color == old(self).color,
            final(self).effect == old(self).effect,
    {
        self.settings = settings;
    }

    /// Replace the color; ignored by effects that paint themselves.
    pub fn update_color(&mut self, rgb: [u8; 3])
        requires
            old(self).wf(),
        ensures
            final(self).wf(),
            final(self).color == rgb,
            final(self).last_frame == old(self).last_frame,
            final(self).settings == old(self).settings,
            final(self).sample_rate == old(self).sample_rate,
            final(self).effect == old(self).effect,
    {
        self.color = rgb;
    }

    /// Replace the effect; the old one is dropped and the next tick uses
    /// the new one's bin count and rendering.
    pub fn update_effect(&mut self, effect: Effect)
        requires
            old(self).wf(),
            effect.wf(),
        ensures
            final(self).wf(),
            final(self).effect == effect,
            final(self).last_frame == old(self).last_frame,
            final(self).settings == old(self).settings,
            final(self).sample_rate == old(self).sample_rate,
            final(self).color == old(self).color,
    {
        self.effect = effect;
    }

    /// Whether the external color selection drives the current effect.
    pub fn is_color_selection_used(&self) -> (r: bool)
        ensures
            r == !self.effect.disable_color_wheel_spec(),
    {
        !self.effect.disable_color_wheel()
    }
}

} // verus!
