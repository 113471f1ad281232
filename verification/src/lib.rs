//! Audio-reactive LED core: a realtime DSP pipeline (frame overlap,
//! pre-emphasis, silence gating, windowing, power spectrum, mel-filterbank
//! projection), the filter and detection primitives shared by the light
//! effects, the effects themselves, and the transpose step that turns an
//! intensity vector into a DMX byte buffer.
//!
//! Every signal amplitude is carried as a fixed-point integer counting
//! steps of `1 / UNIT` (see the `fixed` module), so that each stage's
//! arithmetic can be stated and proved exactly.

use vstd::prelude::*;

pub mod fixed;
pub mod math;
pub mod smoothing;
pub mod detection;
pub mod melbank;
pub mod color;
pub mod channel;
pub mod stream;
pub mod effects;
pub mod dsp;

verus! {

/// Length of the smoothing filter used on preview-sized vectors.
pub const FPS: usize = 100;

/// All errors that can occur on the configuration surface.  The variants
/// that wrap a platform failure carry no payload here; the embedder
/// keeps the underlying error beside them.
#[derive(Debug, Clone, Copy, PartialEq, Eq, Structural)]
pub enum ControllerError {
    /// The platform audio layer failed.
    CpalFailure,
    /// The network sender failed.
    SacnFailure,
    /// No input device is available or selected.
    NoDeviceFound,
    /// No input configuration with float samples is available.
    NoSupportedConfig,
    /// The requested effect name is not registered.
    NoValidEffectName,
    /// A mutator was called before a stream was opened.
    NoStream,
}

/// An audio input device the embedder can open a stream on: its index in
/// the platform's enumeration and its display name.
#[derive(Clone, Debug)]
pub struct InputDevice {
    /// The device's position in the enumeration.
    pub id: usize,
    /// The device's display name.
    pub name: String,
}

} // verus!
