//! The frames one tick publishes: a DMX byte buffer for the network
//! sender and a preview frame for the viewer.  The channel pair that
//! carries them between threads lives with the embedder; the library
//! only builds the frames.

use vstd::prelude::*;

verus! {

/// What one tick hands to the viewer: the uncolored intensity vector and
/// the color it was transposed with.
pub struct ViewFrame {
    /// The intensity vector the effect produced.
    pub effect: Vec<i64>,
    /// The color of this frame.
    pub color: [u8; 3],
}

/// What one tick publishes: DMX bytes for the network sender, a preview
/// frame for the viewer, either of which an effect may omit.
pub struct Frame {
    /// The DMX byte buffer, starting with the start code `0`.
    pub data: Option<Vec<u8>>,
    /// The preview frame.
    pub view: Option<ViewFrame>,
}

} // verus!
