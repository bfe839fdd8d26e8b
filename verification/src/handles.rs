//! Plain data carried between the simulation core and the app layer:
//! identifiers of render-side objects, the camera selector, and raw audio
//! clip bytes.  The core never interprets these; it only stores and hands
//! them over.

use vstd::prelude::*;

verus! {

/// Identifiers of a render-side framebuffer object and its backing texture.
#[derive(Clone, Copy, Debug, PartialEq, Eq, Structural)]
pub struct FrameBuffer {
    pub framebuffer_id: u32,
    pub texture_id: u32,
}

/// Which camera the app layer renders the scene through.
#[derive(Clone, Copy, Debug, PartialEq, Eq, Structural)]
pub enum CameraType {
    Game,
    Floating,
    TopDown,
    Side,
}

/// Raw bytes of an encoded audio clip, decoded and played by the app layer.
#[derive(Clone, Debug)]
pub struct AudioSource {
    pub bytes: Vec<u8>,
}

impl AudioSource {
    pub fn new(bytes: Vec<u8>) -> (s: AudioSource)
        ensures
            s.bytes@ == bytes@,
    {
        AudioSource { bytes }
    }
}

} // verus!
