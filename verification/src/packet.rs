//! Audio packets as handed from the capture side to the pipeline.

use vstd::prelude::*;

use crate::fixed::ONE;

verus! {

/// One block of captured audio: interleaved Q16.16 mono/stereo samples, the
/// device sample rate in Hz, the channel count, and a silence flag.
///
/// An empty packet with `is_silent` set is the valid "no data" heartbeat.
pub struct AudioPacket {
    pub samples: Vec<i32>,
    pub sample_rate: u32,
    pub channels: u16,
    pub is_silent: bool,
}

impl AudioPacket {
    /// Every sample within `[-1.0, 1.0]`; a non-silent packet names at least
    /// one channel and holds whole frames.
    pub open spec fn wf(self) -> bool {
        &&& forall|i: int|
            0 <= i < self.samples@.len() ==> -(ONE as int) <= #[trigger] self.samples@[i]
                <= ONE as int
        &&& !self.is_silent ==> self.channels >= 1
        &&& (!self.is_silent && self.channels >= 1) ==> self.samples@.len() % (
        self.channels as nat) == 0
    }
}

impl Default for AudioPacket {
    /// The packet a consumer sees before the producer has published anything:
    /// no samples, no rate, silent.
    fn default() -> (r: Self)
        ensures
            r.samples@.len() == 0,
            r.sample_rate == 0,
            r.channels == 0,
            r.is_silent,
            r.wf(),
    {
        AudioPacket { samples: Vec::new(), sample_rate: 0, channels: 0, is_silent: true }
    }
}

} // verus!
