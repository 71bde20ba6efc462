//! The lossy single-slot packet handoff, and the batching policy that feeds
//! it.
//!
//! The channel holds at most one in-flight value: a write atomically replaces
//! any unread predecessor, and a read always returns the most recently
//! completed write (the construction-time value until the first write).
//! Reading never consumes: a consumer that outpaces the producer sees the
//! same stale packet again, and it is the consumer's job to notice unchanged
//! content if that matters. Dropping intermediate packets is deliberate: the
//! pipeline is frame-rate driven, and queuing would grow latency without
//! bound when production outruns consumption.

use vstd::prelude::*;

use crate::packet::AudioPacket;

verus! {

/// Wait-free latest-value slot between one producer and one consumer.
pub struct PacketChannel {
    latest: AudioPacket,
}

impl PacketChannel {
    /// The most recently published packet (the initial value before any
    /// write).
    pub closed spec fn view_latest(self) -> AudioPacket {
        self.latest
    }

    /// A channel whose reads return `initial` until the first write.
    pub fn new(initial: AudioPacket) -> (r: Self)
        ensures
            r.view_latest() == initial,
    {
        PacketChannel { latest: initial }
    }

    /// Publishes `value`, replacing — not queuing behind — any unread
    /// predecessor. Never blocks and never fails.
    pub fn write(&mut self, value: AudioPacket)
        ensures
            final(self).view_latest() == value,
    {
        self.latest = value;
    }

    /// Returns the newest published value; with no write since the last
    /// read, the same stale value again.
    pub fn read(&self) -> (r: &AudioPacket)
        ensures
            *r == self.view_latest(),
    {
        &self.latest
    }
}

/// The capture side's batching policy: of the packets gathered in one wake
/// cycle only the most recent is forwarded, the earlier ones are discarded.
pub fn select_latest(batch: &Vec<AudioPacket>) -> (r: Option<&AudioPacket>)
    ensures
        batch@.len() == 0 <==> r is None,
        batch@.len() > 0 ==> r == Some(&batch@[batch@.len() - 1]),
{
    if batch.len() == 0 {
        None
    } else {
        Some(&batch[batch.len() - 1])
    }
}

} // verus!
