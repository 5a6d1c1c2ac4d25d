use vstd::prelude::*;

use crate::audio::bytes::AudioBytes;
use crate::audio::level::{Gain, Level};

verus! {

/// One thing for the device layer to do. The worker decides; whoever owns the
/// audio device carries the operations out, in the order given.
#[derive(Clone, Debug, PartialEq, Eq)]
pub enum DeviceOp {
    /// Open the default output.
    Open,
    /// Release the output.
    Close,
    /// Decode `bytes` afresh and bind a looping sink to `slot`, at volume
    /// `gain`, playing or paused from the start.
    CreateSink { slot: usize, bytes: AudioBytes, gain: Gain, playing: bool },
    /// Drop the sink of `slot`.
    DestroySink { slot: usize },
    /// Resume or pause the sink of `slot` where it stands.
    SetPlaying { slot: usize, playing: bool },
    /// Set the volume of the sink of `slot`.
    SetVolume { slot: usize, gain: Gain },
    /// Decode `bytes` and play them once, detached, at volume `gain` and at
    /// `speed` times the recorded speed.
    PlayOnce { bytes: AudioBytes, gain: Gain, speed: Level },
}

impl DeviceOp {
    /// Whether the operation makes the sink of `slot`.
    pub open spec fn creates(self, slot: int) -> bool {
        self matches DeviceOp::CreateSink { slot: s, .. } && s == slot
    }

    /// Whether the operation drops the sink of `slot`.
    pub open spec fn destroys(self, slot: int) -> bool {
        self matches DeviceOp::DestroySink { slot: s } && s == slot
    }

    /// Whether the operation is addressed to the sink of `slot`.
    pub open spec fn concerns(self, slot: int) -> bool {
        match self {
            DeviceOp::CreateSink { slot: s, .. } => s == slot,
            DeviceOp::DestroySink { slot: s } => s == slot,
            DeviceOp::SetPlaying { slot: s, .. } => s == slot,
            DeviceOp::SetVolume { slot: s, .. } => s == slot,
            _ => false,
        }
    }
}

} // verus!
