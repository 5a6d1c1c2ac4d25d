use std::collections::HashMap;
use vstd::prelude::*;

use crate::audio::bytes::AudioBytes;
use crate::audio::level::{AudioVolumes, Level};

verus! {

/// Number of track slots. A track is addressed by its slot, not by its key.
pub const MAX_TRACKS: usize = 16;

/// Asset library: the encoded bytes of each asset, by key.
pub type AudioLibrary = HashMap<u64, AudioBytes>;

/// A request to play an asset once.
#[derive(Clone, Copy, Debug, PartialEq, Eq, Structural)]
pub struct Sound {
    pub key: u64,
    pub volume: Level,
    pub speed: Level,
}

/// A looping track as the caller wants it in one slot.
#[derive(Clone, Copy, Debug, PartialEq, Eq, Structural)]
pub struct Track {
    pub key: u64,
    pub volume: Level,
    pub playing: bool,
}

/// The caller's whole desired steady state. `tracks[i]` is wanted in slot `i`.
#[derive(Clone, Copy, Debug, PartialEq, Eq)]
pub struct AudioState<'a> {
    pub sound_volume: Level,
    pub track_volume: Level,
    pub tracks: &'a [Track],
}

/// A desired state laid out over the fixed slots.
#[derive(Clone, Copy, Debug, PartialEq, Eq)]
pub struct StateUpdate {
    pub sound_volume: Level,
    pub track_volume: Level,
    pub tracks: [Option<Track>; MAX_TRACKS],
}

/// What the mixer tells the worker. Commands are applied in the order sent.
#[derive(Clone, Debug, PartialEq, Eq)]
pub enum AudioCmd {
    /// Stop, releasing the device.
    Quit,
    /// Open the device if it is not open yet.
    Prewarm,
    /// Take over a new desired state.
    State(StateUpdate),
    /// Play an asset once.
    PlaySound(Sound),
    /// Replace the library; the flag asks to restart every track on it.
    UpdateLibrary(AudioLibrary, bool),
    /// Replace the volume table.
    UpdateVolumes(AudioVolumes),
}

/// The slot layout of a caller's track list: the first `MAX_TRACKS` entries
/// in their places, the remaining slots empty.
pub open spec fn slots_of(tracks: Seq<Track>) -> Seq<Option<Track>> {
    Seq::new(
        MAX_TRACKS as nat,
        |i: int|
            if i < tracks.len() {
                Some(tracks[i])
            } else {
                None
            },
    )
}

impl StateUpdate {
    /// Lays `state` out over the slots: a list shorter than the slots leaves
    /// the rest empty, and of a longer one only the first `MAX_TRACKS` count.
    pub fn from_state(state: &AudioState) -> (update: StateUpdate)
        ensures
            update.sound_volume == state.sound_volume,
            update.track_volume == state.track_volume,
            update.tracks@ == slots_of(state.tracks@),
    {
        let mut tracks: [Option<Track>; MAX_TRACKS] = [None; MAX_TRACKS];
        let mut i: usize = 0;
        while i < MAX_TRACKS
            invariant
                i <= MAX_TRACKS,
                forall|j: int| 0 <= j < i ==> tracks@[j] == slots_of(state.tracks@)[j],
            decreases MAX_TRACKS - i,
        {
            if i < state.tracks.len() {
                tracks[i] = Some(state.tracks[i]);
            } else {
                tracks[i] = None;
            }
            i += 1;
        }
        assert(tracks@ =~= slots_of(state.tracks@));
        StateUpdate { sound_volume: state.sound_volume, track_volume: state.track_volume, tracks }
    }
}

} // verus!
