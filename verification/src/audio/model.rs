use vstd::prelude::*;

use crate::audio::bytes::AudioBytes;
use crate::audio::command::{AudioCmd, Track, MAX_TRACKS};
use crate::audio::device::DeviceOp;
use crate::audio::level::{resolved, Gain, Level};

verus! {

/// Where the worker stands in its life: no device yet, device open, or done.
/// A worker is done once it was told to quit, or once its device has failed;
/// from then on it is deaf to every command.
#[derive(Clone, Copy, Debug, PartialEq, Eq, Structural)]
pub enum Phase {
    Cold,
    Warm,
    Stopped,
}

/// What the worker knows, as mathematics.
pub struct SpeakerModel {
    pub phase: Phase,
    pub sound_volume: Level,
    pub track_volume: Level,
    pub library: Map<u64, AudioBytes>,
    pub volumes: Map<u64, Level>,
    /// The track last asked for in each slot.
    pub tracks: Seq<Option<Track>>,
    /// For each slot, the key its live sink was made for, if it has a sink.
    pub sinks: Seq<Option<u64>>,
}

/// Sixteen slots, none with a sink.
pub open spec fn no_sinks() -> Seq<Option<u64>> {
    Seq::new(MAX_TRACKS as nat, |i: int| None)
}

/// Sixteen slots, none with a track.
pub open spec fn no_tracks() -> Seq<Option<Track>> {
    Seq::new(MAX_TRACKS as nat, |i: int| None)
}

impl SpeakerModel {
    /// There are exactly `MAX_TRACKS` slots; a sink exists only while the
    /// device is open, only in a slot that holds a track, and only for the key
    /// of that track.
    pub open spec fn wf(self) -> bool {
        &&& self.tracks.len() == MAX_TRACKS
        &&& self.sinks.len() == MAX_TRACKS
        &&& forall|i: int|
            0 <= i < MAX_TRACKS ==> (#[trigger] self.sinks[i] matches Some(key) ==> {
                &&& self.phase == Phase::Warm
                &&& self.tracks[i] matches Some(track)
                &&& track.key == key
            })
    }

    /// Whether an asset can be given to the device now: the device is open
    /// and the library has the key.
    pub open spec fn can_play(self, key: u64) -> bool {
        self.phase == Phase::Warm && self.library.contains_key(key)
    }

    /// The volume of `track` under the current table and track volume.
    pub open spec fn track_gain(self, track: Track) -> Gain {
        resolved(self.volumes, track.key, self.track_volume, track.volume)
    }

    /// Dropping the sink of `slot`, if it has one.
    pub open spec fn destroy_ops(self, slot: int) -> Seq<DeviceOp> {
        if self.sinks[slot] is Some {
            seq![DeviceOp::DestroySink { slot: slot as usize }]
        } else {
            seq![]
        }
    }

    /// Making a sink for `track` in `slot`, if its asset can be played.
    pub open spec fn create_ops(self, slot: int, track: Track) -> Seq<DeviceOp> {
        if self.can_play(track.key) {
            seq![
                DeviceOp::CreateSink {
                    slot: slot as usize,
                    bytes: self.library[track.key],
                    gain: self.track_gain(track),
                    playing: track.playing,
                },
            ]
        } else {
            seq![]
        }
    }

    /// The key that the sink of a slot is for once `track` was asked for
    /// afresh there.
    pub open spec fn created_sink(self, track: Track) -> Option<u64> {
        if self.can_play(track.key) {
            Some(track.key)
        } else {
            None
        }
    }

    /// Adjusting the sink of `slot` to `track` where it plays: play state
    /// first, then volume. Nothing where the slot has no sink.
    pub open spec fn retune_ops(self, slot: int, track: Track) -> Seq<DeviceOp> {
        if self.sinks[slot] is Some {
            seq![
                DeviceOp::SetPlaying { slot: slot as usize, playing: track.playing },
                DeviceOp::SetVolume { slot: slot as usize, gain: self.track_gain(track) },
            ]
        } else {
            seq![]
        }
    }

    /// Whether `wanted` continues what `slot` holds: both are tracks, of one
    /// key.
    pub open spec fn continues(self, slot: int, wanted: Option<Track>) -> bool {
        self.tracks[slot] matches Some(held) && wanted matches Some(track) && held.key
            == track.key
    }

    /// What reconciling one slot asks of the device. A track that continues is
    /// adjusted in place; anything else drops the sink the slot has and, where
    /// a track is wanted, makes a new one.
    pub open spec fn slot_ops(self, slot: int, wanted: Option<Track>) -> Seq<DeviceOp> {
        if self.continues(slot, wanted) {
            self.retune_ops(slot, wanted->0)
        } else {
            self.destroy_ops(slot) + (match wanted {
                Some(track) => self.create_ops(slot, track),
                None => seq![],
            })
        }
    }

    /// The sink of one slot after reconciling it.
    pub open spec fn slot_sink(self, slot: int, wanted: Option<Track>) -> Option<u64> {
        if self.continues(slot, wanted) {
            self.sinks[slot]
        } else {
            match wanted {
                Some(track) => self.created_sink(track),
                None => None,
            }
        }
    }

    /// What reconciling the slots below `upto` asks of the device, slot by
    /// slot in rising order.
    pub open spec fn reconcile_ops(self, wanted: Seq<Option<Track>>, upto: int) -> Seq<DeviceOp>
        decreases upto,
    {
        if upto <= 0 {
            seq![]
        } else {
            self.reconcile_ops(wanted, upto - 1) + self.slot_ops(upto - 1, wanted[upto - 1])
        }
    }

    /// The worker after reconciling every slot against `wanted`.
    pub open spec fn reconciled(self, wanted: Seq<Option<Track>>) -> SpeakerModel {
        SpeakerModel {
            tracks: wanted,
            sinks: Seq::new(MAX_TRACKS as nat, |i: int| self.slot_sink(i, wanted[i])),
            ..self
        }
    }

    /// Dropping every sink in the slots below `upto`, in rising order.
    pub open spec fn destroy_all_ops(self, upto: int) -> Seq<DeviceOp>
        decreases upto,
    {
        if upto <= 0 {
            seq![]
        } else {
            self.destroy_all_ops(upto - 1) + self.destroy_ops(upto - 1)
        }
    }

    /// Making a sink for every track in the slots below `upto` whose asset
    /// can be played, in rising order.
    pub open spec fn create_all_ops(self, upto: int) -> Seq<DeviceOp>
        decreases upto,
    {
        if upto <= 0 {
            seq![]
        } else {
            self.create_all_ops(upto - 1) + (match self.tracks[upto - 1] {
                Some(track) => self.create_ops(upto - 1, track),
                None => seq![],
            })
        }
    }

    /// The sink of one slot after every track was restarted.
    pub open spec fn restarted_sink(self, slot: int) -> Option<u64> {
        match self.tracks[slot] {
            Some(track) => self.created_sink(track),
            None => None,
        }
    }

    /// The worker after every track was restarted: no sink of before is left,
    /// and each track whose asset can be played has a new one.
    pub open spec fn restarted(self) -> SpeakerModel {
        SpeakerModel {
            sinks: Seq::new(MAX_TRACKS as nat, |i: int| self.restarted_sink(i)),
            ..self
        }
    }

    /// What restarting every track asks of the device: first every sink is
    /// dropped, then the tracks get new ones.
    pub open spec fn restart_ops(self) -> Seq<DeviceOp> {
        self.destroy_all_ops(MAX_TRACKS as int) + self.create_all_ops(MAX_TRACKS as int)
    }

    /// The worker with no sink left in any slot.
    pub open spec fn silenced(self) -> SpeakerModel {
        SpeakerModel { sinks: no_sinks(), ..self }
    }

    /// The worker once it has stopped: no sink is left, and the rest is as it
    /// was.
    pub open spec fn halted(self) -> SpeakerModel {
        SpeakerModel { phase: Phase::Stopped, ..self.silenced() }
    }

    /// The worker after the sink of `slot` was lost: that slot has none, and
    /// nothing else differs. A slot out of range names no sink.
    pub open spec fn without_sink(self, slot: int) -> SpeakerModel {
        if 0 <= slot < self.sinks.len() {
            SpeakerModel { sinks: self.sinks.update(slot, None), ..self }
        } else {
            self
        }
    }

    /// The worker as it starts: cold, both category volumes at unity, every
    /// slot empty.
    pub open spec fn initial(library: Map<u64, AudioBytes>, volumes: Map<u64, Level>) -> SpeakerModel {
        SpeakerModel {
            phase: Phase::Cold,
            sound_volume: Level::unity(),
            track_volume: Level::unity(),
            library,
            volumes,
            tracks: no_tracks(),
            sinks: no_sinks(),
        }
    }

    /// The worker with the two category volumes replaced.
    pub open spec fn tuned(self, sound_volume: Level, track_volume: Level) -> SpeakerModel {
        SpeakerModel { sound_volume, track_volume, ..self }
    }

    /// Setting the volume of the sink of `slot` anew, if it has one.
    pub open spec fn revolume_slot_ops(self, slot: int) -> Seq<DeviceOp> {
        match self.tracks[slot] {
            Some(track) => if self.sinks[slot] is Some {
                seq![DeviceOp::SetVolume { slot: slot as usize, gain: self.track_gain(track) }]
            } else {
                seq![]
            },
            None => seq![],
        }
    }

    /// Setting the volume of every sink in the slots below `upto` anew, in
    /// rising order.
    pub open spec fn revolume_ops(self, upto: int) -> Seq<DeviceOp>
        decreases upto,
    {
        if upto <= 0 {
            seq![]
        } else {
            self.revolume_ops(upto - 1) + self.revolume_slot_ops(upto - 1)
        }
    }

    /// Playing the asset `key` once, if it can be played.
    pub open spec fn sound_ops(self, key: u64, volume: Level, speed: Level) -> Seq<DeviceOp> {
        if self.can_play(key) {
            seq![
                DeviceOp::PlayOnce {
                    bytes: self.library[key],
                    gain: resolved(self.volumes, key, self.sound_volume, volume),
                    speed,
                },
            ]
        } else {
            seq![]
        }
    }

    /// Releasing the device, if it is open.
    pub open spec fn close_ops(self) -> Seq<DeviceOp> {
        if self.phase == Phase::Warm {
            seq![DeviceOp::Close]
        } else {
            seq![]
        }
    }

    /// The worker after one command.
    ///
    /// A stopped worker takes no command. Otherwise: quitting drops every
    /// sink and stops; warming opens the device once; a state sets the two
    /// category volumes and then reconciles the slots; a sound changes
    /// nothing; a library or a volume table replaces the one held, whole.
    pub open spec fn next(self, cmd: AudioCmd) -> SpeakerModel {
        if self.phase == Phase::Stopped {
            self
        } else {
            match cmd {
                AudioCmd::Quit => self.halted(),
                AudioCmd::Prewarm => SpeakerModel { phase: Phase::Warm, ..self },
                AudioCmd::State(update) => self.tuned(
                    update.sound_volume,
                    update.track_volume,
                ).reconciled(update.tracks@),
                AudioCmd::PlaySound(_) => self,
                AudioCmd::UpdateLibrary(library, restart) => {
                    let swapped = SpeakerModel { library: library@, ..self };
                    if restart {
                        swapped.restarted()
                    } else {
                        swapped
                    }
                },
                AudioCmd::UpdateVolumes(volumes) => SpeakerModel { volumes: volumes@, ..self },
            }
        }
    }

    /// What one command asks of the device, in order.
    ///
    /// A stopped worker asks nothing. Quitting drops every sink, then
    /// releases the device if it was open. Warming opens the device if it
    /// was not. A state reconciles under the new category volumes. A sound
    /// is played if its asset can be. A new library asks nothing unless
    /// tracks are to restart: then every sink is dropped, and the tracks get
    /// new ones from the new library. A new volume table sets the volume of
    /// every sink anew.
    pub open spec fn ops(self, cmd: AudioCmd) -> Seq<DeviceOp> {
        if self.phase == Phase::Stopped {
            seq![]
        } else {
            match cmd {
                AudioCmd::Quit => self.destroy_all_ops(MAX_TRACKS as int) + self.close_ops(),
                AudioCmd::Prewarm => if self.phase == Phase::Cold {
                    seq![DeviceOp::Open]
                } else {
                    seq![]
                },
                AudioCmd::State(update) => self.tuned(
                    update.sound_volume,
                    update.track_volume,
                ).reconcile_ops(update.tracks@, MAX_TRACKS as int),
                AudioCmd::PlaySound(sound) => self.sound_ops(sound.key, sound.volume, sound.speed),
                AudioCmd::UpdateLibrary(library, restart) => if restart {
                    SpeakerModel { library: library@, ..self }.restart_ops()
                } else {
                    seq![]
                },
                AudioCmd::UpdateVolumes(volumes) => SpeakerModel {
                    volumes: volumes@,
                    ..self
                }.revolume_ops(MAX_TRACKS as int),
            }
        }
    }


    /// The worker after the commands of `cmds`, taken in order from the
    /// front.
    pub open spec fn run(self, cmds: Seq<AudioCmd>) -> SpeakerModel
        decreases cmds.len(),
    {
        if cmds.len() == 0 {
            self
        } else {
            self.run(cmds.drop_last()).next(cmds.last())
        }
    }

    /// What the commands of `cmds`, taken in order from the front, ask of
    /// the device.
    pub open spec fn run_ops(self, cmds: Seq<AudioCmd>) -> Seq<DeviceOp>
        decreases cmds.len(),
    {
        if cmds.len() == 0 {
            seq![]
        } else {
            self.run_ops(cmds.drop_last()) + self.run(cmds.drop_last()).ops(cmds.last())
        }
    }

    /// Every command keeps the worker well formed: whatever is asked of it, a
    /// sink exists only while the device is open, only in a slot that holds a
    /// track, and only for the key of that track.
    pub proof fn lemma_next_wf(self, cmd: AudioCmd)
        requires
            self.wf(),
        ensures
            self.next(cmd).wf(),
    {
        broadcast use vstd::array::group_array_axioms;

        let after = self.next(cmd);
        if self.phase != Phase::Stopped {
            match cmd {
                AudioCmd::State(update) => {
                    assert(update.tracks@.len() == MAX_TRACKS);
                    assert(after.wf());
                },
                _ => {
                    assert(after.wf());
                },
            }
        }
    }
}

} // verus!
