use vstd::prelude::*;

use crate::audio::command::{AudioCmd, AudioLibrary, Sound, Track, MAX_TRACKS};
use crate::audio::device::DeviceOp;
use crate::audio::level::{resolve_volume, AudioVolumes, Level};
use crate::audio::model::{no_sinks, no_tracks, Phase, SpeakerModel};

verus! {

broadcast use {vstd::std_specs::hash::group_hash_axioms, vstd::array::group_array_axioms};

/// The worker's side of the mixer: it owns the library, the volume table and
/// the sixteen slots, takes one command at a time and answers with what the
/// device has to do.
pub struct Speaker {
    phase: Phase,
    sound_volume: Level,
    track_volume: Level,
    library: AudioLibrary,
    volumes: AudioVolumes,
    tracks: [Option<Track>; MAX_TRACKS],
    sinks: [Option<u64>; MAX_TRACKS],
}

impl View for Speaker {
    type V = SpeakerModel;

    closed spec fn view(&self) -> SpeakerModel {
        SpeakerModel {
            phase: self.phase,
            sound_volume: self.sound_volume,
            track_volume: self.track_volume,
            library: self.library@,
            volumes: self.volumes@,
            tracks: self.tracks@,
            sinks: self.sinks@,
        }
    }
}

impl Speaker {
    /// A cold worker over `library` and `volumes`, with every slot empty.
    pub fn new(library: AudioLibrary, volumes: AudioVolumes) -> (speaker: Speaker)
        ensures
            speaker@ == SpeakerModel::initial(library@, volumes@),
            speaker@.wf(),
    {
        let speaker = Speaker {
            phase: Phase::Cold,
            sound_volume: Level::unity(),
            track_volume: Level::unity(),
            library,
            volumes,
            tracks: [None; MAX_TRACKS],
            sinks: [None; MAX_TRACKS],
        };
        assert(speaker.tracks@ =~= no_tracks());
        assert(speaker.sinks@ =~= no_sinks());
        speaker
    }

    /// Where the worker stands in its life.
    pub fn phase(&self) -> (phase: Phase)
        ensures
            phase == self@.phase,
    {
        self.phase
    }

    /// The track last asked for in `slot`; none for a slot out of range.
    pub fn track(&self, slot: usize) -> (track: Option<Track>)
        ensures
            track == if slot < MAX_TRACKS {
                self@.tracks[slot as int]
            } else {
                None
            },
    {
        if slot < MAX_TRACKS {
            self.tracks[slot]
        } else {
            None
        }
    }

    /// The key that the sink of `slot` was made for; none where the slot has
    /// no sink or is out of range.
    pub fn sink(&self, slot: usize) -> (key: Option<u64>)
        ensures
            key == if slot < MAX_TRACKS {
                self@.sinks[slot as int]
            } else {
                None
            },
    {
        if slot < MAX_TRACKS {
            self.sinks[slot]
        } else {
            None
        }
    }

    /// Opens the device unless it is open.
    fn warm(&mut self) -> (ops: Vec<DeviceOp>)
        requires
            old(self)@.phase != Phase::Stopped,
        ensures
            final(self)@ == old(self)@.next(AudioCmd::Prewarm),
            ops@ == old(self)@.ops(AudioCmd::Prewarm),
    {
        let mut ops: Vec<DeviceOp> = Vec::new();
        if self.phase == Phase::Cold {
            ops.push(DeviceOp::Open);
            self.phase = Phase::Warm;
        }
        ops
    }

    /// Applies one command. Says whether to go on receiving, which is so
    /// until the command is `Quit`, and what the device has to do, in order.
    pub fn listen(&mut self, cmd: AudioCmd) -> (r: (bool, Vec<DeviceOp>))
        ensures
            final(self)@ == old(self)@.next(cmd),
            old(self)@.wf() ==> final(self)@.wf(),
            r.0 == !(cmd is Quit),
            r.1@ == old(self)@.ops(cmd),
    {
        proof {
            if old(self)@.wf() {
                old(self)@.lemma_next_wf(cmd);
            }
        }
        if self.phase == Phase::Stopped {
            let more = match cmd {
                AudioCmd::Quit => false,
                _ => true,
            };
            return (more, Vec::new());
        }
        match cmd {
            AudioCmd::Quit => {
                let ghost before = self@;
                let mut ops = self.destroy_all();
                if self.phase == Phase::Warm {
                    ops.push(DeviceOp::Close);
                }
                self.phase = Phase::Stopped;
                assert(ops@ =~= before.destroy_all_ops(MAX_TRACKS as int) + before.close_ops());
                (false, ops)
            },
            AudioCmd::Prewarm => {
                let ops = self.warm();
                (true, ops)
            },
            AudioCmd::State(update) => {
                self.sound_volume = update.sound_volume;
                self.track_volume = update.track_volume;
                let ops = self.update_tracks(update.tracks);
                (true, ops)
            },
            AudioCmd::PlaySound(sound) => {
                let ops = self.play_sound(&sound);
                (true, ops)
            },
            AudioCmd::UpdateLibrary(library, restart) => {
                self.library = library;
                let ops = if restart {
                    self.restart_all_tracks()
                } else {
                    Vec::new()
                };
                (true, ops)
            },
            AudioCmd::UpdateVolumes(volumes) => {
                self.volumes = volumes;
                let ops = self.revolume();
                (true, ops)
            },
        }
    }

    /// Forgets the sink of `slot`: for the device layer to report that a sink
    /// it was asked to make could not be made, or has died. Nothing else
    /// changes, and a slot out of range names no sink.
    pub fn sink_failed(&mut self, slot: usize)
        ensures
            final(self)@ == old(self)@.without_sink(slot as int),
            old(self)@.wf() ==> final(self)@.wf(),
    {
        if slot < MAX_TRACKS {
            self.sinks[slot] = None;
        }
    }

    /// Stops the worker without a word to the device: for the device layer to
    /// report that the output could not be opened, or is gone. No sink is left,
    /// and every later command is ignored, though `listen` goes on taking
    /// them until `Quit` comes.
    pub fn device_failed(&mut self)
        ensures
            final(self)@ == old(self)@.halted(),
            old(self)@.wf() ==> final(self)@.wf(),
    {
        self.destroy_all();
        self.phase = Phase::Stopped;
    }

    /// Plays `sound` once if the device is open and the library has its key.
    fn play_sound(&self, sound: &Sound) -> (ops: Vec<DeviceOp>)
        ensures
            ops@ == self@.sound_ops(sound.key, sound.volume, sound.speed),
    {
        let mut ops: Vec<DeviceOp> = Vec::new();
        let gain = resolve_volume(&self.volumes, sound.key, self.sound_volume, sound.volume);
        if self.phase == Phase::Warm {
            if let Some(bytes) = self.library.get(&sound.key) {
                ops.push(DeviceOp::PlayOnce { bytes: bytes.clone(), gain, speed: sound.speed });
            }
        }
        assert(ops@ =~= self@.sound_ops(sound.key, sound.volume, sound.speed));
        ops
    }

    /// Reconciles one slot against the track wanted there: what the device
    /// has to do, and the sink the slot has afterwards.
    fn reconcile_slot(&self, slot: usize, wanted: Option<Track>) -> (r: (Vec<DeviceOp>, Option<u64>))
        requires
            slot < MAX_TRACKS,
        ensures
            r.0@ == self@.slot_ops(slot as int, wanted),
            r.1 == self@.slot_sink(slot as int, wanted),
    {
        let mut ops: Vec<DeviceOp> = Vec::new();
        let sink: Option<u64> = self.sinks[slot];
        match (self.tracks[slot], wanted) {
            (Some(old), Some(new)) if new.key == old.key => {
                if sink.is_some() {
                    ops.push(DeviceOp::SetPlaying { slot, playing: new.playing });
                    let gain = resolve_volume(&self.volumes, new.key, self.track_volume, new.volume);
                    ops.push(DeviceOp::SetVolume { slot, gain });
                }
                assert(ops@ =~= self@.slot_ops(slot as int, wanted));
                (ops, sink)
            },
            (_, Some(new)) => {
                if sink.is_some() {
                    ops.push(DeviceOp::DestroySink { slot });
                }
                let key = match self.create_sink(slot, &new) {
                    Some(op) => {
                        ops.push(op);
                        Some(new.key)
                    },
                    None => None,
                };
                assert(ops@ =~= self@.slot_ops(slot as int, wanted));
                (ops, key)
            },
            (_, None) => {
                if sink.is_some() {
                    ops.push(DeviceOp::DestroySink { slot });
                }
                assert(ops@ =~= self@.slot_ops(slot as int, wanted));
                (ops, None)
            },
        }
    }

    /// Reconciles every slot against `wanted`, in rising order, and takes
    /// `wanted` over as the tracks held.
    fn update_tracks(&mut self, wanted: [Option<Track>; MAX_TRACKS]) -> (ops: Vec<DeviceOp>)
        ensures
            final(self)@ == old(self)@.reconciled(wanted@),
            ops@ == old(self)@.reconcile_ops(wanted@, MAX_TRACKS as int),
    {
        let ghost before = self@;
        let mut ops: Vec<DeviceOp> = Vec::new();
        let mut i: usize = 0;
        while i < MAX_TRACKS
            invariant
                i <= MAX_TRACKS,
                ops@ == before.reconcile_ops(wanted@, i as int),
                self@ == (SpeakerModel { sinks: self.sinks@, ..before }),
                forall|j: int| 0 <= j < i ==> self.sinks@[j] == before.slot_sink(j, wanted@[j]),
                forall|j: int| i <= j < MAX_TRACKS ==> self.sinks@[j] == before.sinks[j],
            decreases MAX_TRACKS - i,
        {
            let (mut slot_ops, sink) = self.reconcile_slot(i, wanted[i]);
            assert(slot_ops@ == before.slot_ops(i as int, wanted@[i as int]));
            ops.append(&mut slot_ops);
            self.sinks[i] = sink;
            i += 1;
        }
        self.tracks = wanted;
        assert(self.sinks@ =~= before.reconciled(wanted@).sinks);
        ops
    }

    /// The operation that makes a sink for `track` in `slot`: there is one
    /// when the device is open and the library has the track's key.
    fn create_sink(&self, slot: usize, track: &Track) -> (made: Option<DeviceOp>)
        requires
            slot < MAX_TRACKS,
        ensures
            made is Some <==> self@.can_play(track.key),
            made matches Some(op) ==> self@.create_ops(slot as int, *track) == seq![op],
            made is None ==> self@.create_ops(slot as int, *track) == Seq::<DeviceOp>::empty(),
    {
        let gain = resolve_volume(&self.volumes, track.key, self.track_volume, track.volume);
        if self.phase == Phase::Warm {
            if let Some(bytes) = self.library.get(&track.key) {
                let op = DeviceOp::CreateSink {
                    slot,
                    bytes: bytes.clone(),
                    gain,
                    playing: track.playing,
                };
                assert(self@.create_ops(slot as int, *track) =~= seq![op]);
                return Some(op);
            }
        }
        None
    }

    /// Drops every sink, in rising order of slot.
    fn destroy_all(&mut self) -> (ops: Vec<DeviceOp>)
        ensures
            final(self)@ == old(self)@.silenced(),
            ops@ == old(self)@.destroy_all_ops(MAX_TRACKS as int),
    {
        let ghost before = self@;
        let mut ops: Vec<DeviceOp> = Vec::new();
        let mut i: usize = 0;
        while i < MAX_TRACKS
            invariant
                i <= MAX_TRACKS,
                ops@ == before.destroy_all_ops(i as int),
                self@ == (SpeakerModel { sinks: self.sinks@, ..before }),
                forall|j: int| 0 <= j < i ==> self.sinks@[j] is None,
                forall|j: int| i <= j < MAX_TRACKS ==> self.sinks@[j] == before.sinks[j],
            decreases MAX_TRACKS - i,
        {
            if self.sinks[i].is_some() {
                ops.push(DeviceOp::DestroySink { slot: i });
                self.sinks[i] = None;
            }
            assert(ops@ =~= before.destroy_all_ops(i as int) + before.destroy_ops(i as int));
            i += 1;
        }
        assert(self.sinks@ =~= no_sinks());
        ops
    }

    /// Drops every sink, then makes a new one for every track whose asset can
    /// be played, each in rising order of slot.
    fn restart_all_tracks(&mut self) -> (ops: Vec<DeviceOp>)
        ensures
            final(self)@ == old(self)@.restarted(),
            ops@ == old(self)@.restart_ops(),
    {
        let ghost before = self@;
        let mut ops = self.destroy_all();
        let ghost dropped = ops@;
        let mut i: usize = 0;
        while i < MAX_TRACKS
            invariant
                i <= MAX_TRACKS,
                dropped == before.destroy_all_ops(MAX_TRACKS as int),
                ops@ == dropped + before.create_all_ops(i as int),
                self@ == (SpeakerModel { sinks: self.sinks@, ..before }),
                forall|j: int| 0 <= j < i ==> self.sinks@[j] == before.restarted_sink(j),
            decreases MAX_TRACKS - i,
        {
            if let Some(track) = self.tracks[i] {
                match self.create_sink(i, &track) {
                    Some(op) => {
                        ops.push(op);
                        self.sinks[i] = Some(track.key);
                    },
                    None => {
                        self.sinks[i] = None;
                    },
                }
                assert(before.create_ops(i as int, track) == self@.create_ops(i as int, track));
            } else {
                self.sinks[i] = None;
            }
            assert(ops@ =~= dropped + before.create_all_ops(i as int + 1));
            i += 1;
        }
        assert(self.sinks@ =~= before.restarted().sinks);
        ops
    }

    /// Sets the volume of every sink anew, in rising order of slot.
    fn revolume(&self) -> (ops: Vec<DeviceOp>)
        ensures
            ops@ == self@.revolume_ops(MAX_TRACKS as int),
    {
        let mut ops: Vec<DeviceOp> = Vec::new();
        let mut i: usize = 0;
        while i < MAX_TRACKS
            invariant
                i <= MAX_TRACKS,
                ops@ == self@.revolume_ops(i as int),
            decreases MAX_TRACKS - i,
        {
            if let Some(track) = self.tracks[i] {
                if self.sinks[i].is_some() {
                    let gain = resolve_volume(
                        &self.volumes,
                        track.key,
                        self.track_volume,
                        track.volume,
                    );
                    ops.push(DeviceOp::SetVolume { slot: i, gain });
                }
            }
            assert(ops@ =~= self@.revolume_ops(i as int) + self@.revolume_slot_ops(i as int));
            i += 1;
        }
        ops
    }
}

} // verus!
