use vstd::prelude::*;

use crate::audio::command::{AudioCmd, Track, MAX_TRACKS};
use crate::audio::device::DeviceOp;
use crate::audio::bytes::AudioBytes;
use crate::audio::level::{resolved, Gain, Level};
use crate::audio::model::{Phase, SpeakerModel};

verus! {

broadcast use vstd::array::group_array_axioms;

/// A sink as the device holds it: the volume last set on it and whether it
/// plays.
pub struct SinkState {
    pub gain: Gain,
    pub playing: bool,
}

/// A device that does what it is asked: whether its output is open, and the
/// sink it holds for each slot.
pub struct DeviceState {
    pub open: bool,
    pub sinks: Seq<Option<SinkState>>,
}

impl DeviceState {
    /// Whether the device can carry `op` out: it opens only when closed and
    /// plays only when open, makes a sink only in an empty slot, drops or
    /// adjusts only a sink it has, and closes only when no sink is left.
    pub open spec fn accepts(self, op: DeviceOp) -> bool {
        match op {
            DeviceOp::Open => !self.open,
            DeviceOp::Close => self.open && forall|i: int|
                0 <= i < self.sinks.len() ==> self.sinks[i] is None,
            DeviceOp::CreateSink { slot, .. } => self.open && slot < self.sinks.len()
                && self.sinks[slot as int] is None,
            DeviceOp::DestroySink { slot } => slot < self.sinks.len() && self.sinks[slot as int] is Some,
            DeviceOp::SetPlaying { slot, .. } => slot < self.sinks.len()
                && self.sinks[slot as int] is Some,
            DeviceOp::SetVolume { slot, .. } => slot < self.sinks.len()
                && self.sinks[slot as int] is Some,
            DeviceOp::PlayOnce { .. } => self.open,
        }
    }

    /// The device after it carried `op` out.
    pub open spec fn after(self, op: DeviceOp) -> DeviceState {
        match op {
            DeviceOp::Open => DeviceState { open: true, ..self },
            DeviceOp::Close => DeviceState { open: false, ..self },
            DeviceOp::CreateSink { slot, gain, playing, .. } => DeviceState {
                sinks: self.sinks.update(slot as int, Some(SinkState { gain, playing })),
                ..self
            },
            DeviceOp::DestroySink { slot } => DeviceState {
                sinks: self.sinks.update(slot as int, None),
                ..self
            },
            DeviceOp::SetPlaying { slot, playing } => DeviceState {
                sinks: self.sinks.update(
                    slot as int,
                    Some(SinkState { playing, ..self.sinks[slot as int]->0 }),
                ),
                ..self
            },
            DeviceOp::SetVolume { slot, gain } => DeviceState {
                sinks: self.sinks.update(
                    slot as int,
                    Some(SinkState { gain, ..self.sinks[slot as int]->0 }),
                ),
                ..self
            },
            DeviceOp::PlayOnce { .. } => self,
        }
    }

    /// The device after it carried out `ops`, front to back.
    pub open spec fn after_all(self, ops: Seq<DeviceOp>) -> DeviceState
        decreases ops.len(),
    {
        if ops.len() == 0 {
            self
        } else {
            self.after_all(ops.drop_last()).after(ops.last())
        }
    }

    /// Whether the device can carry out `ops`, front to back, each in the
    /// state the ones before left.
    pub open spec fn accepts_all(self, ops: Seq<DeviceOp>) -> bool
        decreases ops.len(),
    {
        ops.len() == 0 || (self.accepts_all(ops.drop_last()) && self.after_all(
            ops.drop_last(),
        ).accepts(ops.last()))
    }

    /// Whether slot `slot` of the device shows what the worker `m` believes
    /// of it: a sink there if and only if the worker counts one, and then at the
    /// volume and in the play state of the track the worker holds.
    pub open spec fn mirrors_slot(self, m: SpeakerModel, slot: int) -> bool {
        match self.sinks[slot] {
            Some(sink) => {
                &&& m.sinks[slot] is Some
                &&& m.tracks[slot] matches Some(track)
                &&& sink.gain == m.track_gain(track)
                &&& sink.playing == track.playing
            },
            None => m.sinks[slot] is None,
        }
    }

    /// Whether the device shows what the worker `m` believes: open exactly
    /// while the worker is warm, and every slot as the worker has it.
    pub open spec fn mirrors(self, m: SpeakerModel) -> bool {
        &&& self.open == (m.phase == Phase::Warm)
        &&& self.sinks.len() == MAX_TRACKS
        &&& forall|i: int| 0 <= i < MAX_TRACKS ==> #[trigger] self.mirrors_slot(m, i)
    }
}

proof fn lemma_no_ops(d: DeviceState)
    ensures
        d.accepts_all(Seq::<DeviceOp>::empty()),
        d.after_all(Seq::<DeviceOp>::empty()) == d,
{
}

proof fn lemma_one_op(d: DeviceState, op: DeviceOp)
    ensures
        d.accepts_all(seq![op]) == d.accepts(op),
        d.after_all(seq![op]) == d.after(op),
{
    assert(seq![op].drop_last() =~= Seq::<DeviceOp>::empty());
    assert(seq![op].last() == op);
    lemma_no_ops(d);
    reveal_with_fuel(DeviceState::after_all, 2);
    reveal_with_fuel(DeviceState::accepts_all, 2);
}

/// Carrying out one list and then another is carrying out the two joined.
proof fn lemma_ops_joined(d: DeviceState, a: Seq<DeviceOp>, b: Seq<DeviceOp>)
    ensures
        d.accepts_all(a + b) == (d.accepts_all(a) && d.after_all(a).accepts_all(b)),
        d.after_all(a + b) == d.after_all(a).after_all(b),
    decreases b.len(),
{
    if b.len() == 0 {
        assert(a + b =~= a);
    } else {
        let all = a + b;
        assert(all.drop_last() =~= a + b.drop_last());
        assert(all.last() == b.last());
        lemma_ops_joined(d, a, b.drop_last());
    }
}

/// What holds between a device and a worker while the slots below `upto`
/// have been dealt with and show the worker `after`, and the others still show
/// the worker `before`.
spec fn halfway(d: DeviceState, before: SpeakerModel, after: SpeakerModel, upto: int) -> bool {
    &&& d.sinks.len() == MAX_TRACKS
    &&& forall|i: int| 0 <= i < upto ==> #[trigger] d.mirrors_slot(after, i)
    &&& forall|i: int| upto <= i < MAX_TRACKS ==> #[trigger] d.mirrors_slot(before, i)
}

/// What holds between a device and a worker while the slots below `upto`
/// have been reconciled and show the worker `after`, and the others still
/// have a sink exactly where the worker `before` counts one.
spec fn reconciling(d: DeviceState, before: SpeakerModel, after: SpeakerModel, upto: int) -> bool {
    &&& d.sinks.len() == MAX_TRACKS
    &&& forall|i: int| 0 <= i < upto ==> #[trigger] d.mirrors_slot(after, i)
    &&& forall|i: int|
        upto <= i < MAX_TRACKS ==> (#[trigger] d.sinks[i] is Some <==> before.sinks[i] is Some)
}

/// Reconciling one slot on a device that has a sink there exactly if the
/// worker counts one: the device can do what is asked, shows the reconciled
/// worker at that slot afterwards, and is otherwise as before.
proof fn lemma_slot_follows(d: DeviceState, m: SpeakerModel, wanted: Seq<Option<Track>>, slot: int)
    requires
        0 <= slot < MAX_TRACKS,
        m.wf(),
        wanted.len() == MAX_TRACKS,
        d.open == (m.phase == Phase::Warm),
        d.sinks.len() == MAX_TRACKS,
        d.sinks[slot] is Some <==> m.sinks[slot] is Some,
    ensures
        ({
            let ops = m.slot_ops(slot, wanted[slot]);
            let e = d.after_all(ops);
            &&& d.accepts_all(ops)
            &&& e.open == d.open
            &&& e.sinks.len() == MAX_TRACKS
            &&& e.mirrors_slot(m.reconciled(wanted), slot)
            &&& forall|j: int| 0 <= j < MAX_TRACKS && j != slot ==> e.sinks[j] == d.sinks[j]
        }),
{
    let w = wanted[slot];
    let ops = m.slot_ops(slot, w);
    let r = m.reconciled(wanted);
    assert(r.sinks[slot] == m.slot_sink(slot, w));
    assert(r.tracks[slot] == w);
    lemma_no_ops(d);
    if m.continues(slot, w) {
        let track = w->0;
        if m.sinks[slot] is Some {
            let a = DeviceOp::SetPlaying { slot: slot as usize, playing: track.playing };
            let b = DeviceOp::SetVolume { slot: slot as usize, gain: m.track_gain(track) };
            assert(ops =~= seq![a] + seq![b]);
            lemma_ops_joined(d, seq![a], seq![b]);
            lemma_one_op(d, a);
            lemma_one_op(d.after(a), b);
            let e = d.after(a).after(b);
            assert(e.sinks[slot] == Some(
                SinkState { gain: m.track_gain(track), playing: track.playing },
            ));
            assert(r.track_gain(track) == m.track_gain(track));
        }
    } else {
        let dropped = m.destroy_ops(slot);
        let made = match w {
            Some(track) => m.create_ops(slot, track),
            None => seq![],
        };
        lemma_ops_joined(d, dropped, made);
        if m.sinks[slot] is Some {
            lemma_one_op(d, DeviceOp::DestroySink { slot: slot as usize });
        }
        let mid = d.after_all(dropped);
        assert(mid.sinks[slot] is None);
        assert(mid.open == d.open);
        lemma_no_ops(mid);
        if let Some(track) = w {
            if m.can_play(track.key) {
                let op = DeviceOp::CreateSink {
                    slot: slot as usize,
                    bytes: m.library[track.key],
                    gain: m.track_gain(track),
                    playing: track.playing,
                };
                lemma_one_op(mid, op);
                assert(r.track_gain(track) == m.track_gain(track));
            }
        }
    }
}

proof fn lemma_reconcile_follows(
    d: DeviceState,
    m: SpeakerModel,
    wanted: Seq<Option<Track>>,
    upto: int,
)
    requires
        0 <= upto <= MAX_TRACKS,
        m.wf(),
        wanted.len() == MAX_TRACKS,
        d.open == (m.phase == Phase::Warm),
        reconciling(d, m, m, 0),
    ensures
        ({
            let ops = m.reconcile_ops(wanted, upto);
            let e = d.after_all(ops);
            &&& d.accepts_all(ops)
            &&& e.open == d.open
            &&& reconciling(e, m, m.reconciled(wanted), upto)
        }),
    decreases upto,
{
    lemma_no_ops(d);
    if upto > 0 {
        let at = upto - 1;
        let head = m.reconcile_ops(wanted, at);
        let tail = m.slot_ops(at, wanted[at]);
        lemma_reconcile_follows(d, m, wanted, at);
        let mid = d.after_all(head);
        assert(mid.sinks[at] is Some <==> m.sinks[at] is Some);
        lemma_slot_follows(mid, m, wanted, at);
        lemma_ops_joined(d, head, tail);
        let e = mid.after_all(tail);
        let r = m.reconciled(wanted);
        assert forall|i: int| 0 <= i < upto implies #[trigger] e.mirrors_slot(r, i) by {
            if i < at {
                assert(mid.mirrors_slot(r, i));
            }
        }
        assert forall|i: int| upto <= i < MAX_TRACKS implies (#[trigger] e.sinks[i] is Some
            <==> m.sinks[i] is Some) by {
            assert(mid.sinks[i] is Some <==> m.sinks[i] is Some);
        }
    }
}

proof fn lemma_destroy_all_follows(d: DeviceState, m: SpeakerModel, upto: int)
    requires
        0 <= upto <= MAX_TRACKS,
        m.sinks.len() == MAX_TRACKS,
        halfway(d, m, m, 0),
    ensures
        ({
            let ops = m.destroy_all_ops(upto);
            let e = d.after_all(ops);
            &&& d.accepts_all(ops)
            &&& e.open == d.open
            &&& e.sinks.len() == MAX_TRACKS
            &&& forall|i: int| 0 <= i < upto ==> e.sinks[i] is None
            &&& forall|i: int| upto <= i < MAX_TRACKS ==> e.sinks[i] == d.sinks[i]
        }),
    decreases upto,
{
    lemma_no_ops(d);
    if upto > 0 {
        let head = m.destroy_all_ops(upto - 1);
        let tail = m.destroy_ops(upto - 1);
        lemma_destroy_all_follows(d, m, upto - 1);
        let mid = d.after_all(head);
        lemma_ops_joined(d, head, tail);
        lemma_no_ops(mid);
        assert(d.mirrors_slot(m, upto - 1));
        if m.sinks[upto - 1] is Some {
            lemma_one_op(mid, DeviceOp::DestroySink { slot: (upto - 1) as usize });
        }
    }
}

proof fn lemma_create_all_follows(d: DeviceState, m: SpeakerModel, upto: int)
    requires
        0 <= upto <= MAX_TRACKS,
        m.tracks.len() == MAX_TRACKS,
        d.open == (m.phase == Phase::Warm),
        d.sinks.len() == MAX_TRACKS,
        forall|i: int| 0 <= i < MAX_TRACKS ==> d.sinks[i] is None,
    ensures
        ({
            let ops = m.create_all_ops(upto);
            let e = d.after_all(ops);
            &&& d.accepts_all(ops)
            &&& e.open == d.open
            &&& e.sinks.len() == MAX_TRACKS
            &&& forall|i: int| 0 <= i < upto ==> #[trigger] e.mirrors_slot(m.restarted(), i)
            &&& forall|i: int| upto <= i < MAX_TRACKS ==> e.sinks[i] is None
        }),
    decreases upto,
{
    lemma_no_ops(d);
    if upto > 0 {
        let at = upto - 1;
        let head = m.create_all_ops(at);
        let tail = match m.tracks[at] {
            Some(track) => m.create_ops(at, track),
            None => seq![],
        };
        lemma_create_all_follows(d, m, at);
        let mid = d.after_all(head);
        lemma_ops_joined(d, head, tail);
        lemma_no_ops(mid);
        let r = m.restarted();
        assert(r.sinks[at] == m.restarted_sink(at));
        if let Some(track) = m.tracks[at] {
            if m.can_play(track.key) {
                lemma_one_op(
                    mid,
                    DeviceOp::CreateSink {
                        slot: at as usize,
                        bytes: m.library[track.key],
                        gain: m.track_gain(track),
                        playing: track.playing,
                    },
                );
                assert(r.track_gain(track) == m.track_gain(track));
            }
        }
        let e = mid.after_all(tail);
        assert forall|i: int| 0 <= i < upto implies #[trigger] e.mirrors_slot(r, i) by {
            if i < at {
                assert(mid.mirrors_slot(r, i));
            }
        }
    }
}

proof fn lemma_revolume_follows(d: DeviceState, old_m: SpeakerModel, m: SpeakerModel, upto: int)
    requires
        0 <= upto <= MAX_TRACKS,
        m.wf(),
        old_m.tracks == m.tracks,
        old_m.sinks == m.sinks,
        halfway(d, old_m, old_m, 0),
    ensures
        ({
            let ops = m.revolume_ops(upto);
            let e = d.after_all(ops);
            &&& d.accepts_all(ops)
            &&& e.open == d.open
            &&& halfway(e, old_m, m, upto)
        }),
    decreases upto,
{
    lemma_no_ops(d);
    if upto > 0 {
        let at = upto - 1;
        let head = m.revolume_ops(at);
        let tail = m.revolume_slot_ops(at);
        lemma_revolume_follows(d, old_m, m, at);
        let mid = d.after_all(head);
        lemma_ops_joined(d, head, tail);
        lemma_no_ops(mid);
        assert(mid.mirrors_slot(old_m, at));
        if let Some(track) = m.tracks[at] {
            if m.sinks[at] is Some {
                lemma_one_op(
                    mid,
                    DeviceOp::SetVolume { slot: at as usize, gain: m.track_gain(track) },
                );
            }
        }
        let e = mid.after_all(tail);
        assert forall|i: int| 0 <= i < upto implies #[trigger] e.mirrors_slot(m, i) by {
            if i < at {
                assert(mid.mirrors_slot(m, i));
            }
        }
        assert forall|i: int| upto <= i < MAX_TRACKS implies #[trigger] e.mirrors_slot(old_m, i) by {
            assert(mid.mirrors_slot(old_m, i));
        }
    }
}

/// The device never drifts from the worker. Take a device that shows what a
/// well-formed worker believes, and any command. The device can carry out
/// everything the command asks, in the order asked: nothing is asked of a
/// closed output but to open, no sink is made where one is, none dropped or
/// adjusted where none is. And when it has done so it shows what the worker
/// believes after the command: sinks in the same slots, each at the volume
/// and in the play state of the track its slot holds.
pub proof fn law_device_follows_worker(d: DeviceState, m: SpeakerModel, cmd: AudioCmd)
    requires
        m.wf(),
        d.mirrors(m),
    ensures
        d.accepts_all(m.ops(cmd)),
        d.after_all(m.ops(cmd)).mirrors(m.next(cmd)),
{
    let after = m.next(cmd);
    m.lemma_next_wf(cmd);
    lemma_no_ops(d);
    if m.phase == Phase::Stopped {
        return ;
    }
    match cmd {
        AudioCmd::Quit => {
            let dropped = m.destroy_all_ops(MAX_TRACKS as int);
            lemma_destroy_all_follows(d, m, MAX_TRACKS as int);
            lemma_ops_joined(d, dropped, m.close_ops());
            let mid = d.after_all(dropped);
            lemma_no_ops(mid);
            if m.phase == Phase::Warm {
                lemma_one_op(mid, DeviceOp::Close);
            }
            let e = mid.after_all(m.close_ops());
            assert forall|i: int| 0 <= i < MAX_TRACKS implies #[trigger] e.mirrors_slot(after, i) by {
                assert(e.sinks[i] is None);
            }
        },
        AudioCmd::Prewarm => {
            if m.phase == Phase::Cold {
                lemma_one_op(d, DeviceOp::Open);
            }
            let e = d.after_all(m.ops(cmd));
            assert forall|i: int| 0 <= i < MAX_TRACKS implies #[trigger] e.mirrors_slot(after, i) by {
                assert(d.mirrors_slot(m, i));
            }
        },
        AudioCmd::State(update) => {
            let tuned = m.tuned(update.sound_volume, update.track_volume);
            assert forall|i: int| 0 <= i < MAX_TRACKS implies (#[trigger] d.sinks[i] is Some
                <==> tuned.sinks[i] is Some) by {
                assert(d.mirrors_slot(m, i));
            }
            lemma_reconcile_follows(d, tuned, update.tracks@, MAX_TRACKS as int);
        },
        AudioCmd::PlaySound(sound) => {
            if m.can_play(sound.key) {
                lemma_one_op(
                    d,
                    DeviceOp::PlayOnce {
                        bytes: m.library[sound.key],
                        gain: resolved(
                            m.volumes,
                            sound.key,
                            m.sound_volume,
                            sound.volume,
                        ),
                        speed: sound.speed,
                    },
                );
            }
        },
        AudioCmd::UpdateLibrary(library, restart) => {
            let swapped = SpeakerModel { library: library@, ..m };
            if restart {
                let dropped = swapped.destroy_all_ops(MAX_TRACKS as int);
                let made = swapped.create_all_ops(MAX_TRACKS as int);
                assert forall|i: int| 0 <= i < MAX_TRACKS implies #[trigger] d.mirrors_slot(
                    swapped,
                    i,
                ) by {
                    assert(d.mirrors_slot(m, i));
                }
                lemma_destroy_all_follows(d, swapped, MAX_TRACKS as int);
                let mid = d.after_all(dropped);
                lemma_create_all_follows(mid, swapped, MAX_TRACKS as int);
                lemma_ops_joined(d, dropped, made);
            } else {
                assert forall|i: int| 0 <= i < MAX_TRACKS implies #[trigger] d.mirrors_slot(
                    after,
                    i,
                ) by {
                    assert(d.mirrors_slot(m, i));
                }
            }
        },
        AudioCmd::UpdateVolumes(volumes) => {
            let tabled = SpeakerModel { volumes: volumes@, ..m };
            assert forall|i: int| 0 <= i < MAX_TRACKS implies #[trigger] d.mirrors_slot(m, i) by {}
            lemma_revolume_follows(d, m, tabled, MAX_TRACKS as int);
        },
    }
}

/// The device never drifts, however long the queue. What holds of one
/// command holds of any number taken in order: the device can carry out all
/// that they ask, the worker stays well formed, and at the end the device
/// shows what the worker believes.
pub proof fn law_device_follows_queue(d: DeviceState, m: SpeakerModel, cmds: Seq<AudioCmd>)
    requires
        m.wf(),
        d.mirrors(m),
    ensures
        m.run(cmds).wf(),
        d.accepts_all(m.run_ops(cmds)),
        d.after_all(m.run_ops(cmds)).mirrors(m.run(cmds)),
    decreases cmds.len(),
{
    lemma_no_ops(d);
    if cmds.len() > 0 {
        let front = cmds.drop_last();
        law_device_follows_queue(d, m, front);
        let mid = m.run(front);
        let e = d.after_all(m.run_ops(front));
        mid.lemma_next_wf(cmds.last());
        law_device_follows_worker(e, mid, cmds.last());
        lemma_ops_joined(d, m.run_ops(front), mid.ops(cmds.last()));
    }
}

/// A device with its output closed and no sink in any slot.
pub open spec fn idle_device() -> DeviceState {
    DeviceState { open: false, sinks: Seq::new(MAX_TRACKS as nat, |i: int| None) }
}

/// A fresh device shows what a fresh worker believes.
pub proof fn law_fresh_device_mirrors_fresh_worker(
    library: Map<u64, AudioBytes>,
    volumes: Map<u64, Level>,
)
    ensures
        SpeakerModel::initial(library, volumes).wf(),
        idle_device().mirrors(SpeakerModel::initial(library, volumes)),
{
    let m = SpeakerModel::initial(library, volumes);
    assert forall|i: int| 0 <= i < MAX_TRACKS implies #[trigger] idle_device().mirrors_slot(m, i) by {}
}

/// Reporting a sink that could not be made sets the books right. Where the
/// device shows the worker in every slot but one, and has no sink in that one,
/// it shows the worker in full once `sink_failed` has been told of that slot.
pub proof fn law_reported_sink_restores_mirror(d: DeviceState, m: SpeakerModel, slot: int)
    requires
        m.wf(),
        0 <= slot < MAX_TRACKS,
        d.open == (m.phase == Phase::Warm),
        d.sinks.len() == MAX_TRACKS,
        d.sinks[slot] is None,
        forall|i: int| 0 <= i < MAX_TRACKS && i != slot ==> #[trigger] d.mirrors_slot(m, i),
    ensures
        m.without_sink(slot).wf(),
        d.mirrors(m.without_sink(slot)),
{
    let after = m.without_sink(slot);
    assert forall|i: int| 0 <= i < MAX_TRACKS implies #[trigger] d.mirrors_slot(after, i) by {
        if i != slot {
            assert(d.mirrors_slot(m, i));
        }
    }
}

/// A worker told that its device has failed believes what a device without
/// output and without sinks shows.
pub proof fn law_reported_device_restores_mirror(m: SpeakerModel)
    requires
        m.wf(),
    ensures
        m.halted().wf(),
        idle_device().mirrors(m.halted()),
{
    let after = m.halted();
    assert forall|i: int| 0 <= i < MAX_TRACKS implies #[trigger] idle_device().mirrors_slot(
        after,
        i,
    ) by {}
}

} // verus!
