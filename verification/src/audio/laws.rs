use vstd::prelude::*;

use crate::audio::command::{AudioCmd, StateUpdate, Track, MAX_TRACKS};
use crate::audio::device::DeviceOp;
use crate::audio::level::resolved;
use crate::audio::model::{no_sinks, Phase, SpeakerModel};

verus! {

broadcast use vstd::array::group_array_axioms;

/// The test that picks the operations addressed to the sink of `slot`.
pub open spec fn concerning(slot: int) -> spec_fn(DeviceOp) -> bool {
    |op: DeviceOp| op.concerns(slot)
}

/// The operations among `ops` that are addressed to the sink of `slot`, in
/// their order.
pub open spec fn addressed_to(ops: Seq<DeviceOp>, slot: int) -> Seq<DeviceOp> {
    ops.filter(concerning(slot))
}

/// No operation among `ops` makes or drops a sink.
pub open spec fn quiet(ops: Seq<DeviceOp>) -> bool {
    forall|i: int| 0 <= i < ops.len() ==> !(#[trigger] ops[i] is CreateSink) && !(ops[i] is DestroySink)
}

proof fn lemma_filter_none(pred: spec_fn(DeviceOp) -> bool)
    ensures
        Seq::<DeviceOp>::empty().filter(pred) == Seq::<DeviceOp>::empty(),
{
    reveal_with_fuel(Seq::filter, 1);
}

proof fn lemma_filter_one(op: DeviceOp, pred: spec_fn(DeviceOp) -> bool)
    ensures
        seq![op].filter(pred) == if pred(op) {
            seq![op]
        } else {
            Seq::<DeviceOp>::empty()
        },
{
    reveal_with_fuel(Seq::filter, 2);
    assert(seq![op].drop_last() =~= Seq::<DeviceOp>::empty());
    assert(Seq::<DeviceOp>::empty().push(op) =~= seq![op]);
}

proof fn lemma_filter_two(a: DeviceOp, b: DeviceOp, pred: spec_fn(DeviceOp) -> bool)
    ensures
        seq![a, b].filter(pred) == seq![a].filter(pred) + seq![b].filter(pred),
{
    assert(seq![a, b] =~= seq![a] + seq![b]);
    Seq::filter_distributes_over_add(seq![a], seq![b], pred);
}

/// What reconciling slot `at` asks of the device is addressed to that slot
/// and to no other.
proof fn lemma_slot_ops_addressed(m: SpeakerModel, at: int, wanted: Option<Track>, slot: int)
    requires
        0 <= at < MAX_TRACKS,
        0 <= slot < MAX_TRACKS,
    ensures
        addressed_to(m.slot_ops(at, wanted), slot) == if at == slot {
            m.slot_ops(at, wanted)
        } else {
            Seq::<DeviceOp>::empty()
        },
{
    let pred = concerning(slot);
    lemma_filter_none(pred);
    lemma_destroy_ops_addressed(m, at, slot);
    if m.continues(at, wanted) {
        let track = wanted->0;
        if m.sinks[at] is Some {
            let a = DeviceOp::SetPlaying { slot: at as usize, playing: track.playing };
            let b = DeviceOp::SetVolume { slot: at as usize, gain: m.track_gain(track) };
            lemma_filter_two(a, b, pred);
            lemma_filter_one(a, pred);
            lemma_filter_one(b, pred);
            assert(seq![a] + seq![b] =~= seq![a, b]);
            assert(Seq::<DeviceOp>::empty() + Seq::<DeviceOp>::empty() =~= Seq::<DeviceOp>::empty());
        }
    } else {
        let made = match wanted {
            Some(track) => m.create_ops(at, track),
            None => seq![],
        };
        Seq::filter_distributes_over_add(m.destroy_ops(at), made, pred);
        if let Some(track) = wanted {
            lemma_create_ops_addressed(m, at, track, slot);
        }
        assert(Seq::<DeviceOp>::empty() + Seq::<DeviceOp>::empty() =~= Seq::<DeviceOp>::empty());
    }
}

proof fn lemma_destroy_ops_addressed(m: SpeakerModel, at: int, slot: int)
    requires
        0 <= at < MAX_TRACKS,
        0 <= slot < MAX_TRACKS,
    ensures
        addressed_to(m.destroy_ops(at), slot) == if at == slot {
            m.destroy_ops(at)
        } else {
            Seq::<DeviceOp>::empty()
        },
{
    let pred = concerning(slot);
    lemma_filter_none(pred);
    if m.sinks[at] is Some {
        lemma_filter_one(DeviceOp::DestroySink { slot: at as usize }, pred);
    }
}

proof fn lemma_create_ops_addressed(m: SpeakerModel, at: int, track: Track, slot: int)
    requires
        0 <= at < MAX_TRACKS,
        0 <= slot < MAX_TRACKS,
    ensures
        addressed_to(m.create_ops(at, track), slot) == if at == slot {
            m.create_ops(at, track)
        } else {
            Seq::<DeviceOp>::empty()
        },
{
    let pred = concerning(slot);
    lemma_filter_none(pred);
    if m.can_play(track.key) {
        lemma_filter_one(
            DeviceOp::CreateSink {
                slot: at as usize,
                bytes: m.library[track.key],
                gain: m.track_gain(track),
                playing: track.playing,
            },
            pred,
        );
    }
}

/// Of all that a reconciliation asks of the device, what is addressed to one
/// slot is what reconciling that slot alone asks.
pub proof fn lemma_reconcile_addressed(
    m: SpeakerModel,
    wanted: Seq<Option<Track>>,
    upto: int,
    slot: int,
)
    requires
        0 <= upto <= MAX_TRACKS,
        0 <= slot < MAX_TRACKS,
    ensures
        addressed_to(m.reconcile_ops(wanted, upto), slot) == if slot < upto {
            m.slot_ops(slot, wanted[slot])
        } else {
            Seq::<DeviceOp>::empty()
        },
    decreases upto,
{
    let pred = concerning(slot);
    lemma_filter_none(pred);
    if upto > 0 {
        let head = m.reconcile_ops(wanted, upto - 1);
        let tail = m.slot_ops(upto - 1, wanted[upto - 1]);
        lemma_reconcile_addressed(m, wanted, upto - 1, slot);
        lemma_slot_ops_addressed(m, upto - 1, wanted[upto - 1], slot);
        Seq::filter_distributes_over_add(head, tail, pred);
        assert(Seq::<DeviceOp>::empty() + tail =~= tail);
        assert(head.filter(pred) + Seq::<DeviceOp>::empty() =~= head.filter(pred));
    }
}

/// An operation that is not among those addressed to `slot` neither makes
/// nor drops the sink of `slot`.
proof fn lemma_untouched(ops: Seq<DeviceOp>, slot: int)
    requires
        quiet(addressed_to(ops, slot)),
    ensures
        forall|i: int| 0 <= i < ops.len() ==> !(#[trigger] ops[i]).creates(slot) && !ops[i].destroys(slot),
{
    let pred = concerning(slot);
    assert forall|i: int| 0 <= i < ops.len() implies !(#[trigger] ops[i]).creates(slot)
        && !ops[i].destroys(slot) by {
        if ops[i].creates(slot) || ops[i].destroys(slot) {
            assert(pred(ops[i]));
            ops.lemma_filter_contains_rev(pred, ops[i]);
            let picked = ops.filter(pred);
            assert(picked.contains(ops[i]));
            let k = choose|k: int| 0 <= k < picked.len() && picked[k] == ops[i];
            assert(picked[k] is CreateSink || picked[k] is DestroySink);
        }
    }
}

/// Continuity. Take two state updates, one after the other, that ask for a
/// track of the same key in the same slot. The second one leaves the sink of
/// that slot alone: the slot has the sink it had, and nothing the device is
/// asked to do makes or drops a sink there. Volume and play state may differ
/// between the two as they like.
pub proof fn law_continuity(m: SpeakerModel, first: StateUpdate, second: StateUpdate, slot: int)
    requires
        m.wf(),
        0 <= slot < MAX_TRACKS,
        first.tracks@[slot] matches Some(a) && second.tracks@[slot] matches Some(b) && a.key
            == b.key,
    ensures
        ({
            let between = m.next(AudioCmd::State(first));
            let ops = between.ops(AudioCmd::State(second));
            &&& between.next(AudioCmd::State(second)).sinks[slot] == between.sinks[slot]
            &&& forall|i: int|
                0 <= i < ops.len() ==> !(#[trigger] ops[i]).creates(slot) && !ops[i].destroys(slot)
        }),
{
    let between = m.next(AudioCmd::State(first));
    let ops = between.ops(AudioCmd::State(second));
    if between.phase != Phase::Stopped {
        let tuned = between.tuned(second.sound_volume, second.track_volume);
        assert(tuned.continues(slot, second.tracks@[slot]));
        lemma_reconcile_addressed(tuned, second.tracks@, MAX_TRACKS as int, slot);
        assert(quiet(addressed_to(ops, slot)));
        lemma_untouched(ops, slot);
    }
}

/// A reconciliation in which every slot continues its track, or stays
/// empty with no sink, makes and drops nothing.
proof fn lemma_reconcile_quiet(m: SpeakerModel, wanted: Seq<Option<Track>>, upto: int)
    requires
        0 <= upto <= MAX_TRACKS,
        wanted.len() == MAX_TRACKS,
        forall|j: int|
            0 <= j < upto ==> m.continues(j, #[trigger] wanted[j]) || (wanted[j] is None
                && m.sinks[j] is None),
    ensures
        quiet(m.reconcile_ops(wanted, upto)),
    decreases upto,
{
    if upto > 0 {
        lemma_reconcile_quiet(m, wanted, upto - 1);
        let w = wanted[upto - 1];
        assert(m.continues(upto - 1, w) || (w is None && m.sinks[upto - 1] is None));
        assert(quiet(m.slot_ops(upto - 1, w)));
    }
}

/// Idempotence. Reconciling against a state and then against the same state
/// again makes no sink and drops none the second time, and leaves the worker
/// as the first time left it.
pub proof fn law_idempotent(m: SpeakerModel, update: StateUpdate)
    requires
        m.wf(),
    ensures
        ({
            let once = m.next(AudioCmd::State(update));
            &&& quiet(once.ops(AudioCmd::State(update)))
            &&& once.next(AudioCmd::State(update)) == once
        }),
{
    let cmd = AudioCmd::State(update);
    let once = m.next(cmd);
    if once.phase != Phase::Stopped {
        let wanted = update.tracks@;
        let tuned = once.tuned(update.sound_volume, update.track_volume);
        assert(tuned == once);
        assert forall|j: int| 0 <= j < MAX_TRACKS implies once.continues(j, #[trigger] wanted[j])
            || (wanted[j] is None && once.sinks[j] is None) by {
            assert(once.tracks[j] == wanted[j]);
        }
        lemma_reconcile_quiet(once, wanted, MAX_TRACKS as int);
        assert(once.reconciled(wanted).sinks =~= once.sinks);
    }
}

/// A change of key restarts. Where a slot with a live sink is asked for a
/// track of another key that the library has, the device is asked exactly two
/// things of that slot: to drop its sink, then to make one for the new key.
/// The old sink is never pointed at the new asset.
pub proof fn law_key_change_restarts(m: SpeakerModel, update: StateUpdate, slot: int)
    requires
        m.wf(),
        0 <= slot < MAX_TRACKS,
        m.sinks[slot] is Some,
        update.tracks@[slot] matches Some(track) && m.sinks[slot] != Some(track.key)
            && m.library.contains_key(track.key),
    ensures
        ({
            let track = update.tracks@[slot]->0;
            let tuned = m.tuned(update.sound_volume, update.track_volume);
            &&& addressed_to(m.ops(AudioCmd::State(update)), slot) == seq![
                DeviceOp::DestroySink { slot: slot as usize },
                DeviceOp::CreateSink {
                    slot: slot as usize,
                    bytes: m.library[track.key],
                    gain: tuned.track_gain(track),
                    playing: track.playing,
                },
            ]
            &&& m.next(AudioCmd::State(update)).sinks[slot] == Some(track.key)
        }),
{
    let track = update.tracks@[slot]->0;
    let tuned = m.tuned(update.sound_volume, update.track_volume);
    assert(m.sinks[slot] is Some);
    assert(m.phase == Phase::Warm);
    assert(!tuned.continues(slot, update.tracks@[slot]));
    lemma_reconcile_addressed(tuned, update.tracks@, MAX_TRACKS as int, slot);
    assert(tuned.slot_ops(slot, update.tracks@[slot]) =~= seq![
        DeviceOp::DestroySink { slot: slot as usize },
        DeviceOp::CreateSink {
            slot: slot as usize,
            bytes: m.library[track.key],
            gain: tuned.track_gain(track),
            playing: track.playing,
        },
    ]);
}

/// A change of key is never an adjustment in place. Where a slot is asked
/// for a track whose key differs from the one it holds, nothing the device is
/// asked of that slot sets play state or volume on the sink it has.
pub proof fn law_key_change_never_in_place(m: SpeakerModel, update: StateUpdate, slot: int)
    requires
        m.wf(),
        0 <= slot < MAX_TRACKS,
        m.tracks[slot] matches Some(held) && update.tracks@[slot] matches Some(track) && held.key
            != track.key,
    ensures
        ({
            let ops = addressed_to(m.ops(AudioCmd::State(update)), slot);
            forall|i: int|
                0 <= i < ops.len() ==> !(#[trigger] ops[i] is SetPlaying) && !(ops[i] is SetVolume)
        }),
{
    let tuned = m.tuned(update.sound_volume, update.track_volume);
    if m.phase != Phase::Stopped {
        lemma_reconcile_addressed(tuned, update.tracks@, MAX_TRACKS as int, slot);
    } else {
        lemma_filter_none(concerning(slot));
    }
}

proof fn lemma_destroy_all_addressed(m: SpeakerModel, upto: int, slot: int)
    requires
        0 <= upto <= MAX_TRACKS,
        0 <= slot < MAX_TRACKS,
    ensures
        addressed_to(m.destroy_all_ops(upto), slot) == if slot < upto {
            m.destroy_ops(slot)
        } else {
            Seq::<DeviceOp>::empty()
        },
    decreases upto,
{
    let pred = concerning(slot);
    lemma_filter_none(pred);
    if upto > 0 {
        let head = m.destroy_all_ops(upto - 1);
        let tail = m.destroy_ops(upto - 1);
        lemma_destroy_all_addressed(m, upto - 1, slot);
        lemma_destroy_ops_addressed(m, upto - 1, slot);
        Seq::filter_distributes_over_add(head, tail, pred);
        assert(Seq::<DeviceOp>::empty() + tail =~= tail);
        assert(head.filter(pred) + Seq::<DeviceOp>::empty() =~= head.filter(pred));
    }
}

/// Making a sink for the track that `slot` holds, if it holds one whose
/// asset can be played.
pub open spec fn recreate_ops(m: SpeakerModel, slot: int) -> Seq<DeviceOp> {
    match m.tracks[slot] {
        Some(track) => m.create_ops(slot, track),
        None => seq![],
    }
}

proof fn lemma_create_all_addressed(m: SpeakerModel, upto: int, slot: int)
    requires
        0 <= upto <= MAX_TRACKS,
        0 <= slot < MAX_TRACKS,
    ensures
        addressed_to(m.create_all_ops(upto), slot) == if slot < upto {
            recreate_ops(m, slot)
        } else {
            Seq::<DeviceOp>::empty()
        },
    decreases upto,
{
    let pred = concerning(slot);
    lemma_filter_none(pred);
    if upto > 0 {
        let head = m.create_all_ops(upto - 1);
        let tail = recreate_ops(m, upto - 1);
        lemma_create_all_addressed(m, upto - 1, slot);
        if let Some(track) = m.tracks[upto - 1] {
            lemma_create_ops_addressed(m, upto - 1, track, slot);
        }
        Seq::filter_distributes_over_add(head, tail, pred);
        assert(Seq::<DeviceOp>::empty() + tail =~= tail);
        assert(head.filter(pred) + Seq::<DeviceOp>::empty() =~= head.filter(pred));
    }
}

/// A new library alone touches no sink. Replacing the library without
/// restarting asks nothing of the device and leaves every slot with the track
/// and the sink it had, whatever the new library holds.
pub proof fn law_library_swap_keeps_sinks(m: SpeakerModel, cmd: AudioCmd)
    requires
        cmd matches AudioCmd::UpdateLibrary(_, restart) && !restart,
    ensures
        m.ops(cmd) == Seq::<DeviceOp>::empty(),
        m.next(cmd).sinks == m.sinks,
        m.next(cmd).tracks == m.tracks,
        m.next(cmd).phase == m.phase,
{
}

/// A new library with restart renews every sink. Of each slot the device is
/// asked to drop the sink it has, if any, and then to make one from the new
/// library for the track the slot holds, if the device is open and the new
/// library has its key; and it is asked nothing else of that slot.
pub proof fn law_library_restart(m: SpeakerModel, cmd: AudioCmd, slot: int)
    requires
        m.phase != Phase::Stopped,
        0 <= slot < MAX_TRACKS,
        cmd matches AudioCmd::UpdateLibrary(_, restart) && restart,
    ensures
        ({
            let swapped = SpeakerModel { library: cmd->UpdateLibrary_0@, ..m };
            &&& addressed_to(m.ops(cmd), slot) == m.destroy_ops(slot) + recreate_ops(swapped, slot)
            &&& m.next(cmd).sinks[slot] == swapped.restarted_sink(slot)
            &&& m.next(cmd).tracks == m.tracks
        }),
{
    let swapped = SpeakerModel { library: cmd->UpdateLibrary_0@, ..m };
    let pred = concerning(slot);
    lemma_destroy_all_addressed(swapped, MAX_TRACKS as int, slot);
    lemma_create_all_addressed(swapped, MAX_TRACKS as int, slot);
    Seq::filter_distributes_over_add(
        swapped.destroy_all_ops(MAX_TRACKS as int),
        swapped.create_all_ops(MAX_TRACKS as int),
        pred,
    );
}

/// With restart, a slot that has a sink and holds a track of a key in the
/// new library is asked exactly two things: to drop its sink, then to make
/// one from the bytes the new library has for that key.
pub proof fn law_library_restart_recreates(m: SpeakerModel, cmd: AudioCmd, slot: int)
    requires
        m.wf(),
        0 <= slot < MAX_TRACKS,
        m.sinks[slot] is Some,
        cmd matches AudioCmd::UpdateLibrary(library, restart) && restart
            && library@.contains_key(m.sinks[slot]->0),
    ensures
        ({
            let track = m.tracks[slot]->0;
            &&& m.tracks[slot] is Some
            &&& addressed_to(m.ops(cmd), slot) == seq![
                DeviceOp::DestroySink { slot: slot as usize },
                DeviceOp::CreateSink {
                    slot: slot as usize,
                    bytes: cmd->UpdateLibrary_0@[track.key],
                    gain: m.track_gain(track),
                    playing: track.playing,
                },
            ]
            &&& m.next(cmd).sinks[slot] == m.sinks[slot]
        }),
{
    let swapped = SpeakerModel { library: cmd->UpdateLibrary_0@, ..m };
    let track = m.tracks[slot]->0;
    assert(m.sinks[slot] is Some);
    assert(m.phase == Phase::Warm);
    law_library_restart(m, cmd, slot);
    assert(m.destroy_ops(slot) + recreate_ops(swapped, slot) =~= seq![
        DeviceOp::DestroySink { slot: slot as usize },
        DeviceOp::CreateSink {
            slot: slot as usize,
            bytes: cmd->UpdateLibrary_0@[track.key],
            gain: m.track_gain(track),
            playing: track.playing,
        },
    ]);
}

proof fn lemma_revolume_quiet(m: SpeakerModel, upto: int)
    requires
        0 <= upto <= MAX_TRACKS,
    ensures
        quiet(m.revolume_ops(upto)),
    decreases upto,
{
    if upto > 0 {
        lemma_revolume_quiet(m, upto - 1);
        assert(quiet(m.revolume_slot_ops(upto - 1)));
    }
}

proof fn lemma_revolume_addressed(m: SpeakerModel, upto: int, slot: int)
    requires
        0 <= upto <= MAX_TRACKS,
        0 <= slot < MAX_TRACKS,
    ensures
        addressed_to(m.revolume_ops(upto), slot) == if slot < upto {
            m.revolume_slot_ops(slot)
        } else {
            Seq::<DeviceOp>::empty()
        },
    decreases upto,
{
    let pred = concerning(slot);
    lemma_filter_none(pred);
    if upto > 0 {
        let head = m.revolume_ops(upto - 1);
        let tail = m.revolume_slot_ops(upto - 1);
        lemma_revolume_addressed(m, upto - 1, slot);
        if let Some(track) = m.tracks[upto - 1] {
            if m.sinks[upto - 1] is Some {
                lemma_filter_one(
                    DeviceOp::SetVolume { slot: (upto - 1) as usize, gain: m.track_gain(track) },
                    pred,
                );
            }
        }
        Seq::filter_distributes_over_add(head, tail, pred);
        assert(Seq::<DeviceOp>::empty() + tail =~= tail);
        assert(head.filter(pred) + Seq::<DeviceOp>::empty() =~= head.filter(pred));
    }
}

/// A new volume table retunes and nothing more: it makes no sink and drops
/// none, and every slot keeps the track and the sink it had.
pub proof fn law_volumes_keep_sinks(m: SpeakerModel, cmd: AudioCmd)
    requires
        cmd is UpdateVolumes,
    ensures
        quiet(m.ops(cmd)),
        m.next(cmd).sinks == m.sinks,
        m.next(cmd).tracks == m.tracks,
{
    if m.phase != Phase::Stopped {
        let tabled = SpeakerModel { volumes: cmd->UpdateVolumes_0@, ..m };
        lemma_revolume_quiet(tabled, MAX_TRACKS as int);
    }
}

/// A new volume table reaches every live sink at once. Of a slot that has a
/// sink the device is asked one thing, to set its volume as the new table
/// resolves it; of a slot without a sink it is asked nothing.
pub proof fn law_volumes_retune_live_sinks(m: SpeakerModel, cmd: AudioCmd, slot: int)
    requires
        m.wf(),
        m.phase != Phase::Stopped,
        0 <= slot < MAX_TRACKS,
        cmd is UpdateVolumes,
    ensures
        ({
            let table = cmd->UpdateVolumes_0@;
            addressed_to(m.ops(cmd), slot) == match m.sinks[slot] {
                Some(key) => seq![
                    DeviceOp::SetVolume {
                        slot: slot as usize,
                        gain: resolved(
                            table,
                            key,
                            m.track_volume,
                            m.tracks[slot]->0.volume,
                        ),
                    },
                ],
                None => Seq::<DeviceOp>::empty(),
            }
        }),
{
    let tabled = SpeakerModel { volumes: cmd->UpdateVolumes_0@, ..m };
    lemma_revolume_addressed(tabled, MAX_TRACKS as int, slot);
    assert(m.sinks[slot] is Some ==> m.tracks[slot] is Some);
}

/// Nothing reaches the device before it is opened. A cold worker asks
/// nothing of the device but, when told to warm up, to open; it keeps its
/// books all the same.
pub proof fn law_cold_worker_is_silent(m: SpeakerModel, cmd: AudioCmd)
    requires
        m.wf(),
        m.phase == Phase::Cold,
    ensures
        m.ops(cmd) == if cmd is Prewarm {
            seq![DeviceOp::Open]
        } else {
            Seq::<DeviceOp>::empty()
        },
        m.next(cmd).sinks == no_sinks(),
{
    assert(m.sinks =~= no_sinks());
    match cmd {
        AudioCmd::Quit => {
            lemma_destroy_all_none(m, MAX_TRACKS as int);
            assert(m.ops(cmd) =~= Seq::<DeviceOp>::empty());
        },
        AudioCmd::Prewarm => {},
        AudioCmd::State(update) => {
            let tuned = m.tuned(update.sound_volume, update.track_volume);
            lemma_reconcile_none(tuned, update.tracks@, MAX_TRACKS as int);
            assert(m.next(cmd).sinks =~= no_sinks());
        },
        AudioCmd::PlaySound(_) => {},
        AudioCmd::UpdateLibrary(library, restart) => {
            let swapped = SpeakerModel { library: library@, ..m };
            if restart {
                lemma_destroy_all_none(swapped, MAX_TRACKS as int);
                lemma_create_all_none(swapped, MAX_TRACKS as int);
                assert(m.ops(cmd) =~= Seq::<DeviceOp>::empty());
                assert(m.next(cmd).sinks =~= no_sinks());
            }
        },
        AudioCmd::UpdateVolumes(volumes) => {
            let tabled = SpeakerModel { volumes: volumes@, ..m };
            lemma_revolume_none(tabled, MAX_TRACKS as int);
        },
    }
}

proof fn lemma_destroy_all_none(m: SpeakerModel, upto: int)
    requires
        0 <= upto <= MAX_TRACKS,
        forall|j: int| 0 <= j < upto ==> m.sinks[j] is None,
    ensures
        m.destroy_all_ops(upto) == Seq::<DeviceOp>::empty(),
    decreases upto,
{
    if upto > 0 {
        lemma_destroy_all_none(m, upto - 1);
        assert(m.sinks[upto - 1] is None);
        assert(m.destroy_all_ops(upto) =~= Seq::<DeviceOp>::empty());
    }
}

proof fn lemma_create_all_none(m: SpeakerModel, upto: int)
    requires
        0 <= upto <= MAX_TRACKS,
        m.phase != Phase::Warm,
    ensures
        m.create_all_ops(upto) == Seq::<DeviceOp>::empty(),
    decreases upto,
{
    if upto > 0 {
        lemma_create_all_none(m, upto - 1);
        assert(m.create_all_ops(upto) =~= Seq::<DeviceOp>::empty());
    }
}

proof fn lemma_revolume_none(m: SpeakerModel, upto: int)
    requires
        0 <= upto <= MAX_TRACKS,
        forall|j: int| 0 <= j < upto ==> m.sinks[j] is None,
    ensures
        m.revolume_ops(upto) == Seq::<DeviceOp>::empty(),
    decreases upto,
{
    if upto > 0 {
        lemma_revolume_none(m, upto - 1);
        assert(m.sinks[upto - 1] is None);
        assert(m.revolume_ops(upto) =~= Seq::<DeviceOp>::empty());
    }
}

proof fn lemma_reconcile_none(m: SpeakerModel, wanted: Seq<Option<Track>>, upto: int)
    requires
        0 <= upto <= MAX_TRACKS,
        m.phase != Phase::Warm,
        forall|j: int| 0 <= j < upto ==> m.sinks[j] is None,
    ensures
        m.reconcile_ops(wanted, upto) == Seq::<DeviceOp>::empty(),
    decreases upto,
{
    if upto > 0 {
        lemma_reconcile_none(m, wanted, upto - 1);
        assert(m.sinks[upto - 1] is None);
        assert(m.slot_ops(upto - 1, wanted[upto - 1]) =~= Seq::<DeviceOp>::empty());
        assert(m.reconcile_ops(wanted, upto) =~= Seq::<DeviceOp>::empty());
    }
}

/// The worker's life runs one way: from cold to warm at most once, never
/// back to cold, and once stopped it stays stopped. It leaves the cold phase
/// only when told to warm up or to quit.
pub proof fn law_phases_only_advance(m: SpeakerModel, cmd: AudioCmd)
    ensures
        m.phase == Phase::Stopped ==> m.next(cmd) == m,
        m.phase == Phase::Warm ==> m.next(cmd).phase != Phase::Cold,
        m.phase == Phase::Cold ==> m.next(cmd).phase == (match cmd {
            AudioCmd::Prewarm => Phase::Warm,
            AudioCmd::Quit => Phase::Stopped,
            _ => Phase::Cold,
        }),
        m.next(cmd).phase == Phase::Stopped <==> m.phase == Phase::Stopped || cmd is Quit,
{
}

/// Whether the commands of `cmds` are all other than `Quit`.
pub open spec fn none_quits(cmds: Seq<AudioCmd>) -> bool {
    forall|i: int| 0 <= i < cmds.len() ==> !(#[trigger] cmds[i] is Quit)
}

/// A worker that has not stopped, and is not told to quit, has not stopped
/// afterwards either.
proof fn lemma_runs_through(m: SpeakerModel, cmds: Seq<AudioCmd>)
    requires
        m.phase != Phase::Stopped,
        none_quits(cmds),
    ensures
        m.run(cmds).phase != Phase::Stopped,
    decreases cmds.len(),
{
    if cmds.len() > 0 {
        lemma_runs_through(m, cmds.drop_last());
        assert(!(cmds.last() is Quit));
    }
}

/// A stopped worker is deaf: whatever it is sent, it stays as it is and asks
/// nothing of the device.
proof fn lemma_stopped_is_deaf(m: SpeakerModel, cmds: Seq<AudioCmd>)
    requires
        m.phase == Phase::Stopped,
    ensures
        m.run(cmds) == m,
        m.run_ops(cmds) == Seq::<DeviceOp>::empty(),
    decreases cmds.len(),
{
    if cmds.len() > 0 {
        lemma_stopped_is_deaf(m, cmds.drop_last());
        assert(m.run_ops(cmds) =~= Seq::<DeviceOp>::empty());
    }
}

/// Running a queue is running its front part and then, from where that
/// ended, its back part.
proof fn lemma_run_split(m: SpeakerModel, front: Seq<AudioCmd>, back: Seq<AudioCmd>)
    ensures
        m.run(front + back) == m.run(front).run(back),
        m.run_ops(front + back) == m.run_ops(front) + m.run(front).run_ops(back),
    decreases back.len(),
{
    if back.len() == 0 {
        assert(front + back =~= front);
        assert(m.run_ops(front) + Seq::<DeviceOp>::empty() =~= m.run_ops(front));
    } else {
        let all = front + back;
        assert(all.drop_last() =~= front + back.drop_last());
        assert(all.last() == back.last());
        lemma_run_split(m, front, back.drop_last());
        let mid = m.run(front);
        assert(m.run_ops(all) =~= m.run_ops(front) + mid.run_ops(back));
    }
}

/// No command is lost on shutdown. When `Quit` is queued behind other
/// commands, the worker applies every one of those, in the order queued and
/// without stopping in between, and only then quits; whatever is queued behind
/// `Quit` changes nothing and reaches the device with nothing.
pub proof fn law_quit_drains_queue(m: SpeakerModel, before: Seq<AudioCmd>, after: Seq<AudioCmd>)
    requires
        m.phase != Phase::Stopped,
        none_quits(before),
    ensures
        ({
            let queue = before + seq![AudioCmd::Quit] + after;
            let drained = m.run(before);
            &&& forall|k: int|
                0 <= k <= before.len() ==> (#[trigger] m.run(before.take(k))).phase
                    != Phase::Stopped
            &&& m.run(queue) == drained.next(AudioCmd::Quit)
            &&& m.run(queue).phase == Phase::Stopped
            &&& m.run_ops(queue) == m.run_ops(before) + drained.ops(AudioCmd::Quit)
        }),
{
    let quit = seq![AudioCmd::Quit];
    let queue = before + quit + after;
    let drained = m.run(before);
    lemma_runs_through(m, before);
    assert forall|k: int| 0 <= k <= before.len() implies (#[trigger] m.run(before.take(k))).phase
        != Phase::Stopped by {
        assert(none_quits(before.take(k)));
        lemma_runs_through(m, before.take(k));
    }
    lemma_run_split(m, before + quit, after);
    lemma_run_split(m, before, quit);
    assert(quit.drop_last() =~= Seq::<AudioCmd>::empty());
    assert(quit.last() == AudioCmd::Quit);
    assert(drained.run(quit.drop_last()) == drained);
    assert(drained.run(quit) == drained.next(AudioCmd::Quit));
    assert(drained.run_ops(quit.drop_last()) =~= Seq::<DeviceOp>::empty());
    assert(drained.run_ops(quit) =~= drained.ops(AudioCmd::Quit));
    let stopped = drained.next(AudioCmd::Quit);
    lemma_stopped_is_deaf(stopped, after);
    assert(m.run_ops(queue) =~= m.run_ops(before) + drained.ops(AudioCmd::Quit));
}

} // verus!
