use std::borrow::Cow;
use std::collections::HashMap;

use jamjar::audio::{
    AudioBytes, AudioCmd, AudioLibrary, AudioVolumes, DeviceOp, Gain, Level, Phase, Sound,
    Speaker, StateUpdate, Track, MAX_TRACKS,
};

const A: u64 = 1;
const B: u64 = 2;
const C: u64 = 3;

fn lv(x: f32) -> Level {
    Level::from_bits(x.to_bits())
}

fn volume(gain: &Gain) -> f32 {
    f32::from_bits(gain.asset.to_bits())
        * f32::from_bits(gain.category.to_bits())
        * f32::from_bits(gain.instance.to_bits())
}

fn bytes(content: &'static [u8]) -> AudioBytes {
    AudioBytes::new(Cow::Borrowed(content))
}

fn library(entries: &[(u64, &'static [u8])]) -> AudioLibrary {
    let mut map = HashMap::new();
    for (key, content) in entries {
        map.insert(*key, bytes(content));
    }
    map
}

fn volumes(entries: &[(u64, f32)]) -> AudioVolumes {
    let mut map = HashMap::new();
    for (key, level) in entries {
        map.insert(*key, lv(*level));
    }
    map
}

fn track(key: u64, vol: f32, playing: bool) -> Track {
    Track { key, volume: lv(vol), playing }
}

fn state(track_volume: f32, tracks: &[(usize, Track)]) -> AudioCmd {
    let mut slots = [None; MAX_TRACKS];
    for (slot, t) in tracks {
        slots[*slot] = Some(*t);
    }
    AudioCmd::State(StateUpdate { sound_volume: lv(1.0), track_volume: lv(track_volume), tracks: slots })
}

fn warm_speaker(lib: AudioLibrary, vols: AudioVolumes) -> Speaker {
    let mut speaker = Speaker::new(lib, vols);
    let (running, ops) = speaker.listen(AudioCmd::Prewarm);
    assert!(running);
    assert_eq!(ops, vec![DeviceOp::Open]);
    speaker
}

#[derive(Clone, Debug, PartialEq)]
struct FakeSink {
    marker: u32,
    bytes: Vec<u8>,
    volume: f32,
    playing: bool,
}

struct FakeDevice {
    open: bool,
    next_marker: u32,
    sinks: Vec<Option<FakeSink>>,
    created: usize,
    destroyed: usize,
    played: Vec<(Vec<u8>, f32, f32)>,
}

impl FakeDevice {
    fn new() -> FakeDevice {
        FakeDevice {
            open: false,
            next_marker: 100,
            sinks: vec![None; MAX_TRACKS],
            created: 0,
            destroyed: 0,
            played: Vec::new(),
        }
    }

    fn perform(&mut self, ops: &[DeviceOp]) {
        for op in ops {
            match op {
                DeviceOp::Open => {
                    assert!(!self.open);
                    self.open = true;
                }
                DeviceOp::Close => {
                    assert!(self.open);
                    assert!(self.sinks.iter().all(|s| s.is_none()));
                    self.open = false;
                }
                DeviceOp::CreateSink { slot, bytes, gain, playing } => {
                    assert!(self.open);
                    assert!(self.sinks[*slot].is_none());
                    self.sinks[*slot] = Some(FakeSink {
                        marker: self.next_marker,
                        bytes: bytes.as_ref().to_vec(),
                        volume: volume(gain),
                        playing: *playing,
                    });
                    self.next_marker += 1;
                    self.created += 1;
                }
                DeviceOp::DestroySink { slot } => {
                    assert!(self.sinks[*slot].is_some());
                    self.sinks[*slot] = None;
                    self.destroyed += 1;
                }
                DeviceOp::SetPlaying { slot, playing } => {
                    self.sinks[*slot].as_mut().unwrap().playing = *playing;
                }
                DeviceOp::SetVolume { slot, gain } => {
                    self.sinks[*slot].as_mut().unwrap().volume = volume(gain);
                }
                DeviceOp::PlayOnce { bytes, gain, speed } => {
                    assert!(self.open);
                    self.played.push((
                        bytes.as_ref().to_vec(),
                        volume(gain),
                        f32::from_bits(speed.to_bits()),
                    ));
                }
            }
        }
    }

    fn drive(&mut self, speaker: &mut Speaker, cmd: AudioCmd) -> bool {
        let (running, ops) = speaker.listen(cmd);
        self.perform(&ops);
        for slot in 0..MAX_TRACKS {
            assert_eq!(speaker.sink(slot).is_some(), self.sinks[slot].is_some());
        }
        running
    }
}

#[test]
fn new_speaker_is_cold_and_empty() {
    let speaker = Speaker::new(library(&[(A, b"aaa")]), volumes(&[]));
    assert_eq!(speaker.phase(), Phase::Cold);
    for slot in 0..MAX_TRACKS {
        assert_eq!(speaker.track(slot), None);
        assert_eq!(speaker.sink(slot), None);
    }
    assert_eq!(speaker.track(MAX_TRACKS), None);
    assert_eq!(speaker.sink(usize::MAX), None);
}

#[test]
fn prewarm_opens_the_device_once() {
    let mut speaker = Speaker::new(library(&[]), volumes(&[]));
    assert_eq!(speaker.listen(AudioCmd::Prewarm), (true, vec![DeviceOp::Open]));
    assert_eq!(speaker.phase(), Phase::Warm);
    assert_eq!(speaker.listen(AudioCmd::Prewarm), (true, vec![]));
    assert_eq!(speaker.phase(), Phase::Warm);
}

#[test]
fn track_scenario_create_pause_then_new_volume_table() {
    let mut speaker = warm_speaker(library(&[(A, b"bytesA")]), volumes(&[]));

    let (running, ops) = speaker.listen(state(1.0, &[(0, track(A, 0.5, true))]));
    assert!(running);
    assert_eq!(
        ops,
        vec![DeviceOp::CreateSink {
            slot: 0,
            bytes: bytes(b"bytesA"),
            gain: Gain { asset: lv(1.0), category: lv(1.0), instance: lv(0.5) },
            playing: true,
        }]
    );
    match &ops[0] {
        DeviceOp::CreateSink { gain, .. } => assert_eq!(volume(gain), 0.5),
        other => panic!("unexpected {:?}", other),
    }
    assert_eq!(speaker.sink(0), Some(A));

    let (running, ops) = speaker.listen(state(1.0, &[(0, track(A, 0.5, false))]));
    assert!(running);
    assert_eq!(
        ops,
        vec![
            DeviceOp::SetPlaying { slot: 0, playing: false },
            DeviceOp::SetVolume {
                slot: 0,
                gain: Gain { asset: lv(1.0), category: lv(1.0), instance: lv(0.5) },
            },
        ]
    );
    match &ops[1] {
        DeviceOp::SetVolume { gain, .. } => assert_eq!(volume(gain), 0.5),
        other => panic!("unexpected {:?}", other),
    }

    let (running, ops) = speaker.listen(AudioCmd::UpdateVolumes(volumes(&[(A, 2.0)])));
    assert!(running);
    assert_eq!(
        ops,
        vec![DeviceOp::SetVolume {
            slot: 0,
            gain: Gain { asset: lv(2.0), category: lv(1.0), instance: lv(0.5) },
        }]
    );
    match &ops[0] {
        DeviceOp::SetVolume { gain, .. } => assert_eq!(volume(gain), 1.0),
        other => panic!("unexpected {:?}", other),
    }
    assert_eq!(speaker.sink(0), Some(A));
}

#[test]
fn track_scenario_keeps_one_sink_on_a_device() {
    let mut device = FakeDevice::new();
    let mut speaker = Speaker::new(library(&[(A, b"bytesA")]), volumes(&[]));
    device.drive(&mut speaker, AudioCmd::Prewarm);
    device.drive(&mut speaker, state(1.0, &[(0, track(A, 0.5, true))]));
    let first = device.sinks[0].clone().unwrap();
    assert_eq!(first.volume, 0.5);
    assert!(first.playing);
    assert_eq!(first.bytes, b"bytesA".to_vec());

    device.drive(&mut speaker, state(1.0, &[(0, track(A, 0.5, false))]));
    let second = device.sinks[0].clone().unwrap();
    assert_eq!(second.marker, first.marker);
    assert!(!second.playing);
    assert_eq!(second.volume, 0.5);

    device.drive(&mut speaker, AudioCmd::UpdateVolumes(volumes(&[(A, 2.0)])));
    let third = device.sinks[0].clone().unwrap();
    assert_eq!(third.marker, first.marker);
    assert_eq!(third.volume, 1.0);
    assert_eq!(device.created, 1);
    assert_eq!(device.destroyed, 0);
}

#[test]
fn same_slot_same_key_keeps_the_sink_across_many_updates() {
    let mut device = FakeDevice::new();
    let mut speaker = Speaker::new(library(&[(A, b"a"), (B, b"b")]), volumes(&[]));
    device.drive(&mut speaker, AudioCmd::Prewarm);
    device.drive(
        &mut speaker,
        state(1.0, &[(0, track(A, 0.0, false)), (1, track(B, 1.0, true))]),
    );
    let marker_a = device.sinks[0].as_ref().unwrap().marker;
    let marker_b = device.sinks[1].as_ref().unwrap().marker;
    for step in 1..=10 {
        let fade = step as f32 / 10.0;
        device.drive(
            &mut speaker,
            state(1.0, &[(0, track(A, fade, fade > 0.0)), (1, track(B, 1.0 - fade, fade < 1.0))]),
        );
        assert_eq!(device.sinks[0].as_ref().unwrap().marker, marker_a);
        assert_eq!(device.sinks[1].as_ref().unwrap().marker, marker_b);
        assert_eq!(device.sinks[0].as_ref().unwrap().volume, fade);
        assert_eq!(device.sinks[1].as_ref().unwrap().volume, 1.0 - fade);
    }
    assert!(device.sinks[0].as_ref().unwrap().playing);
    assert!(!device.sinks[1].as_ref().unwrap().playing);
    assert_eq!(device.created, 2);
    assert_eq!(device.destroyed, 0);
}

#[test]
fn reconciling_the_same_state_twice_creates_and_destroys_nothing() {
    let mut device = FakeDevice::new();
    let mut speaker = Speaker::new(library(&[(A, b"a"), (B, b"b")]), volumes(&[(B, 0.25)]));
    device.drive(&mut speaker, AudioCmd::Prewarm);
    let wanted = [(0, track(A, 0.5, true)), (3, track(B, 2.0, false)), (7, track(C, 1.0, true))];
    device.drive(&mut speaker, state(0.5, &wanted));
    assert_eq!(device.created, 2);
    let before: Vec<Option<FakeSink>> = device.sinks.clone();

    let (_, ops) = speaker.listen(state(0.5, &wanted));
    assert!(ops
        .iter()
        .all(|op| !matches!(op, DeviceOp::CreateSink { .. } | DeviceOp::DestroySink { .. })));
    device.perform(&ops);
    assert_eq!(device.sinks, before);
    assert_eq!(device.created, 2);
    assert_eq!(device.destroyed, 0);
    assert_eq!(speaker.sink(7), None);
}

#[test]
fn key_change_in_a_slot_destroys_once_and_creates_once() {
    let mut speaker = warm_speaker(library(&[(A, b"a"), (B, b"b")]), volumes(&[]));
    speaker.listen(state(1.0, &[(2, track(A, 1.0, true))]));
    let (_, ops) = speaker.listen(state(1.0, &[(2, track(B, 0.75, false))]));
    assert_eq!(
        ops,
        vec![
            DeviceOp::DestroySink { slot: 2 },
            DeviceOp::CreateSink {
                slot: 2,
                bytes: bytes(b"b"),
                gain: Gain { asset: lv(1.0), category: lv(1.0), instance: lv(0.75) },
                playing: false,
            },
        ]
    );
    assert_eq!(speaker.sink(2), Some(B));
}

#[test]
fn key_change_gives_the_slot_a_new_sink_on_a_device() {
    let mut device = FakeDevice::new();
    let mut speaker = Speaker::new(library(&[(A, b"a"), (B, b"b")]), volumes(&[]));
    device.drive(&mut speaker, AudioCmd::Prewarm);
    device.drive(&mut speaker, state(1.0, &[(2, track(A, 1.0, true))]));
    let old = device.sinks[2].clone().unwrap();
    device.drive(&mut speaker, state(1.0, &[(2, track(B, 1.0, true))]));
    let new = device.sinks[2].clone().unwrap();
    assert_ne!(new.marker, old.marker);
    assert_eq!(new.bytes, b"b".to_vec());
    assert_eq!(device.created, 2);
    assert_eq!(device.destroyed, 1);
}

#[test]
fn key_change_to_a_missing_asset_only_destroys() {
    let mut speaker = warm_speaker(library(&[(A, b"a")]), volumes(&[]));
    speaker.listen(state(1.0, &[(0, track(A, 1.0, true))]));
    let (_, ops) = speaker.listen(state(1.0, &[(0, track(C, 1.0, true))]));
    assert_eq!(ops, vec![DeviceOp::DestroySink { slot: 0 }]);
    assert_eq!(speaker.sink(0), None);
    assert_eq!(speaker.track(0), Some(track(C, 1.0, true)));
}

#[test]
fn emptied_slot_loses_its_sink() {
    let mut speaker = warm_speaker(library(&[(A, b"a")]), volumes(&[]));
    speaker.listen(state(1.0, &[(5, track(A, 1.0, true))]));
    let (_, ops) = speaker.listen(state(1.0, &[]));
    assert_eq!(ops, vec![DeviceOp::DestroySink { slot: 5 }]);
    assert_eq!(speaker.sink(5), None);
    assert_eq!(speaker.track(5), None);
    let (_, ops) = speaker.listen(state(1.0, &[]));
    assert_eq!(ops, vec![]);
}

#[test]
fn slots_are_reconciled_in_rising_order() {
    let mut speaker = warm_speaker(library(&[(A, b"a"), (B, b"b")]), volumes(&[]));
    speaker.listen(state(1.0, &[(1, track(A, 1.0, true)), (9, track(B, 1.0, true))]));
    let (_, ops) = speaker.listen(state(1.0, &[(0, track(B, 1.0, true)), (9, track(A, 1.0, true))]));
    let slots: Vec<(usize, bool)> = ops
        .iter()
        .map(|op| match op {
            DeviceOp::CreateSink { slot, .. } => (*slot, true),
            DeviceOp::DestroySink { slot } => (*slot, false),
            other => panic!("unexpected {:?}", other),
        })
        .collect();
    assert_eq!(slots, vec![(0, true), (1, false), (9, false), (9, true)]);
}

#[test]
fn missing_asset_leaves_the_slot_silent() {
    let mut speaker = warm_speaker(library(&[(A, b"a")]), volumes(&[]));
    let (running, ops) = speaker.listen(state(1.0, &[(0, track(C, 1.0, true))]));
    assert!(running);
    assert_eq!(ops, vec![]);
    assert_eq!(speaker.track(0), Some(track(C, 1.0, true)));
    assert_eq!(speaker.sink(0), None);
    let (_, ops) = speaker.listen(state(1.0, &[(0, track(C, 0.5, false))]));
    assert_eq!(ops, vec![]);
}

#[test]
fn cold_worker_keeps_books_but_asks_nothing() {
    let mut speaker = Speaker::new(library(&[(A, b"a")]), volumes(&[]));
    let (running, ops) = speaker.listen(state(1.0, &[(0, track(A, 1.0, true))]));
    assert!(running);
    assert_eq!(ops, vec![]);
    assert_eq!(speaker.track(0), Some(track(A, 1.0, true)));
    assert_eq!(speaker.sink(0), None);
    let sound = Sound { key: A, volume: lv(1.0), speed: lv(1.0) };
    assert_eq!(speaker.listen(AudioCmd::PlaySound(sound)), (true, vec![]));
    assert_eq!(speaker.listen(AudioCmd::UpdateVolumes(volumes(&[(A, 2.0)]))), (true, vec![]));
    assert_eq!(
        speaker.listen(AudioCmd::UpdateLibrary(library(&[(A, b"new")]), true)),
        (true, vec![])
    );
    assert_eq!(speaker.phase(), Phase::Cold);
}

#[test]
fn warming_replays_nothing() {
    let mut speaker = Speaker::new(library(&[(A, b"a")]), volumes(&[]));
    speaker.listen(state(1.0, &[(0, track(A, 1.0, true))]));
    assert_eq!(speaker.listen(AudioCmd::Prewarm), (true, vec![DeviceOp::Open]));
    assert_eq!(speaker.sink(0), None);
    let (_, ops) = speaker.listen(state(1.0, &[(0, track(A, 1.0, true))]));
    assert_eq!(ops, vec![]);
    let (_, ops) = speaker.listen(state(1.0, &[(0, track(A, 1.0, true)), (1, track(A, 1.0, true))]));
    assert_eq!(ops.len(), 1);
    assert!(matches!(ops[0], DeviceOp::CreateSink { slot: 1, .. }));
}

#[test]
fn library_update_without_restart_leaves_sinks_alone() {
    let mut device = FakeDevice::new();
    let mut speaker = Speaker::new(library(&[(A, b"old")]), volumes(&[]));
    device.drive(&mut speaker, AudioCmd::Prewarm);
    device.drive(&mut speaker, state(1.0, &[(0, track(A, 1.0, true))]));
    let before = device.sinks[0].clone().unwrap();
    let (running, ops) = speaker.listen(AudioCmd::UpdateLibrary(library(&[(A, b"new")]), false));
    assert!(running);
    assert_eq!(ops, vec![]);
    device.perform(&ops);
    assert_eq!(device.sinks[0], Some(before));
    assert_eq!(speaker.sink(0), Some(A));
    let (_, ops) = speaker.listen(state(1.0, &[(0, track(A, 1.0, true)), (1, track(A, 1.0, true))]));
    assert!(matches!(&ops[2], DeviceOp::CreateSink { slot: 1, bytes, .. } if bytes.as_ref() == b"new"));
}

#[test]
fn library_update_with_restart_recreates_every_sink() {
    let mut device = FakeDevice::new();
    let mut speaker = Speaker::new(library(&[(A, b"oldA"), (B, b"oldB")]), volumes(&[]));
    device.drive(&mut speaker, AudioCmd::Prewarm);
    device.drive(
        &mut speaker,
        state(1.0, &[(0, track(A, 0.5, true)), (4, track(B, 1.0, false)), (6, track(C, 1.0, true))]),
    );
    let old_a = device.sinks[0].clone().unwrap();
    let old_b = device.sinks[4].clone().unwrap();

    let (running, ops) = speaker.listen(AudioCmd::UpdateLibrary(
        library(&[(A, b"newA"), (B, b"newB"), (C, b"newC")]),
        true,
    ));
    assert!(running);
    assert_eq!(
        ops,
        vec![
            DeviceOp::DestroySink { slot: 0 },
            DeviceOp::DestroySink { slot: 4 },
            DeviceOp::CreateSink {
                slot: 0,
                bytes: bytes(b"newA"),
                gain: Gain { asset: lv(1.0), category: lv(1.0), instance: lv(0.5) },
                playing: true,
            },
            DeviceOp::CreateSink {
                slot: 4,
                bytes: bytes(b"newB"),
                gain: Gain { asset: lv(1.0), category: lv(1.0), instance: lv(1.0) },
                playing: false,
            },
            DeviceOp::CreateSink {
                slot: 6,
                bytes: bytes(b"newC"),
                gain: Gain { asset: lv(1.0), category: lv(1.0), instance: lv(1.0) },
                playing: true,
            },
        ]
    );
    device.perform(&ops);
    assert_ne!(device.sinks[0].as_ref().unwrap().marker, old_a.marker);
    assert_ne!(device.sinks[4].as_ref().unwrap().marker, old_b.marker);
    assert_eq!(device.sinks[0].as_ref().unwrap().bytes, b"newA".to_vec());
    assert!(device.sinks[6].is_some());
    assert_eq!(speaker.sink(6), Some(C));
}

#[test]
fn restart_drops_the_sink_of_an_asset_that_left_the_library() {
    let mut speaker = warm_speaker(library(&[(A, b"a")]), volumes(&[]));
    speaker.listen(state(1.0, &[(0, track(A, 1.0, true))]));
    let (_, ops) = speaker.listen(AudioCmd::UpdateLibrary(library(&[(B, b"b")]), true));
    assert_eq!(ops, vec![DeviceOp::DestroySink { slot: 0 }]);
    assert_eq!(speaker.sink(0), None);
    assert_eq!(speaker.track(0), Some(track(A, 1.0, true)));
}

#[test]
fn volume_update_retunes_every_live_sink() {
    let mut speaker = warm_speaker(library(&[(A, b"a"), (B, b"b")]), volumes(&[(A, 0.5)]));
    speaker.listen(state(
        0.5,
        &[(0, track(A, 0.5, true)), (1, track(B, 4.0, true)), (2, track(C, 1.0, true))],
    ));
    let (_, ops) = speaker.listen(AudioCmd::UpdateVolumes(volumes(&[(B, 3.0)])));
    assert_eq!(
        ops,
        vec![
            DeviceOp::SetVolume {
                slot: 0,
                gain: Gain { asset: lv(1.0), category: lv(0.5), instance: lv(0.5) },
            },
            DeviceOp::SetVolume {
                slot: 1,
                gain: Gain { asset: lv(3.0), category: lv(0.5), instance: lv(4.0) },
            },
        ]
    );
    let heard: Vec<f32> = ops
        .iter()
        .map(|op| match op {
            DeviceOp::SetVolume { gain, .. } => volume(gain),
            other => panic!("unexpected {:?}", other),
        })
        .collect();
    assert_eq!(heard, vec![0.25, 6.0]);
}

#[test]
fn state_volumes_apply_before_reconciling() {
    let mut speaker = warm_speaker(library(&[(A, b"a")]), volumes(&[(A, 2.0)]));
    let (_, ops) = speaker.listen(state(0.25, &[(0, track(A, 3.0, true))]));
    match &ops[0] {
        DeviceOp::CreateSink { gain, .. } => {
            assert_eq!(*gain, Gain { asset: lv(2.0), category: lv(0.25), instance: lv(3.0) });
            assert_eq!(volume(gain), 1.5);
        }
        other => panic!("unexpected {:?}", other),
    }
}

#[test]
fn volumes_pass_through_unclamped() {
    let mut speaker = warm_speaker(library(&[(A, b"a")]), volumes(&[(A, -2.0)]));
    let (_, ops) = speaker.listen(state(10.0, &[(0, track(A, 7.5, true))]));
    match &ops[0] {
        DeviceOp::CreateSink { gain, .. } => assert_eq!(volume(gain), -150.0),
        other => panic!("unexpected {:?}", other),
    }
}

#[test]
fn sound_plays_once_with_resolved_volume_and_speed() {
    let mut device = FakeDevice::new();
    let mut speaker = Speaker::new(library(&[(A, b"chime")]), volumes(&[(A, 0.5)]));
    device.drive(&mut speaker, AudioCmd::Prewarm);
    device.drive(
        &mut speaker,
        AudioCmd::State(StateUpdate {
            sound_volume: lv(0.5),
            track_volume: lv(9.0),
            tracks: [None; MAX_TRACKS],
        }),
    );
    let sound = Sound { key: A, volume: lv(2.0), speed: lv(1.5) };
    let (running, ops) = speaker.listen(AudioCmd::PlaySound(sound));
    assert!(running);
    assert_eq!(
        ops,
        vec![DeviceOp::PlayOnce {
            bytes: bytes(b"chime"),
            gain: Gain { asset: lv(0.5), category: lv(0.5), instance: lv(2.0) },
            speed: lv(1.5),
        }]
    );
    device.perform(&ops);
    assert_eq!(device.played, vec![(b"chime".to_vec(), 0.5, 1.5)]);
    for slot in 0..MAX_TRACKS {
        assert_eq!(speaker.sink(slot), None);
    }
}

#[test]
fn sound_of_a_missing_asset_is_dropped() {
    let mut speaker = warm_speaker(library(&[(A, b"a")]), volumes(&[]));
    let sound = Sound { key: B, volume: lv(1.0), speed: lv(1.0) };
    assert_eq!(speaker.listen(AudioCmd::PlaySound(sound)), (true, vec![]));
}

#[test]
fn quit_drops_sinks_closes_and_stops() {
    let mut device = FakeDevice::new();
    let mut speaker = Speaker::new(library(&[(A, b"a"), (B, b"b")]), volumes(&[]));
    device.drive(&mut speaker, AudioCmd::Prewarm);
    device.drive(&mut speaker, state(1.0, &[(3, track(A, 1.0, true)), (8, track(B, 1.0, true))]));
    let (running, ops) = speaker.listen(AudioCmd::Quit);
    assert!(!running);
    assert_eq!(
        ops,
        vec![
            DeviceOp::DestroySink { slot: 3 },
            DeviceOp::DestroySink { slot: 8 },
            DeviceOp::Close,
        ]
    );
    device.perform(&ops);
    assert!(!device.open);
    assert_eq!(speaker.phase(), Phase::Stopped);
    assert_eq!(speaker.sink(3), None);
    assert_eq!(speaker.track(3), Some(track(A, 1.0, true)));
}

#[test]
fn quit_of_a_cold_worker_asks_nothing() {
    let mut speaker = Speaker::new(library(&[]), volumes(&[]));
    assert_eq!(speaker.listen(AudioCmd::Quit), (false, vec![]));
    assert_eq!(speaker.phase(), Phase::Stopped);
}

#[test]
fn stopped_worker_ignores_every_command() {
    let mut speaker = warm_speaker(library(&[(A, b"a")]), volumes(&[]));
    speaker.listen(AudioCmd::Quit);
    let cmds = vec![
        AudioCmd::Prewarm,
        state(1.0, &[(0, track(A, 1.0, true))]),
        AudioCmd::PlaySound(Sound { key: A, volume: lv(1.0), speed: lv(1.0) }),
        AudioCmd::UpdateLibrary(library(&[(A, b"x")]), true),
        AudioCmd::UpdateVolumes(volumes(&[(A, 2.0)])),
        AudioCmd::Quit,
    ];
    for cmd in cmds {
        let more = cmd != AudioCmd::Quit;
        assert_eq!(speaker.listen(cmd), (more, vec![]));
        assert_eq!(speaker.phase(), Phase::Stopped);
        assert_eq!(speaker.track(0), None);
    }
}

#[test]
fn queued_commands_run_before_quit_and_none_after() {
    let mut device = FakeDevice::new();
    let mut speaker = Speaker::new(library(&[(A, b"a"), (B, b"b")]), volumes(&[]));
    let queue = vec![
        AudioCmd::Prewarm,
        state(1.0, &[(0, track(A, 1.0, true))]),
        AudioCmd::PlaySound(Sound { key: B, volume: lv(1.0), speed: lv(1.0) }),
        state(1.0, &[(0, track(B, 1.0, true))]),
        AudioCmd::Quit,
        AudioCmd::PlaySound(Sound { key: A, volume: lv(1.0), speed: lv(1.0) }),
        state(1.0, &[(1, track(A, 1.0, true))]),
    ];
    let mut handled = 0;
    for cmd in queue {
        handled += 1;
        if !device.drive(&mut speaker, cmd) {
            break;
        }
    }
    assert_eq!(handled, 5);
    assert_eq!(device.created, 2);
    assert_eq!(device.destroyed, 2);
    assert_eq!(device.played.len(), 1);
    assert!(!device.open);
    assert_eq!(speaker.track(0), Some(track(B, 1.0, true)));
}

#[test]
fn failed_sink_is_forgotten_and_not_adjusted() {
    let mut speaker = warm_speaker(library(&[(A, b"garbage")]), volumes(&[]));
    let (_, ops) = speaker.listen(state(1.0, &[(0, track(A, 1.0, true)), (1, track(A, 1.0, true))]));
    assert_eq!(ops.len(), 2);
    speaker.sink_failed(0);
    assert_eq!(speaker.sink(0), None);
    assert_eq!(speaker.sink(1), Some(A));
    assert_eq!(speaker.track(0), Some(track(A, 1.0, true)));
    let (_, ops) = speaker.listen(state(1.0, &[(0, track(A, 0.5, true)), (1, track(A, 0.5, true))]));
    assert_eq!(
        ops,
        vec![
            DeviceOp::SetPlaying { slot: 1, playing: true },
            DeviceOp::SetVolume {
                slot: 1,
                gain: Gain { asset: lv(1.0), category: lv(1.0), instance: lv(0.5) },
            },
        ]
    );
    speaker.sink_failed(MAX_TRACKS);
    speaker.sink_failed(usize::MAX);
    assert_eq!(speaker.sink(1), Some(A));
}

#[test]
fn all_sixteen_slots_can_hold_a_sink() {
    let mut speaker = warm_speaker(library(&[(A, b"a")]), volumes(&[]));
    let wanted: Vec<(usize, Track)> = (0..MAX_TRACKS).map(|i| (i, track(A, 1.0, true))).collect();
    let (_, ops) = speaker.listen(state(1.0, &wanted));
    assert_eq!(ops.len(), 16);
    for (i, op) in ops.iter().enumerate() {
        assert!(matches!(op, DeviceOp::CreateSink { slot, .. } if *slot == i));
        assert_eq!(speaker.sink(i), Some(A));
    }
}

#[test]
fn failed_device_stops_the_worker_silently() {
    let mut speaker = warm_speaker(library(&[(A, b"a")]), volumes(&[]));
    speaker.listen(state(1.0, &[(0, track(A, 1.0, true))]));
    assert_eq!(speaker.sink(0), Some(A));
    speaker.device_failed();
    assert_eq!(speaker.phase(), Phase::Stopped);
    assert_eq!(speaker.sink(0), None);
    assert_eq!(speaker.track(0), Some(track(A, 1.0, true)));
    assert_eq!(speaker.listen(AudioCmd::Prewarm), (true, vec![]));
    assert_eq!(speaker.listen(state(1.0, &[(1, track(A, 1.0, true))])), (true, vec![]));
    assert_eq!(speaker.track(1), None);
    assert_eq!(speaker.listen(AudioCmd::Quit), (false, vec![]));
    assert_eq!(speaker.phase(), Phase::Stopped);
}
