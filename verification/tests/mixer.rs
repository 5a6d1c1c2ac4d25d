use std::borrow::Cow;
use std::collections::HashMap;

use jamjar::audio::{
    AudioBytes, AudioCmd, AudioLibrary, AudioState, AudioVolumes, DeviceOp, Level, Mixer, Phase,
    Sound, StateUpdate, Track, MAX_TRACKS,
};

fn level(x: f32) -> Level {
    Level::from_bits(x.to_bits())
}

fn one_asset() -> AudioLibrary {
    let mut map = HashMap::new();
    map.insert(7, AudioBytes::new(Cow::Borrowed(&b"seven"[..])));
    map
}

fn numbered_tracks(n: usize) -> Vec<Track> {
    (0..n).map(|i| Track { key: 100 + i as u64, volume: level(i as f32), playing: i % 2 == 0 }).collect()
}

#[test]
fn new_mixer_is_not_initialized_and_its_worker_is_cold() {
    let (mixer, speaker) = Mixer::new(one_asset(), None);
    assert!(!mixer.initialized());
    assert!(mixer.attached());
    assert_eq!(speaker.phase(), Phase::Cold);
}

#[test]
fn new_mixer_hands_the_volume_table_to_the_worker() {
    let mut table: AudioVolumes = HashMap::new();
    table.insert(7, level(0.5));
    let (mut mixer, mut speaker) = Mixer::new(one_asset(), Some(table));
    speaker.listen(mixer.init().unwrap());
    let sound = Sound { key: 7, volume: level(1.0), speed: level(1.0) };
    let (_, ops) = speaker.listen(mixer.play_sound(sound).unwrap());
    match &ops[0] {
        DeviceOp::PlayOnce { gain, bytes, .. } => {
            assert_eq!(gain.asset, level(0.5));
            assert_eq!(gain.category, Level::unity());
            assert_eq!(bytes.as_ref(), b"seven");
        }
        other => panic!("unexpected {:?}", other),
    }
}

#[test]
fn without_a_table_every_asset_is_at_unity() {
    let (mut mixer, mut speaker) = Mixer::new(one_asset(), None);
    speaker.listen(mixer.init().unwrap());
    let sound = Sound { key: 7, volume: level(3.0), speed: level(1.0) };
    let (_, ops) = speaker.listen(mixer.play_sound(sound).unwrap());
    match &ops[0] {
        DeviceOp::PlayOnce { gain, .. } => {
            assert_eq!(gain.asset.to_bits(), 1.0f32.to_bits());
            assert_eq!(gain.category.to_bits(), 1.0f32.to_bits());
            assert_eq!(gain.instance, level(3.0));
        }
        other => panic!("unexpected {:?}", other),
    }
}

#[test]
fn init_prewarms_once() {
    let (mut mixer, _speaker) = Mixer::new(one_asset(), None);
    assert_eq!(mixer.init(), Some(AudioCmd::Prewarm));
    assert!(mixer.initialized());
    assert_eq!(mixer.init(), None);
    assert_eq!(mixer.init(), None);
    assert!(mixer.initialized());
}

#[test]
fn update_state_pads_a_short_list() {
    let (mut mixer, _speaker) = Mixer::new(one_asset(), None);
    mixer.init();
    let tracks = numbered_tracks(2);
    let cmd = mixer.update_state(AudioState {
        sound_volume: level(0.25),
        track_volume: level(0.75),
        tracks: &tracks,
    });
    let mut slots = [None; MAX_TRACKS];
    slots[0] = Some(tracks[0]);
    slots[1] = Some(tracks[1]);
    assert_eq!(
        cmd,
        Some(AudioCmd::State(StateUpdate {
            sound_volume: level(0.25),
            track_volume: level(0.75),
            tracks: slots,
        }))
    );
}

#[test]
fn update_state_with_no_tracks_empties_every_slot() {
    let (mut mixer, _speaker) = Mixer::new(one_asset(), None);
    mixer.init();
    let cmd = mixer.update_state(AudioState {
        sound_volume: level(1.0),
        track_volume: level(1.0),
        tracks: &[],
    });
    match cmd {
        Some(AudioCmd::State(update)) => assert!(update.tracks.iter().all(|t| t.is_none())),
        other => panic!("unexpected {:?}", other),
    }
}

#[test]
fn update_state_with_seventeen_tracks_drops_the_last() {
    let (mut mixer, mut speaker) = Mixer::new(HashMap::new(), None);
    speaker.listen(mixer.init().unwrap());
    let tracks = numbered_tracks(17);
    let cmd = mixer
        .update_state(AudioState { sound_volume: level(1.0), track_volume: level(1.0), tracks: &tracks })
        .unwrap();
    match &cmd {
        AudioCmd::State(update) => {
            assert_eq!(update.tracks.len(), 16);
            for i in 0..16 {
                assert_eq!(update.tracks[i], Some(tracks[i]));
            }
            assert!(update.tracks.iter().all(|t| t.map(|t| t.key) != Some(116)));
        }
        other => panic!("unexpected {:?}", other),
    }
    let (running, _) = speaker.listen(cmd);
    assert!(running);
    for i in 0..16 {
        assert_eq!(speaker.track(i), Some(tracks[i]));
    }
}

#[test]
fn state_update_from_state_takes_the_first_sixteen() {
    let tracks = numbered_tracks(40);
    let update = StateUpdate::from_state(&AudioState {
        sound_volume: level(2.0),
        track_volume: level(3.0),
        tracks: &tracks,
    });
    assert_eq!(update.sound_volume, level(2.0));
    assert_eq!(update.track_volume, level(3.0));
    for i in 0..MAX_TRACKS {
        assert_eq!(update.tracks[i], Some(tracks[i]));
    }
}

#[test]
fn other_requests_become_their_commands() {
    let (mut mixer, _speaker) = Mixer::new(one_asset(), None);
    mixer.init();
    let sound = Sound { key: 7, volume: level(0.5), speed: level(2.0) };
    assert_eq!(mixer.play_sound(sound), Some(AudioCmd::PlaySound(sound)));
    assert_eq!(
        mixer.update_library(one_asset(), true),
        Some(AudioCmd::UpdateLibrary(one_asset(), true))
    );
    assert_eq!(
        mixer.update_library(HashMap::new(), false),
        Some(AudioCmd::UpdateLibrary(HashMap::new(), false))
    );
    let mut table: AudioVolumes = HashMap::new();
    table.insert(7, level(0.5));
    assert_eq!(mixer.update_volumes(table.clone()), Some(AudioCmd::UpdateVolumes(table)));
    assert!(mixer.initialized());
    assert!(mixer.attached());
}

#[test]
fn teardown_quits_once_and_silences_the_mixer() {
    let (mut mixer, _speaker) = Mixer::new(one_asset(), None);
    mixer.init();
    assert_eq!(mixer.teardown(), Some(AudioCmd::Quit));
    assert!(!mixer.attached());
    assert!(mixer.initialized());
    assert_eq!(mixer.teardown(), None);
    let sound = Sound { key: 7, volume: level(1.0), speed: level(1.0) };
    assert_eq!(mixer.play_sound(sound), None);
    assert_eq!(mixer.update_library(one_asset(), true), None);
    assert_eq!(mixer.update_volumes(HashMap::new()), None);
    assert_eq!(
        mixer.update_state(AudioState {
            sound_volume: level(1.0),
            track_volume: level(1.0),
            tracks: &[],
        }),
        None
    );
}

#[test]
fn teardown_before_init_still_quits() {
    let (mut mixer, mut speaker) = Mixer::new(one_asset(), None);
    let quit = mixer.teardown().unwrap();
    assert_eq!(speaker.listen(quit), (false, vec![]));
    assert_eq!(mixer.init(), None);
    assert!(mixer.initialized());
}

#[test]
fn everything_sent_before_teardown_reaches_the_worker_in_order() {
    let (mut mixer, mut speaker) = Mixer::new(one_asset(), None);
    let mut queue: Vec<AudioCmd> = Vec::new();
    queue.extend(mixer.init());
    let tracks = [Track { key: 7, volume: level(1.0), playing: true }];
    queue.extend(mixer.update_state(AudioState {
        sound_volume: level(1.0),
        track_volume: level(1.0),
        tracks: &tracks,
    }));
    queue.extend(mixer.play_sound(Sound { key: 7, volume: level(1.0), speed: level(1.0) }));
    queue.extend(mixer.teardown());
    queue.extend(mixer.play_sound(Sound { key: 7, volume: level(1.0), speed: level(1.0) }));
    assert_eq!(queue.len(), 4);

    let mut log: Vec<DeviceOp> = Vec::new();
    let mut handled = 0;
    for cmd in queue {
        let (running, ops) = speaker.listen(cmd);
        log.extend(ops);
        handled += 1;
        if !running {
            break;
        }
    }
    assert_eq!(handled, 4);
    assert_eq!(log.len(), 5);
    assert_eq!(log[0], DeviceOp::Open);
    assert!(matches!(log[1], DeviceOp::CreateSink { slot: 0, .. }));
    assert!(matches!(log[2], DeviceOp::PlayOnce { .. }));
    assert_eq!(log[3], DeviceOp::DestroySink { slot: 0 });
    assert_eq!(log[4], DeviceOp::Close);
    assert_eq!(speaker.phase(), Phase::Stopped);
}
