use std::collections::HashMap;
use vstd::prelude::*;

use crate::audio::command::{slots_of, AudioCmd, AudioLibrary, AudioState, Sound, StateUpdate};
use crate::audio::level::{AudioVolumes, Level};
use crate::audio::model::SpeakerModel;
use crate::audio::speaker::Speaker;

verus! {

broadcast use vstd::std_specs::hash::group_hash_axioms;

/// The caller's side of the mixer. It turns what the caller wants into
/// commands for the worker; each operation hands back the command to put on
/// the queue, if there is one. The queue keeps their order.
pub struct Mixer {
    initialized: bool,
    attached: bool,
}

/// The volume table a worker starts with: the one given, or an empty one.
pub open spec fn initial_volumes(audio_volumes: Option<AudioVolumes>) -> Map<u64, Level> {
    match audio_volumes {
        Some(volumes) => volumes@,
        None => Map::empty(),
    }
}

/// The state command for `state`: its two category volumes, and its tracks
/// laid out over the slots.
pub open spec fn is_state_cmd(cmd: AudioCmd, state: AudioState) -> bool {
    &&& cmd matches AudioCmd::State(update)
    &&& update.sound_volume == state.sound_volume
    &&& update.track_volume == state.track_volume
    &&& update.tracks@ == slots_of(state.tracks@)
}

impl Mixer {
    /// Whether `init` has been called.
    pub closed spec fn spec_initialized(&self) -> bool {
        self.initialized
    }

    /// Whether a worker is still attached: true until `teardown`.
    pub closed spec fn spec_attached(&self) -> bool {
        self.attached
    }

    /// A mixer that is not initialized yet, and the cold worker it speaks
    /// to, which starts over `audio_library` and over `audio_volumes` (with no
    /// table given, over an empty one).
    pub fn new(audio_library: AudioLibrary, audio_volumes: Option<AudioVolumes>) -> (r: (
        Mixer,
        Speaker,
    ))
        ensures
            !r.0.initialized(),
            r.0.attached(),
            r.1@ == SpeakerModel::initial(audio_library@, initial_volumes(audio_volumes)),
            r.1@.wf(),
    {
        let volumes = match audio_volumes {
            Some(volumes) => volumes,
            None => HashMap::new(),
        };
        let speaker = Speaker::new(audio_library, volumes);
        (Mixer { initialized: false, attached: true }, speaker)
    }

    #[verifier::when_used_as_spec(spec_initialized)]
    pub fn initialized(&self) -> (r: bool)
        ensures
            r == self.initialized(),
    {
        self.initialized
    }

    #[verifier::when_used_as_spec(spec_attached)]
    pub fn attached(&self) -> (r: bool)
        ensures
            r == self.attached(),
    {
        self.attached
    }

    /// Marks the mixer initialized. The first call asks the worker, if one is
    /// attached, to open the device; a later call asks nothing.
    pub fn init(&mut self) -> (cmd: Option<AudioCmd>)
        ensures
            final(self).initialized(),
            final(self).attached() == old(self).attached(),
            cmd == if !old(self).initialized() && old(self).attached() {
                Some(AudioCmd::Prewarm)
            } else {
                None
            },
    {
        if !self.initialized {
            self.initialized = true;
            if self.attached {
                Some(AudioCmd::Prewarm)
            } else {
                None
            }
        } else {
            None
        }
    }

    /// Asks the worker to take over `state`. Of its tracks the first
    /// sixteen count, each in the slot of its index; slots beyond the list are
    /// empty.
    pub fn update_state(&mut self, state: AudioState) -> (cmd: Option<AudioCmd>)
        requires
            old(self).initialized(),
        ensures
            *final(self) == *old(self),
            cmd is Some <==> old(self).attached(),
            cmd matches Some(c) ==> is_state_cmd(c, state),
    {
        let update = StateUpdate::from_state(&state);
        self.send(AudioCmd::State(update))
    }

    /// Asks the worker to play `sound` once.
    pub fn play_sound(&mut self, sound: Sound) -> (cmd: Option<AudioCmd>)
        requires
            old(self).initialized(),
        ensures
            *final(self) == *old(self),
            cmd == if old(self).attached() {
                Some(AudioCmd::PlaySound(sound))
            } else {
                None
            },
    {
        self.send(AudioCmd::PlaySound(sound))
    }

    /// Asks the worker to replace its library by `library`, and with
    /// `restart_tracks` to restart every track on it.
    pub fn update_library(&mut self, library: AudioLibrary, restart_tracks: bool) -> (cmd: Option<
        AudioCmd,
    >)
        requires
            old(self).initialized(),
        ensures
            *final(self) == *old(self),
            cmd == if old(self).attached() {
                Some(AudioCmd::UpdateLibrary(library, restart_tracks))
            } else {
                None
            },
    {
        self.send(AudioCmd::UpdateLibrary(library, restart_tracks))
    }

    /// Asks the worker to replace its volume table by `volumes`.
    pub fn update_volumes(&mut self, volumes: AudioVolumes) -> (cmd: Option<AudioCmd>)
        requires
            old(self).initialized(),
        ensures
            *final(self) == *old(self),
            cmd == if old(self).attached() {
                Some(AudioCmd::UpdateVolumes(volumes))
            } else {
                None
            },
    {
        self.send(AudioCmd::UpdateVolumes(volumes))
    }

    /// Passes `cmd` on while a worker is attached.
    fn send(&mut self, cmd: AudioCmd) -> (sent: Option<AudioCmd>)
        requires
            old(self).initialized(),
        ensures
            *final(self) == *old(self),
            sent == if old(self).attached() {
                Some(cmd)
            } else {
                None
            },
    {
        if self.attached {
            Some(cmd)
        } else {
            None
        }
    }

    /// Lets go of the worker. The first call tells it to quit, after all that
    /// was sent before; from then on the mixer sends nothing.
    pub fn teardown(&mut self) -> (cmd: Option<AudioCmd>)
        ensures
            !final(self).attached(),
            final(self).initialized() == old(self).initialized(),
            cmd == if old(self).attached() {
                Some(AudioCmd::Quit)
            } else {
                None
            },
    {
        if self.attached {
            self.attached = false;
            Some(AudioCmd::Quit)
        } else {
            None
        }
    }
}

} // verus!
