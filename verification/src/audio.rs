//! Audio mixing: shared asset buffers, the command protocol, the caller-facing
//! mixer and the worker that reconciles track slots.

pub mod bytes;
pub mod command;
pub mod device;
pub mod laws;
pub mod level;
pub mod mirror;
pub mod mixer;
pub mod model;
pub mod speaker;

pub use bytes::AudioBytes;
pub use command::{AudioCmd, AudioLibrary, AudioState, Sound, StateUpdate, Track, MAX_TRACKS};
pub use device::DeviceOp;
pub use level::{resolve_volume, AudioVolumes, Gain, Level, UNITY_BITS};
pub use mirror::{DeviceState, SinkState};
pub use mixer::Mixer;
pub use model::{Phase, SpeakerModel};
pub use speaker::Speaker;
