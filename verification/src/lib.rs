//! Verified core of a small game toolkit: the audio mixing engine, and the
//! planning behind packaging an application.

pub mod audio;
pub mod packaging;
