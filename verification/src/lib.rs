//! Core of a local-file audio player: the command/status protocol between a
//! queue controller and an audio-output worker, the play-queue advancement
//! policy, the favorites set, the playback timing model, and the favorites
//! export document.
//!
//! The audio device, the decoder, windowing and persistence live outside this
//! crate; the logic that decides what they are asked to do is here, verified.

pub mod control;
pub mod player;
pub mod playlist;
pub mod timefmt;
