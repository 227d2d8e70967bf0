//! The media engine: sessions, their commands and events, and what processes their audio.
use vstd::prelude::*;

pub mod audio_inject;
pub mod command;
pub mod event;
pub mod mcu_switch;
pub mod session;
pub mod stream;
pub mod transport;
