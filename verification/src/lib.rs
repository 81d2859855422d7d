//! Verified core of a voice-channel media bot.
//!
//! The crate models the per-guild voice-session supervisor: an ordered
//! playback queue, a per-guild session state machine, a registry holding at
//! most one session per guild, and the idle watchdog that disconnects a
//! session left alone.  Platform I/O (gateway traffic, audio transport,
//! message sending) stays outside; the functions here take the outcomes of
//! those calls as plain values and decide everything else.

pub mod display;
pub mod error;
pub mod presence;
pub mod queue;
mod randomness;
pub mod registry;
pub mod session;
pub mod track;
pub mod urls;
