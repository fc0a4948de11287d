//! Playback control for a reader that speaks clipboard or dropped text aloud and
//! shows the word being spoken.
//!
//! The library decides; it never touches a window, a file or a speech engine.
//! Whoever uses it queues commands, asks the [`controller`] which outside work a
//! command calls for, carries that work out, and reports how it went.
//!
//! - [`controller`]: the playback state machine, one utterance at a time.
//! - [`sequences`]: what holds of the controller over runs of commands.
//! - [`tts`]: the scripts of calls into the speech engines.
//! - [`voices`]: the voice catalogue, its order and its labels.
//! - [`config`]: the persisted settings, their limits and their file text.
//! - [`decimal`]: decimal notation for thousandths.
//! - [`dropped`]: text that arrives by drag and drop.
//! - [`ini`]: the INI container that the settings text goes through.
//!
//! Volume and rate are held as whole thousandths: `1000` stands for `1.0`.

pub mod config;
pub mod controller;
pub mod decimal;
pub mod dropped;
pub mod ini;
pub mod sequences;
pub mod tts;
pub mod voices;
mod views;
