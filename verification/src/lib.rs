//! The verified core of a chat-triggered voice-audio relay bot.
//!
//! The bot consumes an ordered stream of gateway events, classifies prefixed
//! text messages into four commands — `j/join`, `j/play`, `j/leave`,
//! `j/stop` — and runs each invocation as an independent task so one guild's
//! slow interactive command never blocks the event loop or other guilds. The
//! tasks share exactly one piece of mutable state: the session registry, a
//! concurrency-safe mapping from guild to the handle of its currently
//! playing track.
//!
//! This crate holds that core — the classifier ([`dispatch`]), the registry
//! ([`registry`]), the commands' decision logic ([`commands`]) and the text
//! helpers under them ([`text`]) — each function with a contract that pins
//! its result. The outside collaborators (the gateway client, the voice
//! transport, the audio resolver, the reply transport) stay outside: the
//! surrounding process performs those calls and feeds their results into the
//! decision functions here.

use vstd::prelude::*;

pub mod commands;
pub mod dispatch;
pub mod registry;
pub mod text;

verus! {

/// An opaque guild identifier: the unit of session isolation.
pub type GuildId = u64;

/// A control reference to one in-progress audio track within a guild's
/// voice session, issued by the surrounding process when it starts playback
/// and stored in the registry until overwritten by a later track.
pub type PlaybackId = u64;

} // verus!
