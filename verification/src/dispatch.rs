//! Command classification: the cheap, synchronous filter the dispatcher runs
//! on every inbound message before spawning a command task.
//!
//! The event loop itself stays outside the library: it forwards each event to
//! the voice transport and the reply-await subsystem first, then hands the
//! message text and the presence of an owning guild to `classify`, and spawns
//! one independent task per recognized command so a slow interactive command
//! never delays other events.

use vstd::prelude::*;

verus! {

use crate::text::selects;
use crate::text::selects_token;

/// The fixed command set a message can select.
#[derive(Clone, Copy, PartialEq, Eq, Structural, Debug)]
pub enum Command {
    Join,
    Play,
    Leave,
    Stop,
}

/// How a message is classified: discarded unless it has an owning guild and
/// its leading token — the text up to the first whitespace — is one of the
/// four prefixed command words. Unrecognized tokens select nothing.
pub open spec fn classify_spec(content: Seq<char>, has_guild: bool) -> Option<Command> {
    if !has_guild {
        None
    } else if selects(content, "j/join"@) {
        Some(Command::Join)
    } else if selects(content, "j/play"@) {
        Some(Command::Play)
    } else if selects(content, "j/leave"@) {
        Some(Command::Leave)
    } else if selects(content, "j/stop"@) {
        Some(Command::Stop)
    } else {
        None
    }
}

/// Classifies one message, exactly as `classify_spec` prescribes.
pub fn classify(content: &str, has_guild: bool) -> (r: Option<Command>)
    ensures
        r == classify_spec(content@, has_guild),
{
    if !has_guild {
        return None;
    }
    if selects_token(content, "j/join") {
        return Some(Command::Join);
    }
    if selects_token(content, "j/play") {
        return Some(Command::Play);
    }
    if selects_token(content, "j/leave") {
        return Some(Command::Leave);
    }
    if selects_token(content, "j/stop") {
        return Some(Command::Stop);
    }
    None
}

} // verus!
