//! The four command handlers' decision logic.
//!
//! Each command task alternates outside work — sending a reply, awaiting a
//! follow-up message, joining or leaving a voice channel, resolving a URL,
//! starting or stopping playback — with decisions. The decisions live here as
//! pure functions from the outside calls' results to the next action, so the
//! task around them only performs what these functions prescribe:
//!
//! - `join`: prompt for a channel identifier, parse the follow-up reply
//!   (`crate::text::parse_u64`), then report the join attempt's outcome.
//! - `play`: prompt for a URL, trim it (`crate::text::trim`), then turn the
//!   resolver's outcome into a reply and a playback decision, and record the
//!   resulting handle — the registry's sole mutation point.
//! - `leave`: report success only; a failed leave aborts the task silently.
//! - `stop`: stop the current playback when a session exists and reply
//!   unconditionally.

use vstd::prelude::*;

verus! {

use crate::GuildId;
use crate::PlaybackId;
use crate::registry::SessionRegistry;
use crate::text::dec_of;
use crate::text::u64_to_dec;

/// What the resolver reports of a playable audio source: its display title
/// and artist, either of which may be absent.
pub struct TrackInfo {
    pub title: Option<String>,
    pub artist: Option<String>,
}

/// A display field, or the fixed placeholder when it is absent.
pub open spec fn or_unknown(t: Option<String>) -> Seq<char> {
    match t {
        Some(s) => s@,
        None => "<UNKNOWN>"@,
    }
}

/// The prompt the join command sends before awaiting a reply.
pub open spec fn join_prompt_spec() -> Seq<char> {
    "What's the channel ID you want me to join?"@
}

/// The prompt the play command sends before awaiting a reply.
pub open spec fn play_prompt_spec() -> Seq<char> {
    "What's the URL of the audio to play?"@
}

/// The reply after a successful voice join.
pub open spec fn joined_reply_spec(channel: nat) -> Seq<char> {
    "Joined <#"@ + dec_of(channel) + ">!"@
}

/// The reply after a failed voice join, carrying the cause.
pub open spec fn join_failed_reply_spec(channel: nat, cause: Seq<char>) -> Seq<char> {
    "Failed to join <#"@ + dec_of(channel) + ">! Why: "@ + cause
}

/// The reply after a successful resolution, quoting title and artist.
pub open spec fn playing_reply_spec(title: Option<String>, artist: Option<String>) -> Seq<char> {
    "Playing **\""@ + or_unknown(title) + "\"** by **\""@ + or_unknown(artist) + "\"**"@
}

/// The reply after a failed resolution, carrying the cause.
pub open spec fn resolve_failed_reply_spec(cause: Seq<char>) -> Seq<char> {
    "error "@ + cause
}

pub fn join_prompt() -> (r: String)
    ensures
        r@ == join_prompt_spec(),
{
    String::from_str("What's the channel ID you want me to join?")
}

pub fn play_prompt() -> (r: String)
    ensures
        r@ == play_prompt_spec(),
{
    String::from_str("What's the URL of the audio to play?")
}

/// The reply the join command sends once the voice join attempt returns:
/// success and failure are both reported to the user, never retried.
pub fn join_outcome_reply(channel: u64, outcome: Result<(), String>) -> (r: String)
    ensures
        r@ == (match outcome {
            Ok(_) => joined_reply_spec(channel as nat),
            Err(cause) => join_failed_reply_spec(channel as nat, cause@),
        }),
{
    let num = u64_to_dec(channel);
    match outcome {
        Ok(_) => {
            let mut s = String::from_str("Joined <#");
            s.append(num.as_str());
            s.append(">!");
            proof {
                assert(s@ =~= joined_reply_spec(channel as nat));
            }
            s
        },
        Err(cause) => {
            let mut s = String::from_str("Failed to join <#");
            s.append(num.as_str());
            s.append(">! Why: ");
            s.append(cause.as_str());
            proof {
                assert(s@ =~= join_failed_reply_spec(channel as nat, cause@));
            }
            s
        },
    }
}

/// What the play command does once the resolver returns, given whether the
/// guild currently has a voice session.
pub struct PlayDecision {
    /// The reply to send in either case.
    pub reply: String,
    /// Whether to start playback on the session and record the handle.
    pub start_playback: bool,
}

/// Turns the resolver's outcome into the play command's decision. Playback
/// starts exactly when resolution succeeded and a voice session exists; a
/// missing session is skipped silently, after the informational reply was
/// already chosen. A failed resolution produces the error reply with its
/// cause, and never starts playback.
pub fn play_on_resolve(outcome: Result<TrackInfo, String>, session_exists: bool) -> (d:
    PlayDecision)
    ensures
        d.start_playback == (outcome is Ok && session_exists),
        d.reply@ == (match outcome {
            Ok(info) => playing_reply_spec(info.title, info.artist),
            Err(cause) => resolve_failed_reply_spec(cause@),
        }),
{
    match outcome {
        Ok(info) => {
            let mut s = String::from_str("Playing **\"");
            match &info.title {
                Some(t) => s.append(t.as_str()),
                None => s.append("<UNKNOWN>"),
            }
            s.append("\"** by **\"");
            match &info.artist {
                Some(a) => s.append(a.as_str()),
                None => s.append("<UNKNOWN>"),
            }
            s.append("\"**");
            proof {
                assert(s@ =~= playing_reply_spec(info.title, info.artist));
            }
            PlayDecision { reply: s, start_playback: session_exists }
        },
        Err(cause) => {
            let mut s = String::from_str("error ");
            s.append(cause.as_str());
            PlayDecision { reply: s, start_playback: false }
        },
    }
}

/// The registry step that ends a play command. `handle` is the playback
/// handle the voice session produced, present exactly when the decision
/// started playback — resolution succeeded and a session existed. The guild's
/// entry is inserted, silently overwriting a prior one, exactly in that case;
/// a play whose resolution failed, or whose guild had no session, leaves the
/// registry exactly as it was.
pub fn finish_play(
    reg: &mut SessionRegistry,
    guild: GuildId,
    resolved_ok: bool,
    session_exists: bool,
    handle: Option<PlaybackId>,
)
    requires
        old(reg).inv(),
        handle is Some <==> (resolved_ok && session_exists),
    ensures
        final(reg).inv(),
        (match handle {
            Some(h) => final(reg)@ == old(reg)@.insert(guild, h),
            None => final(reg)@ == old(reg)@,
        }),
        !(resolved_ok && session_exists) ==> final(reg)@ == old(reg)@,
{
    match handle {
        Some(h) => reg.record(guild, h),
        None => (),
    }
}

/// The reply the leave command sends: only on success. A failed leave — for
/// instance, no active session in the guild — aborts the task with no reply
/// to the user.
pub fn leave_reply(outcome: Result<(), String>) -> (r: Option<String>)
    ensures
        (match r {
            Some(t) => outcome is Ok && t@ == "Left the channel"@,
            None => outcome is Err,
        }),
{
    match outcome {
        Ok(_) => Some(String::from_str("Left the channel")),
        Err(_) => None,
    }
}

/// What the stop command does, given whether the guild currently has a voice
/// session.
pub struct StopAction {
    /// Whether to issue a stop on the session's current playback. Errors
    /// from the stop itself are swallowed, never surfaced.
    pub issue_stop: bool,
    /// The reply to send: unconditional, whether or not anything played.
    pub reply: String,
}

/// The stop command's decision: stop the current playback exactly when a
/// session exists, and reply the same fixed text in every case — a stop with
/// no prior play neither fails nor stays silent. The registry is not touched;
/// a recorded handle outlives the playback it named.
pub fn stop_decision(session_exists: bool) -> (d: StopAction)
    ensures
        d.issue_stop == session_exists,
        d.reply@ == "Stopped the track"@,
{
    StopAction { issue_stop: session_exists, reply: String::from_str("Stopped the track") }
}

} // verus!
