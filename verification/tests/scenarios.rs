//! End-to-end command scenarios, driven the way the event loop drives the
//! library: classify the message, produce the prompt, feed the outside
//! results back in, and apply the registry step.

use voicebot::commands::{
    join_outcome_reply, join_prompt, leave_reply, play_on_resolve, play_prompt, stop_decision,
    finish_play, TrackInfo,
};
use voicebot::dispatch::{classify, Command};
use voicebot::registry::SessionRegistry;
use voicebot::text::{parse_u64, trim};

#[test]
fn play_records_exactly_one_latest_handle() {
    let mut reg = SessionRegistry::new();
    let d = play_on_resolve(
        Ok(TrackInfo { title: Some(String::from("A")), artist: None }),
        true,
    );
    assert!(d.start_playback);
    finish_play(&mut reg, 7, true, true, Some(41));
    assert_eq!(reg.get(7), Some(41));
    assert_eq!(reg.len(), 1);

    // A second successful play for the same guild replaces the handle.
    finish_play(&mut reg, 7, true, true, Some(42));
    assert_eq!(reg.get(7), Some(42));
    assert_eq!(reg.len(), 1);
}

#[test]
fn stop_without_prior_play_still_replies() {
    let d = stop_decision(false);
    assert!(!d.issue_stop);
    assert_eq!(d.reply, "Stopped the track");

    let d = stop_decision(true);
    assert!(d.issue_stop);
    assert_eq!(d.reply, "Stopped the track");
}

#[test]
fn failed_resolve_leaves_registry_untouched() {
    let mut reg = SessionRegistry::new();
    let d = play_on_resolve(Err(String::from("uri invalid")), true);
    assert!(!d.start_playback);
    assert_eq!(d.reply, "error uri invalid");
    finish_play(&mut reg, 9, false, true, None);
    assert_eq!(reg.get(9), None);
    assert_eq!(reg.len(), 0);
}

#[test]
fn racing_plays_keep_single_entry_last_write() {
    let mut reg = SessionRegistry::new();
    // Two play tasks for guild 3 race; their recording steps complete in
    // this order, and the later write alone determines the entry.
    finish_play(&mut reg, 3, true, true, Some(100));
    finish_play(&mut reg, 3, true, true, Some(200));
    assert_eq!(reg.get(3), Some(200));
    assert_eq!(reg.len(), 1);
}

#[test]
fn join_with_non_numeric_reply_aborts_silently() {
    let reg = SessionRegistry::new();
    assert_eq!(classify("j/join", true), Some(Command::Join));
    assert_eq!(join_prompt(), "What's the channel ID you want me to join?");
    // The follow-up reply does not parse, so the task aborts: no join
    // attempt, no "Joined" reply, and the registry was never touched.
    assert_eq!(parse_u64("not a number"), None);
    assert_eq!(reg.len(), 0);
}

#[test]
fn join_with_numeric_reply_reports_outcome() {
    assert_eq!(classify("j/join", true), Some(Command::Join));
    let channel = parse_u64("1234").expect("numeric reply parses");
    assert_eq!(join_outcome_reply(channel, Ok(())), "Joined <#1234>!");
    assert_eq!(
        join_outcome_reply(channel, Err(String::from("Disconnected"))),
        "Failed to join <#1234>! Why: Disconnected"
    );
}

#[test]
fn play_end_to_end_with_active_session() {
    let mut reg = SessionRegistry::new();
    assert_eq!(classify("j/play", true), Some(Command::Play));
    assert_eq!(play_prompt(), "What's the URL of the audio to play?");
    let url = trim("https://example.com/track");
    assert_eq!(url, "https://example.com/track");
    let d = play_on_resolve(
        Ok(TrackInfo { title: Some(String::from("Song")), artist: Some(String::from("Artist")) }),
        true,
    );
    assert_eq!(d.reply, "Playing **\"Song\"** by **\"Artist\"**");
    assert!(d.start_playback);
    finish_play(&mut reg, 5, true, true, Some(77));
    assert_eq!(reg.get(5), Some(77));
    assert_eq!(reg.len(), 1);
}

#[test]
fn leave_without_session_sends_no_reply() {
    assert_eq!(classify("j/leave", true), Some(Command::Leave));
    // The voice-session manager reports the failure; the task ends with no
    // reply to the user.
    assert_eq!(leave_reply(Err(String::from("not in a voice channel"))), None);
}

#[test]
fn leave_success_reports_it() {
    let r = leave_reply(Ok(())).expect("success is reported");
    assert_eq!(r, "Left the channel");
}
