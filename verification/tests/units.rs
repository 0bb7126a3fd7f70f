//! Unit tests for the text helpers, the classifier and the registry.

use voicebot::commands::{join_outcome_reply, play_on_resolve, TrackInfo};
use voicebot::dispatch::{classify, Command};
use voicebot::registry::SessionRegistry;
use voicebot::text::{parse_u64, trim};

#[test]
fn parse_accepts_plain_numerals() {
    assert_eq!(parse_u64("0"), Some(0));
    assert_eq!(parse_u64("123"), Some(123));
    assert_eq!(parse_u64("007"), Some(7));
    assert_eq!(parse_u64("18446744073709551615"), Some(u64::MAX));
}

#[test]
fn parse_accepts_leading_plus() {
    assert_eq!(parse_u64("+5"), Some(5));
    assert_eq!(parse_u64("+0"), Some(0));
}

#[test]
fn parse_rejects_everything_else() {
    assert_eq!(parse_u64(""), None);
    assert_eq!(parse_u64("+"), None);
    assert_eq!(parse_u64("-1"), None);
    assert_eq!(parse_u64("12a"), None);
    assert_eq!(parse_u64("a12"), None);
    assert_eq!(parse_u64(" 12"), None);
    assert_eq!(parse_u64("12 "), None);
    assert_eq!(parse_u64("++1"), None);
}

#[test]
fn parse_rejects_values_beyond_u64() {
    assert_eq!(parse_u64("18446744073709551616"), None);
    assert_eq!(parse_u64("99999999999999999999999"), None);
}

#[test]
fn trim_strips_ascii_whitespace_at_both_ends() {
    assert_eq!(trim("  https://example.com  "), "https://example.com");
    assert_eq!(trim("\t\nx\r\n"), "x");
    assert_eq!(trim("no-change"), "no-change");
    assert_eq!(trim("inner space kept  "), "inner space kept");
    assert_eq!(trim(""), "");
    assert_eq!(trim("   "), "");
}

#[test]
fn trim_strips_the_same_set_as_std() {
    let samples = [
        "\u{000C}x",
        "\u{000B}x\u{0085}",
        "\u{00A0}\u{2003}url\u{3000}",
        "\u{1680}\u{2000}\u{200A}mid dle\u{2028}\u{2029}",
        "\u{202F}\u{205F}",
        " \t\r\n plain \n",
        "\u{200B}zero-width space is not whitespace\u{200B}",
    ];
    for s in samples {
        assert_eq!(trim(s), s.trim());
    }
}

#[test]
fn classify_selects_by_leading_token() {
    assert_eq!(classify("j/join 123", true), Some(Command::Join));
    assert_eq!(classify("j/play https://x", true), Some(Command::Play));
    assert_eq!(classify("j/play extra args here", true), Some(Command::Play));
    assert_eq!(classify("j/leave", true), Some(Command::Leave));
    assert_eq!(classify("j/stop", true), Some(Command::Stop));
    // Any whitespace ends the leading token.
    assert_eq!(classify("j/join\t123", true), Some(Command::Join));
    assert_eq!(classify("j/play\u{00A0}https://x", true), Some(Command::Play));
    assert_eq!(classify("j/stop\nnow", true), Some(Command::Stop));
}

#[test]
fn classify_discards_the_rest() {
    // No owning guild: discarded whatever the text.
    assert_eq!(classify("j/play", false), None);
    // Not prefixed, or the token merely resembles a command.
    assert_eq!(classify("hello", true), None);
    assert_eq!(classify("j/", true), None);
    assert_eq!(classify("j/playx", true), None);
    assert_eq!(classify("j/stopp", true), None);
    assert_eq!(classify(" j/play", true), None);
    assert_eq!(classify("J/PLAY", true), None);
    assert_eq!(classify("", true), None);
}

#[test]
fn outcome_replies_render_any_channel_id() {
    assert_eq!(join_outcome_reply(0, Ok(())), "Joined <#0>!");
    assert_eq!(
        join_outcome_reply(18446744073709551615, Ok(())),
        "Joined <#18446744073709551615>!"
    );
    assert_eq!(
        join_outcome_reply(10, Err(String::from("Dropped"))),
        "Failed to join <#10>! Why: Dropped"
    );
}

#[test]
fn registry_tracks_guilds_independently() {
    let mut reg = SessionRegistry::new();
    assert_eq!(reg.get(1), None);
    reg.record(1, 10);
    reg.record(2, 20);
    assert_eq!(reg.len(), 2);
    assert_eq!(reg.get(1), Some(10));
    assert_eq!(reg.get(2), Some(20));
    reg.record(1, 11);
    assert_eq!(reg.len(), 2);
    assert_eq!(reg.get(1), Some(11));
    assert_eq!(reg.get(2), Some(20));
}

#[test]
fn missing_title_or_artist_uses_placeholder() {
    let d = play_on_resolve(Ok(TrackInfo { title: None, artist: None }), false);
    assert_eq!(d.reply, "Playing **\"<UNKNOWN>\"** by **\"<UNKNOWN>\"**");
    // Resolution succeeded but no session exists: playback is skipped
    // silently, after the reply was already chosen.
    assert!(!d.start_playback);

    let d = play_on_resolve(
        Ok(TrackInfo { title: None, artist: Some(String::from("Artist")) }),
        true,
    );
    assert_eq!(d.reply, "Playing **\"<UNKNOWN>\"** by **\"Artist\"**");
    assert!(d.start_playback);
}
