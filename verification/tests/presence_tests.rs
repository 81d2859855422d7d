use sunny_flowers::presence::{check_alone, in_same_voice_check, VoiceMember};

const CHANNEL: u64 = 500;
const BOT: u64 = 1;

fn member(user_id: u64, channel_id: Option<u64>) -> VoiceMember {
    VoiceMember { user_id, channel_id }
}

#[test]
fn alone_when_nobody_else_shares_the_channel() {
    let states = vec![
        member(BOT, Some(CHANNEL)),
        member(7, Some(CHANNEL + 1)),
        member(8, None),
    ];
    assert!(check_alone(&states, CHANNEL, BOT));
}

#[test]
fn not_alone_with_a_listener_present() {
    let states = vec![member(BOT, Some(CHANNEL)), member(7, Some(CHANNEL))];
    assert!(!check_alone(&states, CHANNEL, BOT));
}

#[test]
fn alone_in_an_empty_guild() {
    let states: Vec<VoiceMember> = Vec::new();
    assert!(check_alone(&states, CHANNEL, BOT));
}

#[test]
fn same_voice_check_accepts_author_in_channel() {
    let states = vec![member(BOT, Some(CHANNEL)), member(7, Some(CHANNEL))];
    assert!(in_same_voice_check(&states, CHANNEL, 7).is_ok());
}

#[test]
fn same_voice_check_rejects_author_elsewhere() {
    let states = vec![
        member(BOT, Some(CHANNEL)),
        member(7, Some(CHANNEL + 1)),
        member(9, None),
    ];
    let e = in_same_voice_check(&states, CHANNEL, 7).unwrap_err();
    assert_eq!(
        e.user_text().unwrap(),
        "I only take requests from users in <#500>"
    );
    let e = in_same_voice_check(&states, CHANNEL, 9).unwrap_err();
    assert!(e.user_text().is_some());
}
