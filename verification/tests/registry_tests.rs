use sunny_flowers::error::SunnyError;
use sunny_flowers::queue::EnqueueAt;
use sunny_flowers::registry::{stream_open_error, JoinDecision, SessionRegistry};
use sunny_flowers::session::IdleTick;
use sunny_flowers::track::Track;

const GUILD: u64 = 11;
const VOICE: u64 = 21;
const TEXT: u64 = 31;

fn track(n: u64) -> Track {
    Track {
        title: Some(format!("title {}", n)),
        artist: None,
        source_url: None,
        thumbnail_url: None,
        duration_secs: Some(60),
        handle_id: n,
    }
}

fn connected_registry() -> SessionRegistry {
    let mut reg = SessionRegistry::new();
    let d = reg.join_request(GUILD, VOICE, TEXT).unwrap();
    assert!(matches!(d, JoinDecision::Connect));
    reg.join_complete(GUILD, true, "").unwrap();
    reg
}

fn user_text(e: &SunnyError) -> &str {
    e.user_text().expect("expected a user-facing message")
}

#[test]
fn join_then_complete_connects() {
    let reg = connected_registry();
    assert!(reg.get(GUILD).is_some());
    assert!(reg.get(GUILD + 1).is_none());
}

#[test]
fn join_while_connected_to_same_channel_is_idempotent() {
    let mut reg = connected_registry();
    let d = reg.join_request(GUILD, VOICE, TEXT).unwrap();
    assert!(matches!(d, JoinDecision::AlreadyConnected));
    // still exactly one live session, still usable
    assert!(reg.get(GUILD).is_some());
    assert!(reg.play_request(GUILD, "https://example.com/a").is_ok());
}

#[test]
fn join_while_connecting_is_refused() {
    let mut reg = SessionRegistry::new();
    let d = reg.join_request(GUILD, VOICE, TEXT).unwrap();
    assert!(matches!(d, JoinDecision::Connect));
    let e = reg.join_request(GUILD, VOICE, TEXT).unwrap_err();
    assert_eq!(user_text(&e), "Already connecting to a voice channel");
}

#[test]
fn failed_connect_leaves_no_partial_state() {
    let mut reg = SessionRegistry::new();
    reg.join_request(GUILD, VOICE, TEXT).unwrap();
    let e = reg.join_complete(GUILD, false, "gateway timeout").unwrap_err();
    assert_eq!(user_text(&e), "Failed to join channel");
    assert_eq!(e.log_text().unwrap(), "gateway timeout");
    assert!(reg.get(GUILD).is_none());
}

#[test]
fn leave_twice_reports_log_error_and_keeps_registry() {
    let mut reg = connected_registry();
    reg.leave(GUILD).unwrap();
    assert!(reg.get(GUILD).is_none());
    let e = reg.leave(GUILD).unwrap_err();
    assert!(e.user_text().is_none());
    assert_eq!(e.log_text().unwrap(), "no active session");
    assert!(reg.get(GUILD).is_none());
}

#[test]
fn play_without_session_reports_not_in_call_and_creates_nothing() {
    let reg = SessionRegistry::new();
    let e = reg.play_request(GUILD, "https://example.com/a").unwrap_err();
    assert_eq!(user_text(&e), "Not currently in a call");
    assert!(reg.get(GUILD).is_none());
}

#[test]
fn play_with_invalid_url_fails_before_any_stream() {
    let mut reg = connected_registry();
    let e = reg.play_request(GUILD, "not-a-url").unwrap_err();
    assert_eq!(user_text(&e), "Must provide a valid URL");
    // distinct from the stream-open failure
    let open_failure = stream_open_error("exit status 1");
    assert_eq!(user_text(&open_failure), "Error starting stream");
    assert_eq!(
        open_failure.log_text().unwrap(),
        "Error sourcing ffmpeg exit status 1"
    );
    // the session is still there and still accepts a proper URL
    assert!(reg
        .play_request(GUILD, "https://www.youtube.com/watch?v=dQw4w9WgXcQ")
        .is_ok());
    assert_eq!(reg.play_enqueue(GUILD, track(1), EnqueueAt::Back).unwrap(), 1);
}

#[test]
fn play_enqueue_reports_positions() {
    let mut reg = connected_registry();
    assert_eq!(reg.play_enqueue(GUILD, track(1), EnqueueAt::Back).unwrap(), 1);
    assert_eq!(reg.play_enqueue(GUILD, track(2), EnqueueAt::Back).unwrap(), 2);
    assert_eq!(reg.play_enqueue(GUILD, track(3), EnqueueAt::Front).unwrap(), 3);
    let np = reg.now_playing(GUILD, 0).unwrap();
    assert_eq!(np.current.handle_id, 1);
    assert_eq!(np.next.unwrap().handle_id, 3);
}

#[test]
fn skip_on_single_track_reports_zero_and_stays_connected() {
    let mut reg = connected_registry();
    reg.play_enqueue(GUILD, track(1), EnqueueAt::Back).unwrap();
    let remaining = reg.skip(GUILD).unwrap();
    assert_eq!(remaining, 0);
    // still connected: further commands meet the session, not "no call"
    let e = reg.now_playing(GUILD, 0).unwrap_err();
    assert_eq!(user_text(&e), "No song playing");
    assert!(reg.get(GUILD).is_some());
}

#[test]
fn stop_clears_queue() {
    let mut reg = connected_registry();
    reg.play_enqueue(GUILD, track(1), EnqueueAt::Back).unwrap();
    reg.play_enqueue(GUILD, track(2), EnqueueAt::Back).unwrap();
    reg.stop(GUILD).unwrap();
    let p = reg.queue_page(GUILD, 0).unwrap();
    assert_eq!(p.entries.len(), 0);
}

#[test]
fn pause_and_resume_need_a_track() {
    let mut reg = connected_registry();
    let e = reg.pause(GUILD).unwrap_err();
    assert_eq!(user_text(&e), "No track playing");
    let e = reg.resume(GUILD).unwrap_err();
    assert_eq!(user_text(&e), "No track playing");
    reg.play_enqueue(GUILD, track(1), EnqueueAt::Back).unwrap();
    reg.pause(GUILD).unwrap();
    reg.resume(GUILD).unwrap();
    let e = reg.pause(GUILD + 1).unwrap_err();
    assert_eq!(user_text(&e), "Not currently in a call");
}

#[test]
fn remove_and_swap_through_registry() {
    let mut reg = connected_registry();
    for n in 1..=4 {
        reg.play_enqueue(GUILD, track(n), EnqueueAt::Back).unwrap();
    }
    let e = reg.remove_track(GUILD, 0).unwrap_err();
    assert_eq!(
        user_text(&e),
        "A song index of 0 is invalid (The queue starts at 1)"
    );
    let t = reg.remove_track(GUILD, 2).unwrap();
    assert_eq!(t.handle_id, 3);
    let (at_a, at_b) = reg.swap_tracks(GUILD, 1, 2).unwrap();
    assert_eq!(at_a.handle_id, 4);
    assert_eq!(at_b.handle_id, 2);
    let e = reg.swap_tracks(GUILD, 1, 9).unwrap_err();
    assert_eq!(user_text(&e), "Can't swap non-existing index");
}

#[test]
fn track_ended_advances_queue() {
    let mut reg = connected_registry();
    reg.play_enqueue(GUILD, track(1), EnqueueAt::Back).unwrap();
    reg.play_enqueue(GUILD, track(2), EnqueueAt::Back).unwrap();
    let done = reg.track_ended(GUILD).unwrap().unwrap();
    assert_eq!(done.handle_id, 1);
    assert_eq!(reg.now_playing(GUILD, 0).unwrap().current.handle_id, 2);
    let e = reg.track_ended(GUILD + 1).unwrap_err();
    assert_eq!(e.log_text().unwrap(), "no active session");
}

#[test]
fn watchdog_disconnects_after_five_idle_ticks() {
    let mut reg = connected_registry();
    for expected in 1..=4u32 {
        match reg.idle_tick(GUILD, true).unwrap() {
            IdleTick::CountedTo(k) => assert_eq!(k, expected),
            _ => panic!("expected the counter to rise"),
        }
    }
    assert!(matches!(reg.idle_tick(GUILD, true).unwrap(), IdleTick::TimedOut));
    assert!(reg.get(GUILD).is_none());
    // a stale watchdog tick after teardown stops cleanly with a log error
    let e = reg.idle_tick(GUILD, true).unwrap_err();
    assert_eq!(e.log_text().unwrap(), "no active session");
}

#[test]
fn watchdog_resets_when_a_human_joins() {
    let mut reg = connected_registry();
    reg.idle_tick(GUILD, true).unwrap();
    reg.idle_tick(GUILD, true).unwrap();
    assert!(matches!(reg.idle_tick(GUILD, false).unwrap(), IdleTick::Occupied));
    for expected in 1..=4u32 {
        match reg.idle_tick(GUILD, true).unwrap() {
            IdleTick::CountedTo(k) => assert_eq!(k, expected),
            _ => panic!("expected the counter to restart from zero"),
        }
    }
    assert!(reg.get(GUILD).is_some());
}

#[test]
fn sessions_are_isolated_per_guild() {
    let mut reg = SessionRegistry::new();
    reg.join_request(1, 100, 200).unwrap();
    reg.join_complete(1, true, "").unwrap();
    reg.join_request(2, 101, 201).unwrap();
    reg.join_complete(2, true, "").unwrap();
    reg.play_enqueue(1, track(1), EnqueueAt::Back).unwrap();
    assert_eq!(reg.queue_page(1, 0).unwrap().entries.len(), 1);
    assert_eq!(reg.queue_page(2, 0).unwrap().entries.len(), 0);
    reg.leave(1).unwrap();
    assert!(reg.get(1).is_none());
    assert!(reg.get(2).is_some());
}
