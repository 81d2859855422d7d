use sunny_flowers::display::{
    artist_cell, duration_cell, format_duration, format_u64, nav_state, page_footer, page_turn,
    progress_text, title_cell, track_heading, up_next_text, PageInput,
};
use sunny_flowers::urls::strip_angle_brackets;
use sunny_flowers::track::{
    get_artist, get_title, split_duration, string_or_default, Track,
};

fn track_with(title: Option<&str>, artist: Option<&str>, dur: Option<u64>) -> Track {
    Track {
        title: title.map(|s| s.to_string()),
        artist: artist.map(|s| s.to_string()),
        source_url: None,
        thumbnail_url: None,
        duration_secs: dur,
        handle_id: 0,
    }
}

#[test]
fn format_u64_renders_decimal() {
    assert_eq!(format_u64(0), "0");
    assert_eq!(format_u64(7), "7");
    assert_eq!(format_u64(42), "42");
    assert_eq!(format_u64(1000), "1000");
    assert_eq!(format_u64(u64::MAX), "18446744073709551615");
}

#[test]
fn format_duration_pads_seconds() {
    assert_eq!(format_duration(0), "0:00");
    assert_eq!(format_duration(5), "0:05");
    assert_eq!(format_duration(61), "1:01");
    assert_eq!(format_duration(125), "2:05");
    assert_eq!(format_duration(600), "10:00");
    assert_eq!(format_duration(3599), "59:59");
    assert_eq!(format_duration(3600), "60:00");
}

#[test]
fn split_duration_floors_to_minutes_and_seconds() {
    assert_eq!(split_duration(0), (0, 0));
    assert_eq!(split_duration(125), (2, 5));
    assert_eq!(split_duration(3661), (61, 1));
}

#[test]
fn title_and_artist_fall_back() {
    let t = track_with(None, None, None);
    assert_eq!(get_title(&t), "Unknown Title");
    assert_eq!(get_artist(&t), "Unknown Artist");
    let t = track_with(Some("Song"), Some("Band"), None);
    assert_eq!(get_title(&t), "Song");
    assert_eq!(get_artist(&t), "Band");
}

#[test]
fn string_or_default_picks_fallback_only_when_empty() {
    assert_eq!(string_or_default("", "Queue"), "Queue");
    assert_eq!(string_or_default("x", "Queue"), "x");
}

#[test]
fn heading_and_up_next_lines() {
    let t = track_with(Some("Song"), Some("Band"), None);
    assert_eq!(track_heading(&t), "Song by Band");
    assert_eq!(up_next_text(&t), "**Up Next:** Song by Band");
    let t = track_with(None, None, None);
    assert_eq!(track_heading(&t), "Unknown Title by Unknown Artist");
}

#[test]
fn queue_embed_cells() {
    let t = track_with(Some("Song"), Some("Band"), Some(125));
    assert_eq!(title_cell(3, &t), "**3.** Song\n");
    assert_eq!(artist_cell(&t), "Band\n");
    assert_eq!(duration_cell(125), "[2:05]\n");
}

#[test]
fn progress_line() {
    assert_eq!(
        progress_text(65, 125),
        "**Current Time:** 1:05 / 2:05"
    );
}

#[test]
fn nav_state_enables_buttons_by_page() {
    let s = nav_state(0, 5);
    assert!(!s.prev_enabled);
    assert!(!s.next_enabled);
    let s = nav_state(0, 25);
    assert!(!s.prev_enabled);
    assert!(s.next_enabled);
    let s = nav_state(1, 25);
    assert!(s.prev_enabled);
    assert!(s.next_enabled);
    let s = nav_state(2, 25);
    assert!(s.prev_enabled);
    assert!(!s.next_enabled);
}

#[test]
fn page_footer_pads_both_duration_halves() {
    assert_eq!(page_footer(0, 2, 910), "Page 1/2 | Total Duration: 15:10");
    assert_eq!(page_footer(1, 2, 65), "Page 2/2 | Total Duration: 01:05");
    assert_eq!(page_footer(0, 1, 0), "Page 1/1 | Total Duration: 00:00");
}

#[test]
fn angle_brackets_are_stripped_once() {
    assert_eq!(strip_angle_brackets("<https://a.example>"), "https://a.example");
    assert_eq!(strip_angle_brackets("https://a.example"), "https://a.example");
    assert_eq!(strip_angle_brackets("<>"), "");
    assert_eq!(strip_angle_brackets("<"), "<");
    assert_eq!(strip_angle_brackets("a>"), "a>");
}

#[test]
fn page_turn_moves_within_bounds() {
    assert_eq!(page_turn(0, PageInput::NextPage), Some(1));
    assert_eq!(page_turn(3, PageInput::PrevPage), Some(2));
    assert_eq!(page_turn(0, PageInput::PrevPage), None);
    assert_eq!(page_turn(4, PageInput::Other), None);
    assert_eq!(page_turn(usize::MAX, PageInput::NextPage), None);
}
