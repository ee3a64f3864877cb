use rewind::player::{progress_tick, App, PlayerState, Track};
use rewind::ui::{get_playlist_click, is_click_in_button, PLAYLIST_START_Y};

fn track(name: &str) -> Track {
    Track {
        name: name.to_string(),
        size: 100,
        offset: 0,
        artist: "Artist".to_string(),
        title: name.to_string(),
        duration_secs: 90,
    }
}

fn app_with(n: usize) -> App {
    let tracks: Vec<Track> = (0..n).map(|i| track(&format!("t{}", i))).collect();
    App::new(tracks).unwrap()
}

#[test]
fn new_rejects_blank_cassette() {
    assert!(App::new(Vec::new()).is_none());
}

#[test]
fn new_starts_stopped_at_full_volume() {
    let app = app_with(3);
    assert_eq!(app.selected_track, 0);
    assert!(matches!(app.player_state, PlayerState::Stopped));
    assert_eq!(app.current_track, None);
    assert_eq!(app.volume, 4);
    assert_eq!(app.playlist_scroll, 0);
    assert!(!app.should_quit);
}

#[test]
fn selection_wraps_both_ways() {
    let mut app = app_with(3);
    app.select_previous();
    assert_eq!(app.selected_track, 2);
    app.select_next();
    assert_eq!(app.selected_track, 0);
    app.select_next();
    assert_eq!(app.selected_track, 1);
}

#[test]
fn scroll_follows_selection() {
    let mut app = app_with(8);
    for _ in 0..6 {
        app.select_next();
    }
    // Selection 6 with five visible rows scrolls to 2.
    assert_eq!(app.selected_track, 6);
    assert_eq!(app.playlist_scroll, 2);
    app.select_previous();
    assert_eq!(app.playlist_scroll, 2);
    app.select_previous();
    app.select_previous();
    app.select_previous();
    assert_eq!(app.selected_track, 2);
    assert_eq!(app.playlist_scroll, 2);
    app.select_previous();
    assert_eq!(app.playlist_scroll, 1);
}

#[test]
fn play_and_toggle_transitions() {
    let mut app = app_with(4);
    assert!(app.play_track(2));
    assert!(matches!(app.player_state, PlayerState::Playing));
    assert_eq!(app.current_track, Some(2));
    assert_eq!(app.selected_track, 2);

    assert!(!app.toggle_pause());
    assert!(matches!(app.player_state, PlayerState::Paused));
    assert!(!app.toggle_pause());
    assert!(matches!(app.player_state, PlayerState::Playing));

    app.stop();
    assert!(matches!(app.player_state, PlayerState::Stopped));
    assert_eq!(app.current_track, None);

    // Toggling while stopped starts the selected track.
    assert!(app.toggle_pause());
    assert!(matches!(app.player_state, PlayerState::Playing));
    assert_eq!(app.current_track, Some(2));
}

#[test]
fn play_track_ignores_out_of_range_index() {
    let mut app = app_with(2);
    assert!(!app.play_track(5));
    assert!(matches!(app.player_state, PlayerState::Stopped));
    assert_eq!(app.current_track, None);
}

#[test]
fn next_and_previous_wrap() {
    let mut app = app_with(3);
    app.play_track(2);
    app.next_track();
    assert_eq!(app.current_track, Some(0));
    app.previous_track();
    assert_eq!(app.current_track, Some(2));
    app.stop();
    // With nothing current, skipping plays the selection.
    app.select_track(1);
    app.next_track();
    assert_eq!(app.current_track, Some(1));
}

#[test]
fn volume_clamps_at_both_ends() {
    let mut app = app_with(1);
    app.volume_up();
    assert_eq!(app.volume, 4);
    for _ in 0..6 {
        app.volume_down();
    }
    assert_eq!(app.volume, 0);
    app.volume_down();
    assert_eq!(app.volume, 0);
    app.volume_up();
    assert_eq!(app.volume, 1);
}

#[test]
fn finished_track_advances_then_stops() {
    let mut app = app_with(2);
    app.play_track(0);
    assert!(app.check_track_finished(true));
    assert_eq!(app.current_track, Some(1));
    assert!(matches!(app.player_state, PlayerState::Playing));
    assert!(!app.check_track_finished(true));
    assert!(matches!(app.player_state, PlayerState::Stopped));
    assert_eq!(app.current_track, None);
}

#[test]
fn finished_check_ignores_busy_sink() {
    let mut app = app_with(2);
    app.play_track(0);
    assert!(!app.check_track_finished(false));
    assert_eq!(app.current_track, Some(0));
    assert!(matches!(app.player_state, PlayerState::Playing));
}

#[test]
fn progress_tick_counts_seconds() {
    assert_eq!(progress_tick(10, 90, true, false, true), Some(11));
    assert_eq!(progress_tick(10, 90, true, true, true), Some(10));
    assert_eq!(progress_tick(90, 90, true, false, true), None);
    assert_eq!(progress_tick(10, 90, false, false, true), None);
    assert_eq!(progress_tick(10, 90, true, false, false), None);
}

#[test]
fn button_hit_testing() {
    // The play button of the fixed layout: column 13, row 12, width 5.
    let btn = (13u16, 12u16, 5u16);
    assert!(is_click_in_button(13, 12, btn, 0, 0));
    assert!(is_click_in_button(17, 12, btn, 0, 0));
    assert!(!is_click_in_button(18, 12, btn, 0, 0));
    assert!(!is_click_in_button(12, 12, btn, 0, 0));
    assert!(!is_click_in_button(15, 11, btn, 0, 0));
    // The layout origin shifts everything.
    assert!(is_click_in_button(23, 17, btn, 10, 5));
}

#[test]
fn playlist_hit_testing() {
    let y0 = PLAYLIST_START_Y;
    // Clicking the first visible row selects the scrolled-to track.
    assert_eq!(get_playlist_click(3, y0, 0, 0, 0, 10), Some(0));
    assert_eq!(get_playlist_click(3, y0 + 4, 0, 0, 0, 10), Some(4));
    assert_eq!(get_playlist_click(3, y0 + 2, 0, 0, 3, 10), Some(5));
    // Below the five visible rows, outside the columns, or past the last
    // track: no selection.
    assert_eq!(get_playlist_click(3, y0 + 5, 0, 0, 0, 10), None);
    assert_eq!(get_playlist_click(2, y0, 0, 0, 0, 10), None);
    assert_eq!(get_playlist_click(60, y0, 0, 0, 0, 10), None);
    assert_eq!(get_playlist_click(3, y0 + 3, 0, 0, 0, 2), None);
    assert_eq!(get_playlist_click(3, y0 + 1, 0, 0, 1, 2), None);
}
