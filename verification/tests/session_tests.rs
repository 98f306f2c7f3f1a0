use game_of_life::session::{Event, Session};
use game_of_life::state::State;

#[test]
fn new_session_starts_paused_and_dead() {
    let s = Session::new(8, 6);
    assert!(s.paused);
    assert!(s.anchor.is_none());
    assert_eq!(s.clipboard.width, 0);
    for y in 0..6usize {
        for x in 0..8usize {
            assert!(matches!(s.grid.get(x, y), State::Dead));
        }
    }
}

#[test]
fn toggle_pause_flips_the_flag() {
    let mut s = Session::new(4, 4);
    s.handle_event(Event::TogglePause, 0, 0);
    assert!(!s.paused);
    s.handle_event(Event::TogglePause, -5, 99);
    assert!(s.paused);
}

#[test]
fn rate_events_change_the_period_even_while_running() {
    let mut s = Session::new(4, 4);
    s.handle_event(Event::TogglePause, 0, 0);
    assert!(!s.paused);
    s.handle_event(Event::IncreaseRate, 0, 0);
    assert_eq!(s.scheduler.period, 100_000);
    s.handle_event(Event::DecreaseRate, 0, 0);
    s.handle_event(Event::DecreaseRate, 0, 0);
    assert_eq!(s.scheduler.period, 400_000);
}

#[test]
fn toggle_cell_only_while_paused_and_in_range() {
    let mut s = Session::new(4, 4);
    s.handle_event(Event::ToggleCell, 2, 1);
    assert!(matches!(s.grid.get(2, 1), State::Alive));
    s.handle_event(Event::ToggleCell, 2, 1);
    assert!(matches!(s.grid.get(2, 1), State::Dead));
    // Out of range or negative: ignored.
    s.handle_event(Event::ToggleCell, 4, 0);
    s.handle_event(Event::ToggleCell, -1, 2);
    // Unpaused: ignored.
    s.handle_event(Event::TogglePause, 0, 0);
    s.handle_event(Event::ToggleCell, 1, 1);
    for y in 0..4usize {
        for x in 0..4usize {
            assert!(matches!(s.grid.get(x, y), State::Dead));
        }
    }
}

#[test]
fn selection_captures_on_release() {
    let mut s = Session::new(5, 5);
    s.handle_event(Event::ToggleCell, 1, 1);
    s.handle_event(Event::ToggleCell, 2, 2);
    s.handle_event(Event::RegionStart, 1, 1);
    assert_eq!(s.anchor, Some((1, 1)));
    s.handle_event(Event::RegionEnd, 2, 2);
    assert!(s.anchor.is_none());
    assert_eq!(s.clipboard.width, 2);
    assert_eq!(s.clipboard.height, 2);
    assert!(matches!(s.clipboard.cells[0], State::Alive));
    assert!(matches!(s.clipboard.cells[3], State::Alive));
    assert!(matches!(s.clipboard.cells[1], State::Dead));
}

#[test]
fn reverse_drag_sorts_the_corners() {
    let mut s = Session::new(5, 5);
    s.handle_event(Event::ToggleCell, 1, 1);
    s.handle_event(Event::RegionStart, 3, 3);
    s.handle_event(Event::RegionEnd, 1, 1);
    assert_eq!(s.clipboard.width, 3);
    assert_eq!(s.clipboard.height, 3);
    assert!(matches!(s.clipboard.cells[0], State::Alive));
}

#[test]
fn region_end_without_anchor_is_ignored() {
    let mut s = Session::new(4, 4);
    s.handle_event(Event::RegionEnd, 1, 1);
    assert!(s.anchor.is_none());
    assert_eq!(s.clipboard.width, 0);
}

#[test]
fn paste_at_cursor_round_trip() {
    let mut s = Session::new(5, 5);
    s.handle_event(Event::ToggleCell, 1, 1);
    s.handle_event(Event::ToggleCell, 2, 1);
    s.handle_event(Event::RegionStart, 1, 1);
    s.handle_event(Event::RegionEnd, 2, 2);
    // Clear the originals, then paste the captured block elsewhere.
    s.handle_event(Event::ToggleCell, 1, 1);
    s.handle_event(Event::ToggleCell, 2, 1);
    s.handle_event(Event::PasteAtCursor, 0, 3);
    assert!(matches!(s.grid.get(0, 3), State::Alive));
    assert!(matches!(s.grid.get(1, 3), State::Alive));
    assert!(matches!(s.grid.get(0, 4), State::Dead));
}

#[test]
fn paste_is_ignored_while_selecting() {
    let mut s = Session::new(4, 4);
    s.handle_event(Event::ToggleCell, 0, 0);
    s.handle_event(Event::RegionStart, 0, 0);
    s.handle_event(Event::RegionEnd, 1, 1);
    s.handle_event(Event::RegionStart, 2, 2);
    s.handle_event(Event::PasteAtCursor, 0, 2);
    assert!(matches!(s.grid.get(0, 2), State::Dead));
    assert_eq!(s.anchor, Some((2, 2)));
}

#[test]
fn frames_do_nothing_while_paused() {
    let mut s = Session::new(4, 4);
    s.handle_event(Event::ToggleCell, 1, 1);
    let steps = s.frame(10_000_000);
    assert_eq!(steps, 0);
    assert_eq!(s.scheduler.accumulator, 0);
    assert!(matches!(s.grid.get(1, 1), State::Alive));
}

#[test]
fn frames_step_the_simulation_while_running() {
    let mut s = Session::new(5, 5);
    // A lone cell dies after one step.
    s.handle_event(Event::ToggleCell, 2, 2);
    s.handle_event(Event::TogglePause, 0, 0);
    let steps = s.frame(200_000);
    assert_eq!(steps, 1);
    assert!(matches!(s.grid.get(2, 2), State::Dead));
}
