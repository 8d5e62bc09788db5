use scrollpane::viewport::Direction;
use scrollpane::viewport::Viewport;

#[test]
fn selection_stays_in_window_over_any_sequence() {
    // Drive the viewport with an arbitrary mix of moves over a 5-row
    // sequence; after every call the selection must be a valid index and
    // lie inside the visible window.
    let len: usize = 5;
    let mut v = Viewport::new(2);
    let moves = [
        Direction::Down,
        Direction::Down,
        Direction::Up,
        Direction::Down,
        Direction::Down,
        Direction::Down,
        Direction::Down,
        Direction::Up,
        Direction::Up,
        Direction::Up,
        Direction::Up,
        Direction::Up,
    ];
    for dir in moves {
        v.move_selection(dir, len);
        assert!(v.selected < len);
        assert!(v.scroll_offset <= v.selected);
        assert!(v.selected < v.scroll_offset + v.capacity);
    }
}

#[test]
fn move_down_slides_window_one_row() {
    let mut v = Viewport::new(2);
    assert!(v.move_selection(Direction::Down, 3));
    assert_eq!(v.selected, 1);
    assert_eq!(v.scroll_offset, 0);
    assert!(v.move_selection(Direction::Down, 3));
    assert_eq!(v.selected, 2);
    assert_eq!(v.scroll_offset, 1);
}

#[test]
fn move_past_last_entry_is_boundary_alert() {
    let mut v = Viewport::new(2);
    assert!(v.move_selection(Direction::Down, 2));
    assert!(!v.move_selection(Direction::Down, 2));
    assert_eq!(v.selected, 1);
    assert_eq!(v.scroll_offset, 0);
}

#[test]
fn move_before_first_entry_is_boundary_alert() {
    let mut v = Viewport::new(3);
    assert!(!v.move_selection(Direction::Up, 4));
    assert_eq!(v.selected, 0);
    assert_eq!(v.scroll_offset, 0);
}

#[test]
fn reset_makes_visible_range_start_at_zero() {
    let mut v = Viewport::new(2);
    v.move_selection(Direction::Down, 6);
    v.move_selection(Direction::Down, 6);
    v.move_selection(Direction::Down, 6);
    assert_eq!(v.scroll_offset, 2);
    v.reset();
    let (lo, hi) = v.visible_range(6);
    assert_eq!(lo, 0);
    assert_eq!(hi, 2);
}

#[test]
fn reset_on_empty_sequence_starts_at_zero() {
    let mut v = Viewport::new(4);
    v.reset();
    let (lo, hi) = v.visible_range(0);
    assert_eq!(lo, 0);
    assert_eq!(hi, 0);
}

#[test]
fn visible_range_is_clamped_to_length() {
    let v = Viewport::new(10);
    let (lo, hi) = v.visible_range(3);
    assert_eq!(lo, 0);
    assert_eq!(hi, 3);
}

#[test]
fn resize_advances_window_just_enough() {
    let mut v = Viewport::new(5);
    for _ in 0..4 {
        v.move_selection(Direction::Down, 8);
    }
    assert_eq!(v.selected, 4);
    assert_eq!(v.scroll_offset, 0);
    v.resize(2, 8);
    // selection unmoved, window advanced exactly to keep it visible
    assert_eq!(v.selected, 4);
    assert_eq!(v.scroll_offset, 3);
    v.resize(5, 8);
    // growing back never moves the window
    assert_eq!(v.selected, 4);
    assert_eq!(v.scroll_offset, 3);
}

#[test]
fn moves_on_empty_sequence_are_no_ops() {
    let mut v = Viewport::new(3);
    assert!(!v.move_selection(Direction::Down, 0));
    assert!(!v.move_selection(Direction::Up, 0));
    assert_eq!(v.selected, 0);
    assert_eq!(v.scroll_offset, 0);
}

#[test]
fn dirty_is_set_by_moves_and_cleared_by_render() {
    let mut v = Viewport::new(2);
    v.clear_dirty();
    assert!(!v.dirty);
    // a refused move leaves the state, dirty included, unchanged
    assert!(!v.move_selection(Direction::Up, 5));
    assert!(!v.dirty);
    assert!(v.move_selection(Direction::Down, 5));
    assert!(v.dirty);
    v.clear_dirty();
    assert!(!v.dirty);
}
