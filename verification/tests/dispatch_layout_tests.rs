use scrollpane::dispatch::DirOp;
use scrollpane::dispatch::KeyEvent;
use scrollpane::dispatch::ViewerOp;
use scrollpane::dispatch::classify_char;
use scrollpane::dispatch::dir_op;
use scrollpane::dispatch::viewer_op;
use scrollpane::layout::calc_extents;
use scrollpane::layout::inner_extents;
use scrollpane::layout::view_rows;

#[test]
fn ascii_codes_classify_as_quit_enter_or_other() {
    assert_eq!(classify_char(113), KeyEvent::Quit); // 'q'
    assert_eq!(classify_char(27), KeyEvent::Quit); // Escape
    assert_eq!(classify_char(10), KeyEvent::Enter);
    assert_eq!(classify_char(13), KeyEvent::Enter);
    assert_eq!(classify_char(97), KeyEvent::Other);
}

#[test]
fn directory_panel_key_table() {
    assert_eq!(dir_op(KeyEvent::Up), DirOp::MoveUp);
    assert_eq!(dir_op(KeyEvent::Down), DirOp::MoveDown);
    assert_eq!(dir_op(KeyEvent::Enter), DirOp::Activate);
    assert_eq!(dir_op(KeyEvent::Resize), DirOp::Relayout);
    assert_eq!(dir_op(KeyEvent::Quit), DirOp::Quit);
    assert_eq!(dir_op(KeyEvent::Other), DirOp::Idle);
}

#[test]
fn viewer_key_table_ignores_enter() {
    assert_eq!(viewer_op(KeyEvent::Up), ViewerOp::ScrollUp);
    assert_eq!(viewer_op(KeyEvent::Down), ViewerOp::ScrollDown);
    assert_eq!(viewer_op(KeyEvent::Resize), ViewerOp::Relayout);
    assert_eq!(viewer_op(KeyEvent::Quit), ViewerOp::Close);
    assert_eq!(viewer_op(KeyEvent::Enter), ViewerOp::Idle);
    assert_eq!(viewer_op(KeyEvent::Other), ViewerOp::Idle);
}

#[test]
fn viewer_region_takes_right_half_of_screen() {
    assert_eq!(calc_extents(30, 100), (30, 50, 0, 50));
    assert_eq!(calc_extents(24, 81), (24, 41, 0, 40));
}

#[test]
fn tiny_screens_are_clamped_to_minimum_extents() {
    assert_eq!(calc_extents(2, 5), (3, 4, 0, 2));
    assert_eq!(calc_extents(0, 0), (3, 4, 0, 0));
}

#[test]
fn borders_cost_two_rows_and_columns() {
    assert_eq!(view_rows(10), 8);
    assert_eq!(view_rows(3), 1);
    assert_eq!(inner_extents(10, 20, 0, 50), (8, 18, 1, 51));
}
