//! Layout arithmetic for the two panes: where the right-hand region sits
//! on a screen of given size, how many rows a bordered region can list,
//! and where the viewer's inner text region sits inside its frame. The
//! screen size itself comes from the terminal; only the arithmetic lives
//! here.

use vstd::prelude::*;

verus! {

/// Extents of the right-hand region on a `rows x cols` screen, as
/// `(height, width, start row, start column)`: full height but at least
/// 3, the right half but at least 4 columns wide, starting at the middle
/// column.
pub fn calc_extents(scr_rows: i32, scr_cols: i32) -> (r: (i32, i32, i32, i32))
    requires
        0 <= scr_rows,
        0 <= scr_cols,
    ensures
        r.0 == (if scr_rows < 3 {
            3int
        } else {
            scr_rows as int
        }),
        r.1 == (if scr_cols - scr_cols / 2 < 4 {
            4int
        } else {
            scr_cols - scr_cols / 2
        }),
        r.2 == 0,
        r.3 == scr_cols / 2,
{
    let height = if scr_rows < 3 {
        3
    } else {
        scr_rows
    };
    let half = scr_cols / 2;
    let width = if scr_cols - half < 4 {
        4
    } else {
        scr_cols - half
    };
    (height, width, 0, half)
}

/// Rows a bordered region of `win_height` total rows can list: the top
/// and bottom border rows are lost.
pub fn view_rows(win_height: i32) -> (r: usize)
    requires
        win_height >= 3,
    ensures
        r == win_height - 2,
        r >= 1,
{
    (win_height - 2) as usize
}

/// Extents of the text region nested inside a bordered frame at
/// `(h, w, y, x)`: two rows and two columns smaller, shifted one row and
/// one column in.
pub fn inner_extents(h: i32, w: i32, y: i32, x: i32) -> (r: (i32, i32, i32, i32))
    requires
        h >= 3,
        w >= 3,
        0 <= y < i32::MAX,
        0 <= x < i32::MAX,
    ensures
        r.0 == h - 2,
        r.1 == w - 2,
        r.2 == y + 1,
        r.3 == x + 1,
{
    (h - 2, w - 2, y + 1, x + 1)
}

} // verus!
