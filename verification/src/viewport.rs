//! Selection and scroll state layered over a backing sequence of known
//! length. The viewport never stores the sequence itself; every operation
//! takes the current length and keeps the selection inside the visible
//! window `[scroll_offset, scroll_offset + capacity)`.

use vstd::prelude::*;

verus! {

/// Direction of a one-step selection move.
#[derive(Clone, Copy, PartialEq, Eq, Structural, Debug)]
pub enum Direction {
    Up,
    Down,
}

/// Selection cursor, first visible index, visible capacity and redraw flag
/// for one pane.
pub struct Viewport {
    /// Absolute index of the selected row.
    pub selected: usize,
    /// Absolute index of the first visible row.
    pub scroll_offset: usize,
    /// Number of rows the pane can show.
    pub capacity: usize,
    /// True when the visible state changed since the last render.
    pub dirty: bool,
}

impl Viewport {
    /// The invariant that every operation preserves, relative to the length
    /// of the backing sequence: the selection is a valid index and lies
    /// inside the visible window; over an empty sequence both indices are 0.
    pub open spec fn inv(self, len: nat) -> bool {
        &&& self.capacity >= 1
        &&& if len == 0 {
            self.selected == 0 && self.scroll_offset == 0
        } else {
            &&& self.scroll_offset <= self.selected < len
            &&& self.selected < self.scroll_offset + self.capacity
        }
    }

    /// Whether a one-step move in `dir` is legal over a sequence of length
    /// `len`; an illegal move is a boundary alert and changes nothing.
    pub open spec fn can_move(self, dir: Direction, len: int) -> bool {
        match dir {
            Direction::Up => self.selected > 0,
            Direction::Down => self.selected + 1 < len,
        }
    }

    /// State after a legal one-step move down: the selection advances by
    /// one, and the window slides by one only if the selection would leave
    /// it.
    pub open spec fn move_down_spec(self) -> Viewport {
        Viewport {
            selected: (self.selected + 1) as usize,
            scroll_offset: if self.selected + 1 >= self.scroll_offset + self.capacity {
                (self.scroll_offset + 1) as usize
            } else {
                self.scroll_offset
            },
            capacity: self.capacity,
            dirty: true,
        }
    }

    /// State after a legal one-step move up.
    pub open spec fn move_up_spec(self) -> Viewport {
        Viewport {
            selected: (self.selected - 1) as usize,
            scroll_offset: if self.selected - 1 < self.scroll_offset {
                (self.scroll_offset - 1) as usize
            } else {
                self.scroll_offset
            },
            capacity: self.capacity,
            dirty: true,
        }
    }

    /// State after a reset: both indices return to 0 and a redraw is due.
    pub open spec fn reset_spec(self) -> Viewport {
        Viewport { selected: 0, scroll_offset: 0, capacity: self.capacity, dirty: true }
    }

    /// State after a capacity change: the selection stays put and the window
    /// advances just enough to keep the selection visible.
    pub open spec fn resize_spec(self, new_capacity: usize) -> Viewport {
        Viewport {
            selected: self.selected,
            scroll_offset: if self.selected >= self.scroll_offset + new_capacity {
                (self.selected + 1 - new_capacity) as usize
            } else {
                self.scroll_offset
            },
            capacity: new_capacity,
            dirty: true,
        }
    }

    /// First index the pane must render.
    pub open spec fn visible_lo(self) -> int {
        self.scroll_offset as int
    }

    /// One past the last index the pane must render.
    pub open spec fn visible_hi(self, len: int) -> int {
        if self.scroll_offset + self.capacity <= len {
            self.scroll_offset + self.capacity
        } else {
            len
        }
    }

    /// A fresh viewport at the top of its sequence, marked for a first
    /// render.
    pub fn new(capacity: usize) -> (v: Viewport)
        requires
            capacity >= 1,
        ensures
            v == (Viewport { selected: 0, scroll_offset: 0, capacity, dirty: true }),
            forall|len: nat| v.inv(len),
    {
        Viewport { selected: 0, scroll_offset: 0, capacity, dirty: true }
    }

    /// State after one attempted move: the successful transition, or the
    /// state unchanged when the move is refused at a boundary.
    pub open spec fn move_result(self, dir: Direction, len: int) -> Viewport {
        if self.can_move(dir, len) {
            match dir {
                Direction::Up => self.move_up_spec(),
                Direction::Down => self.move_down_spec(),
            }
        } else {
            self
        }
    }

    /// Attempt to shift the selection by one position. Returns false — a
    /// boundary alert — and leaves the state unchanged when the move would
    /// leave `[0, len)`; on success the window slides by at most one row.
    /// Whatever the sequence of calls, the invariant holds after each one.
    pub fn move_selection(&mut self, dir: Direction, len: usize) -> (moved: bool)
        requires
            old(self).inv(len as nat),
        ensures
            final(self).inv(len as nat),
            moved == old(self).can_move(dir, len as int),
            *final(self) == old(self).move_result(dir, len as int),
    {
        match dir {
            Direction::Down => {
                if self.selected + 1 < len {
                    self.selected = self.selected + 1;
                    if self.selected - self.scroll_offset >= self.capacity {
                        self.scroll_offset = self.scroll_offset + 1;
                    }
                    self.dirty = true;
                    true
                } else {
                    false
                }
            },
            Direction::Up => {
                if self.selected > 0 {
                    self.selected = self.selected - 1;
                    if self.selected < self.scroll_offset {
                        self.scroll_offset = self.scroll_offset - 1;
                    }
                    self.dirty = true;
                    true
                } else {
                    false
                }
            },
        }
    }

    /// Return to the top; called whenever the backing sequence is replaced.
    pub fn reset(&mut self)
        requires
            old(self).capacity >= 1,
        ensures
            *final(self) == old(self).reset_spec(),
            forall|len: nat| final(self).inv(len),
    {
        self.selected = 0;
        self.scroll_offset = 0;
        self.dirty = true;
    }

    /// Change the visible capacity without moving the selection; the window
    /// advances just enough to restore the invariant, never more.
    pub fn resize(&mut self, new_capacity: usize, len: usize)
        requires
            new_capacity >= 1,
            old(self).inv(len as nat),
        ensures
            *final(self) == old(self).resize_spec(new_capacity),
            final(self).inv(len as nat),
    {
        if self.selected - self.scroll_offset >= new_capacity {
            self.scroll_offset = self.selected - new_capacity + 1;
        }
        self.capacity = new_capacity;
        self.dirty = true;
    }

    /// The index range `[lo, hi)` the caller must render this frame: the
    /// window clamped to the sequence length.
    pub fn visible_range(&self, len: usize) -> (r: (usize, usize))
        requires
            self.inv(len as nat),
        ensures
            r.0 == self.visible_lo(),
            r.1 == self.visible_hi(len as int),
            r.0 <= r.1 <= len,
    {
        let hi = if len - self.scroll_offset < self.capacity {
            len
        } else {
            self.scroll_offset + self.capacity
        };
        (self.scroll_offset, hi)
    }

    /// Acknowledge a completed render.
    pub fn clear_dirty(&mut self)
        ensures
            *final(self) == (Viewport { dirty: false, ..*old(self) }),
    {
        self.dirty = false;
    }
}

/// The viewport after a whole sequence of attempted moves, applied first
/// to last.
pub open spec fn apply_moves(v: Viewport, moves: Seq<Direction>, len: int) -> Viewport
    decreases moves.len(),
{
    if moves.len() == 0 {
        v
    } else {
        apply_moves(v.move_result(moves[0], len), moves.drop_first(), len)
    }
}

/// One attempted move keeps the invariant.
pub proof fn lemma_move_preserves_inv(v: Viewport, dir: Direction, len: nat)
    requires
        v.inv(len),
        len <= usize::MAX,
    ensures
        v.move_result(dir, len as int).inv(len),
{
    if v.can_move(dir, len as int) {
        match dir {
            Direction::Up => {
                assert(v.move_up_spec().inv(len));
            },
            Direction::Down => {
                assert(v.move_down_spec().inv(len));
            },
        }
    }
}

/// For every sequence of `move_selection` calls over a sequence of length
/// `len`, the selection stays a valid index and stays inside the visible
/// window after every call.
pub proof fn lemma_moves_preserve_inv(v: Viewport, moves: Seq<Direction>, len: nat)
    requires
        v.inv(len),
        len <= usize::MAX,
    ensures
        apply_moves(v, moves, len as int).inv(len),
    decreases moves.len(),
{
    if moves.len() > 0 {
        lemma_move_preserves_inv(v, moves[0], len);
        lemma_moves_preserve_inv(v.move_result(moves[0], len as int), moves.drop_first(), len);
    }
}

/// After a reset, the visible range always begins at index 0, whatever the
/// sequence length and whatever state the viewport was in.
pub proof fn lemma_reset_range_starts_at_zero(v: Viewport, len: int)
    ensures
        v.reset_spec().visible_lo() == 0,
{
}

} // verus!
