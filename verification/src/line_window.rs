//! The sliding window of byte offsets marking the currently visible lines
//! of a file. The window holds `visible_line_count + 1` strictly increasing
//! offsets: each offset is the file position where a visible line starts,
//! and the trailing offset is where the next line would begin. It is the
//! sole state kept between renders; the file's bytes are re-read at these
//! offsets each draw. The caller performs the reads and hands the byte
//! counts (or the scanned chunk) to the operations here.

use vstd::prelude::*;

use crate::scan::find_prev_line_start;
use crate::scan::prev_from_chunk;

verus! {

/// Ordered window of line-start byte offsets into a file.
pub struct LineWindow {
    offsets: Vec<u64>,
}

impl View for LineWindow {
    type V = Seq<u64>;

    closed spec fn view(&self) -> Seq<u64> {
        self.offsets@
    }
}

impl LineWindow {
    /// The window always holds at least one offset, and offsets strictly
    /// increase.
    pub open spec fn wf(self) -> bool {
        &&& self@.len() >= 1
        &&& forall|i: int| 0 <= i < self@.len() - 1 ==> #[trigger] self@[i] < self@[i + 1]
    }

    /// A window freshly opened at the start of the file: one offset, 0.
    pub fn new() -> (w: LineWindow)
        ensures
            w@ =~= seq![0u64],
            w.wf(),
    {
        let mut offsets: Vec<u64> = Vec::new();
        offsets.push(0);
        LineWindow { offsets }
    }

    /// Number of offsets tracked.
    pub fn len(&self) -> (n: usize)
        ensures
            n == self@.len(),
    {
        self.offsets.len()
    }

    /// Number of complete visible lines: one less than the offset count.
    pub fn line_count(&self) -> (n: usize)
        requires
            self.wf(),
        ensures
            n == self@.len() - 1,
    {
        self.offsets.len() - 1
    }

    /// Offset of the top visible line.
    pub fn first(&self) -> (o: u64)
        requires
            self.wf(),
        ensures
            o == self@[0],
    {
        self.offsets[0]
    }

    /// The trailing offset: where the line after the bottom visible line
    /// would begin.
    pub fn last(&self) -> (o: u64)
        requires
            self.wf(),
        ensures
            o == self@.last(),
    {
        self.offsets[self.offsets.len() - 1]
    }

    /// Offset at position `i` of the window.
    pub fn offset_at(&self, i: usize) -> (o: u64)
        requires
            i < self@.len(),
        ensures
            o == self@[i as int],
    {
        self.offsets[i]
    }

    /// Whether the window still has room before it tracks `rows` visible
    /// lines, so that opening or resizing should read another line.
    pub fn needs_more(&self, rows: usize) -> (r: bool)
        requires
            self.wf(),
        ensures
            r == (self@.len() < rows + 1),
    {
        self.offsets.len() - 1 < rows
    }

    /// Record one more line below the window: a read at the trailing offset
    /// consumed `n_bytes` bytes, so the next line begins that much further.
    pub fn extend(&mut self, n_bytes: u64)
        requires
            old(self).wf(),
            n_bytes > 0,
            old(self)@.last() + n_bytes <= u64::MAX,
        ensures
            final(self).wf(),
            final(self)@ == old(self)@.push((old(self)@.last() + n_bytes) as u64),
    {
        let next = self.offsets[self.offsets.len() - 1] + n_bytes;
        self.offsets.push(next);
    }

    /// Scroll forward by one line. A read at the trailing offset consumed
    /// `n_bytes` bytes; 0 means end-of-file, a boundary alert that changes
    /// nothing. Otherwise the top offset is dropped and the new trailing
    /// offset appended, an O(1) update independent of file size.
    pub fn scroll_forward(&mut self, n_bytes: u64) -> (moved: bool)
        requires
            old(self).wf(),
            old(self)@.last() + n_bytes <= u64::MAX,
        ensures
            final(self).wf(),
            moved == (n_bytes > 0),
            moved ==> final(self)@ == old(self)@.drop_first().push(
                (old(self)@.last() + n_bytes) as u64,
            ),
            !moved ==> *final(self) == *old(self),
    {
        if n_bytes == 0 {
            return false;
        }
        let next = self.offsets[self.offsets.len() - 1] + n_bytes;
        self.offsets.remove(0);
        self.offsets.push(next);
        proof {
            assert(self@ =~= old(self)@.drop_first().push(next));
        }
        true
    }

    /// Scroll backward by one line, to a previous line start the backward
    /// scan found: the trailing offset is dropped and `new_first`
    /// prepended.
    pub fn scroll_backward_to(&mut self, new_first: u64)
        requires
            old(self).wf(),
            new_first < old(self)@[0],
        ensures
            final(self).wf(),
            final(self)@ == seq![new_first] + old(self)@.drop_last(),
    {
        self.offsets.pop();
        self.offsets.insert(0, new_first);
        proof {
            assert(self@ =~= seq![new_first] + old(self)@.drop_last());
        }
    }

    /// Scroll backward by one line given the backward-scan chunk: the bytes
    /// read at file offset `seek_pos`, ending just before the newline that
    /// precedes the current top line. The new top offset is the line start
    /// the chunk scan yields.
    pub fn scroll_backward_with(&mut self, chunk: &Vec<u8>, seek_pos: u64)
        requires
            old(self).wf(),
            old(self)@[0] > 0,
            seek_pos + chunk@.len() < old(self)@[0],
        ensures
            final(self).wf(),
            final(self)@ == seq![prev_from_chunk(chunk@, seek_pos as int) as u64]
                + old(self)@.drop_last(),
    {
        let new_first = find_prev_line_start(chunk, seek_pos);
        self.scroll_backward_to(new_first);
    }

    /// Keep at most `rows` visible lines: truncate the offset sequence to
    /// `rows + 1` entries. No lines are lost, only no longer tracked; a
    /// later extension re-reads them from disk by offset.
    pub fn truncate_to(&mut self, rows: usize)
        requires
            old(self).wf(),
        ensures
            final(self).wf(),
            final(self)@ == (if old(self)@.len() <= rows + 1 {
                old(self)@
            } else {
                old(self)@.take(rows + 1)
            }),
    {
        if rows < self.offsets.len() {
            self.offsets.truncate(rows + 1);
        }
        proof {
            if old(self)@.len() > rows + 1 {
                assert(self@ =~= old(self)@.take(rows + 1));
            } else {
                assert(self@ =~= old(self)@);
            }
        }
    }
}

} // verus!
