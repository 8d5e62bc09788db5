//! Model of a line window over the bytes of a file, and the laws the
//! scrolling operations obey. A window is faithful when its first offset is
//! a line boundary of the file and each later offset is exactly one line
//! past the one before it. Scrolling forward appends the next line's start
//! and drops the top; scrolling backward recovers the previous line's start
//! by the bounded backward scan. Both directions are pure functions of the
//! file's bytes, which is what makes the round-trip and resize laws hold.

use vstd::prelude::*;

use crate::scan::BACK_CHUNK;
use crate::scan::NEWLINE;
use crate::scan::backstep_of;
use crate::scan::lemma_last_newline_position;
use crate::scan::lemma_line_shape;
use crate::scan::lemma_no_newline;
use crate::scan::line_len;
use crate::scan::prev_from_chunk;
use crate::scan::seek_of;

verus! {

/// `o` is a place a line can begin or the file can end: the file start,
/// the position just after a newline, or the file end.
pub open spec fn is_boundary(file: Seq<u8>, o: int) -> bool {
    0 <= o <= file.len() && (o == 0 || o == file.len() || file[o - 1] == NEWLINE)
}

/// The window is a faithful line window over `file`: nonempty, its first
/// offset a boundary, every offset but the last strictly inside the file,
/// and each successor offset exactly one line further.
pub open spec fn valid_window(file: Seq<u8>, w: Seq<u64>) -> bool {
    &&& file.len() <= u64::MAX
    &&& w.len() >= 1
    &&& is_boundary(file, w[0] as int)
    &&& forall|i: int| 0 <= i < w.len() - 1 ==> #[trigger] w[i] < file.len()
    &&& forall|i: int| 0 <= i < w.len() - 1 ==> w[i + 1] == #[trigger] w[i] + line_len(
        file,
        w[i] as int,
    )
}

/// No line of the file is longer than one backward-scan chunk — the
/// proviso under which the backward scan is exact rather than a fallback.
pub open spec fn lines_bounded(file: Seq<u8>) -> bool {
    forall|o: int|
        0 <= o < file.len() && (o == 0 || file[o - 1] == NEWLINE) ==> #[trigger] line_len(
            file,
            o,
        ) <= BACK_CHUNK
}

/// One forward scroll: drop the top offset, append the offset one line
/// past the old trailing offset.
pub open spec fn forward_step(file: Seq<u8>, w: Seq<u64>) -> Seq<u64> {
    w.drop_first().push((w.last() + line_len(file, w.last() as int)) as u64)
}

/// What the backward scan yields for a window whose top line starts at
/// `first`: the chunk of file bytes ending just before `first - 1` is
/// searched for its last newline.
pub open spec fn scan_start(file: Seq<u8>, first: int) -> int {
    prev_from_chunk(file.subrange(seek_of(first), first - 1), seek_of(first))
}

/// One backward scroll: drop the trailing offset, prepend the start of the
/// line preceding the top one.
pub open spec fn backward_step(file: Seq<u8>, w: Seq<u64>) -> Seq<u64> {
    seq![scan_start(file, w[0] as int) as u64] + w.drop_last()
}

/// The file still has a line to read at each of `k` successive forward
/// scrolls — "k does not exceed the available lines".
pub open spec fn can_forward(file: Seq<u8>, w: Seq<u64>, k: nat) -> bool
    decreases k,
{
    k == 0 || (w.last() < file.len() && can_forward(
        file,
        forward_step(file, w),
        (k - 1) as nat,
    ))
}

/// The window after `k` forward scrolls.
pub open spec fn forward_iter(file: Seq<u8>, w: Seq<u64>, k: nat) -> Seq<u64>
    decreases k,
{
    if k == 0 {
        w
    } else {
        forward_iter(file, forward_step(file, w), (k - 1) as nat)
    }
}

/// The window after `k` backward scrolls.
pub open spec fn backward_iter(file: Seq<u8>, w: Seq<u64>, k: nat) -> Seq<u64>
    decreases k,
{
    if k == 0 {
        w
    } else {
        backward_step(file, backward_iter(file, w, (k - 1) as nat))
    }
}

/// A forward scroll of a faithful window with a line left to read yields a
/// faithful window of the same length, whose top line starts one line past
/// the old top.
pub proof fn lemma_forward_step_valid(file: Seq<u8>, w: Seq<u64>)
    requires
        valid_window(file, w),
        w.last() < file.len(),
    ensures
        valid_window(file, forward_step(file, w)),
        forward_step(file, w).len() == w.len(),
        forward_step(file, w)[0] == w[0] + line_len(file, w[0] as int),
        forward_step(file, w).drop_last() =~= w.drop_first(),
{
    let f = forward_step(file, w);
    let last = w.last() as int;
    let l_last = line_len(file, last);
    lemma_line_shape(file, last);
    assert(w[0] < file.len()) by {
        if w.len() >= 2 {
            assert(w[0] < file.len());
        }
    }
    let o0 = w[0] as int;
    let l0 = line_len(file, o0);
    lemma_line_shape(file, o0);
    assert(f[0] == o0 + l0) by {
        if w.len() >= 2 {
            assert(w[1] == w[0] + line_len(file, w[0] as int));
        }
    }
    assert(is_boundary(file, f[0] as int));
    assert forall|i: int| 0 <= i < f.len() - 1 implies #[trigger] f[i] < file.len() by {
        if i < w.len() - 2 {
            assert(w[i + 1] < file.len());
        }
        assert(f[i] == w[i + 1]);
    }
    assert forall|i: int| 0 <= i < f.len() - 1 implies f[i + 1] == #[trigger] f[i] + line_len(
        file,
        f[i] as int,
    ) by {
        assert(f[i] == w[i + 1]);
        if i < w.len() - 2 {
            assert(f[i + 1] == w[i + 2]);
            assert(w[i + 2] == w[i + 1] + line_len(file, w[i + 1] as int));
        } else {
            assert(f[i + 1] == f.last());
        }
    }
}

/// A backward scroll exactly undoes a forward scroll: when no line is
/// longer than the scan chunk, the chunk read before the new top line ends
/// precisely at the old top line's newline, so the scan returns the old
/// top offset.
pub proof fn lemma_step_round_trip(file: Seq<u8>, w: Seq<u64>)
    requires
        valid_window(file, w),
        lines_bounded(file),
        w.last() < file.len(),
    ensures
        backward_step(file, forward_step(file, w)) == w,
{
    lemma_forward_step_valid(file, w);
    let f = forward_step(file, w);
    let o0 = w[0] as int;
    let l0 = line_len(file, o0);
    lemma_line_shape(file, o0);
    assert(l0 <= BACK_CHUNK);
    let nf = o0 + l0;
    assert(f[0] == nf);
    let backstep = backstep_of(nf);
    let seek = seek_of(nf);
    let chunk = file.subrange(seek, nf - 1);
    assert(scan_start(file, nf) == o0) by {
        if o0 == 0 {
            assert forall|j: int| 0 <= j < chunk.len() implies chunk[j] != NEWLINE by {
                assert(chunk[j] == file[seek + j]);
                assert(o0 <= seek + j < o0 + l0 - 1);
            }
            lemma_no_newline(chunk);
        } else {
            assert(file[o0 - 1] == NEWLINE);
            let p = o0 - 1 - seek;
            assert(backstep >= l0);
            assert(chunk[p] == file[o0 - 1]);
            assert forall|j: int| p < j < chunk.len() implies chunk[j] != NEWLINE by {
                assert(chunk[j] == file[seek + j]);
                assert(o0 <= seek + j < o0 + l0 - 1);
            }
            lemma_last_newline_position(chunk, p);
        }
    }
    assert(backward_step(file, f) =~= w);
}

/// Scrolling a faithful window forward by `k` lines and then backward by
/// `k` lines restores the original window exactly, for any `k` not
/// exceeding the available lines, provided no single line exceeds the
/// backward-scan chunk size.
pub proof fn lemma_scroll_round_trip(file: Seq<u8>, w: Seq<u64>, k: nat)
    requires
        valid_window(file, w),
        lines_bounded(file),
        can_forward(file, w, k),
    ensures
        backward_iter(file, forward_iter(file, w, k), k) == w,
        valid_window(file, forward_iter(file, w, k)),
    decreases k,
{
    if k > 0 {
        lemma_forward_step_valid(file, w);
        lemma_scroll_round_trip(file, forward_step(file, w), (k - 1) as nat);
        lemma_step_round_trip(file, w);
    }
}

/// The window obtained from `w` by reading whole lines from its trailing
/// offset until it holds `target` offsets or end-of-file stops it.
pub open spec fn extend_to(file: Seq<u8>, w: Seq<u64>, target: nat) -> Seq<u64>
    decreases target - w.len(),
{
    if w.len() == 0 || w.len() >= target || w.last() as int >= file.len() || file.len()
        > u64::MAX {
        w
    } else {
        extend_to(file, w.push((w.last() + line_len(file, w.last() as int)) as u64), target)
    }
}

/// Truncating a faithful window to its first `m` offsets and then
/// re-extending it to its original length restores the very same offsets:
/// they are derived from file content and position alone, not from a
/// cache.
pub proof fn lemma_truncate_then_extend(file: Seq<u8>, w: Seq<u64>, m: int)
    requires
        valid_window(file, w),
        1 <= m <= w.len(),
    ensures
        extend_to(file, w.take(m), w.len() as nat) == w,
    decreases w.len() - m,
{
    if m == w.len() {
        assert(w.take(m) =~= w);
    } else {
        let t = w.take(m);
        assert(t.last() == w[m - 1]);
        assert(w[m - 1] < file.len());
        assert(w[m] == w[m - 1] + line_len(file, w[m - 1] as int));
        assert(t.push((t.last() + line_len(file, t.last() as int)) as u64) =~= w.take(m + 1));
        lemma_truncate_then_extend(file, w, m + 1);
    }
}

} // verus!
