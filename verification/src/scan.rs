//! Byte-level line scanning. Lines are delimited by the byte `\n`; a line's
//! length counts every byte up to and including its newline, or up to
//! end-of-file when no newline follows. The backward scan locates the start
//! of the line preceding a known line start by searching a bounded chunk
//! that ends just before that start, skipping the preceding newline itself.

use vstd::prelude::*;

verus! {

/// The line delimiter byte.
pub const NEWLINE: u8 = 10;

/// A carriage return, stripped for display when it precedes a newline.
pub const CARRIAGE_RETURN: u8 = 13;

/// How many bytes a single backward scan reads at most.
pub const BACK_CHUNK: u64 = 4096;

/// Length in bytes of the line starting at `pos`, newline included; 0 at or
/// past end-of-file.
pub open spec fn line_len(file: Seq<u8>, pos: int) -> int
    decreases file.len() - pos,
{
    if pos < 0 || pos >= file.len() {
        0
    } else if file[pos] == NEWLINE {
        1
    } else {
        1 + line_len(file, pos + 1)
    }
}

/// The line starting at `pos` stays within the file, is nonempty, holds no
/// newline before its final byte, and ends with a newline unless it reaches
/// end-of-file.
pub proof fn lemma_line_shape(file: Seq<u8>, pos: int)
    requires
        0 <= pos < file.len(),
    ensures
        1 <= line_len(file, pos),
        pos + line_len(file, pos) <= file.len(),
        forall|j: int| pos <= j < pos + line_len(file, pos) - 1 ==> file[j] != NEWLINE,
        file[pos + line_len(file, pos) - 1] == NEWLINE || pos + line_len(file, pos)
            == file.len(),
    decreases file.len() - pos,
{
    if file[pos] == NEWLINE {
    } else if pos + 1 < file.len() {
        lemma_line_shape(file, pos + 1);
    }
}

/// Number of bytes `read_line` consumes from position `pos`: the length of
/// the line starting there, or 0 at end-of-file.
pub fn read_line_len(file: &Vec<u8>, pos: usize) -> (n: usize)
    requires
        pos <= file.len(),
    ensures
        n == line_len(file@, pos as int),
{
    let mut i: usize = pos;
    while i < file.len()
        invariant
            pos <= i <= file@.len(),
            line_len(file@, pos as int) == i - pos + line_len(file@, i as int),
        decreases file@.len() - i,
    {
        if file[i] == NEWLINE {
            return i + 1 - pos;
        }
        i = i + 1;
    }
    i - pos
}

/// Index of the last newline byte in `s`, or -1 when `s` holds none.
pub open spec fn last_newline_in(s: Seq<u8>) -> int
    decreases s.len(),
{
    if s.len() == 0 {
        -1
    } else if s[s.len() - 1] == NEWLINE {
        s.len() - 1
    } else {
        last_newline_in(s.drop_last())
    }
}

/// A newline with none after it is the last one.
pub proof fn lemma_last_newline_position(s: Seq<u8>, p: int)
    requires
        0 <= p < s.len(),
        s[p] == NEWLINE,
        forall|j: int| p < j < s.len() ==> s[j] != NEWLINE,
    ensures
        last_newline_in(s) == p,
    decreases s.len(),
{
    if p < s.len() - 1 {
        lemma_last_newline_position(s.drop_last(), p);
    }
}

/// A chunk without newlines has no last one.
pub proof fn lemma_no_newline(s: Seq<u8>)
    requires
        forall|j: int| 0 <= j < s.len() ==> s[j] != NEWLINE,
    ensures
        last_newline_in(s) == -1,
    decreases s.len(),
{
    if s.len() > 0 {
        lemma_no_newline(s.drop_last());
    }
}

/// Start offset of the previous line, as recovered from a backward-scan
/// chunk that was read starting at file offset `seek_pos`: just past the
/// last newline in the chunk, or offset 0 when the chunk holds no newline —
/// the fallback that treats the unscanned prefix as empty.
pub open spec fn prev_from_chunk(chunk: Seq<u8>, seek_pos: int) -> int {
    if last_newline_in(chunk) >= 0 {
        seek_pos + last_newline_in(chunk) + 1
    } else {
        0
    }
}

/// Search a backward-scan chunk from its end for the last newline and
/// return the file offset of the line that begins just after it, or 0 when
/// the chunk holds none.
pub fn find_prev_line_start(chunk: &Vec<u8>, seek_pos: u64) -> (r: u64)
    requires
        seek_pos + chunk@.len() <= u64::MAX,
    ensures
        r == prev_from_chunk(chunk@, seek_pos as int),
        r <= seek_pos + chunk@.len(),
{
    let mut i: usize = chunk.len();
    while i > 0
        invariant
            0 <= i <= chunk@.len(),
            seek_pos + chunk@.len() <= u64::MAX,
            forall|j: int| i <= j < chunk@.len() ==> chunk@[j] != NEWLINE,
        decreases i,
    {
        if chunk[i - 1] == NEWLINE {
            proof {
                lemma_last_newline_position(chunk@, i - 1);
            }
            return seek_pos + i as u64;
        }
        i = i - 1;
    }
    proof {
        lemma_no_newline(chunk@);
    }
    0
}

/// How far back one backward scan steps from a line start at `file_pos`: at
/// most `BACK_CHUNK` bytes, at most to the start of the file, and never
/// including the newline at `file_pos - 1` itself.
pub open spec fn backstep_of(file_pos: int) -> int {
    if file_pos - 1 < BACK_CHUNK {
        file_pos - 1
    } else {
        BACK_CHUNK as int
    }
}

/// File offset at which the backward-scan chunk begins.
pub open spec fn seek_of(file_pos: int) -> int {
    file_pos - 1 - backstep_of(file_pos)
}

/// Compute the read the backward scan needs before the line start at
/// `file_pos`: `(seek position, byte count)`.
pub fn backward_scan_request(file_pos: u64) -> (r: (u64, u64))
    requires
        file_pos > 0,
    ensures
        r.1 == backstep_of(file_pos as int),
        r.0 == seek_of(file_pos as int),
        r.0 + r.1 == file_pos - 1,
{
    let backstep = if file_pos - 1 < BACK_CHUNK {
        file_pos - 1
    } else {
        BACK_CHUNK
    };
    (file_pos - 1 - backstep, backstep)
}

/// A line's bytes with its trailing newline removed, and a carriage return
/// before that newline removed too; byte content elsewhere is untouched.
pub open spec fn rtrim_spec(s: Seq<u8>) -> Seq<u8> {
    if s.len() >= 1 && s[s.len() - 1] == NEWLINE {
        if s.len() >= 2 && s[s.len() - 2] == CARRIAGE_RETURN {
            s.take(s.len() - 2)
        } else {
            s.take(s.len() - 1)
        }
    } else {
        s
    }
}

/// Strip a trailing newline, and a carriage return before it, for display;
/// stored offsets are always computed against the untrimmed bytes.
pub fn rtrim(line: &mut Vec<u8>)
    ensures
        final(line)@ == rtrim_spec(old(line)@),
{
    let n = line.len();
    if n >= 1 && line[n - 1] == NEWLINE {
        line.pop();
        let m = line.len();
        if m >= 1 && line[m - 1] == CARRIAGE_RETURN {
            line.pop();
        }
        proof {
            assert(line@ =~= rtrim_spec(old(line)@));
        }
    }
}

} // verus!
