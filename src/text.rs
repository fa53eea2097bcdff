//! The layout of the text export of a thermogram sequence: per frame a
//! header, a line of column numbers, then one line per image row starting
//! with the row number. Numbers are read by the caller; this decides which
//! lines hold samples and what the extents are.

use vstd::prelude::*;

verus! {

/// What a line starts with, as far as the layout is concerned.
#[derive(Clone, Copy, Debug, PartialEq, Eq, Structural)]
pub enum LineScan {
    /// The line is empty.
    Blank,
    /// The line does not start with a number.
    Text,
    /// The line starts with a number, followed by this many more.
    Numbers(usize),
}

/// The extents found in a text export and the lines that hold samples.
#[derive(Clone, Debug)]
pub struct TextLayout {
    pub frames: usize,
    pub rows: usize,
    pub columns: usize,
    /// Whether the next line of numbers is a row of samples (else it is the
    /// line of column numbers that follows a header).
    pub in_rows: bool,
    pub data_lines: Vec<usize>,
}

/// The layout as a plain value.
pub struct LayoutState {
    pub frames: int,
    pub rows: int,
    pub columns: int,
    pub in_rows: bool,
    pub data_lines: Seq<usize>,
}

/// One line of the scan. A text line starts a header; the first line of
/// numbers after it lists the columns and starts a frame; every other line
/// of numbers is a row whose first number is the row number and whose other
/// numbers are its samples.
pub open spec fn layout_step(st: LayoutState, idx: int, l: LineScan) -> LayoutState {
    match l {
        LineScan::Blank => st,
        LineScan::Text => LayoutState { in_rows: false, ..st },
        LineScan::Numbers(n) => if st.in_rows {
            LayoutState {
                rows: st.rows + 1,
                columns: n as int,
                data_lines: st.data_lines.push(idx as usize),
                ..st
            }
        } else {
            LayoutState { frames: st.frames + 1, rows: 0, columns: 0, in_rows: true, ..st }
        },
    }
}

/// The layout after the first `k` lines.
pub open spec fn layout_spec(lines: Seq<LineScan>, k: nat) -> LayoutState
    decreases k,
{
    if k == 0 {
        LayoutState { frames: 0, rows: 0, columns: 0, in_rows: true, data_lines: Seq::empty() }
    } else {
        layout_step(layout_spec(lines, (k - 1) as nat), k - 1, lines[k - 1])
    }
}

proof fn lemma_layout_bounds(lines: Seq<LineScan>, k: nat)
    requires
        k <= lines.len(),
    ensures
        0 <= layout_spec(lines, k).frames <= k,
        0 <= layout_spec(lines, k).rows <= k,
        layout_spec(lines, k).columns >= 0,
        forall|i: int|
            0 <= i < layout_spec(lines, k).data_lines.len() ==> layout_spec(lines, k).data_lines[i]
                < k,
    decreases k,
{
    if k > 0 {
        lemma_layout_bounds(lines, (k - 1) as nat);
    }
}

/// Scans the lines of a text export: the number of frames (lines of column
/// numbers), the rows and columns of the last frame, and the indices of the
/// lines that hold samples, in order.
pub fn scan_layout(lines: &Vec<LineScan>) -> (r: TextLayout)
    ensures
        ({
            let s = layout_spec(lines@, lines@.len());
            &&& r.frames == s.frames
            &&& r.rows == s.rows
            &&& r.columns == s.columns
            &&& r.in_rows == s.in_rows
            &&& r.data_lines@ == s.data_lines
        }),
{
    let mut frames: usize = 0;
    let mut rows: usize = 0;
    let mut columns: usize = 0;
    let mut in_rows = true;
    let mut data_lines: Vec<usize> = Vec::new();
    let mut i: usize = 0;
    while i < lines.len()
        invariant
            i <= lines@.len(),
            ({
                let s = layout_spec(lines@, i as nat);
                &&& frames == s.frames
                &&& rows == s.rows
                &&& columns == s.columns
                &&& in_rows == s.in_rows
                &&& data_lines@ == s.data_lines
            }),
        decreases lines@.len() - i,
    {
        proof {
            lemma_layout_bounds(lines@, i as nat);
        }
        match lines[i] {
            LineScan::Blank => {},
            LineScan::Text => {
                in_rows = false;
            },
            LineScan::Numbers(n) => {
                if in_rows {
                    rows += 1;
                    columns = n;
                    data_lines.push(i);
                } else {
                    frames += 1;
                    rows = 0;
                    columns = 0;
                    in_rows = true;
                }
            },
        }
        i += 1;
    }
    TextLayout { frames, rows, columns, in_rows, data_lines }
}

/// Whether the start of a text export uses a decimal comma.
pub fn uses_decimal_comma(head: &[u8]) -> (r: bool)
    ensures
        r == head@.contains(0x2Cu8),
{
    let mut i: usize = 0;
    while i < head.len()
        invariant
            i <= head@.len(),
            forall|j: int| 0 <= j < i ==> head@[j] != 0x2Cu8,
        decreases head@.len() - i,
    {
        if head[i] == 0x2C {
            assert(head@[i as int] == 0x2Cu8);
            return true;
        }
        i += 1;
    }
    false
}

/// A line with every decimal comma turned into a decimal point.
pub fn with_decimal_point(line: &[u8]) -> (r: Vec<u8>)
    ensures
        r@.len() == line@.len(),
        forall|i: int|
            0 <= i < line@.len() ==> #[trigger] r@[i] == if line@[i] == 0x2Cu8 {
                0x2Eu8
            } else {
                line@[i]
            },
{
    let mut r: Vec<u8> = Vec::with_capacity(line.len());
    let mut i: usize = 0;
    while i < line.len()
        invariant
            i <= line@.len(),
            r@.len() == i,
            forall|j: int|
                0 <= j < i ==> #[trigger] r@[j] == if line@[j] == 0x2Cu8 {
                    0x2Eu8
                } else {
                    line@[j]
                },
        decreases line@.len() - i,
    {
        let c = line[i];
        r.push(if c == 0x2C {
            0x2E
        } else {
            c
        });
        i += 1;
    }
    r
}

/// The length of the file header of a text export.
pub const FILE_HEADER_LEN: u64 = 20;

/// The length of one frame of a 384 × 288 export: six bytes per pixel plus
/// the frame's headers.
pub const FRAME_LEN: u64 = 666350;

/// The number of frames that a text export of `file_len` bytes is expected
/// to hold, from the size of a full-resolution frame.
pub fn estimated_frames(file_len: u64) -> (r: u64)
    ensures
        file_len < 20 ==> r == 0,
        file_len >= 20 ==> r == (file_len - 20) / 666350,
{
    if file_len < FILE_HEADER_LEN {
        0
    } else {
        (file_len - FILE_HEADER_LEN) / FRAME_LEN
    }
}

} // verus!
