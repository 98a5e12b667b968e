//! A line-diffing frame buffer: it remembers the frame that the terminal
//! shows, collects the next one, and works out the few line writes that turn
//! the first into the second.

use vstd::prelude::*;

verus! {

/// One write to the terminal. Rows count from the buffer's first line.
#[derive(Debug, Clone)]
pub enum DrawOp {
    /// Replace the content of a line that both frames have.
    Overwrite { row: usize, text: String },
    /// Write a line that only the new frame has.
    Append { row: usize, text: String },
    /// Blank a line that only the old frame has; the line itself stays.
    Clear { row: usize },
}

/// A write, as a mathematical value.
pub ghost enum Write {
    Overwrite { row: int, text: Seq<char> },
    Append { row: int, text: Seq<char> },
    Clear { row: int },
}

impl View for DrawOp {
    type V = Write;

    open spec fn view(&self) -> Write {
        match self {
            DrawOp::Overwrite { row, text } => Write::Overwrite { row: *row as int, text: text@ },
            DrawOp::Append { row, text } => Write::Append { row: *row as int, text: text@ },
            DrawOp::Clear { row } => Write::Clear { row: *row as int },
        }
    }
}

impl DrawOp {
    /// The line that the write touches.
    pub fn row(&self) -> (row: usize)
        ensures
            row == self@.row(),
    {
        match self {
            DrawOp::Overwrite { row, .. } => *row,
            DrawOp::Append { row, .. } => *row,
            DrawOp::Clear { row } => *row,
        }
    }

    /// What the touched line holds afterwards.
    pub fn text(&self) -> (text: &str)
        ensures
            text@ == self@.text(),
    {
        match self {
            DrawOp::Overwrite { text, .. } => text.as_str(),
            DrawOp::Append { text, .. } => text.as_str(),
            DrawOp::Clear { .. } => {
                proof {
                    reveal_strlit("");
                }
                assert(""@ =~= Seq::<char>::empty());
                ""
            },
        }
    }
}

impl Write {
    /// The row that the write touches.
    pub open spec fn row(self) -> int {
        match self {
            Write::Overwrite { row, .. } => row,
            Write::Append { row, .. } => row,
            Write::Clear { row } => row,
        }
    }

    /// What the touched row holds afterwards.
    pub open spec fn text(self) -> Seq<char> {
        match self {
            Write::Overwrite { text, .. } => text,
            Write::Append { text, .. } => text,
            Write::Clear { .. } => Seq::empty(),
        }
    }
}

/// The writes of a sequence of operations.
pub open spec fn writes_of(ops: Seq<DrawOp>) -> Seq<Write> {
    Seq::new(ops.len(), |i: int| ops[i]@)
}

/// What a screen shows at a row: its line there, or nothing beyond its end.
pub open spec fn line_at(screen: Seq<Seq<char>>, row: int) -> Seq<char> {
    if 0 <= row < screen.len() {
        screen[row]
    } else {
        Seq::empty()
    }
}

/// A screen shows a frame when every row of it reads as the frame does.
pub open spec fn shows(screen: Seq<Seq<char>>, frame: Seq<Seq<char>>) -> bool {
    forall|row: int| #[trigger] line_at(screen, row) == line_at(frame, row)
}

/// The screen after `text` was written at `row`; rows between the old end and
/// `row` come into being blank.
pub open spec fn write_line(screen: Seq<Seq<char>>, row: int, text: Seq<char>) -> Seq<Seq<char>> {
    if row < 0 {
        screen
    } else if row < screen.len() {
        screen.update(row, text)
    } else {
        (screen + Seq::new((row - screen.len()) as nat, |i: int| Seq::<char>::empty())).push(text)
    }
}

/// The screen after one write.
pub open spec fn apply_write(screen: Seq<Seq<char>>, w: Write) -> Seq<Seq<char>> {
    write_line(screen, w.row(), w.text())
}

/// The screen after a batch of writes, applied first to last.
pub open spec fn apply_writes(screen: Seq<Seq<char>>, ws: Seq<Write>) -> Seq<Seq<char>>
    decreases ws.len(),
{
    if ws.len() == 0 {
        screen
    } else {
        apply_write(apply_writes(screen, ws.drop_last()), ws.last())
    }
}

/// The write that row `row` needs to go from frame `prev` to frame `next`:
/// none where both hold the same line there, or neither holds one.
pub open spec fn line_write(prev: Seq<Seq<char>>, next: Seq<Seq<char>>, row: int) -> Option<Write> {
    if 0 <= row < prev.len() && row < next.len() {
        if prev[row] == next[row] {
            None
        } else {
            Some(Write::Overwrite { row, text: next[row] })
        }
    } else if 0 <= row < next.len() {
        Some(Write::Append { row, text: next[row] })
    } else if 0 <= row < prev.len() {
        Some(Write::Clear { row })
    } else {
        None
    }
}

/// The writes that the rows below `n` need, in row order.
pub open spec fn diff_upto(prev: Seq<Seq<char>>, next: Seq<Seq<char>>, n: nat) -> Seq<Write>
    decreases n,
{
    if n == 0 {
        Seq::empty()
    } else {
        let front = diff_upto(prev, next, (n - 1) as nat);
        match line_write(prev, next, n - 1) {
            Some(w) => front.push(w),
            None => front,
        }
    }
}

/// The larger of two lengths.
pub open spec fn longer(a: nat, b: nat) -> nat {
    if a >= b {
        a
    } else {
        b
    }
}

/// The writes that turn frame `prev` into frame `next`.
pub open spec fn diff(prev: Seq<Seq<char>>, next: Seq<Seq<char>>) -> Seq<Write> {
    diff_upto(prev, next, longer(prev.len(), next.len()))
}

/// Writing a line changes what the screen shows at that row, and at no other.
pub proof fn lemma_write_line_at(screen: Seq<Seq<char>>, row: int, text: Seq<char>, at: int)
    requires
        0 <= row,
    ensures
        line_at(write_line(screen, row, text), at) == if at == row {
            text
        } else {
            line_at(screen, at)
        },
{
}

/// After the writes for the rows below `n`, the screen reads as the new frame
/// below `n` and as the old frame from `n` on.
proof fn lemma_diff_upto_progress(
    screen: Seq<Seq<char>>,
    prev: Seq<Seq<char>>,
    next: Seq<Seq<char>>,
    n: nat,
)
    requires
        shows(screen, prev),
    ensures
        forall|at: int| #[trigger]
            line_at(apply_writes(screen, diff_upto(prev, next, n)), at) == if at < n {
                line_at(next, at)
            } else {
                line_at(prev, at)
            },
    decreases n,
{
    if n == 0 {
        assert forall|at: int| #[trigger]
            line_at(apply_writes(screen, diff_upto(prev, next, n)), at) == line_at(
                prev,
                at,
            ) by {
            assert(line_at(screen, at) == line_at(prev, at));
        }
    } else {
        let m = (n - 1) as nat;
        lemma_diff_upto_progress(screen, prev, next, m);
        let front = diff_upto(prev, next, m);
        let before = apply_writes(screen, front);
        let after = apply_writes(screen, diff_upto(prev, next, n));
        match line_write(prev, next, m as int) {
            Some(w) => {
                assert(front.push(w).drop_last() == front);
                assert(after == write_line(before, m as int, line_at(next, m as int)));
                assert forall|at: int| #[trigger]
                    line_at(after, at) == if at < n {
                        line_at(next, at)
                    } else {
                        line_at(prev, at)
                    } by {
                    lemma_write_line_at(before, m as int, line_at(next, m as int), at);
                    assert(line_at(before, at) == if at < m {
                        line_at(next, at)
                    } else {
                        line_at(prev, at)
                    });
                }
            },
            None => {
                assert(after == before);
                assert forall|at: int| #[trigger]
                    line_at(after, at) == if at < n {
                        line_at(next, at)
                    } else {
                        line_at(prev, at)
                    } by {
                    assert(line_at(before, at) == if at < m {
                        line_at(next, at)
                    } else {
                        line_at(prev, at)
                    });
                }
            },
        }
    }
}

/// Rendering is complete: on a screen that shows the old frame, the writes of
/// `diff` leave a screen that shows the new frame, whichever lines changed and
/// whether the frame grew or shrank.
pub proof fn lemma_diff_shows_next(
    screen: Seq<Seq<char>>,
    prev: Seq<Seq<char>>,
    next: Seq<Seq<char>>,
)
    requires
        shows(screen, prev),
    ensures
        shows(apply_writes(screen, diff(prev, next)), next),
{
    let n = longer(prev.len(), next.len());
    lemma_diff_upto_progress(screen, prev, next, n);
    let after = apply_writes(screen, diff(prev, next));
    assert forall|at: int| #[trigger] line_at(after, at) == line_at(next, at) by {
        assert(line_at(after, at) == if at < n {
            line_at(next, at)
        } else {
            line_at(prev, at)
        });
    }
}

/// Each write among those for the rows below `n` is the one its own row
/// needs, and the writes come in strictly rising row order.
proof fn lemma_diff_upto_rows(prev: Seq<Seq<char>>, next: Seq<Seq<char>>, n: nat)
    ensures
        forall|k: int|
            0 <= k < diff_upto(prev, next, n).len() ==> {
                let w = #[trigger] diff_upto(prev, next, n)[k];
                0 <= w.row() < n && line_write(prev, next, w.row()) == Some(w)
            },
        forall|j: int, k: int|
            0 <= j < k < diff_upto(prev, next, n).len() ==> (#[trigger] diff_upto(
                prev,
                next,
                n,
            )[j]).row() < (#[trigger] diff_upto(prev, next, n)[k]).row(),
    decreases n,
{
    if n > 0 {
        lemma_diff_upto_rows(prev, next, (n - 1) as nat);
    }
}

/// Rendering is minimal: every write of `diff` is the one that its row needs,
/// no row is written twice, and a row that holds the same line in both frames
/// is not written at all.
pub proof fn lemma_diff_spares_equal_lines(prev: Seq<Seq<char>>, next: Seq<Seq<char>>)
    ensures
        forall|k: int|
            0 <= k < diff(prev, next).len() ==> {
                let w = #[trigger] diff(prev, next)[k];
                &&& 0 <= w.row() < longer(prev.len(), next.len())
                &&& line_write(prev, next, w.row()) == Some(w)
                &&& !(w.row() < prev.len() && w.row() < next.len() && prev[w.row()]
                    == next[w.row()])
            },
        forall|j: int, k: int|
            0 <= j < k < diff(prev, next).len() ==> (#[trigger] diff(prev, next)[j]).row() < (
            #[trigger] diff(prev, next)[k]).row(),
{
    lemma_diff_upto_rows(prev, next, longer(prev.len(), next.len()));
}

/// A frame rendered against itself needs no write.
pub proof fn lemma_diff_of_same_frame(frame: Seq<Seq<char>>)
    ensures
        diff(frame, frame) == Seq::<Write>::empty(),
{
    lemma_diff_spares_equal_lines(frame, frame);
    if diff(frame, frame).len() > 0 {
        let w = diff(frame, frame)[0];
        assert(line_write(frame, frame, w.row()) == Some(w));
    }
}


/// What a flush hands to the terminal: the writes, then where the cursor goes
/// (column, row).
#[derive(Debug)]
pub struct Batch {
    pub ops: Vec<DrawOp>,
    pub cursor: (usize, usize),
}

/// The frame buffer. `previous` is the frame last flushed, `pending` the one
/// being built, `ops` what the last render worked out.
#[derive(Debug)]
pub struct TermBuffer {
    previous: Vec<String>,
    pending: Vec<String>,
    cursor: (usize, usize),
    ops: Vec<DrawOp>,
}

impl TermBuffer {
    /// The frame that the terminal shows.
    pub closed spec fn previous(&self) -> Seq<Seq<char>> {
        self.previous.deep_view()
    }

    /// The frame under construction.
    pub closed spec fn pending(&self) -> Seq<Seq<char>> {
        self.pending.deep_view()
    }

    /// Where the cursor goes after the next flush (column, row).
    pub closed spec fn cursor(&self) -> (usize, usize) {
        self.cursor
    }

    /// The writes that the last render worked out and no flush has taken yet.
    pub closed spec fn ops(&self) -> Seq<Write> {
        writes_of(self.ops@)
    }

    /// A buffer for a terminal that shows nothing yet.
    pub fn new() -> (buffer: Self)
        ensures
            buffer.previous() == Seq::<Seq<char>>::empty(),
            buffer.pending() == Seq::<Seq<char>>::empty(),
            buffer.cursor() == (0usize, 0usize),
            buffer.ops() == Seq::<Write>::empty(),
    {
        let buffer = TermBuffer {
            previous: Vec::new(),
            pending: Vec::new(),
            cursor: (0, 0),
            ops: Vec::new(),
        };
        assert(buffer.previous.deep_view() == Seq::<Seq<char>>::empty());
        assert(buffer.pending.deep_view() == Seq::<Seq<char>>::empty());
        assert(writes_of(buffer.ops@) == Seq::<Write>::empty());
        buffer
    }

    /// Starts a new frame: whatever had been collected is discarded.
    pub fn begin(&mut self)
        ensures
            final(self).pending() == Seq::<Seq<char>>::empty(),
            final(self).previous() == old(self).previous(),
            final(self).cursor() == old(self).cursor(),
            final(self).ops() == old(self).ops(),
    {
        self.pending = Vec::new();
        assert(self.pending.deep_view() == Seq::<Seq<char>>::empty());
    }

    /// Adds one line at the end of the frame under construction.
    pub fn push_line(&mut self, text: String)
        ensures
            final(self).pending() == old(self).pending().push(text@),
            final(self).previous() == old(self).previous(),
            final(self).cursor() == old(self).cursor(),
            final(self).ops() == old(self).ops(),
    {
        self.pending.push(text);
        assert(self.pending.deep_view() == old(self).pending.deep_view().push(text@));
    }

    /// How many lines the frame under construction has so far.
    pub fn lines(&self) -> (n: usize)
        ensures
            n == self.pending().len(),
    {
        self.pending.len()
    }

    /// Records where the cursor goes after the next flush (column, row).
    pub fn set_next_cursor(&mut self, position: (usize, usize))
        ensures
            final(self).cursor() == position,
            final(self).pending() == old(self).pending(),
            final(self).previous() == old(self).previous(),
            final(self).ops() == old(self).ops(),
    {
        self.cursor = position;
    }

    /// Works out the writes that turn the shown frame into the pending one.
    pub fn render_frame(&mut self)
        ensures
            final(self).ops() == diff(old(self).previous(), old(self).pending()),
            final(self).pending() == old(self).pending(),
            final(self).previous() == old(self).previous(),
            final(self).cursor() == old(self).cursor(),
    {
        let shown = self.previous.len();
        let wanted = self.pending.len();
        let rows = if shown >= wanted { shown } else { wanted };
        let ghost prev = self.previous.deep_view();
        let ghost next = self.pending.deep_view();
        let mut ops: Vec<DrawOp> = Vec::new();
        for row in 0..rows
            invariant
                shown == self.previous.len(),
                wanted == self.pending.len(),
                rows == longer(shown as nat, wanted as nat),
                prev == self.previous.deep_view(),
                next == self.pending.deep_view(),
                prev.len() == shown,
                next.len() == wanted,
                writes_of(ops@) == diff_upto(prev, next, row as nat),
        {
            let ghost before = writes_of(ops@);
            proof {
                assert(row < shown ==> prev[row as int] == self.previous[row as int]@);
                assert(row < wanted ==> next[row as int] == self.pending[row as int]@);
            }
            if row < shown && row < wanted {
                if self.previous[row] != self.pending[row] {
                    let op = DrawOp::Overwrite { row, text: self.pending[row].clone() };
                    ops.push(op);
                    assert(writes_of(ops@) == before.push(op@));
                }
            } else if row < wanted {
                let op = DrawOp::Append { row, text: self.pending[row].clone() };
                ops.push(op);
                assert(writes_of(ops@) == before.push(op@));
            } else {
                let op = DrawOp::Clear { row };
                ops.push(op);
                assert(writes_of(ops@) == before.push(op@));
            }
        }
        self.ops = ops;
    }

    /// Hands out the writes of the last render together with the cursor
    /// target; the pending frame becomes the shown one, and a fresh frame
    /// begins.
    pub fn flush(&mut self) -> (batch: Batch)
        ensures
            writes_of(batch.ops@) == old(self).ops(),
            batch.cursor == old(self).cursor(),
            final(self).previous() == old(self).pending(),
            final(self).pending() == Seq::<Seq<char>>::empty(),
            final(self).ops() == Seq::<Write>::empty(),
            final(self).cursor() == old(self).cursor(),
    {
        let mut ops: Vec<DrawOp> = Vec::new();
        std::mem::swap(&mut self.ops, &mut ops);
        let mut frame: Vec<String> = Vec::new();
        std::mem::swap(&mut self.pending, &mut frame);
        self.previous = frame;
        assert(self.pending.deep_view() == Seq::<Seq<char>>::empty());
        assert(writes_of(self.ops@) == Seq::<Write>::empty());
        Batch { ops, cursor: self.cursor }
    }
}

} // verus!
