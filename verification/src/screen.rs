//! Where the terminal cursor stands within the frame, and the moves that take
//! it from one line of the frame to another.

use vstd::prelude::*;

verus! {

/// The way from one line of the frame to another: first `down` lines down
/// within the lines that exist, then `new_lines` line breaks that make lines
/// below the last one, or else `up` lines up.
#[derive(Debug, Clone, Copy, PartialEq, Eq, Structural)]
pub struct Travel {
    pub down: usize,
    pub new_lines: usize,
    pub up: usize,
}

/// The way from line `row` to line `target` when `last` is the last line
/// that exists. A cursor move cannot leave the lines that exist, so what lies
/// below `last` is reached by line breaks from `last`.
pub open spec fn travel(row: int, last: int, target: int) -> Travel {
    if target > last {
        Travel { down: (last - row) as usize, new_lines: (target - last) as usize, up: 0 }
    } else if target >= row {
        Travel { down: (target - row) as usize, new_lines: 0, up: 0 }
    } else {
        Travel { down: 0, new_lines: 0, up: (row - target) as usize }
    }
}

/// A way arrives: it ends on the target, and its cursor moves stay within the
/// lines that exist.
pub proof fn lemma_travel_arrives(row: int, last: int, target: int)
    requires
        0 <= row <= last <= usize::MAX,
        0 <= target <= usize::MAX,
    ensures
        row + travel(row, last, target).down + travel(row, last, target).new_lines - travel(
            row,
            last,
            target,
        ).up == target,
        row + travel(row, last, target).down <= last,
        travel(row, last, target).up <= row,
        travel(row, last, target).new_lines > 0 ==> row + travel(row, last, target).down == last,
        travel(row, last, target).up > 0 ==> travel(row, last, target).down == 0 && travel(
            row,
            last,
            target,
        ).new_lines == 0,
{
}

/// The line of the frame on which the terminal cursor stands, and the last
/// line of the frame that exists on the terminal. Lines count from 0, the
/// line on which the frame begins.
#[derive(Debug)]
pub struct FrameCursor {
    row: usize,
    last: usize,
}

impl FrameCursor {
    /// The line on which the cursor stands.
    pub closed spec fn row(&self) -> int {
        self.row as int
    }

    /// The last line that exists.
    pub closed spec fn last(&self) -> int {
        self.last as int
    }

    /// The cursor stands on a line that exists.
    pub closed spec fn wf(&self) -> bool {
        self.row <= self.last
    }

    /// The cursor on the line on which the frame begins, the only one so far.
    pub fn new() -> (cursor: Self)
        ensures
            cursor.wf(),
            cursor.row() == 0,
            cursor.last() == 0,
    {
        FrameCursor { row: 0, last: 0 }
    }

    /// Takes the cursor to line `target` and says which moves that takes.
    pub fn go_to(&mut self, target: usize) -> (way: Travel)
        requires
            old(self).wf(),
        ensures
            way == travel(old(self).row(), old(self).last(), target as int),
            final(self).wf(),
            final(self).row() == target,
            final(self).last() == if target > old(self).last() {
                target as int
            } else {
                old(self).last()
            },
    {
        let way = if target > self.last {
            Travel { down: self.last - self.row, new_lines: target - self.last, up: 0 }
        } else if target >= self.row {
            Travel { down: target - self.row, new_lines: 0, up: 0 }
        } else {
            Travel { down: 0, new_lines: 0, up: self.row - target }
        };
        if target > self.last {
            self.last = target;
        }
        self.row = target;
        way
    }
}

/// The largest number of lines or columns that one cursor move can take.
pub const MAX_STEPS: u16 = 0xffff;

/// A count as a number of steps of one cursor move: the count itself, or
/// `MAX_STEPS` where it is larger.
pub fn steps(count: usize) -> (n: u16)
    ensures
        n == if count > MAX_STEPS {
            MAX_STEPS as int
        } else {
            count as int
        },
{
    if count > 0xffff {
        MAX_STEPS
    } else {
        count as u16
    }
}

} // verus!
