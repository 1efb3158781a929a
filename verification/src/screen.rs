//! Frames for the terminal: the text of a grid behind the control sequence
//! that puts it in its place on the screen.

use vstd::prelude::*;
use vstd::string::StringExecFns;

use crate::grid::{Grid, Matrix};

verus! {

/// The number of seconds between two frames.
pub const TICK_SECONDS: u64 = 1;

/// The control sequence that clears the screen.
pub open spec fn clear_screen() -> Seq<char> {
    seq!['\x1B', '[', '2', 'J']
}

/// The control sequence that moves the cursor to the upper left corner.
pub open spec fn cursor_home() -> Seq<char> {
    seq!['\x1B', '[', 'H']
}

impl Grid {
    /// The frame that shows the grid: its text form, behind the sequence
    /// that clears the screen where the frame is the first, and behind the
    /// one that moves the cursor home where it is a later one.
    pub open spec fn frame(self, first: bool) -> Seq<char> {
        if first {
            clear_screen() + self.text()
        } else {
            cursor_home() + self.text()
        }
    }
}

impl Matrix {
    /// The frame that shows the grid on the terminal. The first frame clears
    /// the screen; every later one is written over the one before.
    pub fn frame(&self, first: bool) -> (text: String)
        requires
            self.wf(),
        ensures
            text@ == self@.frame(first),
    {
        proof {
            reveal_strlit("\x1B[2J");
            reveal_strlit("\x1B[H");
        }
        let mut out = if first {
            String::from_str("\x1B[2J")
        } else {
            String::from_str("\x1B[H")
        };
        let body = self.render();
        out.append(body.as_str());
        out
    }
}

} // verus!
