//! What the debugger's panels show of a session: the window of source
//! lines with their gutter markers, and the tail of the console log.

use vstd::prelude::*;
use super::state::{DebuggerState, has_breakpoint};

verus! {

/// The gutter mark of a source line.
#[derive(Debug, Clone, Copy, PartialEq, Eq, Structural)]
pub enum Marker {
    /// A breakpoint on the current line (`>>`).
    BreakpointHere,
    /// A breakpoint (`* `).
    Breakpoint,
    /// The current line (`->`).
    Current,
    /// Neither.
    Plain,
}

/// One row of the source panel.
#[derive(Debug)]
pub struct SourceRow {
    pub number: usize,
    pub marker: Marker,
    pub current: bool,
    pub text: String,
}

/// The mark of a line that holds a breakpoint or not and is current or not.
pub open spec fn marker_for(breakpoint: bool, current: bool) -> Marker {
    if breakpoint && current {
        Marker::BreakpointHere
    } else if breakpoint {
        Marker::Breakpoint
    } else if current {
        Marker::Current
    } else {
        Marker::Plain
    }
}

/// The rows of a panel `height` rows tall that lie inside its border.
pub open spec fn inner_rows(height: usize) -> int {
    if height >= 2 {
        height - 2
    } else {
        0
    }
}

/// One past the last source line shown, counted from 0.
pub open spec fn window_end(s: DebuggerState, height: usize) -> int {
    let want = s.scroll_offset + inner_rows(height);
    if want <= s.source_lines@.len() {
        want
    } else {
        s.source_lines@.len() as int
    }
}

impl DebuggerState {
    /// Whether a breakpoint is set at `line`.
    pub fn breakpoint_at(&self, line: usize) -> (b: bool)
        ensures
            b == has_breakpoint(self.breakpoints@, line),
    {
        let mut i: usize = 0;
        while i < self.breakpoints.len()
            invariant
                i <= self.breakpoints@.len(),
                forall|j: int| 0 <= j < i ==> (#[trigger] self.breakpoints@[j]).line != line,
            decreases self.breakpoints@.len() - i,
        {
            if self.breakpoints[i].line == line {
                return true;
            }
            i = i + 1;
        }
        false
    }

    /// The rows of a source panel `height` rows tall: the lines from the
    /// scroll position on, as many as fit inside the border, each with its
    /// number, its mark and whether it is the current line.
    pub fn source_rows(&self, height: usize) -> (rows: Vec<SourceRow>)
        requires
            self.wf(),
        ensures
            rows@.len() == window_end(*self, height) - self.scroll_offset,
            forall|i: int|
                0 <= i < rows@.len() ==> {
                    let n = self.scroll_offset + i + 1;
                    &&& (#[trigger] rows@[i]).number == n
                    &&& rows@[i].text@ == self.source_lines@[n - 1]@
                    &&& rows@[i].current == (n == self.current_line)
                    &&& rows@[i].marker == marker_for(
                        has_breakpoint(self.breakpoints@, n as usize),
                        n == self.current_line,
                    )
                },
    {
        let start = self.scroll_offset;
        let len = self.source_lines.len();
        let visible = height.saturating_sub(2);
        let end = if visible <= len - start {
            start + visible
        } else {
            len
        };
        let mut rows: Vec<SourceRow> = Vec::new();
        let mut k = start;
        while k < end
            invariant
                start == self.scroll_offset,
                start <= k <= end,
                end <= len,
                len == self.source_lines@.len(),
                rows@.len() == k - start,
                forall|i: int|
                    0 <= i < rows@.len() ==> {
                        let n = start + i + 1;
                        &&& (#[trigger] rows@[i]).number == n
                        &&& rows@[i].text@ == self.source_lines@[n - 1]@
                        &&& rows@[i].current == (n == self.current_line)
                        &&& rows@[i].marker == marker_for(
                            has_breakpoint(self.breakpoints@, n as usize),
                            n == self.current_line,
                        )
                    },
            decreases end - k,
        {
            let number = k + 1;
            let current = number == self.current_line;
            let bp = self.breakpoint_at(number);
            let marker = if bp && current {
                Marker::BreakpointHere
            } else if bp {
                Marker::Breakpoint
            } else if current {
                Marker::Current
            } else {
                Marker::Plain
            };
            rows.push(SourceRow { number, marker, current, text: self.source_lines[k].clone() });
            k = k + 1;
        }
        rows
    }

    /// Where the console panel `height` rows tall starts showing the log:
    /// the last lines that fit inside its border.
    pub fn console_start(&self, height: usize) -> (start: usize)
        ensures
            start == (if self.output_log@.len() >= inner_rows(height) {
                self.output_log@.len() - inner_rows(height)
            } else {
                0
            }),
    {
        self.output_log.len().saturating_sub(height.saturating_sub(2))
    }
}

} // verus!
