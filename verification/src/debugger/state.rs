//! The state of a debugger session -- source lines, current line, scroll
//! position, breakpoints, watches, call stack and console log -- and the
//! commands that change it.

use vstd::prelude::*;
use vstd::string::*;
use crate::text::{decimal, usize_to_text, str_eq};
use crate::types::types::join;
use crate::ir::c_text::{join_texts, texts};
use super::text::{split_lines, split_words, parse_line_number, lines_of, words, line_number, views};

verus! {

broadcast use vstd::string::group_string_axioms;

/// A breakpoint at a source line.
#[derive(Debug)]
pub struct BreakpointInfo {
    pub id: usize,
    pub line: usize,
    pub _condition: Option<String>,
    pub enabled: bool,
    pub hit_count: usize,
}

/// A watched variable.
#[derive(Debug)]
pub struct VarWatch {
    pub name: String,
    pub value: String,
    pub type_label: String,
    pub changed: bool,
}

/// A frame of the call stack.
#[derive(Debug)]
pub struct StackFrame {
    pub function: String,
    pub line: usize,
    pub file: String,
}

/// The panel that has the keyboard focus.
#[derive(Debug, Clone, Copy, PartialEq, Eq, Structural)]
pub enum Panel {
    Source,
    Variables,
    Console,
    Stack,
}

/// The state of the debugger session.
#[derive(Debug)]
pub struct DebuggerState {
    pub source_lines: Vec<String>,
    pub filename: String,
    pub current_line: usize,
    /// The breakpoints, in increasing order of line, at most one per line.
    pub breakpoints: Vec<BreakpointInfo>,
    pub variables: Vec<VarWatch>,
    pub call_stack: Vec<StackFrame>,
    pub output_log: Vec<String>,
    pub command_input: String,
    pub active_panel: Panel,
    pub running: bool,
    pub _has_errors: bool,
    pub next_bp_id: usize,
    pub scroll_offset: usize,
}

/// Whether the breakpoints stand in strictly increasing order of line.
pub open spec fn by_line(bps: Seq<BreakpointInfo>) -> bool {
    forall|i: int, j: int| 0 <= i < j < bps.len() ==> (#[trigger] bps[i]).line < (#[trigger] bps[j]).line
}

/// The lines that hold breakpoints, in order.
pub open spec fn bp_lines(bps: Seq<BreakpointInfo>) -> Seq<usize> {
    Seq::new(bps.len(), |i: int| bps[i].line)
}

/// The first position from `i` on whose breakpoint line is at least `line`.
pub open spec fn first_at_least(bps: Seq<BreakpointInfo>, line: usize, i: int) -> int
    decreases bps.len() - i,
{
    if 0 <= i < bps.len() && bps[i].line < line {
        first_at_least(bps, line, i + 1)
    } else {
        i
    }
}

/// Whether a breakpoint is set at `line`.
pub open spec fn has_breakpoint(bps: Seq<BreakpointInfo>, line: usize) -> bool {
    exists|i: int| 0 <= i < bps.len() && (#[trigger] bps[i]).line == line
}

/// The breakpoints after toggling the one at `line`: it is removed where it
/// was set, and otherwise a new one with the id `id` is put in its place
/// in line order.
pub open spec fn toggled(bps: Seq<BreakpointInfo>, line: usize, id: usize) -> Seq<BreakpointInfo> {
    let p = first_at_least(bps, line, 0);
    if p < bps.len() && bps[p].line == line {
        bps.remove(p)
    } else {
        bps.insert(
            p,
            BreakpointInfo { id, line, _condition: None, enabled: true, hit_count: 0 },
        )
    }
}

/// The scroll position after bringing line `current` into view from
/// `scroll`: a line below the view is brought to its middle, and one above
/// it to its top.
pub open spec fn scrolled(current: usize, scroll: usize) -> usize {
    if current > scroll + 20 {
        if current >= 10 { (current - 10) as usize } else { 0 }
    } else if current <= scroll {
        if current >= 1 { (current - 1) as usize } else { 0 }
    } else {
        scroll
    }
}

/// The line that continuing from `from` stops at: the first breakpoint line
/// after `from` and within the `count` lines of the source.
pub open spec fn next_stop(bps: Seq<BreakpointInfo>, from: usize, count: nat) -> Option<usize> {
    let p = first_at_least(bps, (from + 1) as usize, 0);
    if from < usize::MAX && p < bps.len() && bps[p].line <= count {
        Some(bps[p].line)
    } else {
        None
    }
}

/// The help text of the console.
pub open spec fn help_lines() -> Seq<Seq<char>> {
    seq![
        "Commands:"@,
        "  :b <line>    Toggle breakpoint at line"@,
        "  :c           Continue to next breakpoint"@,
        "  :s           Step forward"@,
        "  :n           Step over (next)"@,
        "  :p <expr>    Print expression value"@,
        "  :w <var>     Watch a variable"@,
        "  :bt          Print backtrace"@,
        "  :bp          List breakpoints"@,
        "  :clear       Clear all breakpoints"@,
        "  :q           Quit debugger"@,
        ""@,
        "Keyboard shortcuts:"@,
        "  F5           Continue"@,
        "  F10          Step over"@,
        "  F11          Step into"@,
        "  F9           Toggle breakpoint"@,
        "  Tab          Switch panel"@,
        "  Ctrl+C       Quit"@
    ]
}

/// A backtrace line of the frame at depth `i`.
pub open spec fn frame_text(i: int, f: StackFrame) -> Seq<char> {
    "  #"@ + decimal(i as nat) + " "@ + f.function@ + " at "@ + f.file@ + ":"@ + decimal(f.line as nat)
}

/// A breakpoint listing line.
pub open spec fn breakpoint_text(b: BreakpointInfo) -> Seq<char> {
    "  #"@ + decimal(b.id as nat) + " line "@ + decimal(b.line as nat) + " ["@ + (if b.enabled {
        "enabled"@
    } else {
        "disabled"@
    }) + "] hits="@ + decimal(b.hit_count as nat)
}

/// `new` is `old` with `lines` appended to the log and nothing else changed.
pub open spec fn only_logged(old: DebuggerState, new: DebuggerState, lines: Seq<Seq<char>>) -> bool {
    &&& new.log_text() == old.log_text() + lines
    &&& new.breakpoints == old.breakpoints
    &&& new.variables == old.variables
    &&& new.current_line == old.current_line
    &&& new.scroll_offset == old.scroll_offset
    &&& new.next_bp_id == old.next_bp_id
    &&& new.running == old.running
    &&& new.same_session(&old)
}

/// `new` is `old` after toggling the breakpoint at `line`: a set one is
/// removed, otherwise one is set with the next id, and the change is logged.
pub open spec fn toggle_done(old: DebuggerState, new: DebuggerState, line: usize) -> bool {
    &&& new.breakpoints@ == toggled(old.breakpoints@, line, old.next_bp_id)
    &&& has_breakpoint(old.breakpoints@, line) ==> {
        &&& new.next_bp_id == old.next_bp_id
        &&& new.log_text() == old.log_text().push("Removed breakpoint at line "@ + decimal(line as nat))
    }
    &&& !has_breakpoint(old.breakpoints@, line) ==> {
        &&& new.next_bp_id == old.next_bp_id.wrapping_add(1)
        &&& new.log_text() == old.log_text().push(
            "Set breakpoint #"@ + decimal(old.next_bp_id as nat) + " at line "@ + decimal(line as nat),
        )
    }
    &&& new.variables == old.variables
    &&& new.current_line == old.current_line
    &&& new.scroll_offset == old.scroll_offset
    &&& new.running == old.running
    &&& new.same_session(&old)
}

/// `new` is `old` after a step forward: the next line if there is one,
/// scrolled into view and logged.
pub open spec fn step_done(old: DebuggerState, new: DebuggerState) -> bool {
    &&& new.current_line == (if old.current_line < old.source_lines@.len() {
        (old.current_line + 1) as usize
    } else {
        old.current_line
    })
    &&& new.scroll_offset == scrolled(new.current_line, old.scroll_offset)
    &&& new.log_text() == old.log_text().push("Stepped to line "@ + decimal(new.current_line as nat))
    &&& new.breakpoints == old.breakpoints
    &&& new.variables == old.variables
    &&& new.next_bp_id == old.next_bp_id
    &&& new.running == old.running
    &&& new.same_session(&old)
}

/// `new` is `old` after a step back: the previous line if there is one,
/// scrolled into view.
pub open spec fn step_back_done(old: DebuggerState, new: DebuggerState) -> bool {
    &&& new.current_line == (if old.current_line > 1 {
        (old.current_line - 1) as usize
    } else {
        old.current_line
    })
    &&& new.scroll_offset == scrolled(new.current_line, old.scroll_offset)
    &&& new.output_log == old.output_log
    &&& new.breakpoints == old.breakpoints
    &&& new.variables == old.variables
    &&& new.next_bp_id == old.next_bp_id
    &&& new.running == old.running
    &&& new.same_session(&old)
}

/// `new` is `old` after continuing: at the next breakpoint, scrolled into
/// view, or where it was when there is none ahead; logged either way.
pub open spec fn continue_done(old: DebuggerState, new: DebuggerState) -> bool {
    &&& match next_stop(old.breakpoints@, old.current_line, old.source_lines@.len()) {
        Some(line) => {
            &&& new.current_line == line
            &&& new.scroll_offset == scrolled(line, old.scroll_offset)
            &&& new.log_text() == old.log_text().push("Hit breakpoint at line "@ + decimal(line as nat))
        },
        None => {
            &&& new.current_line == old.current_line
            &&& new.scroll_offset == old.scroll_offset
            &&& new.log_text() == old.log_text().push("No more breakpoints ahead"@)
        },
    }
    &&& new.breakpoints == old.breakpoints
    &&& new.variables == old.variables
    &&& new.next_bp_id == old.next_bp_id
    &&& new.running == old.running
    &&& new.same_session(&old)
}

/// `new` is `old` with a watch on `name` added and logged.
pub open spec fn watch_added(old: DebuggerState, new: DebuggerState, name: Seq<char>) -> bool {
    &&& new.variables@.len() == old.variables@.len() + 1
    &&& new.variables@.drop_last() == old.variables@
    &&& new.variables@.last().name@ == name
    &&& new.variables@.last().value@ == "<pending>"@
    &&& new.variables@.last().type_label@ == "<unknown>"@
    &&& !new.variables@.last().changed
    &&& new.log_text() == old.log_text().push("Watching variable: "@ + name)
    &&& new.breakpoints == old.breakpoints
    &&& new.current_line == old.current_line
    &&& new.scroll_offset == old.scroll_offset
    &&& new.next_bp_id == old.next_bp_id
    &&& new.running == old.running
    &&& new.same_session(&old)
}

/// The words the console knows as commands.
pub open spec fn known_command(w: Seq<char>) -> bool {
    ||| w == ":help"@ || w == ":h"@ || w == ":b"@ || w == ":c"@ || w == ":s"@ || w == ":n"@
    ||| w == ":p"@ || w == ":w"@ || w == ":bt"@ || w == ":bp"@ || w == ":clear"@ || w == ":q"@
    ||| w == ":quit"@
}

/// What a console command does, given its words `ws`.
pub open spec fn command_done(old: DebuggerState, new: DebuggerState, ws: Seq<Seq<char>>) -> bool {
    if ws.len() == 0 {
        only_logged(old, new, Seq::empty())
    } else {
        let w = ws[0];
        if w == ":help"@ || w == ":h"@ {
            only_logged(old, new, help_lines())
        } else if w == ":b"@ {
            if ws.len() > 1 {
                match line_number(ws[1]) {
                    Some(line) => toggle_done(old, new, line),
                    None => only_logged(old, new, seq!["Usage: :b <line number>"@]),
                }
            } else {
                toggle_done(old, new, old.current_line)
            }
        } else if w == ":c"@ {
            continue_done(old, new)
        } else if w == ":s"@ || w == ":n"@ {
            step_done(old, new)
        } else if w == ":p"@ {
            if ws.len() > 1 {
                only_logged(
                    old,
                    new,
                    seq![join(ws.subrange(1, ws.len() as int), " "@) + " = <evaluation not available in static mode>"@],
                )
            } else {
                only_logged(old, new, seq!["Usage: :p <expression>"@])
            }
        } else if w == ":w"@ {
            if ws.len() > 1 {
                watch_added(old, new, ws[1])
            } else {
                only_logged(old, new, seq!["Usage: :w <variable name>"@])
            }
        } else if w == ":bt"@ {
            only_logged(
                old,
                new,
                seq!["Backtrace:"@] + Seq::new(
                    old.call_stack@.len(),
                    |i: int| frame_text(i, old.call_stack@[i]),
                ),
            )
        } else if w == ":bp"@ {
            if old.breakpoints@.len() == 0 {
                only_logged(old, new, seq!["No breakpoints set"@])
            } else {
                only_logged(
                    old,
                    new,
                    seq!["Breakpoints:"@] + Seq::new(
                        old.breakpoints@.len(),
                        |i: int| breakpoint_text(old.breakpoints@[i]),
                    ),
                )
            }
        } else if w == ":clear"@ {
            &&& new.breakpoints@.len() == 0
            &&& new.log_text() == old.log_text().push("All breakpoints cleared"@)
            &&& new.variables == old.variables
            &&& new.current_line == old.current_line
            &&& new.scroll_offset == old.scroll_offset
            &&& new.next_bp_id == old.next_bp_id
            &&& new.running == old.running
            &&& new.same_session(&old)
        } else if w == ":q"@ || w == ":quit"@ {
            &&& !new.running
            &&& new.output_log == old.output_log
            &&& new.breakpoints == old.breakpoints
            &&& new.variables == old.variables
            &&& new.current_line == old.current_line
            &&& new.scroll_offset == old.scroll_offset
            &&& new.next_bp_id == old.next_bp_id
            &&& new.same_session(&old)
        } else {
            only_logged(
                old,
                new,
                seq!["Unknown command: "@ + w, "Type :help for available commands"@],
            )
        }
    }
}

impl DebuggerState {
    /// The session's invariant: breakpoints in line order, the current line
    /// within the source (line 1 for an empty one), and the view starting
    /// within the source.
    pub open spec fn wf(&self) -> bool {
        &&& by_line(self.breakpoints@)
        &&& 1 <= self.current_line
        &&& (self.current_line <= self.source_lines@.len() || self.current_line == 1)
        &&& self.scroll_offset <= self.source_lines@.len()
    }

    /// The console log as texts.
    pub open spec fn log_text(&self) -> Seq<Seq<char>> {
        views(self.output_log@)
    }

    /// `self` and `other` differ at most in the breakpoints, the next
    /// breakpoint id, the current line, the scroll position, the watches,
    /// the log and whether the session runs.
    pub open spec fn same_session(&self, other: &DebuggerState) -> bool {
        &&& self.source_lines == other.source_lines
        &&& self.filename == other.filename
        &&& self.call_stack == other.call_stack
        &&& self.command_input == other.command_input
        &&& self.active_panel == other.active_panel
        &&& self._has_errors == other._has_errors
    }

    /// A session on `source`: at line 1 with no breakpoints, a single
    /// `launch` frame, and the welcome lines in the log.
    pub fn new(source: String, filename: String, has_errors: bool) -> (s: DebuggerState)
        ensures
            s.wf(),
            views(s.source_lines@) == lines_of(source@),
            s.filename == filename,
            s.current_line == 1,
            s.breakpoints@.len() == 0,
            s.call_stack@.len() == 1,
            s.call_stack@[0].function@ == "launch"@,
            s.call_stack@[0].line == 1,
            s.call_stack@[0].file@ == filename@,
            s.variables@.len() == 1,
            s.variables@[0].name@ == "-- program not running --"@,
            s.log_text() == seq!["GalaxC Debugger v0.1.0"@, "Type :help for commands"@, Seq::<char>::empty()],
            s.command_input@.len() == 0,
            s.active_panel == Panel::Source,
            s.running,
            s._has_errors == has_errors,
            s.next_bp_id == 1,
            s.scroll_offset == 0,
    {
        let source_lines = split_lines(source.as_str());
        let call_stack = vec![StackFrame { function: String::from_str("launch"), line: 1, file: filename.clone() }];
        let variables = vec![
            VarWatch {
                name: String::from_str("-- program not running --"),
                value: String::new(),
                type_label: String::new(),
                changed: false,
            },
        ];
        let output_log = vec![
            String::from_str("GalaxC Debugger v0.1.0"),
            String::from_str("Type :help for commands"),
            String::new(),
        ];
        let s = DebuggerState {
            source_lines,
            filename,
            current_line: 1,
            breakpoints: Vec::new(),
            variables,
            call_stack,
            output_log,
            command_input: String::new(),
            active_panel: Panel::Source,
            running: true,
            _has_errors: has_errors,
            next_bp_id: 1,
            scroll_offset: 0,
        };
        assert(s.log_text() =~= seq!["GalaxC Debugger v0.1.0"@, "Type :help for commands"@, Seq::<char>::empty()]);
        s
    }

    /// Append a line to the console log.
    pub fn log(&mut self, msg: &str)
        ensures
            only_logged(*old(self), *final(self), seq![msg@]),
            final(self).log_text() == old(self).log_text().push(msg@),
    {
        self.output_log.push(String::from_str(msg));
        assert(self.log_text() =~= old(self).log_text() + seq![msg@]);
        assert(self.log_text() =~= old(self).log_text().push(msg@));
    }

    /// Set a breakpoint at `line`, or remove the one set there.
    pub fn toggle_breakpoint(&mut self, line: usize)
        requires
            old(self).wf(),
        ensures
            final(self).wf(),
            toggle_done(*old(self), *final(self), line),
    {
        let n = self.breakpoints.len();
        let mut p: usize = 0;
        while p < n && self.breakpoints[p].line < line
            invariant
                n == self.breakpoints@.len(),
                p <= n,
                first_at_least(self.breakpoints@, line, p as int) == first_at_least(self.breakpoints@, line, 0),
            decreases n - p,
        {
            p = p + 1;
        }
        proof {
            lemma_first_at_least(self.breakpoints@, line);
        }
        if p < n && self.breakpoints[p].line == line {
            self.breakpoints.remove(p);
            proof {
                lemma_remove_keeps_order(old(self).breakpoints@, p as int);
            }
            let text = String::from_str("Removed breakpoint at line ").concat(usize_to_text(line).as_str());
            self.log(text.as_str());
        } else {
            let id = self.next_bp_id;
            self.next_bp_id = self.next_bp_id.wrapping_add(1);
            let info = BreakpointInfo { id, line, _condition: None, enabled: true, hit_count: 0 };
            self.breakpoints.insert(p, info);
            proof {
                lemma_insert_keeps_order(old(self).breakpoints@, p as int, info);
            }
            let text = String::from_str("Set breakpoint #").concat(usize_to_text(id).as_str()).concat(
                " at line ",
            ).concat(usize_to_text(line).as_str());
            self.log(text.as_str());
        }
    }

    /// Move to the next line, if there is one, and report the line.
    pub fn step_forward(&mut self)
        requires
            old(self).wf(),
        ensures
            final(self).wf(),
            step_done(*old(self), *final(self)),
    {
        if self.current_line < self.source_lines.len() {
            self.current_line = self.current_line + 1;
        }
        self.update_scroll();
        let text = String::from_str("Stepped to line ").concat(usize_to_text(self.current_line).as_str());
        self.log(text.as_str());
    }

    /// Move to the previous line, if there is one.
    pub fn step_back(&mut self)
        requires
            old(self).wf(),
        ensures
            final(self).wf(),
            step_back_done(*old(self), *final(self)),
    {
        if self.current_line > 1 {
            self.current_line = self.current_line - 1;
        }
        self.update_scroll();
    }

    /// Run to the next breakpoint after the current line within the
    /// source, or report that there is none.
    pub fn continue_to_next_breakpoint(&mut self)
        requires
            old(self).wf(),
        ensures
            final(self).wf(),
            continue_done(*old(self), *final(self)),
    {
        let start = self.current_line;
        let count = self.source_lines.len();
        let n = self.breakpoints.len();
        if start < usize::MAX {
            let target = start + 1;
            let mut p: usize = 0;
            while p < n && self.breakpoints[p].line < target
                invariant
                    n == self.breakpoints@.len(),
                    p <= n,
                    first_at_least(self.breakpoints@, target, p as int) == first_at_least(self.breakpoints@, target, 0),
                decreases n - p,
            {
                p = p + 1;
            }
            if p < n && self.breakpoints[p].line <= count {
                let line = self.breakpoints[p].line;
                self.current_line = line;
                self.update_scroll();
                let text = String::from_str("Hit breakpoint at line ").concat(usize_to_text(line).as_str());
                self.log(text.as_str());
                return;
            }
        }
        self.log("No more breakpoints ahead");
    }

    /// Append lines to the console log.
    pub fn log_lines(&mut self, lines: &Vec<String>)
        ensures
            only_logged(*old(self), *final(self), views(lines@)),
    {
        let mut i: usize = 0;
        assert(old(self).log_text() + views(lines@.subrange(0, 0)) =~= old(self).log_text());
        while i < lines.len()
            invariant
                i <= lines@.len(),
                only_logged(*old(self), *self, views(lines@.subrange(0, i as int))),
            decreases lines@.len() - i,
        {
            self.log(lines[i].as_str());
            assert(views(lines@.subrange(0, i + 1)) =~= views(lines@.subrange(0, i as int)).push(lines@[i as int]@));
            assert(old(self).log_text() + views(lines@.subrange(0, i + 1)) =~= old(self).log_text() + views(lines@.subrange(0, i as int)) + seq![lines@[i as int]@]);
            i = i + 1;
        }
        assert(lines@.subrange(0, lines@.len() as int) =~= lines@);
    }

    /// Run a console command.
    pub fn process_command(&mut self, cmd: &str)
        requires
            old(self).wf(),
        ensures
            final(self).wf(),
            command_done(*old(self), *final(self), words(cmd@)),
    {
        let parts = split_words(cmd);
        let ghost ws = words(cmd@);
        assert(ws.len() == parts@.len());
        if parts.len() == 0 {
            assert(old(self).log_text() + Seq::<Seq<char>>::empty() =~= old(self).log_text());
            return;
        }
        assert(parts@[0]@ == ws[0]);
        let w = parts[0].as_str();
        proof {
            reveal_strlit(":help");
            reveal_strlit(":h");
            reveal_strlit(":b");
            reveal_strlit(":c");
            reveal_strlit(":s");
            reveal_strlit(":n");
            reveal_strlit(":p");
            reveal_strlit(":w");
            reveal_strlit(":bt");
            reveal_strlit(":bp");
            reveal_strlit(":clear");
            reveal_strlit(":q");
            reveal_strlit(":quit");
        }
        if str_eq(w, ":help") || str_eq(w, ":h") {
            let lines = help_text();
            self.log_lines(&lines);
        } else if str_eq(w, ":b") {
            if parts.len() > 1 {
                assert(parts@[1]@ == ws[1]);
                match parse_line_number(parts[1].as_str()) {
                    Some(line) => self.toggle_breakpoint(line),
                    None => {
                        self.log("Usage: :b <line number>");
                        assert(old(self).log_text() + seq!["Usage: :b <line number>"@] =~= self.log_text());
                    },
                }
            } else {
                let line = self.current_line;
                self.toggle_breakpoint(line);
            }
        } else if str_eq(w, ":c") {
            self.continue_to_next_breakpoint();
        } else if str_eq(w, ":s") || str_eq(w, ":n") {
            self.step_forward();
        } else if str_eq(w, ":p") {
            if parts.len() > 1 {
                let mut rest: Vec<String> = Vec::new();
                let mut k: usize = 1;
                while k < parts.len()
                    invariant
                        1 <= k <= parts@.len(),
                        rest@.len() == k - 1,
                        forall|j: int| 0 <= j < k - 1 ==> (#[trigger] rest@[j])@ == parts@[j + 1]@,
                    decreases parts@.len() - k,
                {
                    rest.push(parts[k].clone());
                    k = k + 1;
                }
                let expr = join_texts(&rest, " ");
                assert(texts(rest@) =~= ws.subrange(1, ws.len() as int)) by {
                    assert(views(parts@) == ws);
                    assert forall|j: int| 0 <= j < rest@.len() implies texts(rest@)[j] == ws.subrange(1, ws.len() as int)[j] by {
                        assert(views(parts@)[j + 1] == parts@[j + 1]@);
                    }
                }
                let text = expr.concat(" = <evaluation not available in static mode>");
                self.log(text.as_str());
                assert(old(self).log_text() + seq![text@] =~= self.log_text());
            } else {
                self.log("Usage: :p <expression>");
                assert(old(self).log_text() + seq!["Usage: :p <expression>"@] =~= self.log_text());
            }
        } else if str_eq(w, ":w") {
            if parts.len() > 1 {
                assert(parts@[1]@ == ws[1]);
                let name = parts[1].clone();
                self.variables.push(
                    VarWatch {
                        name: name.clone(),
                        value: String::from_str("<pending>"),
                        type_label: String::from_str("<unknown>"),
                        changed: false,
                    },
                );
                let text = String::from_str("Watching variable: ").concat(name.as_str());
                self.log(text.as_str());
                assert(self.variables@.drop_last() =~= old(self).variables@);
            } else {
                self.log("Usage: :w <variable name>");
                assert(old(self).log_text() + seq!["Usage: :w <variable name>"@] =~= self.log_text());
            }
        } else if str_eq(w, ":bt") {
            let mut lines: Vec<String> = Vec::new();
            lines.push(String::from_str("Backtrace:"));
            let mut i: usize = 0;
            while i < self.call_stack.len()
                invariant
                    i <= self.call_stack@.len(),
                    self.call_stack == old(self).call_stack,
                    lines@.len() == i + 1,
                    lines@[0]@ == "Backtrace:"@,
                    forall|j: int| 1 <= j <= i ==> (#[trigger] lines@[j])@ == frame_text(j - 1, self.call_stack@[j - 1]),
                decreases self.call_stack@.len() - i,
            {
                let f = &self.call_stack[i];
                let text = String::from_str("  #").concat(usize_to_text(i).as_str()).concat(" ").concat(
                    f.function.as_str(),
                ).concat(" at ").concat(f.file.as_str()).concat(":").concat(usize_to_text(f.line).as_str());
                lines.push(text);
                i = i + 1;
            }
            assert(views(lines@) =~= seq!["Backtrace:"@] + Seq::new(
                old(self).call_stack@.len(),
                |i: int| frame_text(i, old(self).call_stack@[i]),
            ));
            self.log_lines(&lines);
        } else if str_eq(w, ":bp") {
            if self.breakpoints.len() == 0 {
                self.log("No breakpoints set");
                assert(old(self).log_text() + seq!["No breakpoints set"@] =~= self.log_text());
            } else {
                let mut lines: Vec<String> = Vec::new();
                lines.push(String::from_str("Breakpoints:"));
                let mut i: usize = 0;
                while i < self.breakpoints.len()
                    invariant
                        i <= self.breakpoints@.len(),
                        self.breakpoints == old(self).breakpoints,
                        lines@.len() == i + 1,
                        lines@[0]@ == "Breakpoints:"@,
                        forall|j: int| 1 <= j <= i ==> (#[trigger] lines@[j])@ == breakpoint_text(self.breakpoints@[j - 1]),
                    decreases self.breakpoints@.len() - i,
                {
                    let b = &self.breakpoints[i];
                    let status = if b.enabled {
                        "enabled"
                    } else {
                        "disabled"
                    };
                    let text = String::from_str("  #").concat(usize_to_text(b.id).as_str()).concat(
                        " line ",
                    ).concat(usize_to_text(b.line).as_str()).concat(" [").concat(status).concat("] hits=").concat(
                        usize_to_text(b.hit_count).as_str(),
                    );
                    lines.push(text);
                    i = i + 1;
                }
                assert(views(lines@) =~= seq!["Breakpoints:"@] + Seq::new(
                    old(self).breakpoints@.len(),
                    |i: int| breakpoint_text(old(self).breakpoints@[i]),
                ));
                self.log_lines(&lines);
            }
        } else if str_eq(w, ":clear") {
            self.breakpoints.clear();
            self.log("All breakpoints cleared");
        } else if str_eq(w, ":q") || str_eq(w, ":quit") {
            self.running = false;
        } else {
            let mut lines: Vec<String> = Vec::new();
            lines.push(String::from_str("Unknown command: ").concat(w));
            lines.push(String::from_str("Type :help for available commands"));
            assert(views(lines@) =~= seq!["Unknown command: "@ + ws[0], "Type :help for available commands"@]);
            self.log_lines(&lines);
        }
    }

    /// Bring the current line into view.
    pub fn update_scroll(&mut self)
        ensures
            final(self).scroll_offset == scrolled(old(self).current_line, old(self).scroll_offset),
            final(self).current_line == old(self).current_line,
            final(self).output_log == old(self).output_log,
            final(self).breakpoints == old(self).breakpoints,
            final(self).variables == old(self).variables,
            final(self).next_bp_id == old(self).next_bp_id,
            final(self).running == old(self).running,
            final(self).same_session(old(self)),
    {
        if self.current_line as u128 > self.scroll_offset as u128 + 20 {
            self.scroll_offset = self.current_line.saturating_sub(10);
        } else if self.current_line <= self.scroll_offset {
            self.scroll_offset = self.current_line.saturating_sub(1);
        }
    }
}

/// The help text of the console.
fn help_text() -> (lines: Vec<String>)
    ensures
        views(lines@) == help_lines(),
{
    let lines = vec![
        String::from_str("Commands:"),
        String::from_str("  :b <line>    Toggle breakpoint at line"),
        String::from_str("  :c           Continue to next breakpoint"),
        String::from_str("  :s           Step forward"),
        String::from_str("  :n           Step over (next)"),
        String::from_str("  :p <expr>    Print expression value"),
        String::from_str("  :w <var>     Watch a variable"),
        String::from_str("  :bt          Print backtrace"),
        String::from_str("  :bp          List breakpoints"),
        String::from_str("  :clear       Clear all breakpoints"),
        String::from_str("  :q           Quit debugger"),
        String::new(),
        String::from_str("Keyboard shortcuts:"),
        String::from_str("  F5           Continue"),
        String::from_str("  F10          Step over"),
        String::from_str("  F11          Step into"),
        String::from_str("  F9           Toggle breakpoint"),
        String::from_str("  Tab          Switch panel"),
        String::from_str("  Ctrl+C       Quit"),
    ];
    proof {
        reveal_strlit("");
    }
    assert(lines@.len() == 19);
    assert(views(lines@)[0] == help_lines()[0]);
    assert(views(lines@)[1] == help_lines()[1]);
    assert(views(lines@)[2] == help_lines()[2]);
    assert(views(lines@)[3] == help_lines()[3]);
    assert(views(lines@)[4] == help_lines()[4]);
    assert(views(lines@)[5] == help_lines()[5]);
    assert(views(lines@)[6] == help_lines()[6]);
    assert(views(lines@)[7] == help_lines()[7]);
    assert(views(lines@)[8] == help_lines()[8]);
    assert(views(lines@)[9] == help_lines()[9]);
    assert(views(lines@)[10] == help_lines()[10]);
    assert(views(lines@)[11] == help_lines()[11]);
    assert(views(lines@)[12] == help_lines()[12]);
    assert(views(lines@)[13] == help_lines()[13]);
    assert(views(lines@)[14] == help_lines()[14]);
    assert(views(lines@)[15] == help_lines()[15]);
    assert(views(lines@)[16] == help_lines()[16]);
    assert(views(lines@)[17] == help_lines()[17]);
    assert(views(lines@)[18] == help_lines()[18]);
    assert(views(lines@) =~= help_lines());
    lines
}

/// Toggling a breakpoint keeps the breakpoints in line order, flips
/// whether `line` holds one, and leaves every other line as it was.
pub proof fn law_toggle_flips_only_its_line(bps: Seq<BreakpointInfo>, line: usize, id: usize, other: usize)
    requires
        by_line(bps),
    ensures
        by_line(toggled(bps, line, id)),
        has_breakpoint(toggled(bps, line, id), line) == !has_breakpoint(bps, line),
        other != line ==> has_breakpoint(toggled(bps, line, id), other) == has_breakpoint(bps, other),
{
    lemma_first_at_least(bps, line);
    let p = first_at_least(bps, line, 0);
    let t = toggled(bps, line, id);
    if p < bps.len() && bps[p].line == line {
        lemma_remove_keeps_order(bps, p);
        assert(t == bps.remove(p));
        if has_breakpoint(t, line) {
            let k = choose|k: int| 0 <= k < t.len() && (#[trigger] t[k]).line == line;
            if k < p {
                assert(t[k] == bps[k]);
            } else {
                assert(t[k] == bps[k + 1]);
                assert(bps[p].line < bps[k + 1].line);
            }
        }
        if other != line {
            if has_breakpoint(bps, other) {
                let k = choose|k: int| 0 <= k < bps.len() && (#[trigger] bps[k]).line == other;
                if k < p {
                    assert(t[k] == bps[k]);
                } else {
                    assert(k != p);
                    assert(t[k - 1] == bps[k]);
                }
            }
            if has_breakpoint(t, other) {
                let k = choose|k: int| 0 <= k < t.len() && (#[trigger] t[k]).line == other;
                if k < p {
                    assert(t[k] == bps[k]);
                } else {
                    assert(t[k] == bps[k + 1]);
                }
            }
        }
    } else {
        let b = BreakpointInfo { id, line, _condition: None, enabled: true, hit_count: 0 };
        lemma_insert_keeps_order(bps, p, b);
        assert(t == bps.insert(p, b));
        assert(t[p].line == line);
        if other != line {
            if has_breakpoint(bps, other) {
                let k = choose|k: int| 0 <= k < bps.len() && (#[trigger] bps[k]).line == other;
                if k < p {
                    assert(t[k] == bps[k]);
                } else {
                    assert(t[k + 1] == bps[k]);
                }
            }
            if has_breakpoint(t, other) {
                let k = choose|k: int| 0 <= k < t.len() && (#[trigger] t[k]).line == other;
                if k < p {
                    assert(t[k] == bps[k]);
                } else if k > p {
                    assert(t[k] == bps[k - 1]);
                }
            }
        }
    }
}

/// A command the console does not know changes nothing but the log, to
/// which it adds the word named back and a pointer to `:help`.
pub proof fn law_unknown_command(old: DebuggerState, new: DebuggerState, ws: Seq<Seq<char>>)
    requires
        ws.len() > 0,
        !known_command(ws[0]),
        command_done(old, new, ws),
    ensures
        only_logged(old, new, seq!["Unknown command: "@ + ws[0], "Type :help for available commands"@]),
        new.running == old.running,
        new.breakpoints == old.breakpoints,
{
}

/// Toggling the same line twice gives back the same breakpoint lines; where
/// the line held none, it gives back exactly the breakpoints it started from.
pub proof fn law_toggle_twice(bps: Seq<BreakpointInfo>, line: usize, id1: usize, id2: usize)
    requires
        by_line(bps),
    ensures
        bp_lines(toggled(toggled(bps, line, id1), line, id2)) == bp_lines(bps),
        !has_breakpoint(bps, line) ==> toggled(toggled(bps, line, id1), line, id2) == bps,
{
    lemma_first_at_least(bps, line);
    let p = first_at_least(bps, line, 0);
    let t = toggled(bps, line, id1);
    law_toggle_flips_only_its_line(bps, line, id1, line);
    lemma_first_at_least(t, line);
    let q = first_at_least(t, line, 0);
    let u = toggled(t, line, id2);
    if p < bps.len() && bps[p].line == line {
        assert(t == bps.remove(p));
        // the removed line is absent from t, so q is where it was
        assert(q == p) by {
            if q < p {
                assert(t[q] == bps[q]);
            }
            if q > p {
                assert(t[p] == bps[p + 1]);
                assert(bps[p].line < bps[p + 1].line);
            }
        }
        assert(!(q < t.len() && t[q].line == line));
        let b = BreakpointInfo { id: id2, line, _condition: None, enabled: true, hit_count: 0 };
        assert(u == t.insert(q, b));
        assert(bp_lines(u) =~= bp_lines(bps)) by {
            assert forall|i: int| 0 <= i < bps.len() implies bp_lines(u)[i] == bp_lines(bps)[i] by {
                if i < p {
                    assert(u[i] == bps[i]);
                } else if i > p {
                    assert(u[i] == t[i - 1]);
                    assert(t[i - 1] == bps[i]);
                }
            }
        }
    } else {
        let b = BreakpointInfo { id: id1, line, _condition: None, enabled: true, hit_count: 0 };
        assert(t == bps.insert(p, b));
        assert(q == p) by {
            if q < p {
                assert(t[q] == bps[q]);
            }
            if q > p {
                assert(t[p].line == line);
            }
        }
        assert(q < t.len() && t[q].line == line);
        assert(u == t.remove(q));
        assert(u =~= bps);
    }
}

/// After scrolling, a current line of 1 or more lies within the 20 lines of
/// the view: after the first line shown and no further than 20 lines on.
pub proof fn law_scrolled_shows_line(current: usize, scroll: usize)
    requires
        current >= 1,
    ensures
        scrolled(current, scroll) < current <= scrolled(current, scroll) + 20,
{
}

/// Continuing stops at a breakpoint line after `from` and within the
/// source, with no breakpoint line between `from` and it; it stops nowhere
/// when no breakpoint line lies after `from` within the source.
pub proof fn law_next_stop_is_nearest(bps: Seq<BreakpointInfo>, from: usize, count: nat)
    requires
        by_line(bps),
    ensures
        match next_stop(bps, from, count) {
            Some(l) => {
                &&& has_breakpoint(bps, l)
                &&& from < l <= count
                &&& forall|i: int| 0 <= i < bps.len() && from < (#[trigger] bps[i]).line ==> l <= bps[i].line
            },
            None => forall|i: int|
                0 <= i < bps.len() ==> !(from < (#[trigger] bps[i]).line <= count),
        },
{
    if from < usize::MAX {
        lemma_first_at_least(bps, (from + 1) as usize);
        let p = first_at_least(bps, (from + 1) as usize, 0);
        if p < bps.len() && bps[p].line <= count {
            assert(has_breakpoint(bps, bps[p].line));
        } else {
            assert forall|i: int| 0 <= i < bps.len() implies !(from < (#[trigger] bps[i]).line <= count) by {
                if i > p {
                    assert(bps[p].line < bps[i].line);
                }
            }
        }
    }
}

proof fn lemma_first_at_least(bps: Seq<BreakpointInfo>, line: usize)
    requires
        by_line(bps),
    ensures
        ({
            let p = first_at_least(bps, line, 0);
            &&& 0 <= p <= bps.len()
            &&& forall|i: int| 0 <= i < p ==> (#[trigger] bps[i]).line < line
            &&& forall|i: int| p <= i < bps.len() ==> (#[trigger] bps[i]).line >= line
            &&& has_breakpoint(bps, line) == (p < bps.len() && bps[p].line == line)
        }),
{
    lemma_first_at_least_from(bps, line, 0);
    let p = first_at_least(bps, line, 0);
    assert forall|i: int| p <= i < bps.len() implies (#[trigger] bps[i]).line >= line by {
        if i > p {
            assert(bps[p].line < bps[i].line);
        }
    }
    if has_breakpoint(bps, line) {
        let k = choose|k: int| 0 <= k < bps.len() && (#[trigger] bps[k]).line == line;
        if k > p {
            assert(bps[p].line < bps[k].line);
        }
    }
}

proof fn lemma_first_at_least_from(bps: Seq<BreakpointInfo>, line: usize, i: int)
    requires
        0 <= i <= bps.len(),
        forall|j: int| 0 <= j < i ==> (#[trigger] bps[j]).line < line,
    ensures
        i <= first_at_least(bps, line, i) <= bps.len(),
        forall|j: int| 0 <= j < first_at_least(bps, line, i) ==> (#[trigger] bps[j]).line < line,
        first_at_least(bps, line, i) < bps.len() ==> bps[first_at_least(bps, line, i)].line >= line,
    decreases bps.len() - i,
{
    if i < bps.len() && bps[i].line < line {
        lemma_first_at_least_from(bps, line, i + 1);
    }
}

proof fn lemma_remove_keeps_order(bps: Seq<BreakpointInfo>, p: int)
    requires
        by_line(bps),
        0 <= p < bps.len(),
    ensures
        by_line(bps.remove(p)),
{
    let r = bps.remove(p);
    assert forall|i: int, j: int| 0 <= i < j < r.len() implies (#[trigger] r[i]).line < (#[trigger] r[j]).line by {
        let a = if i < p { i } else { i + 1 };
        let b = if j < p { j } else { j + 1 };
        assert(r[i] == bps[a]);
        assert(r[j] == bps[b]);
    }
}

proof fn lemma_insert_keeps_order(bps: Seq<BreakpointInfo>, p: int, b: BreakpointInfo)
    requires
        by_line(bps),
        0 <= p <= bps.len(),
        forall|i: int| 0 <= i < p ==> (#[trigger] bps[i]).line < b.line,
        forall|i: int| p <= i < bps.len() ==> (#[trigger] bps[i]).line > b.line,
    ensures
        by_line(bps.insert(p, b)),
{
    let r = bps.insert(p, b);
    assert forall|i: int, j: int| 0 <= i < j < r.len() implies (#[trigger] r[i]).line < (#[trigger] r[j]).line by {
        if i < p {
            assert(r[i] == bps[i]);
        } else if i > p {
            assert(r[i] == bps[i - 1]);
        }
        if j < p {
            assert(r[j] == bps[j]);
        } else if j > p {
            assert(r[j] == bps[j - 1]);
        }
    }
}

} // verus!
