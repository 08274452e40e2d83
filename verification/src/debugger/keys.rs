//! What a key press does to a debugger session: global shortcuts first,
//! then the keys of the panel that has the focus.

use vstd::prelude::*;
use vstd::string::*;
use super::state::{
    DebuggerState, Panel, continue_done, toggle_done, step_done, step_back_done, only_logged, command_done,
};
use super::text::words;

verus! {

broadcast use vstd::string::group_string_axioms;

/// A key press, as the session sees it: a character (with whether Control
/// was held), a function key by number, or one of the editing and
/// navigation keys; `Other` stands for every key the session ignores.
#[derive(Debug, Clone, Copy, PartialEq, Eq, Structural)]
pub enum Key {
    Char(char, bool),
    F(u8),
    Tab,
    Up,
    Down,
    PageUp,
    PageDown,
    Enter,
    Backspace,
    Other,
}

/// The panel that Tab moves the focus to.
pub open spec fn next_panel(p: Panel) -> Panel {
    match p {
        Panel::Source => Panel::Variables,
        Panel::Variables => Panel::Console,
        Panel::Console => Panel::Stack,
        Panel::Stack => Panel::Source,
    }
}

/// `new` agrees with `old` on everything but the command input, the focus,
/// the scroll position and whether the session runs.
pub open spec fn same_state(old: DebuggerState, new: DebuggerState) -> bool {
    &&& new.source_lines == old.source_lines
    &&& new.filename == old.filename
    &&& new.call_stack == old.call_stack
    &&& new._has_errors == old._has_errors
    &&& new.current_line == old.current_line
    &&& new.breakpoints == old.breakpoints
    &&& new.variables == old.variables
    &&& new.output_log == old.output_log
    &&& new.next_bp_id == old.next_bp_id
}

/// `new` is `old` with the command input, focus, scroll position and run
/// flag given.
pub open spec fn set_to(
    old: DebuggerState,
    new: DebuggerState,
    input: Seq<char>,
    panel: Panel,
    scroll: usize,
    running: bool,
) -> bool {
    &&& same_state(old, new)
    &&& new.command_input@ == input
    &&& new.active_panel == panel
    &&& new.scroll_offset == scroll
    &&& new.running == running
}

/// `new` is `old` after Enter in the console: an empty input does nothing;
/// otherwise the input is echoed to the log after `> `, run as a command,
/// and cleared.
pub open spec fn entered(old: DebuggerState, new: DebuggerState) -> bool {
    if old.command_input@.len() == 0 {
        new == old
    } else {
        exists|mid: DebuggerState, done: DebuggerState|
            #![trigger command_done(mid, done, words(old.command_input@))]
            {
                &&& only_logged(old, mid, seq!["> "@ + old.command_input@])
                &&& command_done(mid, done, words(old.command_input@))
                &&& set_to(done, new, Seq::empty(), done.active_panel, done.scroll_offset, done.running)
            }
    }
}

/// What the key `key` does to the session `old`, giving `new`.
pub open spec fn key_done(old: DebuggerState, new: DebuggerState, key: Key) -> bool {
    let same = old.command_input@;
    match key {
        Key::Char('c', true) => set_to(old, new, same, old.active_panel, old.scroll_offset, false),
        Key::F(5) => continue_done(old, new),
        Key::F(9) => toggle_done(old, new, old.current_line),
        Key::F(10) | Key::F(11) => step_done(old, new),
        Key::Tab => set_to(old, new, same, next_panel(old.active_panel), old.scroll_offset, old.running),
        _ => match old.active_panel {
            Panel::Source => match key {
                Key::Up => step_back_done(old, new),
                Key::Down => step_done(old, new),
                Key::PageUp => set_to(
                    old,
                    new,
                    same,
                    old.active_panel,
                    (if old.scroll_offset >= 20 {
                        old.scroll_offset - 20
                    } else {
                        0
                    }) as usize,
                    old.running,
                ),
                Key::PageDown => {
                    let last: int = if old.source_lines@.len() >= 1 {
                        old.source_lines@.len() - 1
                    } else {
                        0
                    };
                    let down: int = old.scroll_offset + 20;
                    set_to(
                        old,
                        new,
                        same,
                        old.active_panel,
                        (if down <= last {
                            down
                        } else {
                            last
                        }) as usize,
                        old.running,
                    )
                },
                _ => new == old,
            },
            Panel::Console => match key {
                Key::Enter => entered(old, new),
                Key::Char(c, _) => set_to(old, new, same.push(c), old.active_panel, old.scroll_offset, old.running),
                Key::Backspace => set_to(
                    old,
                    new,
                    if same.len() > 0 {
                        same.drop_last()
                    } else {
                        same
                    },
                    old.active_panel,
                    old.scroll_offset,
                    old.running,
                ),
                _ => new == old,
            },
            _ => new == old,
        },
    }
}

impl DebuggerState {
    /// Handle a key press: Ctrl+C quits, F5 continues, F9 toggles the
    /// breakpoint at the current line, F10 and F11 step, Tab moves the
    /// focus; in the source panel the arrows step and the page keys scroll;
    /// in the console, characters and Backspace edit the command and Enter
    /// runs it.
    pub fn handle_key(&mut self, key: Key)
        requires
            old(self).wf(),
        ensures
            final(self).wf(),
            key_done(*old(self), *final(self), key),
    {
        match key {
            Key::Char('c', true) => {
                self.running = false;
                return;
            },
            Key::F(5) => {
                self.continue_to_next_breakpoint();
                return;
            },
            Key::F(9) => {
                let line = self.current_line;
                self.toggle_breakpoint(line);
                return;
            },
            Key::F(10) | Key::F(11) => {
                self.step_forward();
                return;
            },
            Key::Tab => {
                self.active_panel = match self.active_panel {
                    Panel::Source => Panel::Variables,
                    Panel::Variables => Panel::Console,
                    Panel::Console => Panel::Stack,
                    Panel::Stack => Panel::Source,
                };
                return;
            },
            _ => {},
        }
        match self.active_panel {
            Panel::Source => match key {
                Key::Up => self.step_back(),
                Key::Down => self.step_forward(),
                Key::PageUp => {
                    self.scroll_offset = self.scroll_offset.saturating_sub(20);
                },
                Key::PageDown => {
                    let last = self.source_lines.len().saturating_sub(1);
                    let down = self.scroll_offset.saturating_add(20);
                    self.scroll_offset = if down <= last {
                        down
                    } else {
                        last
                    };
                },
                _ => {},
            },
            Panel::Console => match key {
                Key::Enter => self.enter_command(),
                Key::Char(c, _) => {
                    let typed = crate::text::char_to_text(c);
                    self.command_input.append(typed.as_str());
                    assert(self.command_input@ =~= old(self).command_input@.push(c));
                },
                Key::Backspace => {
                    let n = self.command_input.unicode_len();
                    if n > 0 {
                        let kept = self.command_input.as_str().substring_char(0, n - 1);
                        self.command_input = String::from_str(kept);
                        assert(self.command_input@ =~= old(self).command_input@.drop_last());
                    }
                },
                _ => {},
            },
            _ => {},
        }
    }

    /// Run the command typed in the console, echoing it first, and clear
    /// the input; an empty input does nothing.
    fn enter_command(&mut self)
        requires
            old(self).wf(),
        ensures
            final(self).wf(),
            entered(*old(self), *final(self)),
    {
        let cmd = self.command_input.clone();
        if cmd.unicode_len() > 0 {
            proof {
                reveal_strlit("> ");
            }
            let echo = String::from_str("> ").concat(cmd.as_str());
            self.log(echo.as_str());
            let ghost mid = *self;
            self.process_command(cmd.as_str());
            let ghost done = *self;
            self.command_input = String::new();
            assert(only_logged(*old(self), mid, seq!["> "@ + old(self).command_input@]));
            assert(command_done(mid, done, words(old(self).command_input@)));
            assert(set_to(done, *self, Seq::empty(), done.active_panel, done.scroll_offset, done.running));
        }
    }
}

} // verus!
