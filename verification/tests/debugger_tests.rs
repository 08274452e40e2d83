use galaxc::debugger::state::{DebuggerState, Panel};
use galaxc::debugger::text::{parse_line_number, split_lines, split_words};

fn session(lines: usize) -> DebuggerState {
    let mut src = String::new();
    for i in 0..lines {
        src.push_str(&format!("line {}\n", i + 1));
    }
    DebuggerState::new(src, "probe.gxc".to_string(), false)
}

fn last_log(s: &DebuggerState) -> &str {
    s.output_log.last().unwrap().as_str()
}

fn bp_lines(s: &DebuggerState) -> Vec<usize> {
    s.breakpoints.iter().map(|b| b.line).collect()
}

#[test]
fn new_session() {
    let s = session(3);
    assert_eq!(s.source_lines, vec!["line 1", "line 2", "line 3"]);
    assert_eq!(s.current_line, 1);
    assert_eq!(s.scroll_offset, 0);
    assert!(s.running);
    assert_eq!(s.active_panel, Panel::Source);
    assert_eq!(s.output_log, vec!["GalaxC Debugger v0.1.0", "Type :help for commands", ""]);
    assert_eq!(s.call_stack[0].function, "launch");
    assert_eq!(s.call_stack[0].file, "probe.gxc");
}

#[test]
fn breakpoint_toggle_and_continue() {
    let mut s = session(10);
    s.process_command(":b 7");
    assert_eq!(last_log(&s), "Set breakpoint #1 at line 7");
    s.process_command(":b 3");
    assert_eq!(last_log(&s), "Set breakpoint #2 at line 3");
    assert_eq!(bp_lines(&s), vec![3, 7]);
    s.process_command(":c");
    assert_eq!(s.current_line, 3);
    assert_eq!(last_log(&s), "Hit breakpoint at line 3");
    s.process_command(":c");
    assert_eq!(s.current_line, 7);
    s.process_command(":c");
    assert_eq!(s.current_line, 7);
    assert_eq!(last_log(&s), "No more breakpoints ahead");
}

#[test]
fn toggling_twice_restores_breakpoints() {
    let mut s = session(10);
    s.toggle_breakpoint(4);
    s.toggle_breakpoint(9);
    let before = bp_lines(&s);
    s.toggle_breakpoint(6);
    assert_eq!(bp_lines(&s), vec![4, 6, 9]);
    s.toggle_breakpoint(6);
    assert_eq!(bp_lines(&s), before);
    assert_eq!(last_log(&s), "Removed breakpoint at line 6");
}

#[test]
fn breakpoint_beyond_source_is_never_hit() {
    let mut s = session(5);
    s.process_command(":b 50");
    s.process_command(":c");
    assert_eq!(s.current_line, 1);
    assert_eq!(last_log(&s), "No more breakpoints ahead");
}

#[test]
fn stepping_and_scrolling() {
    let mut s = session(40);
    s.process_command(":s");
    assert_eq!(s.current_line, 2);
    assert_eq!(last_log(&s), "Stepped to line 2");
    s.process_command(":b 30");
    s.process_command(":c");
    assert_eq!(s.current_line, 30);
    assert_eq!(s.scroll_offset, 20);
    assert!(s.scroll_offset < s.current_line && s.current_line <= s.scroll_offset + 20);
    s.step_back();
    assert_eq!(s.current_line, 29);
    let mut end = session(2);
    end.step_forward();
    end.step_forward();
    assert_eq!(end.current_line, 2);
    assert_eq!(last_log(&end), "Stepped to line 2");
}

#[test]
fn listing_commands() {
    let mut s = session(10);
    s.process_command(":bp");
    assert_eq!(last_log(&s), "No breakpoints set");
    s.process_command(":b 2");
    s.process_command(":bp");
    let n = s.output_log.len();
    assert_eq!(s.output_log[n - 2], "Breakpoints:");
    assert_eq!(s.output_log[n - 1], "  #1 line 2 [enabled] hits=0");
    s.process_command(":bt");
    let n = s.output_log.len();
    assert_eq!(s.output_log[n - 2], "Backtrace:");
    assert_eq!(s.output_log[n - 1], "  #0 launch at probe.gxc:1");
    s.process_command(":clear");
    assert!(s.breakpoints.is_empty());
    assert_eq!(last_log(&s), "All breakpoints cleared");
}

#[test]
fn print_watch_and_errors() {
    let mut s = session(3);
    s.process_command(":p  a   +  b ");
    assert_eq!(last_log(&s), "a + b = <evaluation not available in static mode>");
    s.process_command(":w thrust");
    assert_eq!(s.variables.len(), 2);
    assert_eq!(s.variables[1].name, "thrust");
    assert_eq!(s.variables[1].value, "<pending>");
    assert_eq!(last_log(&s), "Watching variable: thrust");
    s.process_command(":b x");
    assert_eq!(last_log(&s), "Usage: :b <line number>");
    s.process_command(":zap");
    let n = s.output_log.len();
    assert_eq!(s.output_log[n - 2], "Unknown command: :zap");
    assert_eq!(s.output_log[n - 1], "Type :help for available commands");
    let before = s.output_log.len();
    s.process_command("   ");
    assert_eq!(s.output_log.len(), before);
    s.process_command(":help");
    assert_eq!(s.output_log.len(), before + 19);
    assert_eq!(last_log(&s), "  Ctrl+C       Quit");
    s.process_command(":q");
    assert!(!s.running);
}

#[test]
fn text_helpers() {
    assert_eq!(split_lines("a\r\nb\n\nc"), vec!["a", "b", "", "c"]);
    assert_eq!(split_lines(""), Vec::<String>::new());
    assert_eq!(split_words("  :b\t12 \n"), vec![":b", "12"]);
    assert_eq!(parse_line_number("42"), Some(42));
    assert_eq!(parse_line_number("+7"), Some(7));
    assert_eq!(parse_line_number("-1"), None);
    assert_eq!(parse_line_number(""), None);
    assert_eq!(parse_line_number("99999999999999999999999"), None);
}

use galaxc::debugger::keys::Key;
use galaxc::debugger::view::Marker;

#[test]
fn keys_drive_the_session() {
    let mut s = session(30);
    s.handle_key(Key::F(9));
    assert_eq!(bp_lines(&s), vec![1]);
    s.handle_key(Key::Down);
    assert_eq!(s.current_line, 2);
    s.handle_key(Key::Up);
    assert_eq!(s.current_line, 1);
    s.handle_key(Key::F(10));
    s.handle_key(Key::F(11));
    assert_eq!(s.current_line, 3);
    s.handle_key(Key::PageDown);
    assert_eq!(s.scroll_offset, 20);
    s.handle_key(Key::PageDown);
    assert_eq!(s.scroll_offset, 29);
    s.handle_key(Key::PageUp);
    assert_eq!(s.scroll_offset, 9);
    s.handle_key(Key::Tab);
    assert_eq!(s.active_panel, Panel::Variables);
    s.handle_key(Key::Tab);
    assert_eq!(s.active_panel, Panel::Console);
    for c in ":b 12".chars() {
        s.handle_key(Key::Char(c, false));
    }
    s.handle_key(Key::Char('x', false));
    s.handle_key(Key::Backspace);
    assert_eq!(s.command_input, ":b 12");
    s.handle_key(Key::Enter);
    assert_eq!(s.command_input, "");
    let n = s.output_log.len();
    assert_eq!(s.output_log[n - 2], "> :b 12");
    assert_eq!(s.output_log[n - 1], "Set breakpoint #2 at line 12");
    s.handle_key(Key::F(5));
    assert_eq!(s.current_line, 12);
    let before = s.output_log.len();
    s.handle_key(Key::Enter);
    assert_eq!(s.output_log.len(), before);
    s.handle_key(Key::Char('c', true));
    assert!(!s.running);
}

#[test]
fn source_panel_rows() {
    let mut s = session(6);
    s.toggle_breakpoint(2);
    s.toggle_breakpoint(1);
    let rows = s.source_rows(5);
    assert_eq!(rows.len(), 3);
    assert_eq!(rows[0].number, 1);
    assert_eq!(rows[0].marker, Marker::BreakpointHere);
    assert!(rows[0].current);
    assert_eq!(rows[1].marker, Marker::Breakpoint);
    assert_eq!(rows[2].marker, Marker::Plain);
    assert_eq!(rows[2].text, "line 3");
    s.step_forward();
    let rows = s.source_rows(100);
    assert_eq!(rows.len(), 6);
    assert_eq!(rows[1].marker, Marker::BreakpointHere);
    assert_eq!(rows[0].marker, Marker::Breakpoint);
    assert!(s.source_rows(1).is_empty());
    assert_eq!(s.console_start(4), s.output_log.len() - 2);
    assert_eq!(s.console_start(1000), 0);
}
