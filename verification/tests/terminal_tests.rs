use std::path::Path;
use zzz::terminal::{Terminal, CommandAction, LineStyle, strip_prompts_str};
use zzz::console_panel::ConsolePanel;

fn typed(t: &mut Terminal, s: &str) -> CommandAction {
    t.input = s.to_string();
    t.execute_command()
}

#[test]
fn empty_input_does_nothing() {
    let mut t = Terminal::new("/home".to_string());
    assert!(matches!(t.execute_command(), CommandAction::Nothing));
    assert!(t.command_history.is_empty());
}

#[test]
fn other_commands_are_echoed_and_sent() {
    let mut t = Terminal::new("/home".to_string());
    t.auto_complete_suggestions = vec!["x".to_string()];
    match typed(&mut t, "ls -la") {
        CommandAction::Send(c) => assert_eq!(c, "ls -la"),
        _ => panic!(),
    }
    assert_eq!(t.output.last().unwrap().text, "$ ls -la");
    assert!(matches!(t.output.last().unwrap().style, LineStyle::Command));
    assert_eq!(t.command_history, vec!["ls -la".to_string()]);
    assert_eq!(t.input, "");
    assert!(t.auto_complete_suggestions.is_empty());
}

#[test]
fn cd_resolves_its_target() {
    let mut t = Terminal::new("/home".to_string());
    match typed(&mut t, "cd src") {
        CommandAction::ChangeDirectory(p) => assert_eq!(p, Path::new("/home").join("src").to_string_lossy()),
        _ => panic!(),
    }
    match typed(&mut t, "cd /abs extra") {
        CommandAction::ChangeDirectory(p) => assert_eq!(p, "/abs"),
        _ => panic!(),
    }
    match typed(&mut t, "cd C:\\x") {
        CommandAction::ChangeDirectory(p) => assert_eq!(p, "C:\\x"),
        _ => panic!(),
    }
    assert!(matches!(typed(&mut t, "cd"), CommandAction::Usage));
    assert_eq!(t.output.last().unwrap().text, "Usage: cd <directory>");
    assert!(matches!(t.output.last().unwrap().style, LineStyle::Warning));
}

#[test]
fn cd_reports_back() {
    let mut t = Terminal::new("/home".to_string());
    assert_eq!(t.finish_change_directory(Ok("/x".to_string())).unwrap(), "cd \"/x\"");
    assert_eq!(t.current_directory, "/x");
    assert_eq!(t.output.last().unwrap().text, "Changed directory to: /x");
    assert!(t.finish_change_directory(Err("no such dir".to_string())).is_none());
    assert_eq!(t.output.last().unwrap().text, "Error changing directory: no such dir");
    assert!(matches!(t.output.last().unwrap().style, LineStyle::Error));
    assert_eq!(t.current_directory, "/x");
}

#[test]
fn clear_and_exit() {
    let mut t = Terminal::new("/".to_string());
    t.add_output("a".to_string());
    assert!(matches!(typed(&mut t, "clear"), CommandAction::Cleared));
    assert_eq!(t.output.len(), 1);
    assert_eq!(t.output[0].text, "Terminal cleared");
    assert!(matches!(typed(&mut t, "exit"), CommandAction::Exit));
    t.shell_restarted();
    t.shell_spawned();
    t.send_failed();
    t.subprocess_interrupted();
    let texts: Vec<&str> = t.output.iter().map(|l| l.text.as_str()).collect();
    assert_eq!(texts, vec!["Terminal cleared", "Shell restarted", "New shell spawned.", "Failed to send command to shell", "Process interrupted"]);
}

#[test]
fn history_navigation_stays_in_bounds() {
    let mut t = Terminal::new("/".to_string());
    t.navigate_history(true);
    assert!(t.history_index.is_none());
    for c in ["a", "b", "c"] {
        typed(&mut t, c);
    }
    t.navigate_history(true);
    assert_eq!((t.history_index, t.input.as_str()), (Some(2), "c"));
    t.navigate_history(true);
    assert_eq!((t.history_index, t.input.as_str()), (Some(1), "b"));
    t.navigate_history(false);
    t.navigate_history(false);
    assert_eq!((t.history_index, t.input.as_str()), (Some(2), "c"));
    t.history_index = None;
    t.navigate_history(false);
    assert_eq!((t.history_index, t.input.as_str()), (Some(0), "a"));
    t.navigate_history(true);
    assert_eq!(t.history_index, Some(0));
}

#[test]
fn completions_start_with_the_input() {
    let mut t = Terminal::new("/".to_string());
    t.input = "c".to_string();
    t.auto_complete();
    assert_eq!(t.auto_complete_suggestions, vec!["cd".to_string(), "clear".to_string()]);
    t.input = String::new();
    t.auto_complete();
    assert_eq!(t.auto_complete_suggestions.len(), 6);
    t.input = "zz".to_string();
    t.auto_complete();
    assert!(t.auto_complete_suggestions.is_empty());
}

#[test]
fn output_lines_are_styled() {
    assert!(matches!(Terminal::classify_line("ERROR: warning"), LineStyle::Error));
    assert!(matches!(Terminal::classify_line("a warning"), LineStyle::Warning));
    assert!(matches!(Terminal::classify_line("$ ls"), LineStyle::Default));
    match Terminal::classify_line("see https://x.org/a b.rs") {
        LineStyle::Link(u) => assert_eq!(u, "https://x.org/a"),
        _ => panic!(),
    }
    match Terminal::classify_line("xhttp://h") {
        LineStyle::Link(u) => assert_eq!(u, "http://h"),
        _ => panic!(),
    }
    match Terminal::classify_line("main.rs:3") {
        LineStyle::Highlight(x) => assert_eq!(x, "rs"),
        _ => panic!(),
    }
    match Terminal::classify_line("http:// a.py") {
        LineStyle::Highlight(x) => assert_eq!(x, "py"),
        _ => panic!(),
    }
    assert!(matches!(Terminal::classify_line("plain"), LineStyle::Default));
}

#[test]
fn echoed_commands_come_first() {
    let mut t = Terminal::new("/".to_string());
    t.update(vec!["x".to_string(), "$ $ echo".to_string(), "ok".to_string()]);
    let texts: Vec<&str> = t.output.iter().map(|l| l.text.as_str()).collect();
    assert_eq!(texts, vec!["echo", "x", "$ $ echo", "ok"]);
    assert!(matches!(t.output[0].style, LineStyle::Command));
    assert!(matches!(t.output[2].style, LineStyle::Default));
    assert_eq!(strip_prompts_str("$ $ a"), "a");
    assert_eq!(strip_prompts_str("$a"), "$a");
}

#[test]
fn console_follows_the_project() {
    let mut c = ConsolePanel::new("/start".to_string());
    assert!(c.follows(&Some("/p".to_string())));
    assert!(!c.follows(&None));
    c.set_project_path("/p".to_string());
    assert!(!c.follows(&Some("/p".to_string())));
    assert_eq!(c.terminal.current_directory, "/p");
    c.log("hello");
    assert_eq!(c.terminal.output.last().unwrap().text, "hello");
    c.set_current_directory("/q".to_string());
    assert_eq!(c.terminal.current_directory, "/q");
}
