use std::path::Path;
use zzz::settings_modal::{SettingsModal, SettingsTab};
use zzz::app_state::{buffer_states, restore_buffers, BufferState};
use zzz::extension::{command_log_line, process_commands, ExtensionCommand, ExtensionEvent};
use zzz::plugin::{Plugin, PluginWrapper};
use zzz::ide::{handle_keyboard_shortcuts, adjust_channel, adjust_color, sync_settings, IdeView, ShortcutKeys};
use zzz::git_modal::GitModal;
use zzz::git_manager::{GitCommit, GitManager, GitOutput, parse_commit_line};
use zzz::basic_file_system;
use zzz::code_editor::{CodeEditor, CursorPosition};
use zzz::ai_assistant::AIAssistant;
use zzz::downloader::Downloader;

fn j(a: &str, b: &str) -> String {
    Path::new(a).join(b).to_string_lossy().into_owned()
}

#[test]
fn settings_model_choice() {
    let mut s = SettingsModal::new();
    assert_eq!(s.settings_tab, SettingsTab::Personalization);
    assert_eq!(s.api_level, "30");
    assert!(!s.validate_settings());
    s.edit_api_key("k".to_string());
    assert!(s.validate_settings());
    assert!(s.take_api_key_changed());
    assert!(!s.take_api_key_changed());
    s.select_model("Qwen/Qwen2.5-Coder-32B-Instruct".to_string());
    assert!(!s.take_ai_model_changed());
    s.select_model("Other".to_string());
    assert_eq!(s.get_ai_model(), "");
    assert!(s.shows_custom_model());
    assert!(!s.validate_settings());
    s.edit_custom_model("my/model".to_string());
    assert_eq!(s.get_ai_model(), "my/model");
    assert!(s.take_ai_model_changed());
    s.select_model("deepseek-ai/DeepSeek-R1".to_string());
    assert_eq!(s.get_ai_model(), "deepseek-ai/DeepSeek-R1");
    s.set_api_key("z".to_string());
    s.set_ai_model("y".to_string());
    assert_eq!(s.get_api_key(), "z");
    assert_eq!(s.get_ai_model(), "y");
}

#[test]
fn buffers_are_remembered_and_restored() {
    let mut ed = CodeEditor::new();
    ed.create_new_buffer();
    ed.open_file("a".to_string(), "/p/a".to_string(), "Rust".to_string());
    ed.buffers[1].set_cursor_position(3, 4);
    let states = buffer_states(&ed);
    assert_eq!(states.len(), 2);
    assert_eq!(states[0].file_path, "");
    assert_eq!(states[1].file_path, "/p/a");
    assert_eq!(states[1].cursor_position, CursorPosition { line: 2, column: 4 });
    let saved = vec![
        BufferState { file_path: "/p/a".to_string(), cursor_position: CursorPosition { line: 2, column: 4 } },
        BufferState { file_path: "/gone".to_string(), cursor_position: CursorPosition { line: 0, column: 0 } },
    ];
    let mut fresh = CodeEditor::new();
    restore_buffers(&mut fresh, &saved, vec![Some("text".to_string()), None], Some(7));
    assert_eq!(fresh.buffers.len(), 1);
    assert_eq!(fresh.buffers[0].content, "text");
    assert_eq!(fresh.buffers[0].file_path.as_deref(), Some("/p/a"));
    assert_eq!(fresh.buffers[0].syntax, "Plain Text");
    assert_eq!(fresh.active_buffer_index, Some(7));
    let mut empty = CodeEditor::new();
    restore_buffers(&mut empty, &saved, vec![None, None], Some(0));
    assert!(empty.active_buffer_index.is_none());
}

#[test]
fn extension_commands_are_logged() {
    assert_eq!(command_log_line(&ExtensionCommand::Log("hi".to_string())), "hi");
    assert_eq!(command_log_line(&ExtensionCommand::ShowNotification("n".to_string())), "Notification: n");
    assert_eq!(command_log_line(&ExtensionCommand::OpenFile("/a".to_string())), "Requested to open: /a");
    assert_eq!(command_log_line(&ExtensionCommand::SetEditorContent("x".to_string())), "Received editor content update request");
    assert_eq!(command_log_line(&ExtensionCommand::ExecuteTerminalCommand("ls".to_string())), "Requested to execute: ls");
    let lines = process_commands(&vec![ExtensionCommand::Log("a".to_string()), ExtensionCommand::OpenFile("b".to_string())]);
    assert_eq!(lines, vec!["a".to_string(), "Requested to open: b".to_string()]);
    let e = ExtensionEvent::FileSaved("f".to_string());
    assert!(matches!(e, ExtensionEvent::FileSaved(_)));
    let _ = Downloader;
}

#[test]
fn plugin_wrapper_reports() {
    let p = PluginWrapper::new("fmt", "1.0");
    assert_eq!(p.name(), "fmt");
    assert_eq!(p.version(), "1.0");
    assert!(!p.activated);
    assert_eq!(p.activate(), "Activating plugin: fmt");
    assert_eq!(p.deactivate(), "Deactivating plugin: fmt");
    p.on_editor_update("x");
    let q = p.clone_box();
    assert_eq!(q.name(), "fmt");
}

fn view() -> IdeView {
    IdeView {
        show_file_modal: false,
        show_emulator_panel: false,
        show_ai_panel: true,
        show_console_panel: false,
        show_settings: false,
        show_git_modal: false,
        show_file_search_modal: false,
        show_current_file_search_modal: false,
        show_project_search_modal: false,
        search_focus_requested: false,
        search_query: "old".to_string(),
        search_results: Vec::new(),
    }
}

fn keys() -> ShortcutKeys {
    ShortcutKeys { ctrl: true, shift: false, num1: false, num2: false, num3: false, num4: false, m: false, o: false, s: false, p: false, f: false, g: false, escape: false }
}

#[test]
fn shortcuts_toggle_panels() {
    let mut v = view();
    let mut k = keys();
    k.num1 = true;
    k.num3 = true;
    k.o = true;
    let r = handle_keyboard_shortcuts(&mut v, &k, false);
    assert!(v.show_file_modal);
    assert!(!v.show_ai_panel);
    assert!(r.open_folder && !r.save && !r.refresh_git);
    let mut k = keys();
    k.g = true;
    let r = handle_keyboard_shortcuts(&mut v, &k, false);
    assert!(v.show_git_modal && r.refresh_git);
    let r = handle_keyboard_shortcuts(&mut v, &k, false);
    assert!(!v.show_git_modal && !r.refresh_git);
    let mut k = keys();
    k.ctrl = false;
    k.num1 = true;
    handle_keyboard_shortcuts(&mut v, &k, false);
    assert!(v.show_file_modal);
}

#[test]
fn shortcuts_open_searches() {
    let mut v = view();
    let mut k = keys();
    k.f = true;
    handle_keyboard_shortcuts(&mut v, &k, false);
    assert!(!v.show_current_file_search_modal);
    assert_eq!(v.search_query, "old");
    handle_keyboard_shortcuts(&mut v, &k, true);
    assert!(v.show_current_file_search_modal);
    assert_eq!(v.search_query, "");
    assert!(v.search_focus_requested);
    handle_keyboard_shortcuts(&mut v, &k, true);
    assert!(!v.show_current_file_search_modal);
    k.shift = true;
    handle_keyboard_shortcuts(&mut v, &k, false);
    assert!(v.show_project_search_modal);
    let mut esc = keys();
    esc.escape = true;
    esc.p = true;
    handle_keyboard_shortcuts(&mut v, &esc, false);
    assert!(!v.show_project_search_modal);
    assert!(v.show_file_search_modal);
}

#[test]
fn colours_are_clamped() {
    assert_eq!(adjust_channel(250, 20), 255);
    assert_eq!(adjust_channel(5, -20), 0);
    assert_eq!(adjust_channel(100, 0), 100);
    assert_eq!(adjust_color((10, 200, 250, 7), 10), (20, 210, 255, 7));
    assert_eq!(adjust_color((0, 0, 0, 255), -1), (0, 0, 0, 255));
}

#[test]
fn settings_reach_the_assistant() {
    let mut s = SettingsModal::new();
    let mut a = AIAssistant::new("old".to_string());
    let mut model = "m0".to_string();
    assert_eq!(sync_settings(&mut s, &mut a, &mut model), (false, false));
    assert_eq!(a.api_key, "old");
    s.edit_api_key("new".to_string());
    s.edit_custom_model("m1".to_string());
    assert_eq!(sync_settings(&mut s, &mut a, &mut model), (true, true));
    assert_eq!(a.api_key, "new");
    assert_eq!(a.model, "m1");
    assert_eq!(model, "m1");
    assert!(!s.api_key_changed && !s.ai_model_changed);
}

#[test]
fn git_dialog_keeps_a_readable_history() {
    let mut g = GitModal::new();
    let c = parse_commit_line("abc|||Ann|||2024-01-02T03:04:05+00:00|||first").unwrap();
    g.update_git_manager(Some("/p".to_string()), Some(Ok(vec![c])));
    assert_eq!(g.commits.len(), 1);
    assert_eq!(g.git_manager.as_ref().unwrap().repo_path, "/p");
    g.update_git_manager(Some("/p".to_string()), None);
    assert!(g.git_manager.is_none() && g.commits.is_empty());
    g.update_git_manager(None, Some(Ok(Vec::new())));
    assert!(g.git_manager.is_none());
    g.update_git_manager(Some("/p".to_string()), Some(Err("bad".to_string())));
    assert!(g.commits.is_empty());
    assert_eq!(GitModal::reset_done_message("abc"), "Successfully reset to commit abc");
}

#[test]
fn commit_lines_parse() {
    let c: GitCommit = parse_commit_line("abc|||Ann|||2024-01-02T03:04:05+00:00|||first").unwrap();
    assert_eq!(c.hash, "abc");
    assert_eq!(c.author, "Ann");
    assert_eq!(c.message, "first");
    assert_eq!(c.date.timestamp, 1704164645);
    let d = parse_commit_line("h|||B|||2024-01-02 03:04:05 +0100|||m").unwrap();
    assert_eq!(d.date.timestamp, 1704164645 - 3600);
    assert_eq!(d.date.offset_seconds, 3600);
    assert_eq!(parse_commit_line("a|||b").unwrap_err(), "Invalid commit line format: 'a|||b'");
    assert!(parse_commit_line("a|||b|||not a date|||m").unwrap_err().starts_with("Failed to parse date 'not a date': "));
}

#[test]
fn history_and_reset_outcomes() {
    let ok = GitOutput { success: true, stdout: b"a|||A|||2024-01-02T03:04:05+00:00|||m1\n\nb|||B|||2024-01-03T03:04:05+00:00|||m2\n".to_vec(), stderr: Vec::new() };
    let cs = GitManager::parse_history(ok).unwrap();
    assert_eq!(cs.len(), 2);
    assert_eq!(cs[1].hash, "b");
    let failed = GitOutput { success: false, stdout: Vec::new(), stderr: b"fatal: x\xff".to_vec() };
    assert_eq!(GitManager::parse_history(failed).unwrap_err(), "Failed to get git history: fatal: x\u{FFFD}");
    let bad = GitOutput { success: true, stdout: vec![0xff], stderr: Vec::new() };
    assert!(GitManager::parse_history(bad).unwrap_err().starts_with("Invalid UTF-8 in git output: "));
    let mut g = GitManager::new("/p".to_string());
    let args = g.reset_to_commit("abc").unwrap();
    assert_eq!(args, vec!["reset".to_string(), "--hard".to_string(), "abc".to_string()]);
    assert_eq!(g.reset_to_commit("def").unwrap_err(), "Another operation is in progress");
    let r = g.perform_reset("abc", Ok(GitOutput { success: false, stdout: Vec::new(), stderr: b"no".to_vec() }));
    assert_eq!(r.unwrap_err(), "Failed to reset to commit abc: no");
    assert!(!g.is_checking_out);
    assert!(g.perform_reset("abc", Err("spawn failed".to_string())).unwrap_err() == "Failed to execute git command: spawn failed");
    assert_eq!(GitManager::log_args()[1], "--pretty=format:%H|||%an|||%ai|||%s");
}

#[test]
fn plain_listing_puts_folders_first() {
    let fs = basic_file_system::FileSystem::new("/p");
    assert_eq!(fs.get_project_directory(), "/p");
    let read = vec![
        basic_file_system::DirectoryEntry { name: "b".to_string(), is_dir: false },
        basic_file_system::DirectoryEntry { name: "a".to_string(), is_dir: false },
        basic_file_system::DirectoryEntry { name: "z".to_string(), is_dir: true },
        basic_file_system::DirectoryEntry { name: "B".to_string(), is_dir: false },
    ];
    let names: Vec<(String, bool)> = fs.list_directory(read).into_iter().map(|e| (e.name, e.is_dir)).collect();
    assert_eq!(names, vec![("z".to_string(), true), ("B".to_string(), false), ("a".to_string(), false), ("b".to_string(), false)]);
    assert_eq!(j("/p", "x"), "/p/x");
}

#[test]
fn git_status_outcome_reports_why() {
    let ok = GitOutput { success: true, stdout: b"clean".to_vec(), stderr: Vec::new() };
    assert_eq!(GitManager::initialize_outcome(Ok(ok)), Ok(()));
    let failed = GitOutput { success: false, stdout: Vec::new(), stderr: b"not a git repository".to_vec() };
    assert_eq!(GitManager::initialize_outcome(Ok(failed)), Err("Git status failed: not a git repository".to_string()));
    assert_eq!(
        GitManager::initialize_outcome(Err("no such file".to_string())),
        Err("Failed to execute git command: Failed to execute git command: no such file".to_string())
    );
}

#[test]
fn opening_a_result_closes_the_searches() {
    let mut v = view();
    v.show_project_search_modal = true;
    v.show_current_file_search_modal = true;
    v.show_console_panel = true;
    zzz::ide::search_result_opened(&mut v);
    assert!(!v.show_project_search_modal && !v.show_current_file_search_modal);
    assert!(v.show_console_panel);
}
