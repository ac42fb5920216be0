use zzz::syntax_highlighter::{choose_syntax, SyntaxHighlighter};
use zzz::file_panel::{FilePanel, SaveDecision};
use zzz::git_manager::{GitManager, GitOutput};
use zzz::path_set::PathSet;
use zzz::ai_assistant::AIAssistant;

#[test]
fn extensions_pick_their_syntaxes() {
    assert_eq!(choose_syntax("rs").as_deref(), Some("Rust"));
    assert_eq!(choose_syntax("py").as_deref(), Some("Python"));
    assert!(choose_syntax("jsx").is_some());
    assert!(choose_syntax("no-such-extension").is_none());
}

#[test]
fn highlighting_keeps_the_code() {
    let h = SyntaxHighlighter::new();
    let code = "fn main() {\n    let x = 1;\n}\n";
    let pieces = h.highlight(code, "rs");
    assert!(pieces.len() > 1);
    let text: String = pieces.iter().map(|p| p.text.as_str()).collect();
    assert_eq!(text, code);
    let plain = h.highlight("just words", "no-such-extension");
    let text: String = plain.iter().map(|p| p.text.as_str()).collect();
    assert_eq!(text, "just words");
}

#[test]
fn saving_is_reported_on_the_console() {
    assert_eq!(FilePanel::save_report(&SaveDecision::NoFile, None).as_deref(), Some("No file is currently open."));
    assert!(FilePanel::save_report(&SaveDecision::NoFileSystem, None).is_none());
    let save = SaveDecision::Save("/p/a.txt".to_string());
    assert_eq!(FilePanel::save_report(&save, Some(Ok(()))).as_deref(), Some("Saved file: /p/a.txt"));
    assert_eq!(
        FilePanel::save_report(&save, Some(Err("denied".to_string()))).as_deref(),
        Some("Error saving file /p/a.txt: denied")
    );
}

#[test]
fn history_is_refused_outside_a_repository() {
    assert_eq!(GitManager::get_commits(false, None).err().as_deref(), Some("Not a git repository"));
    assert_eq!(
        GitManager::get_commits(true, Some(Err("no git".to_string()))).err().as_deref(),
        Some("Failed to execute git command: no git")
    );
    let out = GitOutput {
        success: true,
        stdout: b"abc|||Ann|||2024-01-02T03:04:05+00:00|||first\n".to_vec(),
        stderr: Vec::new(),
    };
    let commits = GitManager::get_commits(true, Some(Ok(out))).unwrap();
    assert_eq!(commits.len(), 1);
    assert_eq!(commits[0].message, "first");
}

#[test]
fn new_item_opens_in_the_selected_folder() {
    let mut p = FilePanel::new();
    assert!(!p.create_new_item(false));
    p.open_project("/p".to_string());
    p.selected_folder = Some("/p/src".to_string());
    assert!(p.create_new_item_at(true, 42));
    let (path, name) = p.rename_dialog.clone().unwrap();
    assert_eq!(name, "new_folder_42");
    assert_eq!(path, std::path::Path::new("/p/src").join("new_folder_42").to_string_lossy());
    assert!(p.create_new_item(false));
    let (_, name) = p.rename_dialog.unwrap();
    assert!(name.starts_with("new_file_") && name.ends_with(".txt"));
}

#[test]
fn folders_compare_as_paths() {
    let mut s = PathSet::new();
    s.insert("a/b/");
    assert!(s.contains("a/b"));
    s.remove("a//b");
    assert!(!s.contains("a/b/"));
}

#[test]
fn submitting_records_the_question() {
    let mut a = AIAssistant::new("k".repeat(32));
    a.input_text = "why?".to_string();
    let msgs = a.submit_question("fn x() {}").unwrap();
    assert!(a.is_loading);
    assert!(a.input_text.is_empty());
    assert_eq!(a.chat_history.back().map(|m| (m.content.as_str(), m.is_user)), Some(("why?", true)));
    assert_eq!(msgs.last().map(|m| m.content.as_str()), Some("why?"));
    a.receive_response("Error: x".to_string());
    assert!(!a.is_loading);
    assert_eq!(a.debug_messages.back().map(|s| s.as_str()), Some("Error: x"));
    assert_eq!(a.last_ai_response.as_deref(), Some("Error: x"));
}
