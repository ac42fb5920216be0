use std::path::Path;
use zzz::path_set::PathSet;
use zzz::file_modal::{FileModal, OpenFolderOutcome, SaveTarget, save_target, mark_active_saved, reload_all_buffers};
use zzz::file_panel::{FilePanel, SaveDecision, signed_decimal_string};
use zzz::file_system::FileSystem;
use zzz::code_editor::CodeEditor;

fn j(a: &str, b: &str) -> String {
    Path::new(a).join(b).to_string_lossy().into_owned()
}

#[test]
fn path_set_holds_each_path() {
    let mut s = PathSet::new();
    s.insert("/a");
    s.insert("/a");
    s.insert("/b");
    assert!(s.contains("/a") && s.contains("/b"));
    assert_eq!(s.items.len(), 2);
    s.remove("/a");
    assert!(!s.contains("/a"));
    s.clear();
    assert!(!s.contains("/b"));
}

#[test]
fn clicking_a_folder_twice_closes_it_again() {
    let mut m = FileModal::new();
    assert!(!m.click_entry("/p/src", true));
    assert!(m.expanded_folders.contains("/p/src"));
    assert_eq!(m.selected_folder.as_deref(), Some("/p/src"));
    assert!(!m.click_entry("/p/src", true));
    assert!(!m.expanded_folders.contains("/p/src"));
}

#[test]
fn clicking_a_file_selects_its_folder() {
    let mut m = FileModal::new();
    assert!(m.click_entry("/p/src/a.rs", false));
    assert_eq!(m.selected_item.as_deref(), Some("/p/src/a.rs"));
    assert_eq!(m.selected_folder.as_deref(), Some("/p/src"));
}

#[test]
fn tree_descends_into_open_or_creating_folders() {
    let mut m = FileModal::new();
    assert!(!m.descends_into("/p/a", true));
    m.start_create_item(false, "/p/a");
    assert!(m.descends_into("/p/a", true));
    assert!(!m.descends_into("/p/a", false));
    assert_eq!(FileModal::entry_label("x.rs", false), " x.rs");
    assert_eq!(FileModal::entry_label("src", true), "src");
}

#[test]
fn renaming_replaces_the_last_component() {
    let mut m = FileModal::new();
    m.start_rename("/p/src/a.rs");
    let e = m.editing_item.clone().unwrap();
    assert_eq!(e.1, "a.rs");
    assert!(m.new_item_focus);
    m.editing_item = Some((e.0, "b.rs".to_string()));
    let (old, new) = m.finish_rename().unwrap();
    assert_eq!(old, "/p/src/a.rs");
    assert_eq!(new, "/p/src/b.rs");
    assert!(m.editing_item.is_none());
    assert!(m.finish_rename().is_none());
    m.start_rename("/p/src/a.rs");
    m.cancel_rename();
    assert!(m.editing_item.is_none());
}

#[test]
fn creating_an_item() {
    let mut m = FileModal::new();
    m.start_create_item(true, "/p");
    assert_eq!(m.creating_item.clone().unwrap().1, "New Folder");
    assert!(m.expanded_folders.contains("/p"));
    let c = m.take_creating_item().unwrap();
    assert!(c.2);
    assert!(m.creating_item.is_none());
    assert!(m.finish_create_item("/p", "x").is_none());
    m.file_system = Some(FileSystem::new("/p"));
    assert_eq!(m.finish_create_item("/p/q", "x").unwrap(), j("/p/q", "x"));
    assert!(m.expanded_folders.contains("/p/q"));
    m.start_create_item(false, "/p");
    assert_eq!(m.creating_item.clone().unwrap().1, "New File.txt");
}

#[test]
fn opening_folders() {
    let mut m = FileModal::new();
    assert!(m.begin_open_folder());
    assert!(!m.begin_open_folder());
    assert_eq!(m.finish_open_folder(Some("/p".to_string())), OpenFolderOutcome::Opened);
    assert!(m.expanded_folders.contains("/p"));
    assert!(m.file_system.is_some());
    m.selected_item = Some("/p/x".to_string());
    assert!(m.begin_open_folder());
    assert_eq!(m.finish_open_folder(Some("/p".to_string())), OpenFolderOutcome::AlreadyOpen);
    assert!(m.selected_item.is_some());
    assert!(m.begin_open_folder());
    assert_eq!(m.finish_open_folder(None), OpenFolderOutcome::Cancelled);
    assert!(!m.is_initializing);
    m.click_entry("/p/a", true);
    m.reload_file_system();
    assert!(m.expanded_folders.contains("/p"));
    assert!(!m.expanded_folders.contains("/p/a"));
    m.collapse_all_folders();
    assert!(!m.expanded_folders.contains("/p"));
}

#[test]
fn deleting_and_menus() {
    let mut m = FileModal::new();
    m.click_entry("/p/d", true);
    m.item_deleted("/p/d", true);
    assert!(m.selected_item.is_none());
    assert!(!m.expanded_folders.contains("/p/d"));
    m.open_context_menu("/p/d".to_string(), true);
    assert!(m.context_menu.as_ref().unwrap().is_dir);
    m.close_context_menu();
    assert!(m.context_menu.is_none());
    m.project_path = Some("/p".to_string());
    m.selected_folder = None;
    assert_eq!(m.creation_parent().as_deref(), Some("/p"));
    m.selected_folder = Some("/p/s".to_string());
    assert_eq!(m.creation_parent().as_deref(), Some("/p/s"));
}

#[test]
fn saving_and_reloading_buffers() {
    let mut ed = CodeEditor::new();
    assert!(matches!(save_target(&ed), SaveTarget::NoBuffer));
    ed.create_new_buffer();
    assert!(matches!(save_target(&ed), SaveTarget::Unnamed));
    ed.open_file("text".to_string(), "/p/a.txt".to_string(), "Plain Text".to_string());
    ed.buffers[1].is_modified = true;
    match save_target(&ed) {
        SaveTarget::File(p, c) => {
            assert_eq!(p, "/p/a.txt");
            assert_eq!(c, "text");
        }
        _ => panic!(),
    }
    mark_active_saved(&mut ed);
    assert!(!ed.buffers[1].is_modified);
    ed.open_file("b".to_string(), "/p/b.txt".to_string(), "Plain Text".to_string());
    ed.buffers[2].is_modified = true;
    reload_all_buffers(&mut ed, vec![None, Some("new a".to_string()), None]);
    assert_eq!(ed.buffers.len(), 2);
    assert!(ed.buffers[0].file_path.is_none());
    assert_eq!(ed.buffers[1].content, "new a");
    assert!(!ed.buffers[1].is_modified);
}

#[test]
fn panel_opens_projects_and_toggles_folders() {
    let mut p = FilePanel::new();
    p.open_project("/p".to_string());
    assert!(p.expanded_folders.contains("/p"));
    assert_eq!(p.file_system.as_ref().unwrap().project_directory, "/p");
    assert!(!p.click_entry("/p/d", true));
    assert!(p.expanded_folders.contains("/p/d"));
    assert_eq!(p.selected_folder.as_deref(), Some("/p/d"));
    assert!(p.click_entry("/p/f.txt", false));
    assert_eq!(FilePanel::entry_label("src", true), "\u{1F4C1} src");
    assert_eq!(FilePanel::entry_label("a.rs", false), "\u{1F4C4} a.rs");
}

#[test]
fn panel_rename_dialog() {
    let mut p = FilePanel::new();
    assert!(p.confirm_rename().is_none());
    p.request_rename("/p/a.txt".to_string(), "b.txt".to_string());
    let a = p.confirm_rename().unwrap();
    assert_eq!(a.old_path, "/p/a.txt");
    assert_eq!(a.new_path, "/p/b.txt");
    assert_eq!(a.new_name, "b.txt");
    assert!(FilePanel::creates_folder("/p/newdir"));
    assert!(!FilePanel::creates_folder("/p/a.txt"));
    let mut current = Some("/p/a.txt".to_string());
    FilePanel::follow_rename(&mut current, "/p/a.txt", "/p/b.txt");
    assert_eq!(current.as_deref(), Some("/p/b.txt"));
    FilePanel::follow_rename(&mut current, "/p/zzz", "/p/q");
    assert_eq!(current.as_deref(), Some("/p/b.txt"));
    p.finish_rename_dialog("/p/sub/b.txt");
    assert!(p.rename_dialog.is_none());
    assert!(p.expanded_folders.contains("/p/sub"));
    p.request_rename("/p/a".to_string(), "a".to_string());
    p.cancel_rename_dialog();
    assert!(p.rename_dialog.is_none());
}

#[test]
fn panel_new_items_are_named_by_time() {
    let mut p = FilePanel::new();
    assert!(!p.create_new_item_at(false, 5));
    p.open_project("/p".to_string());
    assert!(p.create_new_item_at(false, 1700000000));
    let d = p.rename_dialog.clone().unwrap();
    assert_eq!(d.1, "new_file_1700000000.txt");
    assert_eq!(d.0, j("/p", "new_file_1700000000.txt"));
    p.selected_folder = Some("/p/s".to_string());
    assert!(p.create_new_item_at(true, -3));
    assert_eq!(p.rename_dialog.clone().unwrap().0, j("/p/s", "new_folder_-3"));
    assert!(p.create_new_item(true));
    assert!(p.rename_dialog.clone().unwrap().1.starts_with("new_folder_"));
    assert_eq!(signed_decimal_string(i64::MIN), i64::MIN.to_string());
    assert_eq!(signed_decimal_string(0), "0");
}

#[test]
fn panel_delete_and_save() {
    let mut p = FilePanel::new();
    let mut current = Some("/p/a.txt".to_string());
    let mut code = "text".to_string();
    p.click_entry("/p/a.txt", true);
    p.deleted("/p/a.txt", false, &mut current, &mut code);
    assert!(current.is_none());
    assert_eq!(code, "");
    assert!(!p.expanded_folders.contains("/p/a.txt"));
    assert!(matches!(p.save_current_file(&None), SaveDecision::NoFile));
    assert!(matches!(p.save_current_file(&Some("/p/x".to_string())), SaveDecision::NoFileSystem));
    p.open_project("/p".to_string());
    match p.save_current_file(&Some("/p/x".to_string())) {
        SaveDecision::Save(f) => assert_eq!(f, "/p/x"),
        _ => panic!(),
    }
}
