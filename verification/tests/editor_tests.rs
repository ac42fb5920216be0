use std::path::Path;
use zzz::code_editor::{
    Buffer, CodeEditor, CursorPosition, Segment, find_all_occurrences, calculate_line_column, find_str,
    plan_line_segments, highlight_uses_cache, is_selected_line, lines_with_endings, HIGHLIGHT_MILLIS,
};
use zzz::search::{open_search_result, SearchResult, search_lines, perform_current_file_search, file_search_results, excluded_dirs, is_excluded_dir, is_skippable_extension, ProjectSearch, WalkAction, MAX_RESULTS_PER_FILE};
use zzz::project_files::{FileNameSearch, SourceFileCollector, is_text_extension};
use zzz::file_system::{DirectoryEntry, FileSystem, sort_entries, CACHE_TIMEOUT_MILLIS};
use zzz::keyed::KeyedList;
use zzz::paths::file_extension;
use zzz::text::to_chars;

fn j(a: &str, b: &str) -> String {
    Path::new(a).join(b).to_string_lossy().into_owned()
}

fn entry(name: &str, is_dir: bool) -> DirectoryEntry {
    DirectoryEntry { name: name.to_string(), is_dir, size: 0, modified: 0 }
}

#[test]
fn buffers_start_empty_or_with_a_file() {
    let b = Buffer::new();
    assert_eq!(b.content, "");
    assert!(b.file_path.is_none());
    assert_eq!(b.syntax, "Plain Text");
    assert_eq!(b.cursor_position, CursorPosition { line: 0, column: 0 });
    let mut f = Buffer::from_file("x".to_string(), "/a".to_string(), "Rust".to_string());
    assert_eq!(f.file_path.as_deref(), Some("/a"));
    assert!(!f.is_modified);
    f.set_cursor_position(0, 3);
    assert_eq!(f.cursor_position, CursorPosition { line: 0, column: 3 });
    f.set_cursor_position(5, 2);
    assert_eq!(f.cursor_position, CursorPosition { line: 4, column: 2 });
}

#[test]
fn occurrences_overlap() {
    assert_eq!(find_all_occurrences("aaaa", "aa"), vec![(0, 2), (1, 3), (2, 4)]);
    assert_eq!(find_all_occurrences("abcabc", "bc"), vec![(1, 3), (4, 6)]);
    assert!(find_all_occurrences("abc", "x").is_empty());
    assert_eq!(find_str("hello", "ll"), Some(2));
    assert_eq!(find_str("hello", "z"), None);
}

#[test]
fn line_and_column_of_a_position() {
    assert_eq!(calculate_line_column("ab\ncd", 4), (2, 2));
    assert_eq!(calculate_line_column("ab\ncd", 0), (1, 1));
    assert_eq!(calculate_line_column("ab\ncd", 3), (2, 3));
}

#[test]
fn opening_the_same_file_twice_reuses_its_buffer() {
    let mut e = CodeEditor::new();
    let i = e.open_file("a".to_string(), "/a".to_string(), "Plain Text".to_string());
    let k = e.open_file("other".to_string(), "/b".to_string(), "Plain Text".to_string());
    let again = e.open_file("changed".to_string(), "/a".to_string(), "Plain Text".to_string());
    assert_eq!((i, k, again), (0, 1, 0));
    assert_eq!(e.buffers.len(), 2);
    assert_eq!(e.buffers[0].content, "a");
    assert_eq!(e.active_buffer_index, Some(0));
    assert_eq!(e.position_of_file(&"/b".to_string()), Some(1));
}

#[test]
fn closing_buffers_moves_the_active_index() {
    let mut e = CodeEditor::new();
    e.create_new_buffer();
    e.create_new_buffer();
    e.create_new_buffer();
    assert_eq!(e.active_buffer_index, Some(2));
    e.close_buffer(0);
    assert_eq!(e.active_buffer_index, Some(1));
    e.close_buffer(9);
    assert_eq!(e.buffers.len(), 2);
    e.close_buffer(1);
    assert_eq!(e.active_buffer_index, Some(0));
    e.close_buffer(0);
    assert_eq!(e.active_buffer_index, None);
    assert!(e.get_active_buffer().is_none());
    assert_eq!(e.get_active_content(), "");
}

#[test]
fn search_moves_the_cursor_and_highlights_briefly() {
    let mut e = CodeEditor::new();
    e.open_file("hello\nworld".to_string(), "/a".to_string(), "Plain Text".to_string());
    e.search("wor", Some(2), 1000);
    assert_eq!(e.buffers[0].cursor_position, CursorPosition { line: 1, column: 6 });
    assert_eq!(e.search_highlight_text.as_deref(), Some("wor"));
    assert_eq!(e.search_highlight_expires_at, Some(1000 + HIGHLIGHT_MILLIS));
    assert_eq!(e.search_selected_line, Some(2));
    e.clear_expired_highlights(1499);
    assert!(e.search_highlight_text.is_some());
    e.clear_expired_highlights(1500);
    assert!(e.search_highlight_text.is_none());
    e.search("zzz", None, 0);
    assert_eq!(e.buffers[0].cursor_position, CursorPosition { line: 1, column: 6 });
    if let Some(b) = e.get_active_buffer_mut() {
        b.is_modified = true;
    }
    assert!(e.buffers[0].is_modified);
}

#[test]
fn line_segments_for_highlighting() {
    let s = plan_line_segments("xabyab", "ab");
    assert_eq!(s, vec![
        Segment { start: 0, end: 1, highlighted: false },
        Segment { start: 1, end: 3, highlighted: true },
        Segment { start: 3, end: 4, highlighted: false },
        Segment { start: 4, end: 6, highlighted: true },
    ]);
    assert!(highlight_uses_cache(&None, None));
    assert!(!highlight_uses_cache(&Some("a".to_string()), None));
    assert!(is_selected_line(2, Some(3)));
    assert!(!is_selected_line(2, None));
    assert_eq!(lines_with_endings("a\nb"), vec![(0, 2), (2, 3)]);
}

#[test]
fn searching_lines() {
    let r = search_lines("one\ntwo\nbone", "one", &Some("/f".to_string()), None);
    assert_eq!(r.len(), 2);
    assert_eq!((r[0].line_number, r[0].line_content.as_str()), (1, "one"));
    assert_eq!((r[1].line_number, r[1].line_content.as_str()), (3, "bone"));
    assert_eq!(r[1].file_path.as_deref(), Some("/f"));
    let many: String = (0..15).map(|_| "hit\n").collect();
    assert_eq!(file_search_results(&many, "hit", "/m").len(), MAX_RESULTS_PER_FILE);
    let mut e = CodeEditor::new();
    let mut results = Vec::new();
    perform_current_file_search(&e, "x", &mut results);
    assert!(results.is_empty());
    e.open_file("ax\nb\nx".to_string(), "/a".to_string(), "Plain Text".to_string());
    perform_current_file_search(&e, "x", &mut results);
    assert_eq!(results.len(), 2);
}

#[test]
fn exclusions_and_extensions() {
    let ex = excluded_dirs();
    assert_eq!(ex.len(), 25);
    assert!(is_excluded_dir("build", &ex));
    assert!(is_excluded_dir("my_tests", &ex));
    assert!(!is_excluded_dir("src", &ex));
    assert!(is_skippable_extension("png"));
    assert!(!is_skippable_extension("rs"));
    assert!(is_text_extension("kt"));
    assert!(!is_text_extension("png"));
    assert_eq!(file_extension("a.tar.gz").as_deref(), Some("gz"));
    assert_eq!(file_extension(".bashrc"), None);
    assert_eq!(file_extension("Makefile"), None);
}

#[test]
fn project_search_walks_and_reads() {
    let mut s = ProjectSearch::new(&Some("/p".to_string()), true, "  fn  ");
    assert_eq!(s.query, "fn");
    match s.next_action() {
        WalkAction::ListDirectory(d) => assert_eq!(d, "/p"),
        _ => panic!(),
    }
    s.on_listing("/p", Some(vec![entry("a.rs", false), entry("target", true), entry("img.png", false)]));
    let mut read = Vec::new();
    loop {
        match s.next_action() {
            WalkAction::ReadFile(f) => {
                read.push(f.clone());
                s.on_file(Some("fn main() {}\nlet x;\nfn b() {}".to_string()));
            }
            WalkAction::ListDirectory(_) => panic!("excluded folder listed"),
            WalkAction::Done => break,
        }
    }
    assert_eq!(read, vec![j("/p", "a.rs")]);
    assert_eq!(s.results.len(), 2);
    assert_eq!(s.results[1].line_number, 3);
    let mut short = ProjectSearch::new(&Some("/p".to_string()), true, " f ");
    assert!(matches!(short.next_action(), WalkAction::Done));
}

#[test]
fn file_name_search_and_source_collection() {
    let mut s = FileNameSearch::new(&Some("/p".to_string()), true, "KT");
    let mut listed = Vec::new();
    loop {
        match s.next_action() {
            WalkAction::ListDirectory(d) => {
                listed.push(d.clone());
                if d == "/p" {
                    s.on_listing(&d, Some(vec![entry("src", true), entry("Main.kt", false), entry("build", true)]));
                } else {
                    s.on_listing(&d, Some(vec![entry("App.KT", false), entry("notes.md", false)]));
                }
            }
            WalkAction::ReadFile(_) => panic!(),
            WalkAction::Done => break,
        }
    }
    let mut found = s.results.clone();
    found.sort();
    let mut expected = vec![j("/p", "Main.kt"), j(&j("/p", "src"), "App.KT")];
    expected.sort();
    assert_eq!(found, expected);
    assert_eq!(listed.len(), 2);
    let mut c = SourceFileCollector::new(&Some("/p".to_string()), true);
    loop {
        match c.next_action() {
            WalkAction::ListDirectory(d) => c.on_listing(&d, Some(vec![entry("a.rs", false), entry("b.png", false), entry("noext", false)])),
            WalkAction::ReadFile(_) => panic!(),
            WalkAction::Done => break,
        }
    }
    assert_eq!(c.paths, vec![j("/p", "a.rs")]);
    let mut none = SourceFileCollector::new(&None, true);
    assert!(matches!(none.next_action(), WalkAction::Done));
}

#[test]
fn listings_sort_and_cache() {
    let sorted = sort_entries(vec![entry("b", false), entry("a", true), entry("c", true), entry("A", false)]);
    let names: Vec<&str> = sorted.iter().map(|e| e.name.as_str()).collect();
    assert_eq!(names, vec!["a", "c", "A", "b"]);
    let mut fs = FileSystem::new("/p");
    assert_eq!(fs.get_project_directory(), "/p");
    let listed = fs.list_directory("/p", vec![entry("z", false), entry("d", true)], 1000);
    assert_eq!(listed[0].name, "d");
    assert_eq!(fs.get_cached_directory_entries("/p", 1000 + CACHE_TIMEOUT_MILLIS - 1).unwrap().len(), 2);
    assert!(fs.get_cached_directory_entries("/p", 1000 + CACHE_TIMEOUT_MILLIS).is_none());
    fs.cache_file_content("/p/z", "zz", 5);
    assert_eq!(fs.get_cached_file_content("/p/z", 6).as_deref(), Some("zz"));
    let created = fs.file_created("/p", "n.txt");
    assert_eq!(created, j("/p", "n.txt"));
    assert!(fs.get_cached_directory_entries("/p", 1001).is_none());
    fs.file_renamed("/p/z", "/p/y", 7);
    assert!(fs.get_cached_file_content("/p/z", 8).is_none());
    assert_eq!(fs.get_cached_file_content("/p/y", 8).as_deref(), Some("zz"));
    fs.file_saved("/p/s.txt", "saved", 9);
    assert_eq!(fs.get_cached_file_content("/p/s.txt", 10).as_deref(), Some("saved"));
    fs.file_deleted("/p/s.txt");
    assert!(fs.get_cached_file_content("/p/s.txt", 10).is_none());
    fs.directory_created("/p/new");
    assert_eq!(FileSystem::too_large_message(11_000_000), "File too large to open (11000000 bytes)");
    assert!(FileSystem::is_too_large(10_000_001));
    assert!(!FileSystem::is_too_large(10_000_000));
}

#[test]
fn keyed_list_is_a_map() {
    let mut k: KeyedList<u32> = KeyedList::new();
    k.insert("a".to_string(), 1);
    k.insert("b".to_string(), 2);
    k.insert("a".to_string(), 3);
    assert_eq!(k.get("a"), Some(&3));
    assert_eq!(k.position("b"), Some(1));
    assert_eq!(k.remove("a"), Some(3));
    assert_eq!(k.get("a"), None);
    assert_eq!(to_chars("hé"), vec!['h', 'é']);
}

#[test]
fn jumping_to_a_result_selects_the_match() {
    let mut e = CodeEditor::new();
    e.open_file("first\nsecond line\nthird".to_string(), "/a".to_string(), "Plain Text".to_string());
    e.buffers[0].is_modified = true;
    let r = SearchResult { line_number: 2, line_content: "second line".to_string(), file_path: Some("/a".to_string()) };
    open_search_result(&mut e, &r, "line", 100);
    assert_eq!(e.selected_match_position, Some((13, 17)));
    assert_eq!(e.buffers[0].cursor_position, CursorPosition { line: 1, column: 7 });
    assert!(!e.buffers[0].is_modified);
    assert_eq!(e.search_selected_line, Some(2));
    assert_eq!(e.search_highlight_expires_at, Some(600));
    open_search_result(&mut e, &r, "absent", 100);
    assert!(e.selected_match_position.is_none());
}

#[test]
fn closing_outside_the_buffers_changes_nothing() {
    let mut e = CodeEditor::new();
    e.open_file("a".to_string(), "/a".to_string(), "Plain Text".to_string());
    e.open_file("b".to_string(), "/b".to_string(), "Plain Text".to_string());
    e.search_highlight_text = Some("x".to_string());
    e.close_buffer(5);
    assert_eq!(e.buffers.len(), 2);
    assert_eq!(e.active_buffer_index, Some(1));
    e.close_buffer(0);
    assert_eq!(e.active_buffer_index, Some(0));
    assert_eq!(e.buffers[0].content, "b");
    assert_eq!(e.search_highlight_text.as_deref(), Some("x"));
}

#[test]
fn segments_cover_the_line() {
    let segs = plan_line_segments("ab ab c", "ab");
    let mut at = 0;
    for s in &segs {
        assert_eq!(s.start, at);
        assert!(s.start < s.end);
        at = s.end;
    }
    assert_eq!(at, "ab ab c".len());
}

#[test]
fn caches_key_paths_as_they_compare() {
    let mut fs = FileSystem::new("/p");
    let listed = fs.list_directory("/p/src/", vec![entry("a.rs", false)], 1000);
    assert_eq!(listed.len(), 1);
    assert_eq!(fs.get_cached_directory_entries("/p/src", 2000).map(|v| v.len()), Some(1));
    fs.file_saved("/p/src//main.rs", "fn main() {}", 3000);
    assert_eq!(fs.get_cached_file_content("/p/src/main.rs", 3100).as_deref(), Some("fn main() {}"));
    assert!(fs.get_cached_directory_entries("/p/src", 3100).is_none());
}
