use zzz::lsp::{frame_message, kotlin_completions, typescript_completions, CompletionKind, ContentChange, DocumentStore};

#[test]
fn messages_carry_their_byte_length() {
    assert_eq!(frame_message("{}"), "Content-Length: 2\r\n\r\n{}");
    assert_eq!(frame_message("é"), "Content-Length: 2\r\n\r\né");
    assert_eq!(frame_message(""), "Content-Length: 0\r\n\r\n");
}

#[test]
fn kotlin_completions_for_a_position() {
    assert!(kotlin_completions(None, 0, 0).is_empty());
    let doc = "class A {\n  var count: Int = 0\n  fun run(x: Int) {}\n  val s = count.\n}";
    let only_keywords = kotlin_completions(Some(doc), 9, 0);
    assert_eq!(only_keywords.len(), 8);
    assert_eq!(only_keywords[0].label, "class");
    assert_eq!(only_keywords[7].label, "while");
    assert_eq!(only_keywords[3].detail, "Kotlin keyword");
    let after_dot = kotlin_completions(Some(doc), 3, 16);
    let labels: Vec<&str> = after_dot.iter().map(|c| c.label.as_str()).collect();
    assert_eq!(labels, vec!["class", "fun", "val", "var", "if", "when", "for", "while", "toString()", "hashCode()", "count", "run"]);
    assert_eq!(after_dot[8].kind, Some(CompletionKind::Method));
    assert_eq!(after_dot[10].kind, Some(CompletionKind::Variable));
    assert_eq!(after_dot[10].detail, "Local variable");
    assert_eq!(after_dot[11].kind, Some(CompletionKind::Function));
    let not_after_dot = kotlin_completions(Some(doc), 3, 3);
    assert_eq!(not_after_dot.len(), 10);
}

#[test]
fn typescript_completions_are_fixed() {
    let c = typescript_completions();
    assert_eq!(c.len(), 6);
    assert_eq!(c[1].label, "useState");
    assert_eq!(c[5].detail, "React Native Text component");
    assert!(c[0].kind.is_none());
}

#[test]
fn documents_follow_their_edits() {
    let mut s = DocumentStore::new();
    assert!(s.get("u").is_none());
    s.did_open("u".to_string(), "hello world".to_string());
    s.did_change("u".to_string(), vec![ContentChange { range: Some((6, 11)), text: "there".to_string() }]);
    assert_eq!(s.get("u").unwrap(), "hello there");
    s.did_change(
        "u".to_string(),
        vec![
            ContentChange { range: Some((0, 0)), text: ">".to_string() },
            ContentChange { range: Some((50, 60)), text: "!".to_string() },
        ],
    );
    assert_eq!(s.get("u").unwrap(), ">hello there!");
    s.did_change("u".to_string(), vec![ContentChange { range: None, text: "new".to_string() }]);
    assert_eq!(s.get("u").unwrap(), "new");
    s.did_change("missing".to_string(), vec![ContentChange { range: None, text: "x".to_string() }]);
    assert!(s.get("missing").is_none());
    s.did_close("u");
    assert!(s.get("u").is_none());
}
