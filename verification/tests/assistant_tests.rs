use zzz::ai_assistant::{
    extract_code_block, next_request_step, compose_reply, is_blank, AIAssistant, AttemptOutcome,
    RequestStep, ReplySource, MAX_CHAT_HISTORY, MAX_DEBUG_MESSAGES, RETRY_DELAY_MS,
};
use zzz::code_editor::CodeEditor;

#[test]
fn code_block_takes_the_first_fenced_block() {
    let reply = "Here:\n```kotlin\nfun main() {}\nval x = 1\n```\nBye";
    assert_eq!(extract_code_block(reply), "fun main() {}\nval x = 1");
}

#[test]
fn code_block_runs_to_the_end_when_unclosed() {
    assert_eq!(extract_code_block("```\na\nb"), "a\nb");
}

#[test]
fn code_block_falls_back_to_code_like_lines() {
    let reply = "Use this:\nclass A {\n  .padding(2)\nplain words\n}";
    assert_eq!(extract_code_block(reply), "class A {\n  .padding(2)\n}");
    assert_eq!(extract_code_block("```\n```\nimport x\nhello"), "import x");
    assert_eq!(extract_code_block("nothing here"), "");
}

#[test]
fn api_key_needs_32_bytes_and_a_visible_character() {
    assert!(AIAssistant::new("a".repeat(32)).is_api_key_valid());
    assert!(!AIAssistant::new("a".repeat(31)).is_api_key_valid());
    assert!(!AIAssistant::new(" ".repeat(40)).is_api_key_valid());
    let mut k = " ".repeat(39);
    k.push('k');
    assert!(AIAssistant::new(k).is_api_key_valid());
}

#[test]
fn new_assistant_defaults() {
    let a = AIAssistant::new("key".to_string());
    assert_eq!(a.model, "Qwen/Qwen2.5-Coder-32B-Instruct");
    assert_eq!(a.context_window, 5);
    assert!(a.chat_history.is_empty());
    assert!(!a.is_loading);
}

#[test]
fn debug_messages_keep_the_last_ten() {
    let mut a = AIAssistant::new(String::new());
    for i in 0..12 {
        a.add_debug_message(format!("m{}", i));
    }
    assert_eq!(a.debug_messages.len(), MAX_DEBUG_MESSAGES);
    assert_eq!(a.debug_messages[0], "m2");
    assert_eq!(a.debug_messages[9], "m11");
}

#[test]
fn history_keeps_the_last_hundred() {
    let mut a = AIAssistant::new(String::new());
    for i in 0..101 {
        a.add_message_at(format!("m{}", i), i % 2 == 0, "10:00".to_string());
    }
    assert_eq!(a.chat_history.len(), MAX_CHAT_HISTORY);
    assert_eq!(a.chat_history[0].content, "m1");
    assert_eq!(a.chat_history[99].content, "m100");
    assert!(a.scroll_to_bottom);
}

#[test]
fn messages_are_stamped_with_the_time_of_day() {
    let mut a = AIAssistant::new(String::new());
    a.add_message("hi".to_string(), true);
    let ts = &a.chat_history[0].timestamp;
    assert_eq!(ts.len(), 5);
    assert_eq!(ts.as_bytes()[2], b':');
    assert!(ts.chars().enumerate().all(|(i, c)| i == 2 || c.is_ascii_digit()));
}

#[test]
fn chat_request_carries_prompt_window_and_question() {
    let mut a = AIAssistant::new(String::new());
    a.select_context_file("a.rs".to_string());
    a.context_files[0].content = "fn a() {}".to_string();
    a.select_context_file("b.rs".to_string());
    a.context_files[1].is_active = false;
    for i in 0..7 {
        a.add_message_at(format!("q{}", i), i % 2 == 0, "09:30".to_string());
    }
    let msgs = a.format_chat_messages("X", "Why?");
    assert_eq!(msgs.len(), 7);
    assert_eq!(msgs[0].role, "system");
    assert_eq!(
        msgs[0].content,
        "You are an AI programming assistant in an IDE. You have access to the following files:\n\nFile: a.rs\n```\nfn a() {}\n```\n\nCurrent File:\n```\nX\n```"
    );
    assert_eq!(msgs[1].role, "user");
    assert_eq!(msgs[1].content, "q0");
    assert_eq!(msgs[2].role, "assistant");
    assert_eq!(msgs[5].content, "q4");
    assert_eq!(msgs[6].role, "user");
    assert_eq!(msgs[6].content, "Why?");
    let bare = AIAssistant::new(String::new()).format_chat_messages("", "Q");
    assert_eq!(bare.len(), 2);
    assert_eq!(
        bare[0].content,
        "You are an AI programming assistant in an IDE. You have access to the following files:\n\n"
    );
}

#[test]
fn retries_stop_after_three_attempts() {
    assert!(matches!(next_request_step(0, AttemptOutcome::TooManyRequests), RequestStep::RetryAfter(d) if d == RETRY_DELAY_MS));
    assert!(matches!(next_request_step(1, AttemptOutcome::ConnectFailed), RequestStep::RetryAfter(1000)));
    match next_request_step(2, AttemptOutcome::TimedOut) {
        RequestStep::Finished(Err(e)) => assert_eq!(e, "Max retries exceeded"),
        _ => panic!("expected to give up"),
    }
    match next_request_step(2, AttemptOutcome::InternalServerError) {
        RequestStep::Finished(Err(e)) => assert_eq!(e, "Max retries exceeded"),
        _ => panic!("expected to give up"),
    }
}

#[test]
fn final_outcomes_end_the_request() {
    match next_request_step(0, AttemptOutcome::Success("body".to_string())) {
        RequestStep::Finished(Ok(b)) => assert_eq!(b, "body"),
        _ => panic!(),
    }
    match next_request_step(0, AttemptOutcome::ErrorStatus("404 Not Found".to_string())) {
        RequestStep::Finished(Err(e)) => assert_eq!(e, "API returned error status: 404 Not Found"),
        _ => panic!(),
    }
    match next_request_step(1, AttemptOutcome::NetworkError("dns".to_string())) {
        RequestStep::Finished(Err(e)) => assert_eq!(e, "Network error: dns"),
        _ => panic!(),
    }
    match next_request_step(0, AttemptOutcome::ReadFailed("eof".to_string())) {
        RequestStep::Finished(Err(e)) => assert_eq!(e, "Failed to read response: eof"),
        _ => panic!(),
    }
}

#[test]
fn replies_read_as_the_chat_shows_them() {
    assert_eq!(compose_reply(ReplySource::FirstChoice(Some("  hi \n".to_string()))), "hi");
    assert_eq!(compose_reply(ReplySource::FirstChoice(None)), "No response generated");
    assert_eq!(
        compose_reply(ReplySource::ParseFailed("bad".to_string(), "raw".to_string())),
        "Error parsing response: bad. Raw response: raw"
    );
    assert_eq!(compose_reply(ReplySource::RequestFailed("x".to_string())), "Request failed: x");
}

#[test]
fn error_replies_also_go_to_debug() {
    let mut a = AIAssistant::new(String::new());
    a.is_loading = true;
    a.receive_response_at("Error parsing response: e".to_string(), "11:11".to_string());
    assert_eq!(a.debug_messages.len(), 1);
    assert_eq!(a.last_ai_response.as_deref(), Some("Error parsing response: e"));
    assert!(!a.is_loading);
    assert!(!a.chat_history[0].is_user);
    a.receive_response_at("Request failed: x".to_string(), "11:12".to_string());
    assert_eq!(a.debug_messages.len(), 1);
    a.receive_response("Network error: y".to_string());
    assert_eq!(a.debug_messages.len(), 2);
    assert_eq!(a.chat_history.len(), 3);
}

#[test]
fn blank_questions_are_not_sent() {
    let mut a = AIAssistant::new(String::new());
    a.input_text = "  \n".to_string();
    assert!(a.submit_question_at("", "08:00".to_string()).is_none());
    assert_eq!(a.input_text, "  \n");
    a.input_text = "How?".to_string();
    let msgs = a.submit_question_at("code", "08:01".to_string()).unwrap();
    assert!(a.is_loading);
    assert_eq!(a.input_text, "");
    assert_eq!(a.chat_history[0].content, "How?");
    assert_eq!(msgs.last().unwrap().content, "How?");
    assert_eq!(msgs.len(), 3);
    a.input_text = "Again".to_string();
    assert!(a.submit_question("").is_none());
    assert!(is_blank(" \t"));
    assert!(!is_blank(" x "));
}

#[test]
fn applying_code_fills_the_active_buffer() {
    let mut a = AIAssistant::new(String::new());
    let mut ed = CodeEditor::new();
    a.last_ai_response = Some("```\n  let x = 1;  \n```".to_string());
    assert!(a.has_code_block());
    assert!(!a.apply_code(&mut ed));
    assert!(a.last_ai_response.is_some());
    ed.create_new_buffer();
    assert!(a.apply_code(&mut ed));
    assert_eq!(ed.buffers[0].content, "let x = 1;");
    assert!(ed.buffers[0].is_modified);
    assert!(a.last_ai_response.is_none());
    assert!(!a.has_code_block());
}

#[test]
fn context_files_follow_the_selection() {
    let mut a = AIAssistant::new(String::new());
    a.select_context_file("a.rs".to_string());
    a.select_context_file("a.rs".to_string());
    a.select_context_file("b.rs".to_string());
    assert_eq!(a.selected_files, vec!["a.rs".to_string(), "b.rs".to_string()]);
    assert_eq!(a.context_files.len(), 2);
    assert!(a.context_files[0].is_active);
    a.deselect_context_file("a.rs");
    assert_eq!(a.selected_files, vec!["b.rs".to_string()]);
    assert_eq!(a.context_files.len(), 1);
    a.remove_context_file(0);
    assert!(a.selected_files.is_empty());
    assert!(a.context_files.is_empty());
    a.remove_context_file(3);
}

#[test]
fn settings_are_replaced() {
    let mut a = AIAssistant::new(String::new());
    a.update_model("m".to_string());
    a.update_api_key("k".to_string());
    a.update_available_files(vec!["x".to_string()]);
    assert_eq!(a.model, "m");
    assert_eq!(a.api_key, "k");
    assert_eq!(a.available_files.len(), 1);
}

#[test]
fn replies_wait_while_the_key_is_unusable() {
    let mut a = AIAssistant::new("short".to_string());
    a.is_loading = true;
    let kept = a.receive_pending_at(vec!["one".to_string(), "two".to_string()], "10:00".to_string());
    assert_eq!(kept, vec!["one".to_string(), "two".to_string()]);
    assert!(a.chat_history.is_empty());
    assert!(a.is_loading);
    a.update_api_key("k".repeat(32));
    let kept = a.receive_pending_at(kept, "10:01".to_string());
    assert!(kept.is_empty());
    assert_eq!(a.chat_history.len(), 2);
    assert_eq!(a.chat_history[0].content, "one");
    assert_eq!(a.chat_history[1].content, "two");
    assert!(!a.chat_history[1].is_user);
    assert_eq!(a.chat_history[1].timestamp, "10:01");
    assert_eq!(a.last_ai_response.as_deref(), Some("two"));
    assert!(!a.is_loading);
    let kept = a.receive_pending_at(vec!["Error: boom".to_string()], "10:02".to_string());
    assert!(kept.is_empty());
    assert_eq!(a.debug_messages.back().map(|s| s.as_str()), Some("Error: boom"));
}
