use moeb::compaction::compact_history;
use moeb::messages::{Message, ToolCall};

fn tool_result(call_id: &str, content: &str) -> Message {
    Message::ToolResult { call_id: call_id.to_string(), content: content.to_string() }
}

fn assistant_tool_calls(id: &str) -> Message {
    Message::AssistantToolCalls(vec![ToolCall {
        id: id.to_string(),
        name: "read_file".to_string(),
        arguments: "{}".to_string(),
    }])
}

fn big_content(n: usize) -> String {
    "x".repeat(n)
}

#[test]
fn below_threshold_no_compaction() {
    let mut messages = vec![
        Message::User("prompt".to_string()),
        assistant_tool_calls("c1"),
        tool_result("c1", "small content"),
    ];
    let result = compact_history(&mut messages, 100_000, 3);
    assert!(result.is_none(), "should not compact below threshold");
    if let Message::ToolResult { content, .. } = &messages[2] {
        assert_eq!(content, "small content");
    }
}

#[test]
fn above_threshold_old_results_compacted() {
    let large = big_content(50_000);
    let mut messages = vec![
        Message::User("prompt".to_string()),
        assistant_tool_calls("c1"),
        tool_result("c1", &large),
        tool_result("c2", &large),
        assistant_tool_calls("c3"),
        tool_result("c3", &large),
        assistant_tool_calls("c4"),
        tool_result("c4", &large),
    ];
    let stats = compact_history(&mut messages, 80_000, 1).expect("should compact");
    assert_eq!(stats.messages_compacted, 3);
    assert!(stats.chars_after < stats.chars_before);
    if let Message::ToolResult { content, .. } = &messages[2] {
        assert!(content.starts_with("[compacted:"), "c1 should be compacted");
    }
    if let Message::ToolResult { content, .. } = &messages[3] {
        assert!(content.starts_with("[compacted:"), "c2 should be compacted");
    }
    if let Message::ToolResult { content, .. } = &messages[5] {
        assert!(content.starts_with("[compacted:"), "c3 should be compacted");
    }
    if let Message::ToolResult { content, .. } = &messages[7] {
        assert_eq!(content.len(), large.len(), "c4 should be untouched");
    }
}

#[test]
fn keep_window_respected() {
    let large = big_content(30_000);
    let mut messages = vec![
        Message::User("prompt".to_string()),
        assistant_tool_calls("c1"),
        tool_result("c1", &large),
        assistant_tool_calls("c2"),
        tool_result("c2", &large),
        assistant_tool_calls("c3"),
        tool_result("c3", &large),
    ];
    let result = compact_history(&mut messages, 80_000, 3);
    assert!(result.is_none(), "all 3 turns are in the keep window");
}

#[test]
fn no_double_compaction() {
    let large = big_content(50_000);
    let already = "[compacted: c1, 50000 chars]";
    let mut messages = vec![
        Message::User("prompt".to_string()),
        assistant_tool_calls("c1"),
        tool_result("c1", already),
        tool_result("c2", &large),
        assistant_tool_calls("c3"),
        tool_result("c3", &large),
        assistant_tool_calls("c4"),
        tool_result("c4", &large),
    ];
    let stats = compact_history(&mut messages, 80_000, 1).expect("should compact");
    assert_eq!(stats.messages_compacted, 2, "only 2 non-compacted candidates");
    if let Message::ToolResult { content, .. } = &messages[2] {
        assert_eq!(content, already, "already-compacted must not be modified");
    }
}

#[test]
fn single_turn_nothing_to_compact() {
    let large = big_content(100_000);
    let mut messages = vec![
        Message::User("prompt".to_string()),
        assistant_tool_calls("c1"),
        tool_result("c1", &large),
    ];
    let result = compact_history(&mut messages, 80_000, 3);
    assert!(result.is_none(), "single turn: nothing outside keep window");
}

#[test]
fn summary_line_names_call_and_byte_count() {
    let mut messages = vec![
        Message::User("prompt".to_string()),
        assistant_tool_calls("c1"),
        tool_result("c1", "héllo"),
        assistant_tool_calls("c2"),
        tool_result("c2", "ok"),
    ];
    let stats = compact_history(&mut messages, 3, 1).expect("should compact");
    assert_eq!(stats.chars_before, 8);
    assert_eq!(stats.messages_compacted, 1);
    match &messages[2] {
        Message::ToolResult { call_id, content } => {
            assert_eq!(call_id, "c1");
            assert_eq!(content, "[compacted: c1, 6 chars]");
        }
        _ => panic!("tool result expected"),
    }
    assert_eq!(stats.chars_after, "[compacted: c1, 6 chars]".len() + 2);
}

#[test]
fn compaction_is_idempotent_on_concrete_history() {
    let large = big_content(1_000);
    let mut messages = vec![
        Message::User("prompt".to_string()),
        assistant_tool_calls("c1"),
        tool_result("c1", &large),
        assistant_tool_calls("c2"),
        tool_result("c2", &large),
    ];
    assert!(compact_history(&mut messages, 10, 1).is_some());
    let snapshot: Vec<String> = messages.iter().map(|m| format!("{:?}", m)).collect();
    assert!(compact_history(&mut messages, 10, 1).is_none());
    let again: Vec<String> = messages.iter().map(|m| format!("{:?}", m)).collect();
    assert_eq!(snapshot, again);
}

#[test]
fn zero_keep_turns_compacts_every_result() {
    let mut messages = vec![
        Message::User("prompt".to_string()),
        assistant_tool_calls("c1"),
        tool_result("c1", "abcdef"),
    ];
    let stats = compact_history(&mut messages, 1, 0).expect("should compact");
    assert_eq!(stats.messages_compacted, 1);
}
