use moeb::messages::Message;
use moeb::replay::{plan_replay, replay_attempt, ReplayError, ReplayEvent};

fn envelope_with_hash_tool_call() -> Vec<ReplayEvent> {
    vec![
        ReplayEvent::TurnStart { attempt: 1, turn: 1, messages: vec![Message::User("hello".to_string())] },
        ReplayEvent::ToolCall {
            attempt: 1,
            turn: 1,
            call_id: "call-abc123".to_string(),
            tool: "read_file".to_string(),
            args: "{\"path\":\"src/main.rs\"}".to_string(),
            result: None,
        },
        ReplayEvent::Other,
        ReplayEvent::AgentFinished { attempt: 1, completed: true },
    ]
}

#[test]
fn replay_fails_on_hash_only_tool_call() {
    let events = envelope_with_hash_tool_call();
    let err = match plan_replay(&events, None) {
        Err(e) => e,
        Ok(_) => panic!("expected a refusal"),
    };
    let msg = err.message();
    assert!(msg.contains("not fully replayable"), "expected 'not fully replayable', got: {}", msg);
    assert!(msg.contains("call-abc123"), "expected call_id 'call-abc123', got: {}", msg);
    assert_eq!(
        msg,
        "Error: trace is not fully replayable. The following tool calls have hash-only content:\n  attempt 1, turn 1, call_id \"call-abc123\", tool \"read_file\", args {\"path\":\"src/main.rs\"}\nTo capture full content, re-run with: moeb run --embed-files <spec>\nOr set: moeb configure LOG_FILE_CONTENT true"
    );
}

#[test]
fn replay_picks_last_completed_then_highest_attempt() {
    let events = vec![
        ReplayEvent::AgentFinished { attempt: 1, completed: true },
        ReplayEvent::TurnStart { attempt: 3, turn: 1, messages: vec![] },
        ReplayEvent::AgentFinished { attempt: 2, completed: true },
        ReplayEvent::AgentFinished { attempt: 3, completed: false },
    ];
    assert_eq!(replay_attempt(&events, None), 2);
    assert_eq!(replay_attempt(&events, Some(7)), 7);
    let events = vec![
        ReplayEvent::TurnStart { attempt: 4, turn: 1, messages: vec![] },
        ReplayEvent::ToolCall { attempt: 2, turn: 1, call_id: "c".into(), tool: "t".into(), args: "{}".into(), result: None },
        ReplayEvent::HttpRequest { attempt: 9, response_status: 200 },
    ];
    assert_eq!(replay_attempt(&events, None), 4);
    assert_eq!(replay_attempt(&vec![ReplayEvent::Other], None), 1);
}

#[test]
fn replay_plan_collects_answers_and_results() {
    let events = vec![
        ReplayEvent::TurnStart { attempt: 1, turn: 1, messages: vec![Message::User("p".into())] },
        ReplayEvent::HttpRequest { attempt: 1, response_status: 0 },
        ReplayEvent::HttpRequest { attempt: 1, response_status: 200 },
        ReplayEvent::ToolCall { attempt: 1, turn: 1, call_id: "a".into(), tool: "t".into(), args: "{}".into(), result: Some("r1".into()) },
        ReplayEvent::ToolCall { attempt: 2, turn: 1, call_id: "b".into(), tool: "t".into(), args: "{}".into(), result: None },
        ReplayEvent::ToolCall { attempt: 1, turn: 2, call_id: "a".into(), tool: "t".into(), args: "{}".into(), result: Some("r2".into()) },
        ReplayEvent::HttpRequest { attempt: 1, response_status: 429 },
        ReplayEvent::AgentFinished { attempt: 1, completed: true },
    ];
    let plan = match plan_replay(&events, None) {
        Ok(p) => p,
        Err(e) => panic!("{}", e.message()),
    };
    assert_eq!(plan.attempt, 1);
    assert_eq!(plan.responses, vec![2, 6]);
    assert_eq!(plan.results.get("a").map(|s| s.as_str()), Some("r2"));
    assert!(plan.results.get("b").is_none());
    assert_eq!(plan.initial_messages.len(), 1);
}

#[test]
fn replay_needs_a_first_turn() {
    let events = vec![ReplayEvent::AgentFinished { attempt: 2, completed: true }];
    match plan_replay(&events, None) {
        Err(e) => {
            assert!(matches!(e, ReplayError::NoInitialMessages { attempt: 2 }));
            assert_eq!(e.message(), "Cannot replay: no TurnStart event for attempt 2 turn 1 found in trace.");
        }
        Ok(_) => panic!("expected a refusal"),
    }
}
