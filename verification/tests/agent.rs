use std::collections::VecDeque;

use moeb::agent::{arguments_error, continue_nudge, send_failure, truncate, AgentLoop, CompactionConfig, FinishReason, Reply, TurnStart, MAX_TURNS};
use moeb::messages::{AgentResponse, Message, ToolCall};

fn write_file_call(path: &str, content: &str) -> ToolCall {
    ToolCall {
        id: "c1".to_string(),
        name: "write_file".to_string(),
        arguments: format!("{{\"path\":\"{}\",\"content\":\"{}\"}}", path, content),
    }
}

/// Runs a run-mode loop against queued answers; tools always succeed.
fn run_stub(responses: Vec<AgentResponse>) -> Result<(String, FinishReason), String> {
    let mut queue: VecDeque<AgentResponse> = responses.into_iter().collect();
    let mut agent = AgentLoop::new(vec![Message::User("prompt".into())], 50, true, CompactionConfig::default());
    loop {
        match agent.begin_turn() {
            TurnStart::Exhausted => return Ok((String::new(), FinishReason::MaxTurns)),
            TurnStart::Send { .. } => {}
        }
        let response = queue.pop_front().ok_or_else(|| "no more queued responses".to_string())?;
        match agent.on_response(response, continue_nudge(false, &vec![])) {
            Reply::Finish { text, reason } => return Ok((text, reason)),
            Reply::Continue => {}
            Reply::RunTools(calls) => {
                for call in calls {
                    agent.record_tool_result(call.id.clone(), Ok("ok".to_string()));
                }
            }
        }
    }
}

#[test]
fn text_turn_without_write_does_not_terminate_loop() {
    let out = run_stub(vec![
        AgentResponse::Text("let me start".into()),
        AgentResponse::ToolCalls(vec![write_file_call("src/x.rs", "content")]),
        AgentResponse::Text("Done.".into()),
    ]);
    assert_eq!(out.unwrap().0, "Done.");
}

#[test]
fn three_consecutive_text_turns_terminates_with_warning() {
    let out = run_stub(vec![
        AgentResponse::Text("thinking\u{2026}".into()),
        AgentResponse::Text("thinking\u{2026}".into()),
        AgentResponse::Text("thinking\u{2026}".into()),
    ]);
    assert!(out.is_ok());
    assert_eq!(out.unwrap().1, FinishReason::MaxTurns);
}

#[test]
fn text_turn_after_write_terminates_immediately() {
    let out = run_stub(vec![
        AgentResponse::ToolCalls(vec![write_file_call("src/y.rs", "y")]),
        AgentResponse::Text("Implementation complete.".into()),
    ]);
    assert_eq!(out.unwrap(), ("Implementation complete.".to_string(), FinishReason::Completion));
}

#[test]
fn consecutive_text_counter_resets_on_tool_call() {
    let out = run_stub(vec![
        AgentResponse::Text("planning".into()),
        AgentResponse::Text("planning".into()),
        AgentResponse::ToolCalls(vec![write_file_call("src/z.rs", "z")]),
        AgentResponse::Text("planning again".into()),
    ]);
    assert_eq!(out.unwrap(), ("planning again".to_string(), FinishReason::Completion));
}

#[test]
fn plain_loop_finishes_on_first_text() {
    let mut agent = AgentLoop::new(vec![Message::User("hi".into())], 5, false, CompactionConfig::default());
    assert!(matches!(agent.begin_turn(), TurnStart::Send { turn: 1, compaction: None }));
    match agent.on_response(AgentResponse::Text("answer".into()), String::new()) {
        Reply::Finish { text, reason } => {
            assert_eq!(text, "answer");
            assert_eq!(reason, FinishReason::Completion);
        }
        _ => panic!("expected the loop to finish"),
    }
    assert!(agent.is_finished());
}

#[test]
fn loop_stops_after_max_turns() {
    let mut agent = AgentLoop::new(vec![Message::User("hi".into())], 2, true, CompactionConfig::default());
    for expected in 1..=2usize {
        match agent.begin_turn() {
            TurnStart::Send { turn, .. } => assert_eq!(turn, expected),
            TurnStart::Exhausted => panic!("turn {} should be allowed", expected),
        }
        let calls = vec![ToolCall { id: "r".into(), name: "read_file".into(), arguments: "{}".into() }];
        match agent.on_response(AgentResponse::ToolCalls(calls), String::new()) {
            Reply::RunTools(cs) => assert_eq!(cs.len(), 1),
            _ => panic!("expected tools to run"),
        }
        agent.record_tool_result("r".into(), Err("boom".into()));
    }
    assert!(matches!(agent.begin_turn(), TurnStart::Exhausted));
    assert!(agent.is_finished());
    assert_eq!(agent.turns(), 2);
}

#[test]
fn history_records_nudges_and_tool_errors() {
    let mut agent = AgentLoop::new(vec![Message::User("p".into())], 10, true, CompactionConfig::default());
    agent.begin_turn();
    assert!(matches!(agent.on_response(AgentResponse::Text("plan".into()), "go on".into()), Reply::Continue));
    agent.begin_turn();
    let calls = vec![ToolCall { id: "t1".into(), name: "run".into(), arguments: "{}".into() }];
    agent.on_response(AgentResponse::ToolCalls(calls), String::new());
    agent.record_tool_result("t1".into(), Err("no such file".into()));
    let ms = agent.messages();
    assert_eq!(ms.len(), 5);
    assert!(matches!(&ms[1], Message::Assistant(t) if t == "plan"));
    assert!(matches!(&ms[2], Message::User(t) if t == "go on"));
    assert!(matches!(&ms[3], Message::AssistantToolCalls(cs) if cs.len() == 1));
    assert!(matches!(&ms[4], Message::ToolResult { call_id, content } if call_id == "t1" && content == "Error: no such file"));
}

#[test]
fn compaction_runs_before_a_turn_when_enabled() {
    let big = "x".repeat(100);
    let messages = vec![
        Message::User("p".into()),
        Message::AssistantToolCalls(vec![ToolCall { id: "a".into(), name: "read".into(), arguments: "{}".into() }]),
        Message::ToolResult { call_id: "a".into(), content: big.clone() },
        Message::AssistantToolCalls(vec![ToolCall { id: "b".into(), name: "read".into(), arguments: "{}".into() }]),
        Message::ToolResult { call_id: "b".into(), content: big },
    ];
    let cfg = CompactionConfig { enabled: true, threshold: 50, keep_turns: 1 };
    let mut agent = AgentLoop::new(messages, 10, true, cfg);
    match agent.begin_turn() {
        TurnStart::Send { turn, compaction: Some(stats) } => {
            assert_eq!(turn, 1);
            assert_eq!(stats.chars_before, 200);
            assert_eq!(stats.messages_compacted, 1);
        }
        _ => panic!("expected a compaction"),
    }
    assert!(matches!(&agent.messages()[2], Message::ToolResult { content, .. } if content == "[compacted: a, 100 chars]"));
}

#[test]
fn prompt_loop_defaults() {
    let agent = AgentLoop::for_prompt("do it");
    assert_eq!(agent.messages().len(), 1);
    assert_eq!(agent.turns(), 0);
    assert_eq!(MAX_TURNS, 50);
    let d = CompactionConfig::default();
    assert!(!d.enabled);
    assert_eq!(d.threshold, 80_000);
    assert_eq!(d.keep_turns, 3);
}

#[test]
fn nudge_texts() {
    assert_eq!(
        continue_nudge(false, &vec![]),
        "Continue. Call create_task_list with your numbered plan, then call write_file (or other tools) to implement the next step."
    );
    assert_eq!(
        continue_nudge(true, &vec![]),
        "Continue. All tasks complete \u{2014} call verify_rubrics with your rubric verdicts, then provide your completion summary."
    );
    let pending = vec![("1".to_string(), "write parser".to_string()), ("2".to_string(), "add tests".to_string())];
    assert_eq!(
        continue_nudge(true, &pending),
        "Continue. Remaining tasks: [1] write parser; [2] add tests. Call write_file (or other tools) to implement the next step."
    );
}

#[test]
fn truncate_cuts_long_text() {
    assert_eq!(truncate("short", 120), "short");
    assert_eq!(truncate("abcdef", 3), "abc\u{2026}");
    assert_eq!(truncate("héllo", 3), "hé\u{2026}");
    assert_eq!(truncate("abc", 3), "abc");
}

#[test]
fn prompt_loop_ends_at_first_text() {
    let mut agent = AgentLoop::for_prompt("do it");
    assert!(matches!(agent.begin_turn(), TurnStart::Send { turn: 1, .. }));
    match agent.on_response(AgentResponse::Text("done".into()), continue_nudge(false, &vec![])) {
        Reply::Finish { text, reason } => {
            assert_eq!(text, "done");
            assert_eq!(reason, FinishReason::Completion);
        }
        _ => panic!("a plain-text answer must end the prompt loop"),
    }
    assert!(agent.is_finished());
    assert_eq!(agent.turns(), 1);
}

#[test]
fn turn_failure_texts() {
    assert_eq!(send_failure(7), "AI adapter call failed on turn 7");
    let good = ToolCall { id: "c".into(), name: "read_file".into(), arguments: "{\"path\":\"a\"}".into() };
    assert_eq!(arguments_error(&good), None);
    let bad = ToolCall { id: "c".into(), name: "read_file".into(), arguments: "{path:".into() };
    assert_eq!(arguments_error(&bad).as_deref(), Some("Invalid JSON arguments for tool 'read_file'"));
}

#[test]
fn bad_arguments_and_send_failures_end_the_loop() {
    let mut agent = AgentLoop::new(vec![Message::User("p".into())], 50, true, CompactionConfig::default());
    assert!(matches!(agent.begin_turn(), TurnStart::Send { turn: 1, .. }));
    let good = ToolCall { id: "c1".into(), name: "read_file".into(), arguments: "{}".into() };
    let bad = ToolCall { id: "c2".into(), name: "write_file".into(), arguments: "{oops".into() };
    match agent.on_response(AgentResponse::ToolCalls(vec![good.clone(), bad.clone()]), continue_nudge(false, &vec![])) {
        Reply::RunTools(calls) => assert_eq!(calls.len(), 2),
        _ => panic!("tool calls must be handed back"),
    }
    assert_eq!(agent.check_call(&good), None);
    agent.record_tool_result(good.id.clone(), Err("denied".into()));
    assert!(!agent.is_finished(), "a tool error does not end the loop");
    assert_eq!(agent.check_call(&bad).as_deref(), Some("Invalid JSON arguments for tool 'write_file'"));
    assert!(agent.is_finished());

    let mut other = AgentLoop::new(vec![Message::User("p".into())], 50, false, CompactionConfig::default());
    other.begin_turn();
    other.begin_turn();
    assert_eq!(other.on_send_failure(), "AI adapter call failed on turn 2");
    assert!(other.is_finished());
    assert!(matches!(other.begin_turn(), TurnStart::Exhausted));
}
