//! Replaying a recorded run: which attempt of a trace to replay, whether it
//! can be replayed, and the saved answers, tool results and first messages
//! that the replay feeds back to the agent loop.

use vstd::prelude::*;

use crate::messages::{messages_view, Message, MessageView};
use crate::str_map::StrMap;
use crate::text::{append_decimal, decimal};

verus! {

/// The events of a trace that a replay reads.
pub enum ReplayEvent {
    /// A turn began, with these messages sent.
    TurnStart { attempt: u32, turn: u32, messages: Vec<Message> },
    /// The agent loop ended; `completed` when the model gave its answer.
    AgentFinished { attempt: u32, completed: bool },
    /// A tool ran; `result` is `None` when only a hash of it was kept, and
    /// `args` is the call's arguments as JSON text.
    ToolCall { attempt: u32, turn: u32, call_id: String, tool: String, args: String, result: Option<String> },
    /// An HTTP request to the provider; status 0 when no response came.
    HttpRequest { attempt: u32, response_status: u16 },
    /// Any other event.
    Other,
}

/// The attempt of the last agent loop that completed, if any.
pub open spec fn last_completed(es: Seq<ReplayEvent>) -> Option<u32>
    decreases es.len(),
{
    if es.len() == 0 {
        None
    } else {
        match es.last() {
            ReplayEvent::AgentFinished { attempt, completed } if completed => Some(attempt),
            _ => last_completed(es.drop_last()),
        }
    }
}

/// The attempt an event belongs to, for the events that count attempts.
pub open spec fn counted_attempt(e: ReplayEvent) -> Option<u32> {
    match e {
        ReplayEvent::TurnStart { attempt, .. } => Some(attempt),
        ReplayEvent::AgentFinished { attempt, .. } => Some(attempt),
        ReplayEvent::ToolCall { attempt, .. } => Some(attempt),
        _ => None,
    }
}

/// The highest attempt counted by the events, if any.
pub open spec fn highest_attempt(es: Seq<ReplayEvent>) -> Option<u32>
    decreases es.len(),
{
    if es.len() == 0 {
        None
    } else {
        match (highest_attempt(es.drop_last()), counted_attempt(es.last())) {
            (Some(a), Some(b)) => Some(if a >= b { a } else { b }),
            (Some(a), None) => Some(a),
            (None, b) => b,
        }
    }
}

/// The attempt to replay: the one asked for, else the last that completed,
/// else the highest recorded, else the first.
pub open spec fn target_attempt(es: Seq<ReplayEvent>, asked: Option<u32>) -> u32 {
    match asked {
        Some(n) => n,
        None => match last_completed(es) {
            Some(a) => a,
            None => match highest_attempt(es) {
                Some(a) => a,
                None => 1,
            },
        },
    }
}

/// The attempt to replay.
pub fn replay_attempt(events: &Vec<ReplayEvent>, asked: Option<u32>) -> (r: u32)
    ensures
        r == target_attempt(events@, asked),
{
    if let Some(n) = asked {
        return n;
    }
    let n = events.len();
    let mut i = n;
    proof {
        assert(events@.take(n as int) =~= events@);
    }
    while i > 0
        invariant
            i <= n,
            n == events@.len(),
            asked is None,
            last_completed(events@) == last_completed(events@.take(i as int)),
        decreases i,
    {
        proof {
            assert(events@.take(i as int).drop_last() =~= events@.take(i - 1));
            assert(events@.take(i as int).last() == events@[i - 1]);
        }
        match &events[i - 1] {
            ReplayEvent::AgentFinished { attempt, completed } => {
                if *completed {
                    return *attempt;
                }
            },
            _ => {},
        }
        i = i - 1;
    }
    proof {
        assert(events@.take(n as int) =~= events@);
        assert(events@.take(0) =~= Seq::<ReplayEvent>::empty());
    }
    let mut best: Option<u32> = None;
    for j in 0..n
        invariant
            n == events@.len(),
            asked is None,
            last_completed(events@) is None,
            best == highest_attempt(events@.take(j as int)),
    {
        proof {
            assert(events@.take(j + 1).drop_last() =~= events@.take(j as int));
            assert(events@.take(j + 1).last() == events@[j as int]);
        }
        let a: Option<u32> = match &events[j] {
            ReplayEvent::TurnStart { attempt, .. } => Some(*attempt),
            ReplayEvent::AgentFinished { attempt, .. } => Some(*attempt),
            ReplayEvent::ToolCall { attempt, .. } => Some(*attempt),
            _ => None,
        };
        best = match (best, a) {
            (Some(x), Some(y)) => Some(if x >= y { x } else { y }),
            (Some(x), None) => Some(x),
            (None, y) => y,
        };
    }
    proof {
        assert(events@.take(n as int) =~= events@);
    }
    match best {
        Some(a) => a,
        None => 1,
    }
}

/// A tool call of the replayed attempt whose result was not kept.
pub struct HashOnlyCall {
    pub attempt: u32,
    pub turn: u32,
    pub call_id: String,
    pub tool: String,
    pub args: String,
}

/// Why a replay cannot run.
pub enum ReplayError {
    /// Some tool calls of the attempt kept only a hash of their result.
    HashOnly(Vec<HashOnlyCall>),
    /// The attempt has no first turn to start from.
    NoInitialMessages { attempt: u32 },
}

/// The tool calls of attempt `a` whose result was not kept, as
/// `(turn, call_id, tool, args)`, in order.
pub open spec fn hash_only_calls(es: Seq<ReplayEvent>, a: u32) -> Seq<(u32, Seq<char>, Seq<char>, Seq<char>)>
    decreases es.len(),
{
    if es.len() == 0 {
        seq![]
    } else {
        let prev = hash_only_calls(es.drop_last(), a);
        match es.last() {
            ReplayEvent::ToolCall { attempt, turn, call_id, tool, args, result } if attempt == a && result is None =>
                prev.push((turn, call_id@, tool@, args@)),
            _ => prev,
        }
    }
}

/// The positions of the answered HTTP requests of attempt `a`, in order.
pub open spec fn answered_requests(es: Seq<ReplayEvent>, a: u32) -> Seq<int>
    decreases es.len(),
{
    if es.len() == 0 {
        seq![]
    } else {
        let prev = answered_requests(es.drop_last(), a);
        match es.last() {
            ReplayEvent::HttpRequest { attempt, response_status } if attempt == a && response_status != 0 => prev.push(
                es.len() - 1,
            ),
            _ => prev,
        }
    }
}

/// The kept result of each tool call of attempt `a`, by call id (a later
/// call with the same id wins).
pub open spec fn kept_results(es: Seq<ReplayEvent>, a: u32) -> Map<Seq<char>, Seq<char>>
    decreases es.len(),
{
    if es.len() == 0 {
        Map::empty()
    } else {
        let prev = kept_results(es.drop_last(), a);
        match es.last() {
            ReplayEvent::ToolCall { attempt, call_id, result, .. } if attempt == a && result is Some => prev.insert(
                call_id@,
                result->0@,
            ),
            _ => prev,
        }
    }
}

/// The messages of the first turn of attempt `a`, if it was recorded.
pub open spec fn first_turn_messages(es: Seq<ReplayEvent>, a: u32) -> Option<Seq<MessageView>>
    decreases es.len(),
{
    if es.len() == 0 {
        None
    } else {
        match es[0] {
            ReplayEvent::TurnStart { attempt, turn, messages } if attempt == a && turn == 1 => Some(
                messages_view(messages@),
            ),
            _ => first_turn_messages(es.skip(1), a),
        }
    }
}

/// What a replay of attempt `attempt` feeds back to the agent loop.
pub struct ReplayPlan {
    pub attempt: u32,
    /// Positions of the events whose saved answers are replayed, in order.
    pub responses: Vec<usize>,
    /// The saved tool results, by call id.
    pub results: StrMap<String>,
    /// The messages of the attempt's first turn.
    pub initial_messages: Vec<Message>,
}

/// The values of a string map, by their view.
pub open spec fn values_view(m: Map<Seq<char>, String>) -> Map<Seq<char>, Seq<char>> {
    m.map_values(|v: String| v@)
}

/// The views of a list of hash-only calls.
pub open spec fn hash_only_view(cs: Seq<HashOnlyCall>) -> Seq<(u32, Seq<char>, Seq<char>, Seq<char>)> {
    cs.map_values(|c: HashOnlyCall| (c.turn, c.call_id@, c.tool@, c.args@))
}

fn copy_messages(ms: &Vec<Message>) -> (r: Vec<Message>)
    ensures
        messages_view(r@) == messages_view(ms@),
{
    let mut r: Vec<Message> = Vec::new();
    let n = ms.len();
    for i in 0..n
        invariant
            n == ms@.len(),
            r@.len() == i,
            forall|j: int| 0 <= j < i ==> (#[trigger] r@[j])@ == ms@[j]@,
    {
        let m = match &ms[i] {
            Message::System(c) => Message::System(c.clone()),
            Message::User(c) => Message::User(c.clone()),
            Message::Assistant(c) => Message::Assistant(c.clone()),
            Message::AssistantToolCalls(cs) => Message::AssistantToolCalls(crate::messages::duplicate_calls(cs)),
            Message::ToolResult { call_id, content } => Message::ToolResult {
                call_id: call_id.clone(),
                content: content.clone(),
            },
        };
        r.push(m);
    }
    assert(messages_view(r@) =~= messages_view(ms@));
    r
}

/// Plans the replay of a trace: the attempt asked for (or the one
/// [`target_attempt`] picks) must have kept every tool result and recorded
/// its first turn.
pub fn plan_replay(events: &Vec<ReplayEvent>, asked: Option<u32>) -> (r: Result<ReplayPlan, ReplayError>)
    ensures
        ({
            let a = target_attempt(events@, asked);
            match r {
                Ok(p) => {
                    &&& p.attempt == a
                    &&& hash_only_calls(events@, a).len() == 0
                    &&& p.responses@.map_values(|i: usize| i as int) == answered_requests(events@, a)
                    &&& values_view(p.results.map_view()) == kept_results(events@, a)
                    &&& first_turn_messages(events@, a) == Some(messages_view(p.initial_messages@))
                    &&& p.initial_messages@.len() > 0
                },
                Err(ReplayError::HashOnly(cs)) => hash_only_calls(events@, a).len() > 0 && hash_only_view(cs@)
                    == hash_only_calls(events@, a) && forall|k: int| 0 <= k < cs@.len() ==> (#[trigger] cs@[k]).attempt == a,
                Err(ReplayError::NoInitialMessages { attempt }) => {
                    &&& attempt == a
                    &&& hash_only_calls(events@, a).len() == 0
                    &&& match first_turn_messages(events@, a) {
                        Some(ms) => ms.len() == 0,
                        None => true,
                    }
                },
            }
        }),
{
    let a = replay_attempt(events, asked);
    let ghost es = events@;
    let n = events.len();
    let mut hash_only: Vec<HashOnlyCall> = Vec::new();
    let mut responses: Vec<usize> = Vec::new();
    let mut results: StrMap<String> = StrMap::new();
    proof {
        assert(es.take(0) =~= Seq::<ReplayEvent>::empty());
        assert(hash_only_view(hash_only@) =~= Seq::<(u32, Seq<char>, Seq<char>, Seq<char>)>::empty());
        assert(responses@.map_values(|i: usize| i as int) =~= Seq::<int>::empty());
        assert(values_view(results.map_view()) =~= Map::<Seq<char>, Seq<char>>::empty());
    }
    for i in 0..n
        invariant
            n == es.len(),
            es == events@,
            a == target_attempt(es, asked),
            hash_only_view(hash_only@) == hash_only_calls(es.take(i as int), a),
            forall|k: int| 0 <= k < hash_only@.len() ==> (#[trigger] hash_only@[k]).attempt == a,
            responses@.map_values(|j: usize| j as int) == answered_requests(es.take(i as int), a),
            values_view(results.map_view()) == kept_results(es.take(i as int), a),
    {
        let ghost pre = es.take(i as int);
        let ghost cur = es.take(i + 1);
        proof {
            assert(cur.drop_last() =~= pre);
            assert(cur.last() == es[i as int]);
        }
        let ghost hb = hash_only@;
        let ghost rb = responses@;
        let ghost mb = results.map_view();
        match &events[i] {
            ReplayEvent::ToolCall { attempt, turn, call_id, tool, args, result } => {
                if *attempt == a {
                    match result {
                        None => {
                            hash_only.push(
                                HashOnlyCall {
                                    attempt: *attempt,
                                    turn: *turn,
                                    call_id: call_id.clone(),
                                    tool: tool.clone(),
                                    args: args.clone(),
                                },
                            );
                            proof {
                                assert(hash_only_view(hash_only@) =~= hash_only_view(hb).push(
                                    (*turn, call_id@, tool@, args@),
                                ));
                            }
                        },
                        Some(res) => {
                            results.insert(call_id.clone(), res.clone());
                            proof {
                                assert(values_view(results.map_view()) =~= values_view(mb).insert(call_id@, res@));
                            }
                        },
                    }
                }
            },
            ReplayEvent::HttpRequest { attempt, response_status } => {
                if *attempt == a && *response_status != 0 {
                    responses.push(i);
                    proof {
                        assert(responses@.map_values(|j: usize| j as int) =~= rb.map_values(|j: usize| j as int).push(
                            i as int,
                        ));
                    }
                }
            },
            _ => {},
        }
        proof {
            assert(cur.len() - 1 == i);
        }
    }
    proof {
        assert(es.take(n as int) =~= es);
    }
    if hash_only.len() > 0 {
        return Err(ReplayError::HashOnly(hash_only));
    }
    let mut k: usize = 0;
    proof {
        assert(es.skip(0) =~= es);
    }
    while k < n
        invariant
            n == es.len(),
            es == events@,
            k <= n,
            first_turn_messages(es, a) == first_turn_messages(es.skip(k as int), a),
            a == target_attempt(es, asked),
            hash_only_calls(es, a).len() == 0,
            responses@.map_values(|j: usize| j as int) == answered_requests(es, a),
            values_view(results.map_view()) == kept_results(es, a),
        decreases n - k,
    {
        proof {
            assert(es.skip(k as int)[0] == es[k as int]);
            assert(es.skip(k as int).skip(1) =~= es.skip(k + 1));
        }
        match &events[k] {
            ReplayEvent::TurnStart { attempt, turn, messages } => {
                if *attempt == a && *turn == 1 {
                    let initial = copy_messages(messages);
                    if initial.len() == 0 {
                        return Err(ReplayError::NoInitialMessages { attempt: a });
                    }
                    return Ok(ReplayPlan { attempt: a, responses, results, initial_messages: initial });
                }
            },
            _ => {},
        }
        k = k + 1;
    }
    proof {
        assert(es.skip(n as int) =~= Seq::<ReplayEvent>::empty());
    }
    Err(ReplayError::NoInitialMessages { attempt: a })
}

/// The text of a refusal to replay.
pub open spec fn replay_error_lines(cs: Seq<HashOnlyCall>) -> Seq<char>
    decreases cs.len(),
{
    if cs.len() == 0 {
        seq![]
    } else {
        let c = cs.last();
        replay_error_lines(cs.drop_last()) + "  attempt "@ + decimal(c.attempt as nat) + ", turn "@ + decimal(
            c.turn as nat,
        ) + ", call_id \""@ + c.call_id@ + "\", tool \""@ + c.tool@ + "\", args "@ + c.args@ + "\n"@
    }
}

/// The text of a refusal to replay.
pub open spec fn replay_error_text(e: ReplayError) -> Seq<char> {
    match e {
        ReplayError::HashOnly(cs) => "Error: trace is not fully replayable. The following tool calls have hash-only content:\n"@
            + replay_error_lines(cs@) + "To capture full content, re-run with: moeb run --embed-files <spec>\n"@
            + "Or set: moeb configure LOG_FILE_CONTENT true"@,
        ReplayError::NoInitialMessages { attempt } => "Cannot replay: no TurnStart event for attempt "@ + decimal(
            attempt as nat,
        ) + " turn 1 found in trace."@,
    }
}

impl ReplayError {
    /// The refusal as text.
    pub fn message(&self) -> (r: String)
        ensures
            r@ == replay_error_text(*self),
    {
        match self {
            ReplayError::HashOnly(cs) => {
                let mut s = String::from_str(
                    "Error: trace is not fully replayable. The following tool calls have hash-only content:\n",
                );
                let ghost head = s@;
                let n = cs.len();
                proof {
                    assert(cs@.take(0) =~= Seq::<HashOnlyCall>::empty());
                }
                for i in 0..n
                    invariant
                        n == cs@.len(),
                        s@ == head + replay_error_lines(cs@.take(i as int)),
                {
                    let c = &cs[i];
                    s.append("  attempt ");
                    append_decimal(&mut s, c.attempt as u64);
                    s.append(", turn ");
                    append_decimal(&mut s, c.turn as u64);
                    s.append(", call_id \"");
                    s.append(c.call_id.as_str());
                    s.append("\", tool \"");
                    s.append(c.tool.as_str());
                    s.append("\", args ");
                    s.append(c.args.as_str());
                    s.append("\n");
                    proof {
                        assert(cs@.take(i + 1).drop_last() =~= cs@.take(i as int));
                        assert(cs@.take(i + 1).last() == cs@[i as int]);
                        assert(s@ =~= head + replay_error_lines(cs@.take(i + 1)));
                    }
                }
                proof {
                    assert(cs@.take(n as int) =~= cs@);
                }
                s.append("To capture full content, re-run with: moeb run --embed-files <spec>\n");
                s.append("Or set: moeb configure LOG_FILE_CONTENT true");
                s
            },
            ReplayError::NoInitialMessages { attempt } => {
                let mut s = String::from_str("Cannot replay: no TurnStart event for attempt ");
                append_decimal(&mut s, *attempt as u64);
                s.append(" turn 1 found in trace.");
                s
            },
        }
    }
}

} // verus!
