//! The agent loop: the decisions taken on each turn of a conversation with an
//! AI model that may call tools.
//!
//! An [`AgentLoop`] holds the conversation and the loop's bookkeeping. The
//! driver asks it to begin a turn ([`AgentLoop::begin_turn`]), sends the
//! conversation to the model, hands the answer back
//! ([`AgentLoop::on_response`]), runs the tools it is asked to run and records
//! their results ([`AgentLoop::record_tool_result`]), until the loop reports
//! that it has finished.

use vstd::prelude::*;

use crate::compaction::{compact_history, compacted, compaction_happens, CompactionStats};
use crate::messages::{
    calls_view, duplicate_calls, messages_view, AgentResponse, AgentResponseView, Message, MessageView, ToolCall,
    ToolCallView,
};
use crate::text::{
    append_decimal, char_width, decimal, chars_of, is_char_boundary, lemma_utf8_len_push, lemma_utf8_prefix_monotone,
    push_char, str_eq, utf8_len,
};

verus! {

/// Turns an agent loop is allowed before it is halted.
pub const MAX_TURNS: usize = 50;

/// Text turns in a row after which a loop that waits for a file write gives up.
pub const TEXT_STREAK_LIMIT: u32 = 3;

/// Whether, and how, the conversation is compacted before each turn.
pub struct CompactionConfig {
    pub enabled: bool,
    pub threshold: usize,
    pub keep_turns: u32,
}

impl Default for CompactionConfig {
    fn default() -> (r: Self)
        ensures
            !r.enabled,
            r.threshold == 80_000,
            r.keep_turns == 3,
    {
        CompactionConfig { enabled: false, threshold: 80_000, keep_turns: 3 }
    }
}

/// Why an agent loop finished.
#[derive(Debug, Clone, Copy, PartialEq, Eq, Structural)]
pub enum FinishReason {
    /// The model gave its final answer.
    Completion,
    /// The loop ran out of turns, or the model kept answering without tools.
    MaxTurns,
}

// ── Model ─────────────────────────────────────────────────────────────────────

/// Mathematical model of an [`AgentLoop`].
pub struct LoopView {
    pub messages: Seq<MessageView>,
    pub max_turns: nat,
    /// Turns begun so far.
    pub turns: nat,
    /// A text answer only completes the loop once a file has been written.
    pub require_write: bool,
    /// A `write_file` call has been requested.
    pub write_dispatched: bool,
    /// Text answers in a row since the last tool call.
    pub text_streak: nat,
    pub finished: bool,
    pub compaction_enabled: bool,
    pub threshold: nat,
    pub keep_turns: nat,
}

/// The loop's invariant: never more turns than allowed, and a text streak
/// that reaches its limit has ended the loop.
pub open spec fn loop_valid(v: LoopView) -> bool {
    &&& v.turns <= v.max_turns
    &&& v.text_streak <= 3
    &&& v.text_streak == 3 ==> v.finished
}

/// What beginning a turn gives.
pub enum TurnStart {
    /// Send the conversation to the model; `turn` counts from 1, and
    /// `compaction` reports a compaction made before the turn.
    Send { turn: usize, compaction: Option<CompactionStats> },
    /// No turn is left: the loop is over, with an empty answer.
    Exhausted,
}

/// What the loop does with an answer of the model.
pub enum Reply {
    /// The loop is over; `text` is its result.
    Finish { text: String, reason: FinishReason },
    /// The answer and a request to go on were added to the conversation.
    Continue,
    /// Run these tools and record each result, in order.
    RunTools(Vec<ToolCall>),
}

/// Mathematical model of a [`Reply`].
pub enum ReplyView {
    Finish { text: Seq<char>, reason: FinishReason },
    Continue,
    RunTools(Seq<ToolCallView>),
}

impl View for Reply {
    type V = ReplyView;

    open spec fn view(&self) -> ReplyView {
        match self {
            Reply::Finish { text, reason } => ReplyView::Finish { text: text@, reason: *reason },
            Reply::Continue => ReplyView::Continue,
            Reply::RunTools(calls) => ReplyView::RunTools(calls_view(calls@)),
        }
    }
}

/// Name of the tool that writes a file.
pub open spec fn write_file_tool() -> Seq<char> {
    "write_file"@
}

/// Some call in `calls` writes a file.
pub open spec fn mentions_write_file(calls: Seq<ToolCallView>) -> bool {
    exists|i: int| 0 <= i < calls.len() && #[trigger] calls[i].name == write_file_tool()
}

/// The loop after a turn is begun: one more turn, and the conversation
/// compacted when compaction is on. Meaningful when a turn is left.
pub open spec fn started(v: LoopView) -> LoopView {
    LoopView {
        turns: v.turns + 1,
        messages: if v.compaction_enabled {
            compacted(v.messages, v.threshold, v.keep_turns)
        } else {
            v.messages
        },
        ..v
    }
}

/// The loop after a failure ended the run.
pub open spec fn failed(v: LoopView) -> LoopView {
    LoopView { finished: true, ..v }
}

/// A turn can be begun.
pub open spec fn turn_left(v: LoopView) -> bool {
    !v.finished && v.turns < v.max_turns
}

/// The loop, and its reply, after the model answered `r`; `nudge` is the
/// request to go on that follows a text answer which does not end the loop.
pub open spec fn responded(v: LoopView, r: AgentResponseView, nudge: Seq<char>) -> (LoopView, ReplyView) {
    match r {
        AgentResponseView::Text(t) => {
            if !v.require_write {
                (LoopView { finished: true, ..v }, ReplyView::Finish { text: t, reason: FinishReason::Completion })
            } else if v.text_streak + 1 >= 3 {
                (
                    LoopView { finished: true, text_streak: v.text_streak + 1, ..v },
                    ReplyView::Finish { text: t, reason: FinishReason::MaxTurns },
                )
            } else if v.write_dispatched {
                (
                    LoopView { finished: true, text_streak: v.text_streak + 1, ..v },
                    ReplyView::Finish { text: t, reason: FinishReason::Completion },
                )
            } else {
                (
                    LoopView {
                        text_streak: v.text_streak + 1,
                        messages: v.messages.push(MessageView::Assistant(t)).push(MessageView::User(nudge)),
                        ..v
                    },
                    ReplyView::Continue,
                )
            }
        },
        AgentResponseView::ToolCalls(calls) => (
            LoopView {
                write_dispatched: v.write_dispatched || mentions_write_file(calls),
                text_streak: 0,
                messages: v.messages.push(MessageView::AssistantToolCalls(calls)),
                ..v
            },
            ReplyView::RunTools(calls),
        ),
    }
}

/// The content recorded for a tool's outcome: its output, or its error
/// prefixed with `Error: `.
pub open spec fn tool_content(outcome: Result<Seq<char>, Seq<char>>) -> Seq<char> {
    match outcome {
        Ok(text) => text,
        Err(e) => "Error: "@ + e,
    }
}

// ── Turn failures ────────────────────────────────────────────────────────────

/// Whether serde_json reads `s` as a JSON value.
pub uninterp spec fn is_json_text(s: Seq<char>) -> bool;

/// `serde_json::from_str::<serde_json::Value>(s)`, telling only whether it
/// succeeded; a function of `s` alone.
#[verifier::external_body]
fn json_parses(s: &str) -> (r: bool)
    ensures
        r == is_json_text(s@),
{
    serde_json::from_str::<serde_json::Value>(s).is_ok()
}

/// The error that ends a run when the model calls a tool with arguments
/// that are not JSON: `None` when the arguments of `call` are JSON.
pub fn arguments_error(call: &ToolCall) -> (r: Option<String>)
    ensures
        match r {
            None => is_json_text(call.arguments@),
            Some(m) => !is_json_text(call.arguments@) && m@ == arguments_error_text(call.name@),
        },
{
    if json_parses(call.arguments.as_str()) {
        None
    } else {
        let mut m = String::from_str("Invalid JSON arguments for tool '");
        m.append(call.name.as_str());
        m.append("'");
        Some(m)
    }
}

/// What a failed call to the model on turn `turn` is reported as.
pub open spec fn send_failure_text(turn: nat) -> Seq<char> {
    "AI adapter call failed on turn "@ + decimal(turn)
}

/// The error that ends a run when the model calls `name` with arguments
/// that are not JSON.
pub open spec fn arguments_error_text(name: Seq<char>) -> Seq<char> {
    "Invalid JSON arguments for tool '"@ + name + "'"@
}

/// What a failed call to the model on turn `turn` is reported as.
pub fn send_failure(turn: usize) -> (r: String)
    ensures
        r@ == send_failure_text(turn as nat),
{
    let mut m = String::from_str("AI adapter call failed on turn ");
    append_decimal(&mut m, turn as u64);
    m
}

// ── The loop ──────────────────────────────────────────────────────────────────

/// State of one agent loop.
pub struct AgentLoop {
    messages: Vec<Message>,
    max_turns: usize,
    turns: usize,
    require_write: bool,
    write_dispatched: bool,
    text_streak: u32,
    finished: bool,
    compaction: CompactionConfig,
}

impl View for AgentLoop {
    type V = LoopView;

    closed spec fn view(&self) -> LoopView {
        LoopView {
            messages: messages_view(self.messages@),
            max_turns: self.max_turns as nat,
            turns: self.turns as nat,
            require_write: self.require_write,
            write_dispatched: self.write_dispatched,
            text_streak: self.text_streak as nat,
            finished: self.finished,
            compaction_enabled: self.compaction.enabled,
            threshold: self.compaction.threshold as nat,
            keep_turns: self.compaction.keep_turns as nat,
        }
    }
}

impl AgentLoop {
    #[verifier::type_invariant]
    spec fn well_formed(&self) -> bool {
        &&& self.turns <= self.max_turns
        &&& self.text_streak <= 3
        &&& self.text_streak == 3 ==> self.finished
    }

    /// A loop over `initial_messages` allowed `max_turns` turns. With
    /// `require_write`, a text answer completes the loop only once a
    /// `write_file` call has been requested.
    pub fn new(
        initial_messages: Vec<Message>,
        max_turns: usize,
        require_write: bool,
        compaction: CompactionConfig,
    ) -> (r: Self)
        ensures
            r@ == (LoopView {
                messages: messages_view(initial_messages@),
                max_turns: max_turns as nat,
                turns: 0,
                require_write: require_write,
                write_dispatched: false,
                text_streak: 0,
                finished: false,
                compaction_enabled: compaction.enabled,
                threshold: compaction.threshold as nat,
                keep_turns: compaction.keep_turns as nat,
            }),
    {
        AgentLoop {
            messages: initial_messages,
            max_turns,
            turns: 0,
            require_write,
            write_dispatched: false,
            text_streak: 0,
            finished: false,
            compaction,
        }
    }

    /// The loop `moeb` runs on a plain prompt: the prompt as the only
    /// message, [`MAX_TURNS`] turns and no compaction. It ends at the model's
    /// first plain-text answer.
    pub fn for_prompt(initial_prompt: &str) -> (r: Self)
        ensures
            r@ == (LoopView {
                messages: seq![MessageView::User(initial_prompt@)],
                max_turns: 50,
                turns: 0,
                require_write: false,
                write_dispatched: false,
                text_streak: 0,
                finished: false,
                compaction_enabled: false,
                threshold: 80_000,
                keep_turns: 3,
            }),
    {
        let mut messages: Vec<Message> = Vec::new();
        messages.push(Message::User(String::from_str(initial_prompt)));
        proof {
            assert(messages_view(messages@) =~= seq![MessageView::User(initial_prompt@)]);
        }
        Self::new(messages, MAX_TURNS, false, CompactionConfig::default())
    }

    /// The conversation so far.
    pub fn messages(&self) -> (r: &Vec<Message>)
        ensures
            messages_view(r@) == self@.messages,
    {
        &self.messages
    }

    /// Turns begun so far.
    pub fn turns(&self) -> (r: usize)
        ensures
            r == self@.turns,
    {
        self.turns
    }

    /// Whether the loop is over.
    pub fn is_finished(&self) -> (r: bool)
        ensures
            r == self@.finished,
    {
        self.finished
    }

    /// Begins the next turn: compacts the conversation when compaction is on,
    /// and says which turn to send, or that no turn is left. A loop that runs
    /// out of turns is over.
    pub fn begin_turn(&mut self) -> (r: TurnStart)
        ensures
            loop_valid(old(self)@),
            loop_valid(final(self)@),
            turn_left(old(self)@) ==> {
                &&& final(self)@ == started(old(self)@)
                &&& r matches TurnStart::Send { turn, compaction } && {
                    &&& turn == final(self)@.turns
                    &&& (compaction is Some <==> old(self)@.compaction_enabled && compaction_happens(
                        old(self)@.messages,
                        old(self)@.threshold,
                        old(self)@.keep_turns,
                    ))
                }
            },
            !turn_left(old(self)@) ==> r is Exhausted && final(self)@ == (LoopView { finished: true, ..old(self)@ }),
    {
        proof {
            use_type_invariant(&*self);
        }
        if self.finished || self.turns >= self.max_turns {
            self.finished = true;
            return TurnStart::Exhausted;
        }
        self.turns = self.turns + 1;
        let stats = if self.compaction.enabled {
            let mut ms: Vec<Message> = Vec::new();
            std::mem::swap(&mut ms, &mut self.messages);
            let stats = compact_history(&mut ms, self.compaction.threshold, self.compaction.keep_turns);
            self.messages = ms;
            stats
        } else {
            None
        };
        TurnStart::Send { turn: self.turns, compaction: stats }
    }

    /// Takes the model's answer for the current turn.
    ///
    /// A text answer ends the loop, unless the loop waits for a file write:
    /// then the answer and `nudge` join the conversation, until a file write
    /// has been requested or the third text answer in a row arrives. Tool
    /// calls join the conversation and are handed back to be run.
    pub fn on_response(&mut self, response: AgentResponse, nudge: String) -> (r: Reply)
        requires
            !old(self)@.finished,
        ensures
            loop_valid(old(self)@),
            loop_valid(final(self)@),
            (final(self)@, r@) == responded(old(self)@, response@, nudge@),
    {
        proof {
            use_type_invariant(&*self);
        }
        match response {
            AgentResponse::Text(text) => {
                if !self.require_write {
                    self.finished = true;
                    return Reply::Finish { text, reason: FinishReason::Completion };
                }
                let streak = self.text_streak + 1;
                if streak >= TEXT_STREAK_LIMIT {
                    self.finished = true;
                    self.text_streak = streak;
                    return Reply::Finish { text, reason: FinishReason::MaxTurns };
                }
                if self.write_dispatched {
                    self.finished = true;
                    self.text_streak = streak;
                    return Reply::Finish { text, reason: FinishReason::Completion };
                }
                self.text_streak = streak;
                let mut ms: Vec<Message> = Vec::new();
                std::mem::swap(&mut ms, &mut self.messages);
                let ghost before = ms@;
                ms.push(Message::Assistant(text));
                ms.push(Message::User(nudge));
                self.messages = ms;
                proof {
                    assert(messages_view(self.messages@) =~= messages_view(before).push(
                        MessageView::Assistant(text@),
                    ).push(MessageView::User(nudge@)));
                }
                Reply::Continue
            },
            AgentResponse::ToolCalls(calls) => {
                let writes = calls_write_file(&calls);
                if writes {
                    self.write_dispatched = true;
                }
                self.text_streak = 0;
                let kept = duplicate_calls(&calls);
                let mut ms: Vec<Message> = Vec::new();
                std::mem::swap(&mut ms, &mut self.messages);
                let ghost before = ms@;
                ms.push(Message::AssistantToolCalls(kept));
                self.messages = ms;
                proof {
                    assert(messages_view(self.messages@) =~= messages_view(before).push(
                        MessageView::AssistantToolCalls(calls_view(calls@)),
                    ));
                }
                Reply::RunTools(calls)
            },
        }
    }

    /// Records the outcome of the tool call `call_id`: its output, or
    /// `Error: ` followed by its error.
    pub fn record_tool_result(&mut self, call_id: String, outcome: Result<String, String>)
        requires
            !old(self)@.finished,
        ensures
            loop_valid(final(self)@),
            final(self)@ == (LoopView {
                messages: old(self)@.messages.push(
                    MessageView::ToolResult {
                        call_id: call_id@,
                        content: tool_content(
                            match outcome {
                                Ok(t) => Ok(t@),
                                Err(e) => Err(e@),
                            },
                        ),
                    },
                ),
                ..old(self)@
            }),
    {
        proof {
            use_type_invariant(&*self);
        }
        let content = match outcome {
            Ok(text) => text,
            Err(e) => {
                let mut s = String::from_str("Error: ");
                s.append(e.as_str());
                s
            },
        };
        let ghost cid = call_id@;
        let ghost cv = content@;
        let mut ms: Vec<Message> = Vec::new();
        std::mem::swap(&mut ms, &mut self.messages);
        let ghost before = ms@;
        ms.push(Message::ToolResult { call_id, content });
        self.messages = ms;
        proof {
            assert(messages_view(self.messages@) =~= messages_view(before).push(
                MessageView::ToolResult { call_id: cid, content: cv },
            ));
        }
    }

    /// The call to the model for the current turn failed: the loop is over,
    /// and the run fails with the text this gives.
    pub fn on_send_failure(&mut self) -> (r: String)
        ensures
            loop_valid(final(self)@),
            final(self)@ == failed(old(self)@),
            r@ == send_failure_text(old(self)@.turns),
    {
        proof {
            use_type_invariant(&*self);
        }
        self.finished = true;
        send_failure(self.turns)
    }

    /// Checks the call `call`, about to be run, before it runs: when its
    /// arguments are not JSON the loop is over and the run fails with the
    /// text this gives, so neither this call nor any after it is run or
    /// recorded; otherwise nothing changes.
    pub fn check_call(&mut self, call: &ToolCall) -> (r: Option<String>)
        ensures
            loop_valid(final(self)@),
            is_json_text(call.arguments@) ==> r is None && final(self)@ == old(self)@,
            !is_json_text(call.arguments@) ==> (r matches Some(m) && m@ == arguments_error_text(call.name@))
                && final(self)@ == failed(old(self)@),
    {
        proof {
            use_type_invariant(&*self);
        }
        let r = arguments_error(call);
        if r.is_some() {
            self.finished = true;
        }
        r
    }
}

/// Whether some call in `calls` is a `write_file` call.
fn calls_write_file(calls: &Vec<ToolCall>) -> (r: bool)
    ensures
        r == mentions_write_file(calls_view(calls@)),
{
    let n = calls.len();
    for i in 0..n
        invariant
            n == calls@.len(),
            forall|j: int| 0 <= j < i ==> (#[trigger] calls@[j]).name@ != write_file_tool(),
    {
        if str_eq(calls[i].name.as_str(), "write_file") {
            proof {
                reveal_strlit("write_file");
                assert(calls_view(calls@)[i as int].name == write_file_tool());
            }
            return true;
        }
    }
    proof {
        reveal_strlit("write_file");
        assert forall|j: int| 0 <= j < calls_view(calls@).len() implies #[trigger] calls_view(calls@)[j].name
            != write_file_tool() by {
            assert(calls_view(calls@)[j] == calls@[j]@);
        }
    }
    false
}

// ── Helpers of the driver ────────────────────────────────────────────────────

/// One pending task as it is listed in a nudge: `[id] description`.
pub open spec fn task_item(t: (Seq<char>, Seq<char>)) -> Seq<char> {
    "["@ + t.0 + "] "@ + t.1
}

/// The pending tasks as a nudge lists them, separated by `; `.
pub open spec fn task_list(ts: Seq<(Seq<char>, Seq<char>)>) -> Seq<char>
    decreases ts.len(),
{
    if ts.len() == 0 {
        seq![]
    } else if ts.len() == 1 {
        task_item(ts[0])
    } else {
        task_list(ts.drop_last()) + "; "@ + task_item(ts.last())
    }
}

/// The views of a list of `(id, description)` pairs.
pub open spec fn pairs_view(ps: Seq<(String, String)>) -> Seq<(Seq<char>, Seq<char>)> {
    ps.map_values(|p: (String, String)| (p.0@, p.1@))
}

/// The request to go on that follows a text answer: ask for a task list
/// when none was made, for the rubric verdicts when every task is done, and
/// otherwise name the tasks that remain.
pub open spec fn nudge_text(task_list_created: bool, pending: Seq<(Seq<char>, Seq<char>)>) -> Seq<char> {
    if !task_list_created {
        "Continue. Call create_task_list with your numbered plan, then call write_file (or other tools) to implement the next step."@
    } else if pending.len() == 0 {
        "Continue. All tasks complete \u{2014} call verify_rubrics with your rubric verdicts, then provide your completion summary."@
    } else {
        "Continue. Remaining tasks: "@ + task_list(pending) + ". Call write_file (or other tools) to implement the next step."@
    }
}

/// The request to go on after a text answer, given whether a task list was
/// made and the `(id, description)` of each task still pending.
pub fn continue_nudge(task_list_created: bool, pending: &Vec<(String, String)>) -> (r: String)
    ensures
        r@ == nudge_text(task_list_created, pairs_view(pending@)),
{
    if !task_list_created {
        return String::from_str(
            "Continue. Call create_task_list with your numbered plan, then call write_file (or other tools) to implement the next step.",
        );
    }
    if pending.len() == 0 {
        return String::from_str(
            "Continue. All tasks complete \u{2014} call verify_rubrics with your rubric verdicts, then provide your completion summary.",
        );
    }
    let ghost ps = pairs_view(pending@);
    let mut list = String::new();
    let n = pending.len();
    for i in 0..n
        invariant
            n == pending@.len(),
            n > 0,
            ps == pairs_view(pending@),
            i == 0 ==> list@ == Seq::<char>::empty(),
            i > 0 ==> list@ == task_list(ps.take(i as int)),
    {
        if i > 0 {
            list.append("; ");
        }
        list.append("[");
        list.append(pending[i].0.as_str());
        list.append("] ");
        list.append(pending[i].1.as_str());
        proof {
            let t = ps.take(i + 1);
            assert(t.drop_last() =~= ps.take(i as int));
            assert(t.last() == ps[i as int]);
            if i == 0 {
                assert(list@ =~= task_item(ps[0]));
            } else {
                assert(list@ =~= task_list(ps.take(i as int)) + "; "@ + task_item(ps[i as int]));
            }
        }
    }
    proof {
        assert(ps.take(n as int) =~= ps);
    }
    let mut r = String::from_str("Continue. Remaining tasks: ");
    r.append(list.as_str());
    r.append(". Call write_file (or other tools) to implement the next step.");
    r
}

/// `s` cut to its first `max` bytes, followed by an ellipsis, when it is
/// longer than that; `s` itself otherwise. The cut must fall between two
/// characters.
pub fn truncate(s: &str, max: usize) -> (r: String)
    requires
        utf8_len(s@) <= max || is_char_boundary(s@, max as nat),
    ensures
        utf8_len(s@) <= max ==> r@ == s@,
        utf8_len(s@) > max ==> exists|j: int|
            0 <= j <= s@.len() && #[trigger] utf8_len(s@.take(j)) == max && r@ == s@.take(j) + "\u{2026}"@,
{
    let chars = chars_of(s);
    let n = chars.len();
    let mut j: usize = 0;
    let mut bytes: usize = 0;
    while j < n
        invariant
            n == s@.len(),
            chars@ == s@,
            j <= n,
            bytes as nat == utf8_len(s@.take(j as int)),
            bytes <= max,
        ensures
            j <= n,
            bytes as nat == utf8_len(s@.take(j as int)),
            bytes <= max,
            j < n ==> utf8_len(s@.take(j + 1)) > max,
        decreases n - j,
    {
        let w = char_width(chars[j]);
        proof {
            assert(s@.take(j + 1) =~= s@.take(j as int).push(s@[j as int]));
            lemma_utf8_len_push(s@.take(j as int), s@[j as int]);
        }
        if w > max - bytes {
            break;
        }
        bytes = bytes + w;
        j = j + 1;
    }
    if j == n {
        proof {
            assert(s@.take(n as int) =~= s@);
        }
        return String::from_str(s);
    }
    proof {
        assert(s@.take(n as int) =~= s@);
        if j + 1 < n {
            lemma_utf8_prefix_monotone(s@, j + 1, n as int);
        }
        assert(utf8_len(s@) > max);
        let j0 = choose|j0: int| 0 <= j0 <= s@.len() && #[trigger] utf8_len(s@.take(j0)) == max;
        if j0 < j {
            lemma_utf8_prefix_monotone(s@, j0, j as int);
        } else if j0 > j {
            if j0 > j + 1 {
                lemma_utf8_prefix_monotone(s@, j + 1, j0);
            }
        }
        assert(j0 == j);
    }
    let mut r: String = String::new();
    for k in 0..j
        invariant
            j < n,
            n == chars@.len(),
            chars@ == s@,
            r@ == s@.take(k as int),
    {
        push_char(&mut r, chars[k]);
        proof {
            assert(s@.take(k + 1) =~= s@.take(k as int).push(s@[k as int]));
        }
    }
    r.append("\u{2026}");
    r
}

// ── Laws ──────────────────────────────────────────────────────────────────────

/// A loop never begins more turns than it is allowed: a turn is begun only
/// when one is left, and each begun turn counts once.
pub proof fn law_turns_bounded(v: LoopView)
    requires
        loop_valid(v),
        turn_left(v),
    ensures
        started(v).turns == v.turns + 1,
        started(v).turns <= v.max_turns,
        loop_valid(started(v)),
{
}

/// Outside run mode, the first text answer is the loop's result.
pub proof fn law_text_answer_completes(v: LoopView, t: Seq<char>, nudge: Seq<char>)
    requires
        !v.require_write,
    ensures
        responded(v, AgentResponseView::Text(t), nudge).1 == (ReplyView::Finish {
            text: t,
            reason: FinishReason::Completion,
        }),
        responded(v, AgentResponseView::Text(t), nudge).0.finished,
{
}

/// In run mode, a text answer after a file write was requested completes the
/// loop (unless it is the third text answer in a row).
pub proof fn law_text_after_write_completes(v: LoopView, t: Seq<char>, nudge: Seq<char>)
    requires
        v.require_write,
        v.write_dispatched,
        v.text_streak < 2,
    ensures
        responded(v, AgentResponseView::Text(t), nudge).1 == (ReplyView::Finish {
            text: t,
            reason: FinishReason::Completion,
        }),
{
}

/// In run mode, before any file write was requested, a text answer that is
/// not the third in a row is answered with `nudge` and the loop goes on.
pub proof fn law_text_before_write_is_nudged(v: LoopView, t: Seq<char>, nudge: Seq<char>)
    requires
        v.require_write,
        !v.write_dispatched,
        v.text_streak < 2,
    ensures
        responded(v, AgentResponseView::Text(t), nudge).1 == ReplyView::Continue,
        responded(v, AgentResponseView::Text(t), nudge).0.messages == v.messages.push(MessageView::Assistant(t)).push(
            MessageView::User(nudge),
        ),
        responded(v, AgentResponseView::Text(t), nudge).0.finished == v.finished,
{
}

/// In run mode, three text answers in a row end the loop, whatever turns are
/// begun between them: the third at the latest is final, with `MaxTurns`.
pub proof fn law_three_text_answers_end_the_loop(
    v: LoopView,
    t1: Seq<char>,
    t2: Seq<char>,
    t3: Seq<char>,
    n1: Seq<char>,
    n2: Seq<char>,
    n3: Seq<char>,
)
    requires
        v.require_write,
    ensures
        ({
            let (v1, r1) = responded(v, AgentResponseView::Text(t1), n1);
            let (v2, r2) = responded(started(v1), AgentResponseView::Text(t2), n2);
            let (v3, r3) = responded(started(v2), AgentResponseView::Text(t3), n3);
            ||| r1 is Finish
            ||| r2 is Finish
            ||| r3 == (ReplyView::Finish { text: t3, reason: FinishReason::MaxTurns })
        }),
{
}

/// A tool-call answer ends any streak of text answers, records whether a
/// file write was requested, and hands the calls back to be run, in order.
pub proof fn law_tool_calls_reset_streak(v: LoopView, calls: Seq<ToolCallView>, nudge: Seq<char>)
    ensures
        ({
            let (w, r) = responded(v, AgentResponseView::ToolCalls(calls), nudge);
            &&& w.text_streak == 0
            &&& w.write_dispatched == (v.write_dispatched || mentions_write_file(calls))
            &&& r == ReplyView::RunTools(calls)
            &&& !w.finished == !v.finished
        }),
{
}

/// Answers only ever add to the conversation: what was there stays, in place.
pub proof fn law_answers_extend_history(v: LoopView, r: AgentResponseView, nudge: Seq<char>)
    ensures
        v.messages.is_prefix_of(responded(v, r, nudge).0.messages),
        v.max_turns == responded(v, r, nudge).0.max_turns,
        v.turns == responded(v, r, nudge).0.turns,
{
    let w = responded(v, r, nudge).0;
    assert(w.messages.take(v.messages.len() as int) =~= v.messages);
}


// ── Whole runs ────────────────────────────────────────────────────────────────

/// What the driver hands the loop on one turn: the model's answer and, when
/// the answer asks for tools, the outcome of each call, in order.
pub struct TurnInput {
    /// The model's answer, or `None` when the call to the model failed.
    pub response: Option<AgentResponseView>,
    pub outcomes: Seq<Result<Seq<char>, Seq<char>>>,
}

/// How many of `calls`, from the first, have JSON arguments before the
/// first that has not.
pub open spec fn json_prefix(calls: Seq<ToolCallView>) -> nat
    decreases calls.len(),
{
    if calls.len() == 0 || !is_json_text(calls[0].arguments) {
        0
    } else {
        1 + json_prefix(calls.skip(1))
    }
}

/// The loop after the outcomes of `calls` were recorded one by one, in
/// order, as [`AgentLoop::record_tool_result`] records each.
pub open spec fn recorded(v: LoopView, calls: Seq<ToolCallView>, outcomes: Seq<Result<Seq<char>, Seq<char>>>) -> LoopView
    decreases calls.len(),
{
    if calls.len() == 0 || outcomes.len() == 0 {
        v
    } else {
        recorded(
            LoopView {
                messages: v.messages.push(
                    MessageView::ToolResult { call_id: calls[0].id, content: tool_content(outcomes[0]) },
                ),
                ..v
            },
            calls.skip(1),
            outcomes.skip(1),
        )
    }
}

/// A whole run driven from `v` on the inputs `ins`, one per turn, each text
/// answer that goes on being followed by `nudge`: the loop at the end and
/// the number of times the conversation was sent to the model. The run
/// stops when no turn is left, when the loop finishes, when the inputs run
/// out, when a call to the model fails, or at the first tool call whose
/// arguments are not JSON: the calls before it are run and recorded, it and
/// those after it are not. Tool errors are recorded and the run goes on.
pub open spec fn run(v: LoopView, ins: Seq<TurnInput>, nudge: Seq<char>) -> (LoopView, nat)
    decreases ins.len(),
{
    if !turn_left(v) || ins.len() == 0 {
        (v, 0)
    } else {
        match ins[0].response {
            None => (failed(started(v)), 1),
            Some(resp) => {
                let (w, reply) = responded(started(v), resp, nudge);
                match reply {
                    ReplyView::Finish { .. } => (w, 1),
                    ReplyView::Continue => {
                        let (z, n) = run(w, ins.skip(1), nudge);
                        (z, n + 1)
                    },
                    ReplyView::RunTools(calls) => {
                        let b = json_prefix(calls);
                        if b < calls.len() {
                            (failed(recorded(w, calls.take(b as int), ins[0].outcomes)), 1)
                        } else {
                            let (z, n) = run(recorded(w, calls, ins[0].outcomes), ins.skip(1), nudge);
                            (z, n + 1)
                        }
                    },
                }
            },
        }
    }
}

proof fn lemma_recorded_keeps_counts(v: LoopView, calls: Seq<ToolCallView>, outcomes: Seq<Result<Seq<char>, Seq<char>>>)
    ensures
        recorded(v, calls, outcomes) == (LoopView { messages: recorded(v, calls, outcomes).messages, ..v }),
        v.messages.is_prefix_of(recorded(v, calls, outcomes).messages),
    decreases calls.len(),
{
    if calls.len() > 0 && outcomes.len() > 0 {
        let v1 = LoopView {
            messages: v.messages.push(MessageView::ToolResult { call_id: calls[0].id, content: tool_content(outcomes[0]) }),
            ..v
        };
        lemma_recorded_keeps_counts(v1, calls.skip(1), outcomes.skip(1));
        assert(v1.messages.take(v.messages.len() as int) =~= v.messages);
    }
}

/// Over a whole run, the model is sent the conversation at most as many
/// times as turns are left, and the loop's invariant holds at the end.
pub proof fn law_run_sends_bounded(v: LoopView, ins: Seq<TurnInput>, nudge: Seq<char>)
    requires
        loop_valid(v),
    ensures
        run(v, ins, nudge).1 + v.turns <= v.max_turns,
        run(v, ins, nudge).0.turns == v.turns + run(v, ins, nudge).1,
        run(v, ins, nudge).0.max_turns == v.max_turns,
    decreases ins.len(),
{
    if turn_left(v) && ins.len() > 0 {
        let s = started(v);
        match ins[0].response {
            None => {},
            Some(resp) => {
                let (w, reply) = responded(s, resp, nudge);
                law_answers_extend_history(s, resp, nudge);
                match reply {
                    ReplyView::Finish { .. } => {},
                    ReplyView::Continue => {
                        law_run_sends_bounded(w, ins.skip(1), nudge);
                    },
                    ReplyView::RunTools(calls) => {
                        let b = json_prefix(calls);
                        if b < calls.len() {
                            lemma_recorded_keeps_counts(w, calls.take(b as int), ins[0].outcomes);
                        } else {
                            lemma_recorded_keeps_counts(w, calls, ins[0].outcomes);
                            law_run_sends_bounded(recorded(w, calls, ins[0].outcomes), ins.skip(1), nudge);
                        }
                    },
                }
            },
        }
    }
}

/// A run in which the model only ever asks for tools, with an answer ready
/// for every turn left, sends the conversation once per turn left and ends
/// having used every turn.
pub proof fn law_tool_only_run_uses_every_turn(v: LoopView, ins: Seq<TurnInput>, nudge: Seq<char>)
    requires
        loop_valid(v),
        !v.finished,
        ins.len() + v.turns >= v.max_turns,
        forall|i: int|
            0 <= i < ins.len() ==> ((#[trigger] ins[i]).response matches Some(AgentResponseView::ToolCalls(cs))
                && json_prefix(cs) == cs.len()),
    ensures
        run(v, ins, nudge).1 == v.max_turns - v.turns,
        !run(v, ins, nudge).0.finished,
        run(v, ins, nudge).0.turns == v.max_turns,
    decreases ins.len(),
{
    if turn_left(v) && ins.len() > 0 {
        let s = started(v);
        assert(ins[0].response matches Some(AgentResponseView::ToolCalls(cs)) && json_prefix(cs) == cs.len());
        let resp = ins[0].response->Some_0;
        let calls = resp->ToolCalls_0;
        let (w, reply) = responded(s, resp, nudge);
        lemma_recorded_keeps_counts(w, calls, ins[0].outcomes);
        let rest = ins.skip(1);
        assert forall|i: int| 0 <= i < rest.len() implies ((#[trigger] rest[i]).response matches Some(
            AgentResponseView::ToolCalls(cs),
        ) && json_prefix(cs) == cs.len()) by {
            assert(rest[i] == ins[i + 1]);
        }
        law_tool_only_run_uses_every_turn(recorded(w, calls, ins[0].outcomes), rest, nudge);
    }
}

/// A failed call to the model ends the run at once: the loop is over after
/// that one send, and no further call is made.
pub proof fn law_send_failure_ends_run(v: LoopView, ins: Seq<TurnInput>, nudge: Seq<char>)
    requires
        turn_left(v),
        ins.len() > 0,
        ins[0].response is None,
    ensures
        run(v, ins, nudge) == (failed(started(v)), 1nat),
{
}

/// A tool call whose arguments are not JSON ends the run: the calls before
/// it are recorded with their outcomes, it and the calls after it are
/// neither run nor recorded, and no further call to the model is made.
pub proof fn law_bad_arguments_end_run(v: LoopView, calls: Seq<ToolCallView>, ins: Seq<TurnInput>, nudge: Seq<char>)
    requires
        turn_left(v),
        ins.len() > 0,
        ins[0].response == Some(AgentResponseView::ToolCalls(calls)),
        json_prefix(calls) < calls.len(),
    ensures
        ({
            let w = responded(started(v), AgentResponseView::ToolCalls(calls), nudge).0;
            run(v, ins, nudge) == (failed(recorded(w, calls.take(json_prefix(calls) as int), ins[0].outcomes)), 1nat)
        }),
{
}

/// A tool that fails does not end the run: when every call of a turn has
/// JSON arguments, the outcomes, errors among them, are recorded and the run
/// goes on to the next turn.
pub proof fn law_tool_errors_do_not_end_run(v: LoopView, calls: Seq<ToolCallView>, ins: Seq<TurnInput>, nudge: Seq<char>)
    requires
        turn_left(v),
        ins.len() > 0,
        ins[0].response == Some(AgentResponseView::ToolCalls(calls)),
        json_prefix(calls) == calls.len(),
    ensures
        ({
            let w = responded(started(v), AgentResponseView::ToolCalls(calls), nudge).0;
            let (z, n) = run(recorded(w, calls, ins[0].outcomes), ins.skip(1), nudge);
            run(v, ins, nudge) == (z, n + 1)
        }),
{
}

/// The results of a tool-call turn join the conversation right after the
/// calls, one per call, in the calls' order, each with its call's id and
/// the outcome's content.
pub proof fn law_tool_results_follow_calls_in_order(
    v: LoopView,
    calls: Seq<ToolCallView>,
    outcomes: Seq<Result<Seq<char>, Seq<char>>>,
    nudge: Seq<char>,
)
    requires
        outcomes.len() == calls.len(),
    ensures
        ({
            let (w, r) = responded(v, AgentResponseView::ToolCalls(calls), nudge);
            let z = recorded(w, calls, outcomes);
            &&& r == ReplyView::RunTools(calls)
            &&& z.messages.len() == v.messages.len() + 1 + calls.len()
            &&& z.messages.take(v.messages.len() as int) == v.messages
            &&& z.messages[v.messages.len() as int] == MessageView::AssistantToolCalls(calls)
            &&& forall|i: int|
                0 <= i < calls.len() ==> #[trigger] z.messages[v.messages.len() + 1 + i] == (MessageView::ToolResult {
                    call_id: calls[i].id,
                    content: tool_content(outcomes[i]),
                })
        }),
{
    let (w, r) = responded(v, AgentResponseView::ToolCalls(calls), nudge);
    lemma_recorded_layout(w, calls, outcomes);
    assert(w.messages =~= v.messages.push(MessageView::AssistantToolCalls(calls)));
    assert forall|i: int| 0 <= i < calls.len() implies #[trigger] recorded(w, calls, outcomes).messages[v.messages.len() + 1 + i]
        == (MessageView::ToolResult { call_id: calls[i].id, content: tool_content(outcomes[i]) }) by {
        assert(recorded(w, calls, outcomes).messages[w.messages.len() + i] == (MessageView::ToolResult {
            call_id: calls[i].id,
            content: tool_content(outcomes[i]),
        }));
    }
    let z = recorded(w, calls, outcomes).messages;
    assert(z.take(w.messages.len() as int) == w.messages);
    assert(z[v.messages.len() as int] == MessageView::AssistantToolCalls(calls)) by {
        assert(z.take(w.messages.len() as int)[v.messages.len() as int] == z[v.messages.len() as int]);
    }
    assert(z.take(v.messages.len() as int) =~= v.messages) by {
        assert forall|j: int| 0 <= j < v.messages.len() implies z[j] == v.messages[j] by {
            assert(z.take(w.messages.len() as int)[j] == z[j]);
        }
    }
}

/// In run mode, a run whose first three answers are plain text ends no later
/// than the third: the conversation is sent at most three times.
pub proof fn law_run_mode_stops_after_three_texts(v: LoopView, ins: Seq<TurnInput>, nudge: Seq<char>)
    requires
        v.require_write,
        ins.len() >= 3,
        ins[0].response matches Some(AgentResponseView::Text(_)),
        ins[1].response matches Some(AgentResponseView::Text(_)),
        ins[2].response matches Some(AgentResponseView::Text(_)),
    ensures
        run(v, ins, nudge).1 <= 3,
{
    reveal_with_fuel(run, 4);
    let r1 = ins.skip(1);
    let r2 = r1.skip(1);
    assert(r1[0] == ins[1]);
    assert(r2[0] == ins[2]);
    assert(r1.len() >= 2 && r2.len() >= 1);
}

proof fn lemma_recorded_layout(v: LoopView, calls: Seq<ToolCallView>, outcomes: Seq<Result<Seq<char>, Seq<char>>>)
    requires
        outcomes.len() == calls.len(),
    ensures
        recorded(v, calls, outcomes).messages.len() == v.messages.len() + calls.len(),
        recorded(v, calls, outcomes).messages.take(v.messages.len() as int) == v.messages,
        forall|i: int|
            0 <= i < calls.len() ==> #[trigger] recorded(v, calls, outcomes).messages[v.messages.len() + i] == (
            MessageView::ToolResult { call_id: calls[i].id, content: tool_content(outcomes[i]) }),
    decreases calls.len(),
{
    if calls.len() == 0 {
        assert(v.messages.take(v.messages.len() as int) =~= v.messages);
    } else {
        let v1 = LoopView {
            messages: v.messages.push(MessageView::ToolResult { call_id: calls[0].id, content: tool_content(outcomes[0]) }),
            ..v
        };
        lemma_recorded_layout(v1, calls.skip(1), outcomes.skip(1));
        let z = recorded(v, calls, outcomes).messages;
        assert(z.take(v.messages.len() as int) =~= v.messages) by {
            assert(z.take(v1.messages.len() as int) == v1.messages);
            assert forall|j: int| 0 <= j < v.messages.len() implies z[j] == v.messages[j] by {
                assert(z.take(v1.messages.len() as int)[j] == z[j]);
            }
        }
        assert forall|i: int| 0 <= i < calls.len() implies #[trigger] z[v.messages.len() + i] == (MessageView::ToolResult {
            call_id: calls[i].id,
            content: tool_content(outcomes[i]),
        }) by {
            if i == 0 {
                assert(z.take(v1.messages.len() as int) == v1.messages);
                assert(z.take(v1.messages.len() as int)[v.messages.len() as int] == z[v.messages.len() as int]);
            } else {
                assert(z[v1.messages.len() + (i - 1)] == (MessageView::ToolResult {
                    call_id: calls.skip(1)[i - 1].id,
                    content: tool_content(outcomes.skip(1)[i - 1]),
                }));
            }
        }
    }
}

} // verus!
