//! Conversation-history compaction: once the tool results of a conversation
//! grow past a threshold, the results of older tool-call turns are replaced
//! by one-line summaries, while the most recent turns stay verbatim.

use vstd::prelude::*;

use crate::messages::{messages_view, Message, MessageView};
use crate::text::{append_decimal, byte_len, decimal, has_prefix, starts_with_str, utf8_len};

verus! {

/// What one compaction pass did.
#[derive(Debug, Clone, Copy)]
pub struct CompactionStats {
    /// Total bytes of tool-result contents before the pass.
    pub chars_before: usize,
    /// Total bytes of tool-result contents after the pass.
    pub chars_after: usize,
    /// Number of tool results that were replaced by a summary.
    pub messages_compacted: usize,
}

/// Bytes of content carried by a message: its content for a tool result, zero otherwise.
pub open spec fn tool_result_len(m: MessageView) -> nat {
    match m {
        MessageView::ToolResult { content, .. } => utf8_len(content),
        _ => 0,
    }
}

/// Total bytes of tool-result contents in a conversation.
pub open spec fn total_tool_result_len(ms: Seq<MessageView>) -> nat
    decreases ms.len(),
{
    if ms.len() == 0 {
        0
    } else {
        total_tool_result_len(ms.drop_last()) + tool_result_len(ms.last())
    }
}

/// `n`, or the largest `usize` when `n` does not fit in one.
pub open spec fn clamp_usize(n: nat) -> nat {
    if n > usize::MAX {
        usize::MAX as nat
    } else {
        n
    }
}

fn saturate_usize(n: u128) -> (r: usize)
    ensures
        r as nat == clamp_usize(n as nat),
{
    if n > usize::MAX as u128 {
        usize::MAX
    } else {
        n as usize
    }
}

/// The message opens a tool-call turn.
pub open spec fn is_tool_call_turn(m: MessageView) -> bool {
    m is AssistantToolCalls
}

/// Number of tool-call turns in `ms[i..]`.
pub open spec fn turns_from(ms: Seq<MessageView>, i: int) -> nat
    decreases ms.len() - i,
{
    if i < 0 || i >= ms.len() {
        0
    } else {
        turns_from(ms, i + 1) + if is_tool_call_turn(ms[i]) { 1nat } else { 0nat }
    }
}

/// Backward scan over `ms[..i]`, `seen` tool-call turns having been passed
/// already: the position of the turn that completes `keep` turns, or 0.
pub open spec fn boundary_scan(ms: Seq<MessageView>, keep: nat, i: int, seen: nat) -> int
    decreases i,
{
    if i <= 0 {
        0
    } else if is_tool_call_turn(ms[i - 1]) && seen + 1 >= keep {
        i - 1
    } else {
        boundary_scan(
            ms,
            keep,
            i - 1,
            if is_tool_call_turn(ms[i - 1]) { seen + 1 } else { seen },
        )
    }
}

/// Start of the keep window: the position of the `keep`-th most recent
/// tool-call turn (0 when there are fewer); everything is a candidate when
/// `keep` is 0.
pub open spec fn keep_boundary(ms: Seq<MessageView>, keep: nat) -> int {
    if keep == 0 {
        ms.len() as int
    } else {
        boundary_scan(ms, keep, ms.len() as int, 0)
    }
}

/// Prefix marking a tool result that has already been summarised.
pub open spec fn compacted_marker() -> Seq<char> {
    "[compacted:"@
}

/// A tool result that a compaction pass would summarise.
pub open spec fn is_candidate(m: MessageView) -> bool {
    match m {
        MessageView::ToolResult { content, .. } => !has_prefix(content, compacted_marker()),
        _ => false,
    }
}

/// The summary line that replaces a tool result of `n` bytes.
pub open spec fn placeholder(call_id: Seq<char>, n: nat) -> Seq<char> {
    "[compacted: "@ + call_id + ", "@ + decimal(n) + " chars]"@
}

/// A tool result with its content replaced by its summary.
pub open spec fn summarised(m: MessageView) -> MessageView {
    match m {
        MessageView::ToolResult { call_id, content } => MessageView::ToolResult {
            call_id: call_id,
            content: placeholder(call_id, utf8_len(content)),
        },
        _ => m,
    }
}

/// The conversation with every candidate before position `b` summarised.
pub open spec fn summarise_before(ms: Seq<MessageView>, b: int) -> Seq<MessageView> {
    Seq::new(
        ms.len(),
        |i: int| if i < b && is_candidate(ms[i]) { summarised(ms[i]) } else { ms[i] },
    )
}

/// Number of candidates among `ms[..b]`.
pub open spec fn candidates_before(ms: Seq<MessageView>, b: int) -> nat
    decreases b,
{
    if b <= 0 || ms.len() == 0 {
        0
    } else if b > ms.len() {
        candidates_before(ms, ms.len() as int)
    } else {
        candidates_before(ms, b - 1) + if is_candidate(ms[b - 1]) { 1nat } else { 0nat }
    }
}

/// The conversation as a compaction pass leaves it.
pub open spec fn compacted(ms: Seq<MessageView>, threshold: nat, keep: nat) -> Seq<MessageView> {
    if total_tool_result_len(ms) <= threshold {
        ms
    } else {
        summarise_before(ms, keep_boundary(ms, keep))
    }
}

/// A compaction pass does something: the threshold is exceeded and some
/// candidate lies before the keep window.
pub open spec fn compaction_happens(ms: Seq<MessageView>, threshold: nat, keep: nat) -> bool {
    total_tool_result_len(ms) > threshold && candidates_before(ms, keep_boundary(ms, keep)) > 0
}

proof fn lemma_total_push(ms: Seq<MessageView>, m: MessageView)
    ensures
        total_tool_result_len(ms.push(m)) == total_tool_result_len(ms) + tool_result_len(m),
{
    assert(ms.push(m).drop_last() =~= ms);
}

proof fn lemma_boundary_range(ms: Seq<MessageView>, keep: nat, i: int, seen: nat)
    requires
        0 <= i <= ms.len(),
    ensures
        0 <= boundary_scan(ms, keep, i, seen) <= i,
    decreases i,
{
    if i > 0 {
        let s2 = if is_tool_call_turn(ms[i - 1]) { seen + 1 } else { seen };
        lemma_boundary_range(ms, keep, i - 1, s2);
    }
}

/// Position where the most recent `keep_turns` tool-call turns begin; every
/// tool result before it may be summarised.
pub fn find_boundary(messages: &Vec<Message>, keep_turns: u32) -> (b: usize)
    ensures
        b as int == keep_boundary(messages_view(messages@), keep_turns as nat),
        b <= messages@.len(),
{
    let ghost ms = messages_view(messages@);
    if keep_turns == 0 {
        return messages.len();
    }
    let mut seen: u32 = 0;
    let mut i: usize = messages.len();
    while i > 0
        invariant
            ms == messages_view(messages@),
            0 < keep_turns,
            i <= messages@.len(),
            seen < keep_turns,
            keep_boundary(ms, keep_turns as nat) == boundary_scan(ms, keep_turns as nat, i as int, seen as nat),
        decreases i,
    {
        i = i - 1;
        let is_turn = match &messages[i] {
            Message::AssistantToolCalls(_) => true,
            _ => false,
        };
        assert(is_turn == is_tool_call_turn(ms[i as int]));
        if is_turn {
            seen = seen + 1;
            if seen >= keep_turns {
                return i;
            }
        }
    }
    0
}

fn summary_for(call_id: &String, content: &String) -> (s: String)
    ensures
        s@ == placeholder(call_id@, utf8_len(content@)),
{
    let n = byte_len(content);
    let mut s = String::from_str("[compacted: ");
    s.append(call_id.as_str());
    s.append(", ");
    append_decimal(&mut s, n as u64);
    s.append(" chars]");
    s
}

fn tool_result_total(messages: &Vec<Message>) -> (t: u128)
    ensures
        t as nat == total_tool_result_len(messages_view(messages@)),
{
    let ghost ms = messages_view(messages@);
    let mut t: u128 = 0;
    let n = messages.len();
    for i in 0..n
        invariant
            n == messages@.len(),
            ms == messages_view(messages@),
            t as nat == total_tool_result_len(ms.take(i as int)),
            t <= i * (usize::MAX as int),
    {
        proof {
            assert(ms.take(i + 1) =~= ms.take(i as int).push(ms[i as int]));
            lemma_total_push(ms.take(i as int), ms[i as int]);
        }
        match &messages[i] {
            Message::ToolResult { content, .. } => {
                let len = byte_len(content);
                assert(t + len <= (i + 1) * (usize::MAX as int)) by (nonlinear_arith)
                    requires
                        t <= i * (usize::MAX as int),
                        len <= usize::MAX,
                ;
                assert((i + 1) * (usize::MAX as int) <= u128::MAX) by (nonlinear_arith)
                    requires
                        i < usize::MAX,
                        usize::MAX <= u64::MAX,
                ;
                t = t + len as u128;
            },
            _ => {},
        }
        assert(t <= (i + 1) * (usize::MAX as int)) by (nonlinear_arith)
            requires
                t <= i * (usize::MAX as int) || t <= (i + 1) * (usize::MAX as int),
        ;
    }
    assert(ms.take(n as int) =~= ms);
    t
}

proof fn lemma_candidates_step(ms: Seq<MessageView>, b: int)
    requires
        0 <= b < ms.len(),
    ensures
        candidates_before(ms, b + 1) == candidates_before(ms, b) + if is_candidate(ms[b]) { 1nat } else { 0nat },
{
}

proof fn lemma_candidates_le(ms: Seq<MessageView>, b: int)
    requires
        0 <= b <= ms.len(),
    ensures
        candidates_before(ms, b) <= b,
    decreases b,
{
    if b > 0 {
        lemma_candidates_le(ms, b - 1);
    }
}

/// Replaces the contents of old tool results by summary lines once the total
/// size of all tool-result contents exceeds `threshold`.
///
/// The most recent `keep_turns` tool-call turns, and everything after them,
/// are kept verbatim, as is every message that is not a tool result and every
/// tool result already summarised. Returns what was done, or `None` when the
/// threshold is not exceeded or there was nothing to summarise.
pub fn compact_history(messages: &mut Vec<Message>, threshold: usize, keep_turns: u32) -> (r: Option<CompactionStats>)
    ensures
        messages_view(final(messages)@) == compacted(messages_view(old(messages)@), threshold as nat, keep_turns as nat),
        r is Some <==> compaction_happens(messages_view(old(messages)@), threshold as nat, keep_turns as nat),
        r matches Some(st) ==> {
            &&& st.chars_before as nat == clamp_usize(total_tool_result_len(messages_view(old(messages)@)))
            &&& st.chars_after as nat == clamp_usize(total_tool_result_len(messages_view(final(messages)@)))
            &&& st.messages_compacted as nat == candidates_before(
                messages_view(old(messages)@),
                keep_boundary(messages_view(old(messages)@), keep_turns as nat),
            )
        },
{
    let ghost ms = messages_view(messages@);
    let chars_before = tool_result_total(messages);
    if chars_before <= threshold as u128 {
        return None;
    }
    let b = find_boundary(messages, keep_turns);
    let ghost target = summarise_before(ms, b as int);
    let mut compacted_count: usize = 0;
    for i in 0..b
        invariant
            b <= ms.len(),
            b as int == keep_boundary(ms, keep_turns as nat),
            target == summarise_before(ms, b as int),
            messages@.len() == ms.len(),
            chars_before as nat == total_tool_result_len(ms),
            forall|j: int| 0 <= j < i ==> #[trigger] messages_view(messages@)[j] == target[j],
            forall|j: int| i <= j < ms.len() ==> #[trigger] messages_view(messages@)[j] == ms[j],
            compacted_count as nat == candidates_before(ms, i as int),
    {
        proof {
            lemma_candidates_step(ms, i as int);
            lemma_candidates_le(ms, i as int);
        }
        let replacement: Option<Message> = match &messages[i] {
            Message::ToolResult { call_id, content } => {
                if !starts_with_str(content.as_str(), "[compacted:") {
                    proof {
                        assert(ms[i as int] == messages_view(messages@)[i as int]);
                    }
                    let summary = summary_for(call_id, content);
                    Some(Message::ToolResult { call_id: call_id.clone(), content: summary })
                } else {
                    None
                }
            },
            _ => None,
        };
        let ghost before = messages@;
        match replacement {
            Some(m) => {
                messages.set(i, m);
                compacted_count = compacted_count + 1;
            },
            None => {},
        }
        assert(messages_view(messages@)[i as int] == target[i as int]);
        assert forall|j: int| 0 <= j < ms.len() && j != i implies #[trigger] messages_view(messages@)[j]
            == messages_view(before)[j] by {
            assert(messages@[j] == before[j]);
        }
    }
    proof {
        assert forall|j: int| b <= j < ms.len() implies target[j] == ms[j] by {}
        assert(messages_view(messages@) =~= target);
    }
    if compacted_count == 0 {
        proof {
            assert forall|j: int| 0 <= j < ms.len() implies target[j] == ms[j] by {
                if j < b {
                    lemma_zero_candidates(ms, b as int, j);
                }
            }
            assert(target =~= ms);
        }
        return None;
    }
    let chars_after = tool_result_total(messages);
    Some(CompactionStats {
        chars_before: saturate_usize(chars_before),
        chars_after: saturate_usize(chars_after),
        messages_compacted: compacted_count,
    })
}

proof fn lemma_zero_candidates(ms: Seq<MessageView>, b: int, j: int)
    requires
        0 <= j < b <= ms.len(),
        candidates_before(ms, b) == 0,
    ensures
        !is_candidate(ms[j]),
    decreases b,
{
    if j < b - 1 {
        lemma_zero_candidates(ms, b - 1, j);
    }
}

proof fn lemma_scan_window(ms: Seq<MessageView>, keep: nat, i: int, seen: nat)
    requires
        0 <= i <= ms.len(),
        keep > 0,
        seen < keep,
        seen == turns_from(ms, i),
    ensures
        turns_from(ms, 0) >= keep ==> {
            let r = boundary_scan(ms, keep, i, seen);
            &&& 0 <= r < ms.len()
            &&& is_tool_call_turn(ms[r])
            &&& turns_from(ms, r) == keep
        },
        turns_from(ms, 0) < keep ==> boundary_scan(ms, keep, i, seen) == 0,
    decreases i,
{
    if i > 0 {
        let s2 = if is_tool_call_turn(ms[i - 1]) { seen + 1 } else { seen };
        if !(is_tool_call_turn(ms[i - 1]) && seen + 1 >= keep) {
            lemma_scan_window(ms, keep, i - 1, s2);
        } else {
            lemma_turns_monotone(ms, 0, i - 1);
        }
    }
}

proof fn lemma_turns_monotone(ms: Seq<MessageView>, i: int, j: int)
    requires
        0 <= i <= j,
    ensures
        turns_from(ms, j) <= turns_from(ms, i),
    decreases j - i,
{
    if i < j {
        lemma_turns_monotone(ms, i + 1, j);
    }
}

/// The keep window is honoured: a compaction pass never changes a message at
/// or after the keep boundary, and that window holds exactly the `keep` most
/// recent tool-call turns, starting at a tool-call turn (or the whole
/// conversation when it has fewer turns).
pub proof fn law_compaction_keeps_recent_turns(ms: Seq<MessageView>, threshold: nat, keep: nat)
    ensures
        ({
            let b = keep_boundary(ms, keep);
            let out = compacted(ms, threshold, keep);
            &&& out.len() == ms.len()
            &&& forall|j: int| b <= j < ms.len() ==> #[trigger] out[j] == ms[j]
            &&& (keep > 0 && turns_from(ms, 0) >= keep) ==> {
                &&& is_tool_call_turn(ms[b])
                &&& turns_from(ms, b) == keep
            }
            &&& (keep > 0 && turns_from(ms, 0) < keep) ==> b == 0
        }),
{
    if keep > 0 {
        lemma_scan_window(ms, keep, ms.len() as int, 0);
    }
}

/// Only tool results are ever changed, and a changed tool result keeps its
/// call id and carries the summary of its former content.
pub proof fn law_compaction_touches_only_tool_results(ms: Seq<MessageView>, threshold: nat, keep: nat)
    ensures
        forall|j: int| 0 <= j < ms.len() ==> {
            let out = #[trigger] compacted(ms, threshold, keep)[j];
            ||| out == ms[j]
            ||| ms[j] matches MessageView::ToolResult { call_id, content }
                && out == (MessageView::ToolResult { call_id, content: placeholder(call_id, utf8_len(content)) })
        },
{
}

proof fn lemma_scan_same_pattern(a: Seq<MessageView>, b: Seq<MessageView>, keep: nat, i: int, seen: nat)
    requires
        a.len() == b.len(),
        0 <= i <= a.len(),
        forall|j: int| 0 <= j < a.len() ==> is_tool_call_turn(#[trigger] a[j]) == is_tool_call_turn(b[j]),
    ensures
        boundary_scan(a, keep, i, seen) == boundary_scan(b, keep, i, seen),
    decreases i,
{
    if i > 0 {
        let s2 = if is_tool_call_turn(a[i - 1]) { seen + 1 } else { seen };
        lemma_scan_same_pattern(a, b, keep, i - 1, s2);
    }
}

proof fn lemma_placeholder_marked(call_id: Seq<char>, n: nat)
    ensures
        has_prefix(placeholder(call_id, n), compacted_marker()),
{
    reveal_strlit("[compacted: ");
    reveal_strlit("[compacted:");
    let p = placeholder(call_id, n);
    assert(p.take(11) =~= compacted_marker());
}

proof fn lemma_no_candidates(ms: Seq<MessageView>, b: int)
    requires
        0 <= b <= ms.len(),
        forall|j: int| 0 <= j < b ==> !is_candidate(#[trigger] ms[j]),
    ensures
        candidates_before(ms, b) == 0,
    decreases b,
{
    if b > 0 {
        lemma_no_candidates(ms, b - 1);
    }
}

/// Compaction is idempotent: running a second pass with the same settings on
/// the result of a first one summarises nothing and changes nothing.
pub proof fn law_compaction_idempotent(ms: Seq<MessageView>, threshold: nat, keep: nat)
    ensures
        !compaction_happens(compacted(ms, threshold, keep), threshold, keep),
        compacted(compacted(ms, threshold, keep), threshold, keep) == compacted(ms, threshold, keep),
{
    let once = compacted(ms, threshold, keep);
    if total_tool_result_len(ms) > threshold {
        let b = keep_boundary(ms, keep);
        if keep > 0 {
            lemma_scan_same_pattern(once, ms, keep, ms.len() as int, 0);
            lemma_boundary_range(ms, keep, ms.len() as int, 0);
        }
        assert(keep_boundary(once, keep) == b);
        assert forall|j: int| 0 <= j < b implies !is_candidate(#[trigger] once[j]) by {
            if is_candidate(ms[j]) {
                if let MessageView::ToolResult { call_id, content } = ms[j] {
                    lemma_placeholder_marked(call_id, utf8_len(content));
                }
            }
        }
        lemma_no_candidates(once, b);
        assert(summarise_before(once, b) =~= once);
    }
}

} // verus!
