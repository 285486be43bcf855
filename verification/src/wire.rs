//! How the answers of the AI providers are read, and how a conversation is
//! laid out for them.
//!
//! An answer arrives as JSON; the fields the adapters look at are taken out of
//! it one for one (a missing field, or one of another JSON type, is `None`)
//! into the types below, which the functions of this module read.

use vstd::prelude::*;

use crate::adapters::ANTHROPIC_MAX_TOKENS;
use crate::messages::{
    calls_view, duplicate_calls, duplicate_tools, messages_view, tools_view, AgentResponse, AgentResponseView, Message,
    MessageView, ToolCall, ToolCallView, ToolDef,
};
use crate::str_map::StrMap;
use crate::text::{append_decimal, decimal, str_eq};

verus! {

// ── Answers ───────────────────────────────────────────────────────────────────

/// Why an answer could not be read.
#[derive(Debug, Clone, Copy, PartialEq, Eq, Structural)]
pub enum WireError {
    AnthropicMissingContent,
    AnthropicBlockMissingId,
    AnthropicBlockMissingName,
    OpenAiMissingMessage,
    OpenAiMissingToolCalls,
    OpenAiCallMissingId,
    OpenAiCallMissingName,
    OpenAiCallMissingArguments,
    GeminiMissingParts,
    GeminiCallMissingName,
    ReplayMissingContent,
    ReplayMissingToolCalls,
    ReplayMissingId,
    ReplayMissingName,
    ReplayMissingFunctionName,
    ReplayMissingFunctionArguments,
}

/// The text of a reading error.
pub open spec fn wire_error_text(e: WireError) -> Seq<char> {
    match e {
        WireError::AnthropicMissingContent => "Missing content array in Anthropic response"@,
        WireError::AnthropicBlockMissingId => "Tool use block missing id"@,
        WireError::AnthropicBlockMissingName => "Tool use block missing name"@,
        WireError::OpenAiMissingMessage => "Missing choices[0].message in OpenAI response"@,
        WireError::OpenAiMissingToolCalls => "Expected tool_calls array in assistant message"@,
        WireError::OpenAiCallMissingId => "Tool call missing id"@,
        WireError::OpenAiCallMissingName => "Tool call missing function.name"@,
        WireError::OpenAiCallMissingArguments => "Tool call missing function.arguments"@,
        WireError::GeminiMissingParts => "Missing candidates[0].content.parts in Gemini response"@,
        WireError::GeminiCallMissingName => "functionCall missing name"@,
        WireError::ReplayMissingContent => "Missing content array in replay response"@,
        WireError::ReplayMissingToolCalls => "Expected tool_calls array"@,
        WireError::ReplayMissingId => "missing id"@,
        WireError::ReplayMissingName => "missing name"@,
        WireError::ReplayMissingFunctionName => "missing function.name"@,
        WireError::ReplayMissingFunctionArguments => "missing function.arguments"@,
    }
}

impl WireError {
    /// The error as a sentence.
    pub fn message(&self) -> (r: &'static str)
        ensures
            r@ == wire_error_text(*self),
    {
        match self {
            WireError::AnthropicMissingContent => "Missing content array in Anthropic response",
            WireError::AnthropicBlockMissingId => "Tool use block missing id",
            WireError::AnthropicBlockMissingName => "Tool use block missing name",
            WireError::OpenAiMissingMessage => "Missing choices[0].message in OpenAI response",
            WireError::OpenAiMissingToolCalls => "Expected tool_calls array in assistant message",
            WireError::OpenAiCallMissingId => "Tool call missing id",
            WireError::OpenAiCallMissingName => "Tool call missing function.name",
            WireError::OpenAiCallMissingArguments => "Tool call missing function.arguments",
            WireError::GeminiMissingParts => "Missing candidates[0].content.parts in Gemini response",
            WireError::GeminiCallMissingName => "functionCall missing name",
            WireError::ReplayMissingContent => "Missing content array in replay response",
            WireError::ReplayMissingToolCalls => "Expected tool_calls array",
            WireError::ReplayMissingId => "missing id",
            WireError::ReplayMissingName => "missing name",
            WireError::ReplayMissingFunctionName => "missing function.name",
            WireError::ReplayMissingFunctionArguments => "missing function.arguments",
        }
    }
}

/// One element of the `content` array of an Anthropic answer.
pub struct ContentBlock {
    /// Its `type`.
    pub kind: Option<String>,
    /// Its `text`.
    pub text: Option<String>,
    /// Its `id`.
    pub id: Option<String>,
    /// Its `name`.
    pub name: Option<String>,
    /// Its `input`, written back as JSON text (`null` when absent).
    pub input: String,
}

/// The block is of type `kind`.
pub open spec fn has_kind(b: ContentBlock, kind: Seq<char>) -> bool {
    b.kind matches Some(k) && k@ == kind
}

/// The tool calls of the `tool_use` blocks of `bs`, in order; the first
/// block without an id or a name gives `missing_id` or `missing_name`.
pub open spec fn block_calls(bs: Seq<ContentBlock>, missing_id: WireError, missing_name: WireError) -> Result<
    Seq<ToolCallView>,
    WireError,
>
    decreases bs.len(),
{
    if bs.len() == 0 {
        Ok(seq![])
    } else {
        match block_calls(bs.drop_last(), missing_id, missing_name) {
            Err(e) => Err(e),
            Ok(cs) => {
                let b = bs.last();
                if !has_kind(b, "tool_use"@) {
                    Ok(cs)
                } else {
                    match (b.id, b.name) {
                        (None, _) => Err(missing_id),
                        (Some(_), None) => Err(missing_name),
                        (Some(id), Some(name)) => Ok(
                            cs.push(ToolCallView { id: id@, name: name@, arguments: b.input@ }),
                        ),
                    }
                }
            },
        }
    }
}

/// The text of the first `text` block of `bs` (empty when there is none or
/// it carries no text).
pub open spec fn first_text(bs: Seq<ContentBlock>) -> Seq<char>
    decreases bs.len(),
{
    if bs.len() == 0 {
        seq![]
    } else if has_kind(bs[0], "text"@) {
        match bs[0].text {
            Some(t) => t@,
            None => seq![],
        }
    } else {
        first_text(bs.skip(1))
    }
}

fn is_kind(b: &ContentBlock, kind: &str) -> (r: bool)
    ensures
        r == has_kind(*b, kind@),
{
    match &b.kind {
        Some(k) => str_eq(k.as_str(), kind),
        None => false,
    }
}

fn calls_of_blocks(bs: &Vec<ContentBlock>, missing_id: WireError, missing_name: WireError) -> (r: Result<Vec<ToolCall>, WireError>)
    ensures
        match r {
            Ok(cs) => block_calls(bs@, missing_id, missing_name) == Ok::<Seq<ToolCallView>, WireError>(calls_view(cs@)),
            Err(e) => block_calls(bs@, missing_id, missing_name) == Err::<Seq<ToolCallView>, WireError>(e),
        },
{
    let mut out: Vec<ToolCall> = Vec::new();
    let n = bs.len();
    proof {
        assert(bs@.take(0) =~= Seq::<ContentBlock>::empty());
        assert(calls_view(out@) =~= Seq::<ToolCallView>::empty());
    }
    for i in 0..n
        invariant
            n == bs@.len(),
            block_calls(bs@.take(i as int), missing_id, missing_name) == Ok::<Seq<ToolCallView>, WireError>(
                calls_view(out@),
            ),
    {
        let b = &bs[i];
        proof {
            assert(bs@.take(i + 1).drop_last() =~= bs@.take(i as int));
            assert(bs@.take(i + 1).last() == bs@[i as int]);
        }
        if is_kind(b, "tool_use") {
            let id = match &b.id {
                Some(id) => id.clone(),
                None => {
                    proof {
                        lemma_block_calls_err_extends(bs@, i + 1, missing_id, missing_name);
                    }
                    return Err(missing_id);
                },
            };
            let name = match &b.name {
                Some(n) => n.clone(),
                None => {
                    proof {
                        lemma_block_calls_err_extends(bs@, i + 1, missing_id, missing_name);
                    }
                    return Err(missing_name);
                },
            };
            let ghost before = out@;
            out.push(ToolCall { id, name, arguments: b.input.clone() });
            proof {
                assert(calls_view(out@) =~= calls_view(before).push(out@[before.len() as int]@));
            }
        }
    }
    proof {
        assert(bs@.take(n as int) =~= bs@);
    }
    Ok(out)
}

proof fn lemma_block_calls_err_extends(bs: Seq<ContentBlock>, k: int, missing_id: WireError, missing_name: WireError)
    requires
        0 <= k <= bs.len(),
        block_calls(bs.take(k), missing_id, missing_name) is Err,
    ensures
        block_calls(bs, missing_id, missing_name) == block_calls(bs.take(k), missing_id, missing_name),
    decreases bs.len() - k,
{
    if k < bs.len() {
        assert(bs.take(k + 1).drop_last() =~= bs.take(k));
        lemma_block_calls_err_extends(bs, k + 1, missing_id, missing_name);
    } else {
        assert(bs.take(k) =~= bs);
    }
}

fn first_text_of(bs: &Vec<ContentBlock>) -> (r: String)
    ensures
        r@ == first_text(bs@),
{
    let n = bs.len();
    proof {
        assert(bs@.skip(0) =~= bs@);
    }
    for i in 0..n
        invariant
            n == bs@.len(),
            first_text(bs@) == first_text(bs@.skip(i as int)),
    {
        proof {
            assert(bs@.skip(i as int)[0] == bs@[i as int]);
            assert(bs@.skip(i as int).skip(1) =~= bs@.skip(i + 1));
        }
        if is_kind(&bs[i], "text") {
            return match &bs[i].text {
                Some(t) => t.clone(),
                None => String::new(),
            };
        }
    }
    proof {
        assert(bs@.skip(n as int) =~= Seq::<ContentBlock>::empty());
    }
    String::new()
}

/// The fields of an Anthropic answer that the adapter reads.
pub struct AnthropicBody {
    /// `stop_reason`.
    pub stop_reason: Option<String>,
    /// `content`, when it is an array.
    pub content: Option<Vec<ContentBlock>>,
}

/// What an Anthropic answer says: its tool calls when it stopped for tool
/// use, else the text of its first text block.
pub open spec fn anthropic_answer(b: AnthropicBody) -> Result<AgentResponseView, WireError> {
    match b.content {
        None => Err(WireError::AnthropicMissingContent),
        Some(bs) => if b.stop_reason matches Some(s) && s@ == "tool_use"@ {
            match block_calls(bs@, WireError::AnthropicBlockMissingId, WireError::AnthropicBlockMissingName) {
                Ok(cs) => Ok(AgentResponseView::ToolCalls(cs)),
                Err(e) => Err(e),
            }
        } else {
            Ok(AgentResponseView::Text(first_text(bs@)))
        },
    }
}

/// Reads an Anthropic answer.
pub fn parse_anthropic_response(body: &AnthropicBody) -> (r: Result<AgentResponse, WireError>)
    ensures
        match r {
            Ok(a) => anthropic_answer(*body) == Ok::<AgentResponseView, WireError>(a@),
            Err(e) => anthropic_answer(*body) == Err::<AgentResponseView, WireError>(e),
        },
{
    match &body.content {
        None => Err(WireError::AnthropicMissingContent),
        Some(bs) => {
            let tool_use = match &body.stop_reason {
                Some(s) => str_eq(s.as_str(), "tool_use"),
                None => false,
            };
            if tool_use {
                match calls_of_blocks(bs, WireError::AnthropicBlockMissingId, WireError::AnthropicBlockMissingName) {
                    Ok(cs) => Ok(AgentResponse::ToolCalls(cs)),
                    Err(e) => Err(e),
                }
            } else {
                Ok(AgentResponse::Text(first_text_of(bs)))
            }
        },
    }
}

/// One element of the `tool_calls` array of an OpenAI assistant message.
pub struct FunctionCallJson {
    /// `id`.
    pub id: Option<String>,
    /// `function.name`.
    pub name: Option<String>,
    /// `function.arguments`.
    pub arguments: Option<String>,
}

/// The tool calls of `cs`, in order; the first call lacking a field gives
/// the matching error.
pub open spec fn function_calls(cs: Seq<FunctionCallJson>, errs: (WireError, WireError, WireError)) -> Result<
    Seq<ToolCallView>,
    WireError,
>
    decreases cs.len(),
{
    if cs.len() == 0 {
        Ok(seq![])
    } else {
        match function_calls(cs.drop_last(), errs) {
            Err(e) => Err(e),
            Ok(done) => {
                let c = cs.last();
                match (c.id, c.name, c.arguments) {
                    (None, _, _) => Err(errs.0),
                    (Some(_), None, _) => Err(errs.1),
                    (Some(_), Some(_), None) => Err(errs.2),
                    (Some(id), Some(name), Some(args)) => Ok(
                        done.push(ToolCallView { id: id@, name: name@, arguments: args@ }),
                    ),
                }
            },
        }
    }
}

proof fn lemma_function_calls_err_extends(cs: Seq<FunctionCallJson>, k: int, errs: (WireError, WireError, WireError))
    requires
        0 <= k <= cs.len(),
        function_calls(cs.take(k), errs) is Err,
    ensures
        function_calls(cs, errs) == function_calls(cs.take(k), errs),
    decreases cs.len() - k,
{
    if k < cs.len() {
        assert(cs.take(k + 1).drop_last() =~= cs.take(k));
        lemma_function_calls_err_extends(cs, k + 1, errs);
    } else {
        assert(cs.take(k) =~= cs);
    }
}

fn calls_of_functions(cs: &Vec<FunctionCallJson>, errs: (WireError, WireError, WireError)) -> (r: Result<Vec<ToolCall>, WireError>)
    ensures
        match r {
            Ok(out) => function_calls(cs@, errs) == Ok::<Seq<ToolCallView>, WireError>(calls_view(out@)),
            Err(e) => function_calls(cs@, errs) == Err::<Seq<ToolCallView>, WireError>(e),
        },
{
    let mut out: Vec<ToolCall> = Vec::new();
    let n = cs.len();
    proof {
        assert(cs@.take(0) =~= Seq::<FunctionCallJson>::empty());
        assert(calls_view(out@) =~= Seq::<ToolCallView>::empty());
    }
    for i in 0..n
        invariant
            n == cs@.len(),
            function_calls(cs@.take(i as int), errs) == Ok::<Seq<ToolCallView>, WireError>(calls_view(out@)),
    {
        let c = &cs[i];
        proof {
            assert(cs@.take(i + 1).drop_last() =~= cs@.take(i as int));
            assert(cs@.take(i + 1).last() == cs@[i as int]);
        }
        let id = match &c.id {
            Some(v) => v.clone(),
            None => {
                proof {
                    lemma_function_calls_err_extends(cs@, i + 1, errs);
                }
                return Err(errs.0);
            },
        };
        let name = match &c.name {
            Some(v) => v.clone(),
            None => {
                proof {
                    lemma_function_calls_err_extends(cs@, i + 1, errs);
                }
                return Err(errs.1);
            },
        };
        let arguments = match &c.arguments {
            Some(v) => v.clone(),
            None => {
                proof {
                    lemma_function_calls_err_extends(cs@, i + 1, errs);
                }
                return Err(errs.2);
            },
        };
        let ghost before = out@;
        out.push(ToolCall { id, name, arguments });
        proof {
            assert(calls_view(out@) =~= calls_view(before).push(out@[before.len() as int]@));
        }
    }
    proof {
        assert(cs@.take(n as int) =~= cs@);
    }
    Ok(out)
}

/// The fields of an OpenAI answer that the adapter reads.
pub struct OpenAiBody {
    /// `choices[0].message` is present.
    pub has_message: bool,
    /// `choices[0].finish_reason`.
    pub finish_reason: Option<String>,
    /// `choices[0].message.tool_calls`, when it is an array.
    pub tool_calls: Option<Vec<FunctionCallJson>>,
    /// `choices[0].message.content`.
    pub content: Option<String>,
}

/// The errors of the OpenAI adapter for calls lacking an id, a name or arguments.
pub open spec fn openai_call_errors() -> (WireError, WireError, WireError) {
    (WireError::OpenAiCallMissingId, WireError::OpenAiCallMissingName, WireError::OpenAiCallMissingArguments)
}

/// What an OpenAI answer says: its tool calls when it finished for tool
/// calls, else its content.
pub open spec fn openai_answer(b: OpenAiBody) -> Result<AgentResponseView, WireError> {
    if !b.has_message {
        Err(WireError::OpenAiMissingMessage)
    } else if b.finish_reason matches Some(f) && f@ == "tool_calls"@ {
        match b.tool_calls {
            None => Err(WireError::OpenAiMissingToolCalls),
            Some(cs) => match function_calls(cs@, openai_call_errors()) {
                Ok(v) => Ok(AgentResponseView::ToolCalls(v)),
                Err(e) => Err(e),
            },
        }
    } else {
        Ok(
            AgentResponseView::Text(
                match b.content {
                    Some(c) => c@,
                    None => seq![],
                },
            ),
        )
    }
}

/// Reads an OpenAI answer.
pub fn parse_openai_response(body: &OpenAiBody) -> (r: Result<AgentResponse, WireError>)
    ensures
        match r {
            Ok(a) => openai_answer(*body) == Ok::<AgentResponseView, WireError>(a@),
            Err(e) => openai_answer(*body) == Err::<AgentResponseView, WireError>(e),
        },
{
    if !body.has_message {
        return Err(WireError::OpenAiMissingMessage);
    }
    let wants_tools = match &body.finish_reason {
        Some(f) => str_eq(f.as_str(), "tool_calls"),
        None => false,
    };
    if wants_tools {
        match &body.tool_calls {
            None => Err(WireError::OpenAiMissingToolCalls),
            Some(cs) => match calls_of_functions(
                cs,
                (WireError::OpenAiCallMissingId, WireError::OpenAiCallMissingName, WireError::OpenAiCallMissingArguments),
            ) {
                Ok(v) => Ok(AgentResponse::ToolCalls(v)),
                Err(e) => Err(e),
            },
        }
    } else {
        Ok(
            AgentResponse::Text(
                match &body.content {
                    Some(c) => c.clone(),
                    None => String::new(),
                },
            ),
        )
    }
}

/// The fields of a saved answer that a replay reads: those of an Anthropic
/// answer, those of an OpenAI answer, and the answer itself when it is a
/// plain string.
pub struct ReplayBody {
    /// `stop_reason`, when it is a string.
    pub stop_reason: Option<String>,
    /// `content`, when it is an array.
    pub content: Option<Vec<ContentBlock>>,
    /// `choices[0].finish_reason`, when it is a string.
    pub finish_reason: Option<String>,
    /// `choices[0].message.tool_calls`, when it is an array.
    pub tool_calls: Option<Vec<FunctionCallJson>>,
    /// `choices[0].message.content`, when it is a string.
    pub message_content: Option<String>,
    /// The answer, when it is a JSON string.
    pub text: Option<String>,
}

/// The errors of a replay for calls lacking an id, a name or arguments.
pub open spec fn replay_call_errors() -> (WireError, WireError, WireError) {
    (WireError::ReplayMissingId, WireError::ReplayMissingFunctionName, WireError::ReplayMissingFunctionArguments)
}

/// What a saved answer says: read as an Anthropic answer when it has a stop
/// reason, else as an OpenAI answer when it has a finish reason, else as text.
pub open spec fn replay_answer(b: ReplayBody) -> Result<AgentResponseView, WireError> {
    match b.stop_reason {
        Some(s) => if s@ == "tool_use"@ {
            match b.content {
                None => Err(WireError::ReplayMissingContent),
                Some(bs) => match block_calls(bs@, WireError::ReplayMissingId, WireError::ReplayMissingName) {
                    Ok(cs) => Ok(AgentResponseView::ToolCalls(cs)),
                    Err(e) => Err(e),
                },
            }
        } else {
            Ok(
                AgentResponseView::Text(
                    match b.content {
                        Some(bs) => first_text(bs@),
                        None => seq![],
                    },
                ),
            )
        },
        None => match b.finish_reason {
            Some(f) => if f@ == "tool_calls"@ {
                match b.tool_calls {
                    None => Err(WireError::ReplayMissingToolCalls),
                    Some(cs) => match function_calls(cs@, replay_call_errors()) {
                        Ok(v) => Ok(AgentResponseView::ToolCalls(v)),
                        Err(e) => Err(e),
                    },
                }
            } else {
                Ok(
                    AgentResponseView::Text(
                        match b.message_content {
                            Some(c) => c@,
                            None => seq![],
                        },
                    ),
                )
            },
            None => Ok(
                AgentResponseView::Text(
                    match b.text {
                        Some(t) => t@,
                        None => seq![],
                    },
                ),
            ),
        },
    }
}

/// Reads a saved answer during a replay.
pub fn parse_response_body(body: &ReplayBody) -> (r: Result<AgentResponse, WireError>)
    ensures
        match r {
            Ok(a) => replay_answer(*body) == Ok::<AgentResponseView, WireError>(a@),
            Err(e) => replay_answer(*body) == Err::<AgentResponseView, WireError>(e),
        },
{
    match &body.stop_reason {
        Some(s) => {
            if str_eq(s.as_str(), "tool_use") {
                match &body.content {
                    None => Err(WireError::ReplayMissingContent),
                    Some(bs) => match calls_of_blocks(bs, WireError::ReplayMissingId, WireError::ReplayMissingName) {
                        Ok(cs) => Ok(AgentResponse::ToolCalls(cs)),
                        Err(e) => Err(e),
                    },
                }
            } else {
                Ok(
                    AgentResponse::Text(
                        match &body.content {
                            Some(bs) => first_text_of(bs),
                            None => String::new(),
                        },
                    ),
                )
            }
        },
        None => match &body.finish_reason {
            Some(f) => {
                if str_eq(f.as_str(), "tool_calls") {
                    match &body.tool_calls {
                        None => Err(WireError::ReplayMissingToolCalls),
                        Some(cs) => match calls_of_functions(
                            cs,
                            (
                                WireError::ReplayMissingId,
                                WireError::ReplayMissingFunctionName,
                                WireError::ReplayMissingFunctionArguments,
                            ),
                        ) {
                            Ok(v) => Ok(AgentResponse::ToolCalls(v)),
                            Err(e) => Err(e),
                        },
                    }
                } else {
                    Ok(
                        AgentResponse::Text(
                            match &body.message_content {
                                Some(c) => c.clone(),
                                None => String::new(),
                            },
                        ),
                    )
                }
            },
            None => Ok(
                AgentResponse::Text(
                    match &body.text {
                        Some(t) => t.clone(),
                        None => String::new(),
                    },
                ),
            ),
        },
    }
}

/// The `functionCall` of a Gemini answer part.
pub struct GeminiCallJson {
    /// `name`.
    pub name: Option<String>,
    /// `args`, written back as JSON text (`null` when absent).
    pub args: String,
}

/// One element of `candidates[0].content.parts` of a Gemini answer.
pub struct GeminiPart {
    /// `functionCall`, when the part has that key.
    pub function_call: Option<GeminiCallJson>,
    /// `text`, when it is a string.
    pub text: Option<String>,
}

/// The fields of a Gemini answer that the adapter reads.
pub struct GeminiBody {
    /// `candidates[0].content.parts`, when it is an array.
    pub parts: Option<Vec<GeminiPart>>,
}

/// The id given to the `i`-th function call of a Gemini answer.
pub open spec fn gemini_call_id(i: nat) -> Seq<char> {
    "gemini_call_"@ + decimal(i)
}

/// The tool calls of the function-call parts of `ps`, numbered in order;
/// the first call without a name is an error.
pub open spec fn gemini_calls(ps: Seq<GeminiPart>) -> Result<Seq<ToolCallView>, WireError>
    decreases ps.len(),
{
    if ps.len() == 0 {
        Ok(seq![])
    } else {
        match gemini_calls(ps.drop_last()) {
            Err(e) => Err(e),
            Ok(cs) => match ps.last().function_call {
                None => Ok(cs),
                Some(fc) => match fc.name {
                    None => Err(WireError::GeminiCallMissingName),
                    Some(n) => Ok(cs.push(ToolCallView { id: gemini_call_id(cs.len()), name: n@, arguments: fc.args@ })),
                },
            },
        }
    }
}

/// Some part of `ps` is a function call.
pub open spec fn has_function_call(ps: Seq<GeminiPart>) -> bool {
    exists|i: int| 0 <= i < ps.len() && (#[trigger] ps[i]).function_call is Some
}

/// The texts of the parts of `ps`, joined.
pub open spec fn gemini_text(ps: Seq<GeminiPart>) -> Seq<char>
    decreases ps.len(),
{
    if ps.len() == 0 {
        seq![]
    } else {
        gemini_text(ps.drop_last()) + match ps.last().text {
            Some(t) => t@,
            None => seq![],
        }
    }
}

/// What a Gemini answer says: its function calls when it has any, else its
/// texts joined.
pub open spec fn gemini_answer(b: GeminiBody) -> Result<AgentResponseView, WireError> {
    match b.parts {
        None => Err(WireError::GeminiMissingParts),
        Some(ps) => if has_function_call(ps@) {
            match gemini_calls(ps@) {
                Ok(cs) => Ok(AgentResponseView::ToolCalls(cs)),
                Err(e) => Err(e),
            }
        } else {
            Ok(AgentResponseView::Text(gemini_text(ps@)))
        },
    }
}

proof fn lemma_gemini_err_extends(ps: Seq<GeminiPart>, k: int)
    requires
        0 <= k <= ps.len(),
        gemini_calls(ps.take(k)) is Err,
    ensures
        gemini_calls(ps) == gemini_calls(ps.take(k)),
    decreases ps.len() - k,
{
    if k < ps.len() {
        assert(ps.take(k + 1).drop_last() =~= ps.take(k));
        lemma_gemini_err_extends(ps, k + 1);
    } else {
        assert(ps.take(k) =~= ps);
    }
}

/// Reads a Gemini answer.
pub fn parse_gemini_response(body: &GeminiBody) -> (r: Result<AgentResponse, WireError>)
    ensures
        match r {
            Ok(a) => gemini_answer(*body) == Ok::<AgentResponseView, WireError>(a@),
            Err(e) => gemini_answer(*body) == Err::<AgentResponseView, WireError>(e),
        },
{
    let ps = match &body.parts {
        None => {
            return Err(WireError::GeminiMissingParts);
        },
        Some(ps) => ps,
    };
    let n = ps.len();
    let mut calls: Vec<ToolCall> = Vec::new();
    let mut text = String::new();
    let mut any_call = false;
    proof {
        assert(ps@.take(0) =~= Seq::<GeminiPart>::empty());
        assert(calls_view(calls@) =~= Seq::<ToolCallView>::empty());
    }
    for i in 0..n
        invariant
            n == ps@.len(),
            body.parts == Some(*ps),
            gemini_calls(ps@.take(i as int)) == Ok::<Seq<ToolCallView>, WireError>(calls_view(calls@)),
            text@ == gemini_text(ps@.take(i as int)),
            any_call == has_function_call(ps@.take(i as int)),
    {
        let p = &ps[i];
        let ghost pre = ps@.take(i as int);
        let ghost cur = ps@.take(i + 1);
        proof {
            assert(cur.drop_last() =~= pre);
            assert(cur.last() == ps@[i as int]);
        }
        match &p.text {
            Some(t) => text.append(t.as_str()),
            None => {},
        }
        match &p.function_call {
            None => {},
            Some(fc) => {
                any_call = true;
                match &fc.name {
                    None => {
                        proof {
                            lemma_gemini_err_extends(ps@, i + 1);
                            assert(has_function_call(ps@)) by {
                                assert(ps@[i as int].function_call is Some);
                            }
                        }
                        return Err(WireError::GeminiCallMissingName);
                    },
                    Some(name) => {
                        let mut id = String::from_str("gemini_call_");
                        let k = calls.len();
                        append_decimal(&mut id, k as u64);
                        let ghost before = calls@;
                        calls.push(ToolCall { id, name: name.clone(), arguments: fc.args.clone() });
                        proof {
                            assert(calls_view(calls@) =~= calls_view(before).push(calls@[before.len() as int]@));
                        }
                    },
                }
            },
        }
        proof {
            if has_function_call(cur) {
                let j = choose|j: int| 0 <= j < cur.len() && (#[trigger] cur[j]).function_call is Some;
                if j < i {
                    assert(pre[j] == cur[j]);
                }
            }
            if has_function_call(pre) {
                let j = choose|j: int| 0 <= j < pre.len() && (#[trigger] pre[j]).function_call is Some;
                assert(cur[j] == pre[j]);
            }
        }
    }
    proof {
        assert(ps@.take(n as int) =~= ps@);
    }
    if any_call {
        Ok(AgentResponse::ToolCalls(calls))
    } else {
        Ok(AgentResponse::Text(text))
    }
}

// ── Requests ──────────────────────────────────────────────────────────────────

/// One content block of a message sent to Anthropic.
pub enum AnthropicBlock {
    Text(String),
    /// A tool call; `input` is the call's JSON arguments, as text.
    ToolUse { id: String, name: String, input: String },
    ToolResult { tool_use_id: String, content: String },
}

/// The content of a message sent to Anthropic: a plain string, or blocks.
pub enum AnthropicContent {
    Plain(String),
    Blocks(Vec<AnthropicBlock>),
}

/// A message sent to Anthropic; `user` tells its role (`user` or `assistant`).
pub struct AnthropicTurn {
    pub user: bool,
    pub content: AnthropicContent,
}

/// The parts of an Anthropic request that come from the conversation.
pub struct AnthropicRequest {
    /// The top-level system prompt.
    pub system: Option<String>,
    pub messages: Vec<AnthropicTurn>,
}

/// Mathematical model of an [`AnthropicBlock`].
pub enum BlockView {
    Text(Seq<char>),
    ToolUse { id: Seq<char>, name: Seq<char>, input: Seq<char> },
    ToolResult { tool_use_id: Seq<char>, content: Seq<char> },
}

/// Mathematical model of an [`AnthropicTurn`].
pub struct TurnView {
    pub user: bool,
    /// `None` for plain content, else the blocks.
    pub blocks: Option<Seq<BlockView>>,
    /// The plain content (empty for blocks).
    pub plain: Seq<char>,
}

impl View for AnthropicBlock {
    type V = BlockView;

    open spec fn view(&self) -> BlockView {
        match self {
            AnthropicBlock::Text(t) => BlockView::Text(t@),
            AnthropicBlock::ToolUse { id, name, input } => BlockView::ToolUse { id: id@, name: name@, input: input@ },
            AnthropicBlock::ToolResult { tool_use_id, content } => BlockView::ToolResult {
                tool_use_id: tool_use_id@,
                content: content@,
            },
        }
    }
}

/// The models of a list of blocks.
pub open spec fn blocks_view(bs: Seq<AnthropicBlock>) -> Seq<BlockView> {
    bs.map_values(|b: AnthropicBlock| b@)
}

impl View for AnthropicTurn {
    type V = TurnView;

    open spec fn view(&self) -> TurnView {
        match &self.content {
            AnthropicContent::Plain(t) => TurnView { user: self.user, blocks: None, plain: t@ },
            AnthropicContent::Blocks(bs) => TurnView { user: self.user, blocks: Some(blocks_view(bs@)), plain: seq![] },
        }
    }
}

/// The models of a list of turns.
pub open spec fn turns_view(ts: Seq<AnthropicTurn>) -> Seq<TurnView> {
    ts.map_values(|t: AnthropicTurn| t@)
}

/// The content of the first system message of `ms`.
pub open spec fn first_system(ms: Seq<MessageView>) -> Option<Seq<char>>
    decreases ms.len(),
{
    if ms.len() == 0 {
        None
    } else {
        match ms[0] {
            MessageView::System(c) => Some(c),
            _ => first_system(ms.skip(1)),
        }
    }
}

/// The tool-use blocks of a list of calls.
pub open spec fn tool_use_blocks(cs: Seq<ToolCallView>) -> Seq<BlockView> {
    cs.map_values(|c: ToolCallView| BlockView::ToolUse { id: c.id, name: c.name, input: c.arguments })
}

/// The last message of `ms`, system messages aside, is a tool result.
pub open spec fn ends_with_result(ms: Seq<MessageView>) -> bool
    decreases ms.len(),
{
    if ms.len() == 0 {
        false
    } else {
        match ms.last() {
            MessageView::System(_) => ends_with_result(ms.drop_last()),
            MessageView::ToolResult { .. } => true,
            _ => false,
        }
    }
}

/// The messages sent to Anthropic for the conversation `ms`: system
/// messages left out, each run of consecutive tool results (system messages
/// aside) gathered into one user message of result blocks, a user message
/// as plain text, an assistant message as one text block, and tool calls as
/// tool-use blocks.
pub open spec fn anthropic_turns(ms: Seq<MessageView>) -> Seq<TurnView>
    decreases ms.len(),
{
    if ms.len() == 0 {
        seq![]
    } else {
        let prev = anthropic_turns(ms.drop_last());
        match ms.last() {
            MessageView::System(_) => prev,
            MessageView::User(c) => prev.push(TurnView { user: true, blocks: None, plain: c }),
            MessageView::Assistant(c) => prev.push(
                TurnView { user: false, blocks: Some(seq![BlockView::Text(c)]), plain: seq![] },
            ),
            MessageView::AssistantToolCalls(cs) => prev.push(
                TurnView { user: false, blocks: Some(tool_use_blocks(cs)), plain: seq![] },
            ),
            MessageView::ToolResult { call_id, content } => {
                let b = BlockView::ToolResult { tool_use_id: call_id, content: content };
                if ends_with_result(ms.drop_last()) && prev.len() > 0 && prev.last().blocks is Some {
                    prev.update(
                        prev.len() - 1,
                        TurnView { blocks: Some(prev.last().blocks->0.push(b)), ..prev.last() },
                    )
                } else {
                    prev.push(TurnView { user: true, blocks: Some(seq![b]), plain: seq![] })
                }
            },
        }
    }
}

proof fn lemma_result_turn_shape(ms: Seq<MessageView>)
    requires
        ends_with_result(ms),
    ensures
        anthropic_turns(ms).len() > 0,
        anthropic_turns(ms).last().blocks is Some,
    decreases ms.len(),
{
    match ms.last() {
        MessageView::System(_) => {
            lemma_result_turn_shape(ms.drop_last());
        },
        _ => {},
    }
}

fn tool_use_blocks_of(calls: &Vec<ToolCall>) -> (r: Vec<AnthropicBlock>)
    ensures
        blocks_view(r@) == tool_use_blocks(calls_view(calls@)),
{
    let mut r: Vec<AnthropicBlock> = Vec::new();
    let n = calls.len();
    for i in 0..n
        invariant
            n == calls@.len(),
            r@.len() == i,
            forall|j: int| 0 <= j < i ==> (#[trigger] r@[j])@ == (BlockView::ToolUse {
                id: calls@[j].id@,
                name: calls@[j].name@,
                input: calls@[j].arguments@,
            }),
    {
        r.push(
            AnthropicBlock::ToolUse {
                id: calls[i].id.clone(),
                name: calls[i].name.clone(),
                input: calls[i].arguments.clone(),
            },
        );
    }
    assert(blocks_view(r@) =~= tool_use_blocks(calls_view(calls@)));
    r
}

/// The conversation `messages` laid out for Anthropic: the first system
/// message becomes the system prompt, and the others are sent as
/// [`anthropic_turns`] says.
pub fn anthropic_request(messages: &Vec<Message>) -> (r: AnthropicRequest)
    ensures
        match r.system {
            Some(s) => first_system(messages_view(messages@)) == Some(s@),
            None => first_system(messages_view(messages@)) is None,
        },
        turns_view(r.messages@) == anthropic_turns(messages_view(messages@)),
{
    let ghost ms = messages_view(messages@);
    let mut system: Option<String> = None;
    let mut turns: Vec<AnthropicTurn> = Vec::new();
    let mut last_was_result = false;
    let n = messages.len();
    proof {
        assert(ms.take(0) =~= Seq::<MessageView>::empty());
        assert(ms.skip(0) =~= ms);
        assert(turns_view(turns@) =~= Seq::<TurnView>::empty());
    }
    for i in 0..n
        invariant
            n == messages@.len(),
            ms == messages_view(messages@),
            turns_view(turns@) == anthropic_turns(ms.take(i as int)),
            last_was_result == ends_with_result(ms.take(i as int)),
            match system {
                Some(s) => first_system(ms.take(i as int)) == Some(s@) && first_system(ms) == Some(s@),
                None => first_system(ms.take(i as int)) is None && first_system(ms) == first_system(ms.skip(i as int)),
            },
    {
        let ghost pre = ms.take(i as int);
        let ghost cur = ms.take(i + 1);
        proof {
            assert(cur.drop_last() =~= pre);
            assert(cur.last() == ms[i as int]);
            assert(ms[i as int] == messages@[i as int]@);
            assert(ms.skip(i as int)[0] == ms[i as int]);
            assert(ms.skip(i as int).skip(1) =~= ms.skip(i + 1));
            lemma_first_system_prefix(ms, i as int);
        }
        let ghost before = turns@;
        match &messages[i] {
            Message::System(c) => {
                if system.is_none() {
                    system = Some(c.clone());
                }
            },
            Message::User(c) => {
                turns.push(AnthropicTurn { user: true, content: AnthropicContent::Plain(c.clone()) });
                last_was_result = false;
            },
            Message::Assistant(c) => {
                let mut bs: Vec<AnthropicBlock> = Vec::new();
                bs.push(AnthropicBlock::Text(c.clone()));
                turns.push(AnthropicTurn { user: false, content: AnthropicContent::Blocks(bs) });
                proof {
                    assert(blocks_view(bs@) =~= seq![BlockView::Text(c@)]);
                }
                last_was_result = false;
            },
            Message::AssistantToolCalls(calls) => {
                let bs = tool_use_blocks_of(calls);
                turns.push(AnthropicTurn { user: false, content: AnthropicContent::Blocks(bs) });
                last_was_result = false;
            },
            Message::ToolResult { call_id, content } => {
                let b = AnthropicBlock::ToolResult { tool_use_id: call_id.clone(), content: content.clone() };
                if last_was_result {
                    proof {
                        lemma_result_turn_shape(pre);
                    }
                    let last = turns.pop().unwrap();
                    let extended = match last.content {
                        AnthropicContent::Blocks(mut bs) => {
                            let ghost old_bs = bs@;
                            bs.push(b);
                            proof {
                                assert(blocks_view(bs@) =~= blocks_view(old_bs).push(bs@.last()@));
                            }
                            AnthropicTurn { user: last.user, content: AnthropicContent::Blocks(bs) }
                        },
                        AnthropicContent::Plain(t) => {
                            proof {
                                assert(turns_view(before).last() == last@);
                            }
                            AnthropicTurn { user: last.user, content: AnthropicContent::Plain(t) }
                        },
                    };
                    turns.push(extended);
                } else {
                    let mut bs: Vec<AnthropicBlock> = Vec::new();
                    bs.push(b);
                    proof {
                        assert(blocks_view(bs@) =~= seq![bs@[0]@]);
                    }
                    turns.push(AnthropicTurn { user: true, content: AnthropicContent::Blocks(bs) });
                }
                last_was_result = true;
            },
        }
        proof {
            assert(turns_view(turns@) =~= anthropic_turns(cur));
        }
    }
    proof {
        assert(ms.take(n as int) =~= ms);
    }
    AnthropicRequest { system, messages: turns }
}

/// The system prompt of an Anthropic request: a plain string, or, with
/// prompt caching, one text block marked `cache_control: ephemeral`.
pub enum SystemPrompt {
    Plain(String),
    CachedText(String),
}

/// Mathematical model of a [`SystemPrompt`].
pub enum SystemPromptView {
    Plain(Seq<char>),
    CachedText(Seq<char>),
}

impl View for SystemPrompt {
    type V = SystemPromptView;

    open spec fn view(&self) -> SystemPromptView {
        match self {
            SystemPrompt::Plain(s) => SystemPromptView::Plain(s@),
            SystemPrompt::CachedText(s) => SystemPromptView::CachedText(s@),
        }
    }
}

/// The body of an Anthropic request. The `tools` list is left out of the
/// JSON when it is empty.
pub struct AnthropicRequestBody {
    pub model: String,
    pub max_tokens: u32,
    pub system: Option<SystemPrompt>,
    pub messages: Vec<AnthropicTurn>,
    /// Each tool is sent with its name, description and `input_schema`.
    pub tools: Vec<ToolDef>,
}

/// The system prompt sent for the conversation `ms`: its first system
/// message, cached or not as `prompt_cache` says.
pub open spec fn system_prompt_of(ms: Seq<MessageView>, prompt_cache: bool) -> Option<SystemPromptView> {
    match first_system(ms) {
        None => None,
        Some(s) => Some(if prompt_cache { SystemPromptView::CachedText(s) } else { SystemPromptView::Plain(s) }),
    }
}

/// The body of an Anthropic request for `model`, the conversation
/// `messages` and the tools `tools`: at most [`ANTHROPIC_MAX_TOKENS`] tokens
/// of answer, the first system message as the system prompt (a cached text
/// block when `prompt_cache` holds, else plain), the other messages laid out
/// as [`anthropic_turns`] says, and the tools as given.
pub fn anthropic_request_body(model: &str, messages: &Vec<Message>, tools: &Vec<ToolDef>, prompt_cache: bool) -> (r:
    AnthropicRequestBody)
    ensures
        r.model@ == model@,
        r.max_tokens == 8192,
        match r.system {
            Some(p) => system_prompt_of(messages_view(messages@), prompt_cache) == Some(p@),
            None => system_prompt_of(messages_view(messages@), prompt_cache) is None,
        },
        turns_view(r.messages@) == anthropic_turns(messages_view(messages@)),
        tools_view(r.tools@) == tools_view(tools@),
{
    let parts = anthropic_request(messages);
    let system = match parts.system {
        None => None,
        Some(s) => Some(if prompt_cache { SystemPrompt::CachedText(s) } else { SystemPrompt::Plain(s) }),
    };
    AnthropicRequestBody {
        model: String::from_str(model),
        max_tokens: ANTHROPIC_MAX_TOKENS,
        system,
        messages: parts.messages,
        tools: duplicate_tools(tools),
    }
}

// ── OpenAI requests ───────────────────────────────────────────────────────────

/// A message sent to OpenAI. `content` is JSON `null` when `None`;
/// `tool_calls` and `tool_call_id` are present only when `Some`.
pub struct OpenAiMessage {
    pub role: String,
    pub content: Option<String>,
    /// Each call is sent as a `function` call with its id, name and arguments.
    pub tool_calls: Option<Vec<ToolCall>>,
    pub tool_call_id: Option<String>,
}

/// Mathematical model of an [`OpenAiMessage`].
pub struct OpenAiMessageView {
    pub role: Seq<char>,
    pub content: Option<Seq<char>>,
    pub tool_calls: Option<Seq<ToolCallView>>,
    pub tool_call_id: Option<Seq<char>>,
}

impl View for OpenAiMessage {
    type V = OpenAiMessageView;

    open spec fn view(&self) -> OpenAiMessageView {
        OpenAiMessageView {
            role: self.role@,
            content: match &self.content {
                Some(c) => Some(c@),
                None => None,
            },
            tool_calls: match &self.tool_calls {
                Some(cs) => Some(calls_view(cs@)),
                None => None,
            },
            tool_call_id: match &self.tool_call_id {
                Some(i) => Some(i@),
                None => None,
            },
        }
    }
}

/// How a message of the conversation is sent to OpenAI: system, user and
/// assistant text under their roles; tool calls as an assistant message
/// with no content; a tool result under the role `tool` with its call's id.
pub open spec fn openai_message_of(m: MessageView) -> OpenAiMessageView {
    match m {
        MessageView::System(c) => OpenAiMessageView { role: "system"@, content: Some(c), tool_calls: None, tool_call_id: None },
        MessageView::User(c) => OpenAiMessageView { role: "user"@, content: Some(c), tool_calls: None, tool_call_id: None },
        MessageView::Assistant(c) => OpenAiMessageView {
            role: "assistant"@,
            content: Some(c),
            tool_calls: None,
            tool_call_id: None,
        },
        MessageView::AssistantToolCalls(cs) => OpenAiMessageView {
            role: "assistant"@,
            content: None,
            tool_calls: Some(cs),
            tool_call_id: None,
        },
        MessageView::ToolResult { call_id, content } => OpenAiMessageView {
            role: "tool"@,
            content: Some(content),
            tool_calls: None,
            tool_call_id: Some(call_id),
        },
    }
}

/// The message sent to OpenAI for `m`.
pub fn to_openai_message(m: &Message) -> (r: OpenAiMessage)
    ensures
        r@ == openai_message_of(m@),
{
    match m {
        Message::System(c) => OpenAiMessage {
            role: String::from_str("system"),
            content: Some(c.clone()),
            tool_calls: None,
            tool_call_id: None,
        },
        Message::User(c) => OpenAiMessage {
            role: String::from_str("user"),
            content: Some(c.clone()),
            tool_calls: None,
            tool_call_id: None,
        },
        Message::Assistant(c) => OpenAiMessage {
            role: String::from_str("assistant"),
            content: Some(c.clone()),
            tool_calls: None,
            tool_call_id: None,
        },
        Message::AssistantToolCalls(cs) => OpenAiMessage {
            role: String::from_str("assistant"),
            content: None,
            tool_calls: Some(duplicate_calls(cs)),
            tool_call_id: None,
        },
        Message::ToolResult { call_id, content } => OpenAiMessage {
            role: String::from_str("tool"),
            content: Some(content.clone()),
            tool_calls: None,
            tool_call_id: Some(call_id.clone()),
        },
    }
}

/// The body of an OpenAI chat-completions request. The `tools` list is sent
/// even when empty, each tool as a `function` with its name, description
/// and `parameters`.
pub struct OpenAiRequest {
    pub model: String,
    pub messages: Vec<OpenAiMessage>,
    pub tools: Vec<ToolDef>,
}

/// The models of a list of OpenAI messages.
pub open spec fn openai_messages_view(ms: Seq<OpenAiMessage>) -> Seq<OpenAiMessageView> {
    ms.map_values(|m: OpenAiMessage| m@)
}

/// The body of an OpenAI request for `model`, the conversation `messages`,
/// each sent as [`openai_message_of`] says and in order, and the tools `tools`.
pub fn openai_request(model: &str, messages: &Vec<Message>, tools: &Vec<ToolDef>) -> (r: OpenAiRequest)
    ensures
        r.model@ == model@,
        openai_messages_view(r.messages@) == messages_view(messages@).map_values(|m: MessageView| openai_message_of(m)),
        tools_view(r.tools@) == tools_view(tools@),
{
    let mut out: Vec<OpenAiMessage> = Vec::new();
    let n = messages.len();
    for i in 0..n
        invariant
            n == messages@.len(),
            out@.len() == i,
            forall|j: int| 0 <= j < i ==> (#[trigger] out@[j])@ == openai_message_of(messages@[j]@),
    {
        out.push(to_openai_message(&messages[i]));
    }
    assert(openai_messages_view(out@) =~= messages_view(messages@).map_values(|m: MessageView| openai_message_of(m)));
    OpenAiRequest { model: String::from_str(model), messages: out, tools: duplicate_tools(tools) }
}

proof fn lemma_first_system_prefix(ms: Seq<MessageView>, i: int)
    requires
        0 <= i < ms.len(),
    ensures
        first_system(ms.take(i + 1)) == match first_system(ms.take(i)) {
            Some(s) => Some(s),
            None => match ms[i] {
                MessageView::System(c) => Some(c),
                _ => None,
            },
        },
    decreases i,
{
    if i == 0 {
        assert(ms.take(1).skip(1) =~= Seq::<MessageView>::empty());
        assert(ms.take(1)[0] == ms[0]);
        assert(ms.take(0) =~= Seq::<MessageView>::empty());
        reveal_with_fuel(first_system, 2);
    } else {
        assert(ms.take(i + 1)[0] == ms[0]);
        assert(ms.take(i)[0] == ms[0]);
        lemma_first_system_prefix(ms.skip(1), i - 1);
        assert(ms.take(i + 1).skip(1) =~= ms.skip(1).take(i));
        assert(ms.take(i).skip(1) =~= ms.skip(1).take(i - 1));
        assert(ms.skip(1)[i - 1] == ms[i]);
    }
}

/// One part of a Gemini message.
pub enum GeminiPartOut {
    Text(String),
    /// A function call; `args` is the call's JSON arguments, as text.
    FunctionCall { name: String, args: String },
    FunctionResponse { name: String, content: String },
}

/// A message sent to Gemini; `user` tells its role (`user` or `model`).
pub struct GeminiContent {
    pub user: bool,
    pub parts: Vec<GeminiPartOut>,
}

/// The parts of a Gemini request that come from the conversation.
pub struct GeminiRequest {
    pub system_instruction: Option<String>,
    pub contents: Vec<GeminiContent>,
}

/// Mathematical model of a [`GeminiPartOut`].
pub enum PartView {
    Text(Seq<char>),
    FunctionCall { name: Seq<char>, args: Seq<char> },
    FunctionResponse { name: Seq<char>, content: Seq<char> },
}

impl View for GeminiPartOut {
    type V = PartView;

    open spec fn view(&self) -> PartView {
        match self {
            GeminiPartOut::Text(t) => PartView::Text(t@),
            GeminiPartOut::FunctionCall { name, args } => PartView::FunctionCall { name: name@, args: args@ },
            GeminiPartOut::FunctionResponse { name, content } => PartView::FunctionResponse {
                name: name@,
                content: content@,
            },
        }
    }
}

/// The models of a list of parts.
pub open spec fn parts_view(ps: Seq<GeminiPartOut>) -> Seq<PartView> {
    ps.map_values(|p: GeminiPartOut| p@)
}

/// Mathematical model of a [`GeminiContent`].
pub struct ContentView {
    pub user: bool,
    pub parts: Seq<PartView>,
}

impl View for GeminiContent {
    type V = ContentView;

    open spec fn view(&self) -> ContentView {
        ContentView { user: self.user, parts: parts_view(self.parts@) }
    }
}

/// The models of a list of contents.
pub open spec fn contents_view(cs: Seq<GeminiContent>) -> Seq<ContentView> {
    cs.map_values(|c: GeminiContent| c@)
}

/// The content of the last system message of `ms`.
pub open spec fn last_system(ms: Seq<MessageView>) -> Option<Seq<char>>
    decreases ms.len(),
{
    if ms.len() == 0 {
        None
    } else {
        match ms.last() {
            MessageView::System(c) => Some(c),
            _ => last_system(ms.drop_last()),
        }
    }
}

/// `m` with the id and name of each of `cs` recorded, in order.
pub open spec fn record_calls(m: Map<Seq<char>, Seq<char>>, cs: Seq<ToolCallView>) -> Map<Seq<char>, Seq<char>>
    decreases cs.len(),
{
    if cs.len() == 0 {
        m
    } else {
        record_calls(m, cs.drop_last()).insert(cs.last().id, cs.last().name)
    }
}

/// The function name of each tool-call id requested in `ms` (the latest
/// request of an id wins).
pub open spec fn call_names(ms: Seq<MessageView>) -> Map<Seq<char>, Seq<char>>
    decreases ms.len(),
{
    if ms.len() == 0 {
        Map::empty()
    } else {
        match ms.last() {
            MessageView::AssistantToolCalls(cs) => record_calls(call_names(ms.drop_last()), cs),
            _ => call_names(ms.drop_last()),
        }
    }
}

/// The function-call parts of a list of calls.
pub open spec fn call_parts(cs: Seq<ToolCallView>) -> Seq<PartView> {
    cs.map_values(|c: ToolCallView| PartView::FunctionCall { name: c.name, args: c.arguments })
}

/// The messages sent to Gemini for the conversation `ms`: system messages
/// left out, user and assistant texts as one text part each, tool calls as
/// function-call parts, and each run of consecutive tool results gathered
/// into one user message whose responses carry the function name of their
/// call (the call id when no call is known).
pub open spec fn gemini_contents(ms: Seq<MessageView>) -> Seq<ContentView>
    decreases ms.len(),
{
    if ms.len() == 0 {
        seq![]
    } else {
        let prev = gemini_contents(ms.drop_last());
        match ms.last() {
            MessageView::System(_) => prev,
            MessageView::User(c) => prev.push(ContentView { user: true, parts: seq![PartView::Text(c)] }),
            MessageView::Assistant(c) => prev.push(ContentView { user: false, parts: seq![PartView::Text(c)] }),
            MessageView::AssistantToolCalls(cs) => prev.push(ContentView { user: false, parts: call_parts(cs) }),
            MessageView::ToolResult { call_id, content } => {
                let names = call_names(ms.drop_last());
                let name = if names.contains_key(call_id) {
                    names[call_id]
                } else {
                    call_id
                };
                let p = PartView::FunctionResponse { name: name, content: content };
                if ms.len() >= 2 && ms[ms.len() - 2] is ToolResult && prev.len() > 0 {
                    prev.update(prev.len() - 1, ContentView { parts: prev.last().parts.push(p), ..prev.last() })
                } else {
                    prev.push(ContentView { user: true, parts: seq![p] })
                }
            },
        }
    }
}

/// The views of the values of a string map.
pub open spec fn name_values(m: Map<Seq<char>, String>) -> Map<Seq<char>, Seq<char>> {
    m.map_values(|v: String| v@)
}

fn record_call_names(names: &mut StrMap<String>, calls: &Vec<ToolCall>)
    ensures
        name_values(final(names).map_view()) == record_calls(name_values(old(names).map_view()), calls_view(calls@)),
{
    let ghost start = name_values(names.map_view());
    let n = calls.len();
    proof {
        assert(calls_view(calls@).take(0) =~= Seq::<ToolCallView>::empty());
    }
    for i in 0..n
        invariant
            n == calls@.len(),
            name_values(names.map_view()) == record_calls(start, calls_view(calls@).take(i as int)),
    {
        let ghost before = names.map_view();
        names.insert(calls[i].id.clone(), calls[i].name.clone());
        proof {
            let cv = calls_view(calls@);
            assert(cv.take(i + 1).drop_last() =~= cv.take(i as int));
            assert(cv.take(i + 1).last() == calls@[i as int]@);
            assert(name_values(names.map_view()) =~= name_values(before).insert(calls@[i as int].id@, calls@[i as int].name@));
        }
    }
    proof {
        assert(calls_view(calls@).take(n as int) =~= calls_view(calls@));
    }
}

fn call_parts_of(calls: &Vec<ToolCall>) -> (r: Vec<GeminiPartOut>)
    ensures
        parts_view(r@) == call_parts(calls_view(calls@)),
{
    let mut r: Vec<GeminiPartOut> = Vec::new();
    let n = calls.len();
    for i in 0..n
        invariant
            n == calls@.len(),
            r@.len() == i,
            forall|j: int| 0 <= j < i ==> (#[trigger] r@[j])@ == (PartView::FunctionCall {
                name: calls@[j].name@,
                args: calls@[j].arguments@,
            }),
    {
        r.push(GeminiPartOut::FunctionCall { name: calls[i].name.clone(), args: calls[i].arguments.clone() });
    }
    assert(parts_view(r@) =~= call_parts(calls_view(calls@)));
    r
}

/// The conversation `messages` laid out for Gemini: the last system message
/// becomes the system instruction, and the others are sent as
/// [`gemini_contents`] says.
pub fn gemini_request(messages: &Vec<Message>) -> (r: GeminiRequest)
    ensures
        match r.system_instruction {
            Some(s) => last_system(messages_view(messages@)) == Some(s@),
            None => last_system(messages_view(messages@)) is None,
        },
        contents_view(r.contents@) == gemini_contents(messages_view(messages@)),
{
    let ghost ms = messages_view(messages@);
    let mut system: Option<String> = None;
    let mut contents: Vec<GeminiContent> = Vec::new();
    let mut names: StrMap<String> = StrMap::new();
    let mut last_was_result = false;
    let n = messages.len();
    proof {
        assert(ms.take(0) =~= Seq::<MessageView>::empty());
        assert(contents_view(contents@) =~= Seq::<ContentView>::empty());
        assert(name_values(names.map_view()) =~= Map::<Seq<char>, Seq<char>>::empty());
    }
    for i in 0..n
        invariant
            n == messages@.len(),
            ms == messages_view(messages@),
            contents_view(contents@) == gemini_contents(ms.take(i as int)),
            name_values(names.map_view()) == call_names(ms.take(i as int)),
            last_was_result == (i > 0 && ms[i - 1] is ToolResult),
            match system {
                Some(s) => last_system(ms.take(i as int)) == Some(s@),
                None => last_system(ms.take(i as int)) is None,
            },
    {
        let ghost pre = ms.take(i as int);
        let ghost cur = ms.take(i + 1);
        proof {
            assert(cur.drop_last() =~= pre);
            assert(cur.last() == ms[i as int]);
            assert(ms[i as int] == messages@[i as int]@);
            if i > 0 {
                assert(cur[cur.len() - 2] == ms[i - 1]);
            }
        }
        match &messages[i] {
            Message::System(c) => {
                system = Some(c.clone());
            },
            Message::User(c) => {
                let mut parts: Vec<GeminiPartOut> = Vec::new();
                parts.push(GeminiPartOut::Text(c.clone()));
                contents.push(GeminiContent { user: true, parts });
                proof {
                    assert(parts_view(parts@) =~= seq![PartView::Text(c@)]);
                }
            },
            Message::Assistant(c) => {
                let mut parts: Vec<GeminiPartOut> = Vec::new();
                parts.push(GeminiPartOut::Text(c.clone()));
                contents.push(GeminiContent { user: false, parts });
                proof {
                    assert(parts_view(parts@) =~= seq![PartView::Text(c@)]);
                }
            },
            Message::AssistantToolCalls(calls) => {
                record_call_names(&mut names, calls);
                let parts = call_parts_of(calls);
                contents.push(GeminiContent { user: false, parts });
            },
            Message::ToolResult { call_id, content } => {
                let name = match names.get(call_id.as_str()) {
                    Some(nm) => nm.clone(),
                    None => call_id.clone(),
                };
                let p = GeminiPartOut::FunctionResponse { name, content: content.clone() };
                if last_was_result && contents.len() > 0 {
                    let last = contents.pop().unwrap();
                    let mut parts = last.parts;
                    let ghost old_parts = parts@;
                    parts.push(p);
                    proof {
                        assert(parts_view(parts@) =~= parts_view(old_parts).push(parts@.last()@));
                    }
                    contents.push(GeminiContent { user: last.user, parts });
                } else {
                    let mut parts: Vec<GeminiPartOut> = Vec::new();
                    parts.push(p);
                    proof {
                        assert(parts_view(parts@) =~= seq![parts@[0]@]);
                    }
                    contents.push(GeminiContent { user: true, parts });
                }
            },
        }
        last_was_result = match &messages[i] {
            Message::ToolResult { .. } => true,
            _ => false,
        };
        proof {
            assert(contents_view(contents@) =~= gemini_contents(cur));
        }
    }
    proof {
        assert(ms.take(n as int) =~= ms);
    }
    GeminiRequest { system_instruction: system, contents }
}


/// The body of a Gemini request: the conversation as [`gemini_request`]
/// lays it out, the tools as function declarations (with automatic function
/// calling; the `tools` and `tool_config` keys are left out when there are
/// none), and at most `max_output_tokens` tokens of answer.
pub struct GeminiRequestBody {
    pub system_instruction: Option<String>,
    pub contents: Vec<GeminiContent>,
    pub tools: Vec<ToolDef>,
    pub max_output_tokens: u32,
}

/// The body of a Gemini request for the conversation `messages` and the
/// tools `tools`.
pub fn gemini_request_body(messages: &Vec<Message>, tools: &Vec<ToolDef>) -> (r: GeminiRequestBody)
    ensures
        match r.system_instruction {
            Some(s) => last_system(messages_view(messages@)) == Some(s@),
            None => last_system(messages_view(messages@)) is None,
        },
        contents_view(r.contents@) == gemini_contents(messages_view(messages@)),
        tools_view(r.tools@) == tools_view(tools@),
        r.max_output_tokens == 8192,
{
    let parts = gemini_request(messages);
    GeminiRequestBody {
        system_instruction: parts.system_instruction,
        contents: parts.contents,
        tools: duplicate_tools(tools),
        max_output_tokens: 8192,
    }
}

// ── Laws ──────────────────────────────────────────────────────────────────────

/// Whether a content block is a `tool_use` block.
pub open spec fn tool_use_pred() -> spec_fn(ContentBlock) -> bool {
    |b: ContentBlock| has_kind(b, "tool_use"@)
}

/// Every `tool_use` block of `bs` carries an id and a name.
pub open spec fn uses_are_complete(bs: Seq<ContentBlock>) -> bool {
    forall|i: int| 0 <= i < bs.len() && has_kind(#[trigger] bs[i], "tool_use"@) ==> bs[i].id is Some && bs[i].name is Some
}

/// `cs` are the calls of the blocks `uses`, one per block and in order, each
/// with its block's id, name and input.
pub open spec fn calls_match_blocks(cs: Seq<ToolCallView>, uses: Seq<ContentBlock>) -> bool {
    &&& cs.len() == uses.len()
    &&& forall|k: int|
        0 <= k < cs.len() ==> #[trigger] cs[k] == (ToolCallView {
            id: uses[k].id->0@,
            name: uses[k].name->0@,
            arguments: uses[k].input@,
        })
}

/// When every `tool_use` block carries an id and a name, the calls read from
/// the blocks are exactly the `tool_use` blocks, in order: as many calls as
/// such blocks, the `k`-th call from the `k`-th such block.
pub proof fn law_block_calls_are_the_tool_use_blocks(bs: Seq<ContentBlock>, missing_id: WireError, missing_name: WireError)
    requires
        uses_are_complete(bs),
    ensures
        block_calls(bs, missing_id, missing_name) matches Ok(cs) && calls_match_blocks(cs, bs.filter(tool_use_pred())),
    decreases bs.len(),
{
    reveal(Seq::filter);
    if bs.len() > 0 {
        let init = bs.drop_last();
        assert(uses_are_complete(init)) by {
            assert forall|i: int| 0 <= i < init.len() && has_kind(#[trigger] init[i], "tool_use"@) implies init[i].id is Some
                && init[i].name is Some by {
                assert(init[i] == bs[i]);
            }
        }
        law_block_calls_are_the_tool_use_blocks(init, missing_id, missing_name);
        let b = bs.last();
        assert(b == bs[bs.len() - 1]);
        let prev = init.filter(tool_use_pred());
        assert(bs.filter(tool_use_pred()) == if tool_use_pred()(b) { prev.push(b) } else { prev });
        if has_kind(b, "tool_use"@) {
            let cs = block_calls(init, missing_id, missing_name)->Ok_0;
            let ncs = block_calls(bs, missing_id, missing_name)->Ok_0;
            assert(ncs == cs.push(ToolCallView { id: b.id->0@, name: b.name->0@, arguments: b.input@ }));
            assert forall|k: int| 0 <= k < ncs.len() implies #[trigger] ncs[k] == (ToolCallView {
                id: prev.push(b)[k].id->0@,
                name: prev.push(b)[k].name->0@,
                arguments: prev.push(b)[k].input@,
            }) by {
                if k < cs.len() {
                    assert(ncs[k] == cs[k]);
                    assert(prev.push(b)[k] == prev[k]);
                }
            }
        }
    }
}

/// An Anthropic answer that stopped for tool use, and whose `tool_use`
/// blocks all carry an id and a name, is read as the calls of its
/// `tool_use` blocks, all of them, in order.
pub proof fn law_anthropic_tool_answer(b: AnthropicBody)
    requires
        b.stop_reason matches Some(s) && s@ == "tool_use"@,
        b.content matches Some(bs) && uses_are_complete(bs@),
    ensures
        anthropic_answer(b) matches Ok(AgentResponseView::ToolCalls(cs)) && calls_match_blocks(
            cs,
            b.content->Some_0@.filter(tool_use_pred()),
        ),
{
    law_block_calls_are_the_tool_use_blocks(
        b.content->Some_0@,
        WireError::AnthropicBlockMissingId,
        WireError::AnthropicBlockMissingName,
    );
}

/// `bb` are the tool-use blocks of the calls `cs`: one per call, in order,
/// each with its call's id, name and arguments.
pub open spec fn blocks_match_calls(bb: Seq<BlockView>, cs: Seq<ToolCallView>) -> bool {
    &&& bb.len() == cs.len()
    &&& forall|k: int|
        0 <= k < bb.len() ==> #[trigger] bb[k] == (BlockView::ToolUse {
            id: cs[k].id,
            name: cs[k].name,
            input: cs[k].arguments,
        })
}

/// A tool-call message adds one assistant turn to what is sent to
/// Anthropic, the turns before it unchanged, and that turn holds one
/// tool-use block per call, in order, with the call's id, name and arguments.
pub proof fn law_anthropic_tool_call_turn(ms: Seq<MessageView>, cs: Seq<ToolCallView>)
    ensures
        ({
            let before = anthropic_turns(ms);
            let after = anthropic_turns(ms.push(MessageView::AssistantToolCalls(cs)));
            &&& after.len() == before.len() + 1
            &&& after.take(before.len() as int) == before
            &&& !after.last().user
            &&& after.last().blocks matches Some(bb) && blocks_match_calls(bb, cs)
        }),
{
    let m = MessageView::AssistantToolCalls(cs);
    assert(ms.push(m).drop_last() =~= ms);
    let before = anthropic_turns(ms);
    let after = anthropic_turns(ms.push(m));
    assert(after.take(before.len() as int) =~= before);
}

proof fn lemma_gemini_result_is_user(ms: Seq<MessageView>)
    requires
        ms.len() > 0,
        ms.last() is ToolResult,
    ensures
        gemini_contents(ms).len() > 0,
        gemini_contents(ms).last().user,
    decreases ms.len(),
{
    let init = ms.drop_last();
    if ms.len() >= 2 && ms[ms.len() - 2] is ToolResult && gemini_contents(init).len() > 0 {
        assert(init.last() == ms[ms.len() - 2]);
        lemma_gemini_result_is_user(init);
    }
}

/// What each message adds to what is sent to Gemini: a user message one
/// content with role `user`; an assistant message one content with role
/// `model`; a tool-call message one `model` content with one function call
/// per call, in order; a system message nothing; a tool result a content
/// with role `user` at the end. The contents before a new message are
/// kept, except that a tool result may join the tool results just before it.
pub proof fn law_gemini_roles(ms: Seq<MessageView>, m: MessageView)
    ensures
        ({
            let before = gemini_contents(ms);
            let after = gemini_contents(ms.push(m));
            &&& m matches MessageView::User(c) ==> after == before.push(ContentView { user: true, parts: seq![PartView::Text(c)] })
            &&& m matches MessageView::Assistant(c) ==> after == before.push(
                ContentView { user: false, parts: seq![PartView::Text(c)] },
            )
            &&& m matches MessageView::AssistantToolCalls(cs) ==> {
                &&& after.len() == before.len() + 1
                &&& after.take(before.len() as int) == before
                &&& !after.last().user
                &&& after.last().parts.len() == cs.len()
                &&& forall|k: int|
                    0 <= k < cs.len() ==> #[trigger] after.last().parts[k] == (PartView::FunctionCall {
                        name: cs[k].name,
                        args: cs[k].arguments,
                    })
            }
            &&& m is System ==> after == before
            &&& m is ToolResult ==> after.len() > 0 && after.last().user
        }),
{
    let ext = ms.push(m);
    assert(ext.drop_last() =~= ms);
    assert(ext.last() == m);
    let before = gemini_contents(ms);
    let after = gemini_contents(ext);
    if m is AssistantToolCalls {
        assert(after.take(before.len() as int) =~= before);
    }
    if m is ToolResult {
        lemma_gemini_result_is_user(ext);
    }
}

/// Every call of `cs` carries an id, a name and arguments.
pub open spec fn function_calls_complete(cs: Seq<FunctionCallJson>) -> bool {
    forall|i: int|
        0 <= i < cs.len() ==> (#[trigger] cs[i]).id is Some && cs[i].name is Some && cs[i].arguments is Some
}

/// When every listed call carries an id, a name and arguments, the calls
/// read are all of them, in order, each with its own fields.
pub proof fn law_function_calls_keep_every_call(cs: Seq<FunctionCallJson>, errs: (WireError, WireError, WireError))
    requires
        function_calls_complete(cs),
    ensures
        function_calls(cs, errs) matches Ok(vs) && vs.len() == cs.len() && forall|k: int|
            0 <= k < vs.len() ==> #[trigger] vs[k] == (ToolCallView {
                id: cs[k].id->0@,
                name: cs[k].name->0@,
                arguments: cs[k].arguments->0@,
            }),
    decreases cs.len(),
{
    if cs.len() > 0 {
        let init = cs.drop_last();
        assert(function_calls_complete(init)) by {
            assert forall|i: int| 0 <= i < init.len() implies (#[trigger] init[i]).id is Some && init[i].name is Some
                && init[i].arguments is Some by {
                assert(init[i] == cs[i]);
            }
        }
        law_function_calls_keep_every_call(init, errs);
        assert(cs.last() == cs[cs.len() - 1]);
        let vs = function_calls(cs, errs)->Ok_0;
        let ws = function_calls(init, errs)->Ok_0;
        assert forall|k: int| 0 <= k < vs.len() implies #[trigger] vs[k] == (ToolCallView {
            id: cs[k].id->0@,
            name: cs[k].name->0@,
            arguments: cs[k].arguments->0@,
        }) by {
            if k < ws.len() {
                assert(vs[k] == ws[k]);
                assert(init[k] == cs[k]);
            }
        }
    }
}

/// An OpenAI answer that finished for tool calls, listing calls that all
/// carry an id, a name and arguments, is read as all of those calls, in order.
pub proof fn law_openai_tool_answer(b: OpenAiBody)
    requires
        b.has_message,
        b.finish_reason matches Some(f) && f@ == "tool_calls"@,
        b.tool_calls matches Some(cs) && function_calls_complete(cs@),
    ensures
        openai_answer(b) matches Ok(AgentResponseView::ToolCalls(vs)) && vs.len() == b.tool_calls->Some_0@.len(),
{
    law_function_calls_keep_every_call(b.tool_calls->Some_0@, openai_call_errors());
}

/// Whether a Gemini part is a function call.
pub open spec fn function_call_pred() -> spec_fn(GeminiPart) -> bool {
    |p: GeminiPart| p.function_call is Some
}

/// Every function-call part of `ps` names its function.
pub open spec fn gemini_calls_named(ps: Seq<GeminiPart>) -> bool {
    forall|i: int| 0 <= i < ps.len() && (#[trigger] ps[i]).function_call is Some ==> ps[i].function_call->0.name is Some
}

/// When every function call names its function, the calls read from a
/// Gemini answer are its function-call parts, all of them and in order,
/// the `k`-th numbered `gemini_call_k`, with its name and arguments.
pub proof fn law_gemini_calls_are_the_function_calls(ps: Seq<GeminiPart>)
    requires
        gemini_calls_named(ps),
    ensures
        ({
            let fcs = ps.filter(function_call_pred());
            gemini_calls(ps) matches Ok(cs) && cs.len() == fcs.len() && forall|k: int|
                0 <= k < cs.len() ==> #[trigger] cs[k] == (ToolCallView {
                    id: gemini_call_id(k as nat),
                    name: fcs[k].function_call->0.name->0@,
                    arguments: fcs[k].function_call->0.args@,
                })
        }),
    decreases ps.len(),
{
    reveal(Seq::filter);
    if ps.len() > 0 {
        let init = ps.drop_last();
        assert(gemini_calls_named(init)) by {
            assert forall|i: int| 0 <= i < init.len() && (#[trigger] init[i]).function_call is Some implies init[i].function_call->0.name
                is Some by {
                assert(init[i] == ps[i]);
            }
        }
        law_gemini_calls_are_the_function_calls(init);
        let p = ps.last();
        assert(p == ps[ps.len() - 1]);
        let prev = init.filter(function_call_pred());
        assert(ps.filter(function_call_pred()) == if function_call_pred()(p) { prev.push(p) } else { prev });
        if p.function_call is Some {
            let cs = gemini_calls(init)->Ok_0;
            let ncs = gemini_calls(ps)->Ok_0;
            assert forall|k: int| 0 <= k < ncs.len() implies #[trigger] ncs[k] == (ToolCallView {
                id: gemini_call_id(k as nat),
                name: prev.push(p)[k].function_call->0.name->0@,
                arguments: prev.push(p)[k].function_call->0.args@,
            }) by {
                if k < cs.len() {
                    assert(ncs[k] == cs[k]);
                    assert(prev.push(p)[k] == prev[k]);
                }
            }
        }
    }
}

/// What each message adds to what is sent to Anthropic: a user message a
/// plain user turn; an assistant message an assistant turn of one text
/// block; a system message nothing (it goes to the system prompt); a tool
/// result one result block, joining the user turn of the results just
/// before it or else opening a new user turn. The turns before are kept.
pub proof fn law_anthropic_turn_per_message(ms: Seq<MessageView>, m: MessageView)
    ensures
        ({
            let before = anthropic_turns(ms);
            let after = anthropic_turns(ms.push(m));
            &&& m matches MessageView::User(c) ==> after == before.push(TurnView { user: true, blocks: None, plain: c })
            &&& m matches MessageView::Assistant(c) ==> after == before.push(
                TurnView { user: false, blocks: Some(seq![BlockView::Text(c)]), plain: seq![] },
            )
            &&& m is System ==> after == before
            &&& m matches MessageView::ToolResult { call_id, content } ==> {
                let b = BlockView::ToolResult { tool_use_id: call_id, content: content };
                ||| (after == before.push(TurnView { user: true, blocks: Some(seq![b]), plain: seq![] }))
                ||| (before.len() > 0 && before.last().user && (before.last().blocks matches Some(bb) && after
                    == before.update(before.len() - 1, TurnView { user: true, blocks: Some(bb.push(b)), plain: seq![] })))
            }
        }),
{
    let ext = ms.push(m);
    assert(ext.drop_last() =~= ms);
    assert(ext.last() == m);
    if m is ToolResult && ends_with_result(ms) {
        lemma_result_turn_shape(ms);
        lemma_result_turn_is_user(ms);
    }
}

proof fn lemma_result_turn_is_user(ms: Seq<MessageView>)
    requires
        ends_with_result(ms),
    ensures
        anthropic_turns(ms).len() > 0,
        anthropic_turns(ms).last().user,
        anthropic_turns(ms).last().plain == Seq::<char>::empty(),
    decreases ms.len(),
{
    lemma_result_turn_shape(ms);
    match ms.last() {
        MessageView::System(_) => {
            lemma_result_turn_is_user(ms.drop_last());
        },
        _ => {
            if ends_with_result(ms.drop_last()) {
                lemma_result_turn_is_user(ms.drop_last());
                lemma_result_turn_shape(ms.drop_last());
            }
        },
    }
}

/// Each message goes to OpenAI under the role of who said it: system, user
/// and assistant texts keep their text as content; tool calls go as an
/// assistant message with no content and every call, in order; a tool
/// result goes under the role `tool` with its text and its call's id. Only
/// tool calls carry calls, and only tool results carry a call id.
pub proof fn law_openai_roles(m: MessageView)
    ensures
        ({
            let o = openai_message_of(m);
            &&& m matches MessageView::System(c) ==> o.role == "system"@ && o.content == Some(c)
            &&& m matches MessageView::User(c) ==> o.role == "user"@ && o.content == Some(c)
            &&& m matches MessageView::Assistant(c) ==> o.role == "assistant"@ && o.content == Some(c)
            &&& m matches MessageView::AssistantToolCalls(cs) ==> o.role == "assistant"@ && o.content is None
                && o.tool_calls == Some(cs)
            &&& m matches MessageView::ToolResult { call_id, content } ==> o.role == "tool"@ && o.content == Some(content)
                && o.tool_call_id == Some(call_id)
            &&& (o.tool_calls is Some <==> m is AssistantToolCalls)
            &&& (o.tool_call_id is Some <==> m is ToolResult)
        }),
{
}
} // verus!
