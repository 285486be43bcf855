//! Conversation wire types exchanged between the agent loop and the AI adapters.

use vstd::prelude::*;

verus! {

/// A tool invocation requested by the model.
#[derive(Debug, Clone)]
pub struct ToolCall {
    pub id: String,
    pub name: String,
    /// The tool's arguments, as JSON text.
    pub arguments: String,
}

/// One entry of the conversation history.
#[derive(Debug, Clone)]
pub enum Message {
    System(String),
    User(String),
    Assistant(String),
    AssistantToolCalls(Vec<ToolCall>),
    ToolResult { call_id: String, content: String },
}

/// What the model answered on one turn.
#[derive(Debug, Clone)]
pub enum AgentResponse {
    Text(String),
    ToolCalls(Vec<ToolCall>),
}

/// Mathematical model of a [`ToolCall`].
pub struct ToolCallView {
    pub id: Seq<char>,
    pub name: Seq<char>,
    pub arguments: Seq<char>,
}

/// Mathematical model of a [`Message`].
pub enum MessageView {
    System(Seq<char>),
    User(Seq<char>),
    Assistant(Seq<char>),
    AssistantToolCalls(Seq<ToolCallView>),
    ToolResult { call_id: Seq<char>, content: Seq<char> },
}

/// Mathematical model of an [`AgentResponse`].
pub enum AgentResponseView {
    Text(Seq<char>),
    ToolCalls(Seq<ToolCallView>),
}

impl View for ToolCall {
    type V = ToolCallView;

    open spec fn view(&self) -> ToolCallView {
        ToolCallView { id: self.id@, name: self.name@, arguments: self.arguments@ }
    }
}

/// The models of a sequence of tool calls.
pub open spec fn calls_view(calls: Seq<ToolCall>) -> Seq<ToolCallView> {
    calls.map_values(|c: ToolCall| c@)
}

impl View for Message {
    type V = MessageView;

    open spec fn view(&self) -> MessageView {
        match self {
            Message::System(s) => MessageView::System(s@),
            Message::User(s) => MessageView::User(s@),
            Message::Assistant(s) => MessageView::Assistant(s@),
            Message::AssistantToolCalls(calls) => MessageView::AssistantToolCalls(calls_view(calls@)),
            Message::ToolResult { call_id, content } => MessageView::ToolResult {
                call_id: call_id@,
                content: content@,
            },
        }
    }
}

impl View for AgentResponse {
    type V = AgentResponseView;

    open spec fn view(&self) -> AgentResponseView {
        match self {
            AgentResponse::Text(s) => AgentResponseView::Text(s@),
            AgentResponse::ToolCalls(calls) => AgentResponseView::ToolCalls(calls_view(calls@)),
        }
    }
}

/// The models of a sequence of messages.
pub open spec fn messages_view(ms: Seq<Message>) -> Seq<MessageView> {
    ms.map_values(|m: Message| m@)
}

impl ToolCall {
    /// A copy of this call.
    pub fn duplicate(&self) -> (r: ToolCall)
        ensures
            r@ == self@,
    {
        ToolCall { id: self.id.clone(), name: self.name.clone(), arguments: self.arguments.clone() }
    }
}

/// A copy of a list of tool calls.
pub fn duplicate_calls(calls: &Vec<ToolCall>) -> (r: Vec<ToolCall>)
    ensures
        calls_view(r@) == calls_view(calls@),
{
    let mut r: Vec<ToolCall> = Vec::new();
    let n = calls.len();
    for i in 0..n
        invariant
            n == calls@.len(),
            r@.len() == i,
            forall|j: int| 0 <= j < i ==> r@[j]@ == calls@[j]@,
    {
        r.push(calls[i].duplicate());
    }
    assert(calls_view(r@) =~= calls_view(calls@));
    r
}

/// A tool the model may call, as it is offered in a request.
#[derive(Debug, Clone)]
pub struct ToolDef {
    pub name: String,
    pub description: String,
    /// The JSON Schema of the tool's parameters, as JSON text.
    pub parameters: String,
}

/// Mathematical model of a [`ToolDef`].
pub struct ToolDefView {
    pub name: Seq<char>,
    pub description: Seq<char>,
    pub parameters: Seq<char>,
}

impl View for ToolDef {
    type V = ToolDefView;

    open spec fn view(&self) -> ToolDefView {
        ToolDefView { name: self.name@, description: self.description@, parameters: self.parameters@ }
    }
}

/// The models of a list of tool definitions.
pub open spec fn tools_view(tools: Seq<ToolDef>) -> Seq<ToolDefView> {
    tools.map_values(|t: ToolDef| t@)
}

/// A copy of a list of tool definitions.
pub fn duplicate_tools(tools: &Vec<ToolDef>) -> (r: Vec<ToolDef>)
    ensures
        tools_view(r@) == tools_view(tools@),
{
    let mut r: Vec<ToolDef> = Vec::new();
    let n = tools.len();
    for i in 0..n
        invariant
            n == tools@.len(),
            r@.len() == i,
            forall|j: int| 0 <= j < i ==> r@[j]@ == tools@[j]@,
    {
        let t = &tools[i];
        r.push(ToolDef { name: t.name.clone(), description: t.description.clone(), parameters: t.parameters.clone() });
    }
    assert(tools_view(r@) =~= tools_view(tools@));
    r
}

} // verus!
