//! Streaming of an agent's run: the chunks a run yields and the order in which
//! they go out, the control signals that pause or stop a stream, and what a
//! collected stream amounts to.
//!
//! Sending, sleeping and reading control signals are the caller's work: the
//! library lays out the actions of a run, and the caller performs them.

use vstd::prelude::*;
use vstd::string::*;

use crate::agent_error::AgentError;
use crate::agent_types::{AgentResult, AgentStep, AgentStepType};
use crate::json::{model, text_of, JsonModel, JsonValue};
use crate::state::FlowState;
use crate::text::{decimal, decimal_string, join, split_words, string_views, words};

verus! {

/// The abstract value of a [`StreamingState`].
pub enum StreamingStateView {
    Ready,
    Streaming { tokens_received: nat },
    Paused,
    Completed { total_tokens: nat },
    Failed { error: Seq<char> },
    Cancelled,
}

/// Streaming execution states
#[derive(Debug)]
pub enum StreamingState {
    /// Ready to start streaming
    Ready,
    /// Currently streaming
    Streaming { tokens_received: usize },
    /// Stream paused
    Paused,
    /// Stream completed successfully
    Completed { total_tokens: usize },
    /// Stream failed
    Failed { error: String },
    /// Stream cancelled
    Cancelled,
}

impl View for StreamingState {
    type V = StreamingStateView;

    open spec fn view(&self) -> StreamingStateView {
        match self {
            StreamingState::Ready => StreamingStateView::Ready,
            StreamingState::Streaming { tokens_received } => StreamingStateView::Streaming {
                tokens_received: *tokens_received as nat,
            },
            StreamingState::Paused => StreamingStateView::Paused,
            StreamingState::Completed { total_tokens } => StreamingStateView::Completed {
                total_tokens: *total_tokens as nat,
            },
            StreamingState::Failed { error } => StreamingStateView::Failed { error: error@ },
            StreamingState::Cancelled => StreamingStateView::Cancelled,
        }
    }
}

impl FlowState for StreamingState {
    /// Completed, failed and cancelled streams are over.
    open spec fn terminal(&self) -> bool {
        self is Completed || self is Failed || self is Cancelled
    }

    /// A stream may move from any state to any other.
    open spec fn allows(&self, target: &Self) -> bool {
        true
    }

    fn is_terminal(&self) -> (b: bool) {
        matches!(self, StreamingState::Completed { .. } | StreamingState::Failed { .. } | StreamingState::Cancelled)
    }

    fn can_transition_to(&self, target: &Self) -> (b: bool) {
        true
    }

    fn same_state(&self, other: &Self) -> (b: bool) {
        match (self, other) {
            (StreamingState::Ready, StreamingState::Ready) => true,
            (StreamingState::Streaming { tokens_received: a }, StreamingState::Streaming { tokens_received: b }) => *a == *b,
            (StreamingState::Paused, StreamingState::Paused) => true,
            (StreamingState::Completed { total_tokens: a }, StreamingState::Completed { total_tokens: b }) => *a == *b,
            (StreamingState::Failed { error: a }, StreamingState::Failed { error: b }) => {
                let r = a.eq(b);
                r
            },
            (StreamingState::Cancelled, StreamingState::Cancelled) => true,
            _ => false,
        }
    }

    fn clone_state(&self) -> (s: Self) {
        match self {
            StreamingState::Ready => StreamingState::Ready,
            StreamingState::Streaming { tokens_received } => StreamingState::Streaming { tokens_received: *tokens_received },
            StreamingState::Paused => StreamingState::Paused,
            StreamingState::Completed { total_tokens } => StreamingState::Completed { total_tokens: *total_tokens },
            StreamingState::Failed { error } => StreamingState::Failed { error: error.clone() },
            StreamingState::Cancelled => StreamingState::Cancelled,
        }
    }
}

/// Stream chunk types
#[derive(Debug)]
pub enum StreamChunk {
    /// Token/text chunk
    Token { content: String, position: usize, is_final: bool },
    /// Agent step update
    Step { step: AgentStep, step_index: usize },
    /// Tool call started
    ToolCall { tool_name: String, arguments: JsonValue, call_id: String },
    /// Tool call result
    ToolResult { call_id: String, result: JsonValue, success: bool },
    /// Agent delegation
    Delegation { target_agent: String, task: String, delegation_id: String },
    /// Thinking/reasoning step
    Thinking { content: String, reasoning_type: String },
    /// Metadata update
    Metadata { key: String, value: JsonValue },
    /// Error occurred
    Error { error: String, recoverable: bool },
    /// Stream ended
    End { final_result: Option<String>, success: bool },
}

/// The abstract value of a chunk; a step chunk is known by its index.
pub enum ChunkModel {
    Token { content: Seq<char>, position: nat, is_final: bool },
    Step { step_index: nat },
    ToolCall { tool_name: Seq<char>, arguments: JsonModel, call_id: Seq<char> },
    ToolResult { call_id: Seq<char>, result: JsonModel, success: bool },
    Delegation { target_agent: Seq<char>, task: Seq<char>, delegation_id: Seq<char> },
    Thinking { content: Seq<char>, reasoning_type: Seq<char> },
    Metadata { key: Seq<char>, value: JsonModel },
    Error { error: Seq<char>, recoverable: bool },
    End { final_result: Option<Seq<char>>, success: bool },
}

pub open spec fn opt_text(s: Option<String>) -> Option<Seq<char>> {
    match s {
        Some(t) => Some(t@),
        None => None,
    }
}

pub open spec fn chunk_model(c: StreamChunk) -> ChunkModel {
    match c {
        StreamChunk::Token { content, position, is_final } => ChunkModel::Token {
            content: content@,
            position: position as nat,
            is_final,
        },
        StreamChunk::Step { step_index, .. } => ChunkModel::Step { step_index: step_index as nat },
        StreamChunk::ToolCall { tool_name, arguments, call_id } => ChunkModel::ToolCall {
            tool_name: tool_name@,
            arguments: model(arguments),
            call_id: call_id@,
        },
        StreamChunk::ToolResult { call_id, result, success } => ChunkModel::ToolResult {
            call_id: call_id@,
            result: model(result),
            success,
        },
        StreamChunk::Delegation { target_agent, task, delegation_id } => ChunkModel::Delegation {
            target_agent: target_agent@,
            task: task@,
            delegation_id: delegation_id@,
        },
        StreamChunk::Thinking { content, reasoning_type } => ChunkModel::Thinking {
            content: content@,
            reasoning_type: reasoning_type@,
        },
        StreamChunk::Metadata { key, value } => ChunkModel::Metadata { key: key@, value: model(value) },
        StreamChunk::Error { error, recoverable } => ChunkModel::Error { error: error@, recoverable },
        StreamChunk::End { final_result, success } => ChunkModel::End { final_result: opt_text(final_result), success },
    }
}

/// One thing a streaming run does next.
#[derive(Debug)]
pub enum StreamAction {
    /// Send this chunk.
    Send(StreamChunk),
    /// Send a copy of the run's step at this index, as a step chunk.
    SendStep { step_index: usize },
    /// Read a control signal, if one is waiting, and obey it.
    CheckControl,
    /// Wait this many milliseconds.
    Sleep { millis: u64 },
}

/// The abstract value of an action.
pub enum ActionModel {
    Send(ChunkModel),
    CheckControl,
    Sleep(nat),
}

pub open spec fn action_model(a: StreamAction) -> ActionModel {
    match a {
        StreamAction::Send(c) => ActionModel::Send(chunk_model(c)),
        StreamAction::SendStep { step_index } => ActionModel::Send(ChunkModel::Step { step_index: step_index as nat }),
        StreamAction::CheckControl => ActionModel::CheckControl,
        StreamAction::Sleep { millis } => ActionModel::Sleep(millis as nat),
    }
}

pub open spec fn action_models(s: Seq<StreamAction>) -> Seq<ActionModel> {
    s.map_values(|a: StreamAction| action_model(a))
}

/// Which kinds of chunks a run streams.
#[derive(Debug, Clone, Copy)]
pub struct StreamOptions {
    pub enable_step: bool,
    pub enable_thinking: bool,
    pub enable_tool: bool,
}

/// The id of the tool call of step `i`.
pub open spec fn call_id(i: nat) -> Seq<char> {
    "call_"@ + decimal(i)
}

/// The id of the delegation of step `i`.
pub open spec fn delegation_id(i: nat) -> Seq<char> {
    "delegation_"@ + decimal(i)
}

/// A step's output, or null.
pub open spec fn output_or_null(step: AgentStep) -> JsonModel {
    match step.output {
        Some(o) => model(o),
        None => JsonModel::Null,
    }
}

/// A step's output, when it is a string.
pub open spec fn output_text_of(step: AgentStep) -> Option<Seq<char>> {
    match step.output {
        Some(o) => text_of(o),
        None => None,
    }
}

/// The text of the `j`-th word token: the word, with a space before every
/// word but the first.
pub open spec fn word_content(ws: Seq<Seq<char>>, j: nat) -> Seq<char> {
    if j == 0 { ws[0] } else { " "@ + ws[j as int] }
}

/// The actions for the first `k` words of a response whose first token
/// takes position `pos`.
pub open spec fn word_tokens(ws: Seq<Seq<char>>, k: nat, pos: nat) -> Seq<ActionModel>
    decreases k,
{
    if k == 0 {
        Seq::empty()
    } else {
        let j = (k - 1) as nat;
        word_tokens(ws, j, pos) + seq![
            ActionModel::CheckControl,
            ActionModel::Send(ChunkModel::Token {
                content: word_content(ws, j),
                position: pos + j,
                is_final: j == ws.len() - 1,
            }),
            ActionModel::Sleep(50),
        ]
    }
}

/// What step `i` streams after its step chunk, and the next token position.
/// Tool calls stream a call and its result; delegations name the step's input
/// as the task; thinking streams the step's text; model inference streams its
/// text word by word; other steps stream their text as one token.
pub open spec fn step_body(i: nat, step: AgentStep, pos: nat, opts: StreamOptions) -> (Seq<ActionModel>, nat) {
    match step.step_type {
        AgentStepType::ToolCall { .. } => (
            if opts.enable_tool {
                seq![
                    ActionModel::Send(ChunkModel::ToolCall {
                        tool_name: "tool"@,
                        arguments: JsonModel::Object(Seq::empty()),
                        call_id: call_id(i),
                    }),
                    ActionModel::Sleep(100),
                    ActionModel::CheckControl,
                    ActionModel::Send(ChunkModel::ToolResult {
                        call_id: call_id(i),
                        result: output_or_null(step),
                        success: true,
                    }),
                ]
            } else {
                Seq::empty()
            },
            pos,
        ),
        AgentStepType::Delegation { .. } => (
            seq![
                ActionModel::Send(ChunkModel::Delegation {
                    target_agent: "unknown_agent"@,
                    task: match text_of(step.input) {
                        Some(t) => t,
                        None => Seq::empty(),
                    },
                    delegation_id: delegation_id(i),
                }),
            ],
            pos,
        ),
        AgentStepType::Thinking => (
            if opts.enable_thinking {
                seq![
                    ActionModel::Send(ChunkModel::Thinking {
                        content: match output_text_of(step) {
                            Some(t) => t,
                            None => "Thinking..."@,
                        },
                        reasoning_type: "step_reasoning"@,
                    }),
                ]
            } else {
                Seq::empty()
            },
            pos,
        ),
        AgentStepType::ModelInference => match output_text_of(step) {
            Some(t) => (word_tokens(words(t), words(t).len(), pos), pos + words(t).len()),
            None => (Seq::empty(), pos),
        },
        _ => match output_text_of(step) {
            Some(t) => (seq![ActionModel::Send(ChunkModel::Token { content: t, position: pos, is_final: true })], pos + 1),
            None => (Seq::empty(), pos),
        },
    }
}

/// Everything step `i` streams, and the next token position.
pub open spec fn step_script(i: nat, step: AgentStep, pos: nat, opts: StreamOptions) -> (Seq<ActionModel>, nat) {
    let body = step_body(i, step, pos, opts);
    (
        seq![ActionModel::CheckControl]
            + (if opts.enable_step { seq![ActionModel::Send(ChunkModel::Step { step_index: i })] } else { Seq::empty() })
            + body.0 + seq![ActionModel::Sleep(10)],
        body.1,
    )
}

/// What the first `n` steps stream, and the next token position.
pub open spec fn steps_script(steps: Seq<AgentStep>, n: nat, opts: StreamOptions) -> (Seq<ActionModel>, nat)
    decreases n,
{
    if n == 0 {
        (Seq::empty(), 0)
    } else {
        let prev = steps_script(steps, (n - 1) as nat, opts);
        let cur = step_script((n - 1) as nat, steps[n - 1], prev.1, opts);
        (prev.0 + cur.0, cur.1)
    }
}

/// What a stream sends before the agent runs.
pub open spec fn opening_script(task: Seq<char>, opts: StreamOptions) -> Seq<ActionModel> {
    if opts.enable_thinking {
        seq![
            ActionModel::Send(ChunkModel::Thinking {
                content: "Starting to process task: "@ + task,
                reasoning_type: "initial_analysis"@,
            }),
            ActionModel::CheckControl,
        ]
    } else {
        Seq::empty()
    }
}

/// What a stream sends once the agent has run: its steps, then the end.
pub open spec fn result_script(result: AgentResult, opts: StreamOptions) -> Seq<ActionModel> {
    steps_script(result.steps@, result.steps@.len(), opts).0 + seq![
        ActionModel::Send(ChunkModel::End { final_result: opt_text(result.final_answer), success: result.success }),
    ]
}

/// What a stream sends when the agent fails.
pub open spec fn failure_script(error: Seq<char>) -> Seq<ActionModel> {
    seq![
        ActionModel::Send(ChunkModel::Error { error, recoverable: false }),
        ActionModel::Send(ChunkModel::End { final_result: None, success: false }),
    ]
}

fn push_action(acts: &mut Vec<StreamAction>, a: StreamAction)
    ensures
        action_models(final(acts)@) == action_models(old(acts)@).push(action_model(a)),
        final(acts)@.len() == old(acts)@.len() + 1,
{
    let ghost before = acts@;
    acts.push(a);
    assert(action_models(acts@) =~= action_models(before).push(action_model(a)));
}

/// The actions a stream takes before the agent runs.
pub fn opening_actions(task: &str, opts: StreamOptions) -> (r: Vec<StreamAction>)
    ensures
        action_models(r@) == opening_script(task@, opts),
{
    let mut acts: Vec<StreamAction> = Vec::new();
    assert(action_models(acts@) =~= Seq::empty());
    if opts.enable_thinking {
        let content = join("Starting to process task: ", task);
        let kind = String::from_str("initial_analysis");
        push_action(&mut acts, StreamAction::Send(StreamChunk::Thinking { content, reasoning_type: kind }));
        push_action(&mut acts, StreamAction::CheckControl);
    }
    acts
}

/// The actions a stream takes when the agent fails with an error.
pub fn failure_actions(error: &str) -> (r: Vec<StreamAction>)
    ensures
        action_models(r@) == failure_script(error@),
{
    let mut acts: Vec<StreamAction> = Vec::new();
    assert(action_models(acts@) =~= Seq::empty());
    push_action(&mut acts, StreamAction::Send(StreamChunk::Error { error: String::from_str(error), recoverable: false }));
    push_action(&mut acts, StreamAction::Send(StreamChunk::End { final_result: None, success: false }));
    acts
}

/// Append the token actions for the words of a response.
fn push_word_tokens(acts: &mut Vec<StreamAction>, ws: &Vec<String>, pos: usize) -> (next: usize)
    requires
        pos <= old(acts)@.len(),
    ensures
        action_models(final(acts)@) == action_models(old(acts)@) + word_tokens(string_views(ws@), ws@.len(), pos as nat),
        next == pos + ws@.len(),
        next <= final(acts)@.len(),
{
    let ghost start = action_models(acts@);
    let ghost views = string_views(ws@);
    let n = ws.len();
    let mut k: usize = 0;
    assert(start + word_tokens(views, 0, pos as nat) =~= start);
    while k < n
        invariant
            n == ws@.len(),
            views == string_views(ws@),
            views.len() == n,
            k <= n,
            pos + k <= acts@.len(),
            action_models(acts@) == start + word_tokens(views, k as nat, pos as nat),
        decreases n - k,
    {
        push_action(acts, StreamAction::CheckControl);
        let l = acts.len();
        let content = if k == 0 { ws[0].clone() } else { join(" ", ws[k].as_str()) };
        assert(content@ == word_content(views, k as nat));
        let position = pos + k;
        push_action(acts, StreamAction::Send(StreamChunk::Token { content, position, is_final: k == n - 1 }));
        push_action(acts, StreamAction::Sleep { millis: 50 });
        proof {
            assert(l >= pos + k + 1);
            let seg = seq![
                ActionModel::CheckControl,
                ActionModel::Send(ChunkModel::Token {
                    content: word_content(views, k as nat),
                    position: (pos + k) as nat,
                    is_final: k == views.len() - 1,
                }),
                ActionModel::Sleep(50),
            ];
            assert(word_tokens(views, (k + 1) as nat, pos as nat) == word_tokens(views, k as nat, pos as nat) + seg);
            assert(action_models(acts@) =~= start + word_tokens(views, (k + 1) as nat, pos as nat));
        }
        k = k + 1;
    }
    let l = acts.len();
    assert(pos + n <= l);
    pos + n
}

/// Append the actions of step `i`, whose tokens start at position `pos`.
fn push_step(acts: &mut Vec<StreamAction>, i: usize, step: &AgentStep, pos: usize, opts: StreamOptions) -> (next: usize)
    requires
        pos <= old(acts)@.len(),
    ensures
        action_models(final(acts)@) == action_models(old(acts)@) + step_script(i as nat, *step, pos as nat, opts).0,
        next == step_script(i as nat, *step, pos as nat, opts).1,
        next <= final(acts)@.len(),
{
    let ghost start = action_models(acts@);
    let ghost head = seq![ActionModel::CheckControl]
        + (if opts.enable_step { seq![ActionModel::Send(ChunkModel::Step { step_index: i as nat })] } else { Seq::empty() });
    push_action(acts, StreamAction::CheckControl);
    if opts.enable_step {
        push_action(acts, StreamAction::SendStep { step_index: i });
    }
    assert(action_models(acts@) =~= start + head);
    let ghost mid = action_models(acts@);
    let mut next = pos;
    match &step.step_type {
        AgentStepType::ToolCall { .. } => {
            if opts.enable_tool {
                let id = join("call_", decimal_string(i as u64).as_str());
                let id2 = id.clone();
                push_action(acts, StreamAction::Send(StreamChunk::ToolCall {
                    tool_name: String::from_str("tool"),
                    arguments: JsonValue::Object(Vec::new()),
                    call_id: id,
                }));
                push_action(acts, StreamAction::Sleep { millis: 100 });
                push_action(acts, StreamAction::CheckControl);
                let result = match &step.output {
                    Some(o) => o.duplicate(),
                    None => JsonValue::Null,
                };
                push_action(acts, StreamAction::Send(StreamChunk::ToolResult { call_id: id2, result, success: true }));
            }
        },
        AgentStepType::Delegation { .. } => {
            let task = match step.input.as_str() {
                Some(t) => t.clone(),
                None => String::new(),
            };
            let id = join("delegation_", decimal_string(i as u64).as_str());
            push_action(acts, StreamAction::Send(StreamChunk::Delegation {
                target_agent: String::from_str("unknown_agent"),
                task,
                delegation_id: id,
            }));
        },
        AgentStepType::Thinking => {
            if opts.enable_thinking {
                let content = match &step.output {
                    Some(o) => match o.as_str() {
                        Some(t) => t.clone(),
                        None => String::from_str("Thinking..."),
                    },
                    None => String::from_str("Thinking..."),
                };
                push_action(acts, StreamAction::Send(StreamChunk::Thinking {
                    content,
                    reasoning_type: String::from_str("step_reasoning"),
                }));
            }
        },
        AgentStepType::ModelInference => {
            let text: Option<&String> = match &step.output {
                Some(o) => o.as_str(),
                None => None,
            };
            if let Some(t) = text {
                let ws = split_words(t.as_str());
                next = push_word_tokens(acts, &ws, pos);
            }
        },
        _ => {
            let text: Option<&String> = match &step.output {
                Some(o) => o.as_str(),
                None => None,
            };
            if let Some(t) = text {
                push_action(acts, StreamAction::Send(StreamChunk::Token { content: t.clone(), position: pos, is_final: true }));
                let l = acts.len();
                next = pos + 1;
            }
        },
    }
    let ghost body = step_body(i as nat, *step, pos as nat, opts);
    assert(action_models(acts@) =~= mid + body.0);
    push_action(acts, StreamAction::Sleep { millis: 10 });
    assert(action_models(acts@) =~= start + step_script(i as nat, *step, pos as nat, opts).0);
    next
}

/// The actions a stream takes once the agent has produced its result: each
/// step in order, then the end of the stream.
pub fn result_actions(result: &AgentResult, opts: StreamOptions) -> (r: Vec<StreamAction>)
    ensures
        action_models(r@) == result_script(*result, opts),
{
    let mut acts: Vec<StreamAction> = Vec::new();
    let mut pos: usize = 0;
    let mut i: usize = 0;
    assert(action_models(acts@) =~= Seq::empty());
    while i < result.steps.len()
        invariant
            i <= result.steps@.len(),
            pos <= acts@.len(),
            action_models(acts@) == steps_script(result.steps@, i as nat, opts).0,
            pos == steps_script(result.steps@, i as nat, opts).1,
        decreases result.steps@.len() - i,
    {
        pos = push_step(&mut acts, i, &result.steps[i], pos, opts);
        i = i + 1;
    }
    let final_result = match &result.final_answer {
        Some(a) => Some(a.clone()),
        None => None,
    };
    push_action(&mut acts, StreamAction::Send(StreamChunk::End { final_result, success: result.success }));
    acts
}

/// Control signals for streaming
#[derive(Debug, Clone, Copy)]
pub enum StreamControl {
    Pause,
    Resume,
    Cancel,
}

/// What a stream does on a control check.
#[derive(Debug, Clone, Copy)]
pub enum ControlDecision {
    /// Go on; the stream is then paused or not.
    Proceed { paused: bool },
    /// Send the cancellation's end chunk and stop.
    Cancel,
}

/// The decision at a control check, given whether the stream is paused and
/// the signal that was waiting, if any: a pause pauses, a resume resumes, a
/// cancel ends the stream.
pub fn on_control(paused: bool, signal: Option<StreamControl>) -> (d: ControlDecision)
    ensures
        d == (match signal {
            None => ControlDecision::Proceed { paused },
            Some(StreamControl::Pause) => ControlDecision::Proceed { paused: true },
            Some(StreamControl::Resume) => ControlDecision::Proceed { paused: false },
            Some(StreamControl::Cancel) => ControlDecision::Cancel,
        }),
{
    match signal {
        None => ControlDecision::Proceed { paused },
        Some(StreamControl::Pause) => ControlDecision::Proceed { paused: true },
        Some(StreamControl::Resume) => ControlDecision::Proceed { paused: false },
        Some(StreamControl::Cancel) => ControlDecision::Cancel,
    }
}

/// Whether a paused stream stops waiting on a signal: a resume or a cancel
/// ends the wait (the stream stays marked paused), anything else does not.
pub fn ends_wait(signal: Option<StreamControl>) -> (b: bool)
    ensures
        b == (signal matches Some(StreamControl::Resume) || signal matches Some(StreamControl::Cancel)),
{
    match signal {
        Some(StreamControl::Resume) | Some(StreamControl::Cancel) => true,
        _ => false,
    }
}

/// The chunk a cancelled stream ends with.
pub fn cancel_chunk() -> (c: StreamChunk)
    ensures
        chunk_model(c) == (ChunkModel::End { final_result: None, success: false }),
{
    StreamChunk::End { final_result: None, success: false }
}

/// The text of the token chunks, in order.
pub open spec fn token_text(chunks: Seq<StreamChunk>) -> Seq<char>
    decreases chunks.len(),
{
    if chunks.len() == 0 {
        Seq::empty()
    } else {
        token_text(chunks.drop_last()) + match chunks.last() {
            StreamChunk::Token { content, .. } => content@,
            _ => Seq::empty(),
        }
    }
}

/// The steps of the step chunks, in order.
pub open spec fn step_list(chunks: Seq<StreamChunk>) -> Seq<AgentStep>
    decreases chunks.len(),
{
    if chunks.len() == 0 {
        Seq::empty()
    } else {
        match chunks.last() {
            StreamChunk::Step { step, .. } => step_list(chunks.drop_last()).push(step),
            _ => step_list(chunks.drop_last()),
        }
    }
}

/// The tool names and arguments of the tool-call chunks, in order.
pub open spec fn tool_call_list(chunks: Seq<StreamChunk>) -> Seq<(Seq<char>, JsonModel)>
    decreases chunks.len(),
{
    if chunks.len() == 0 {
        Seq::empty()
    } else {
        match chunks.last() {
            StreamChunk::ToolCall { tool_name, arguments, .. } => tool_call_list(chunks.drop_last()).push(
                (tool_name@, model(arguments)),
            ),
            _ => tool_call_list(chunks.drop_last()),
        }
    }
}

/// Some chunk reports an error.
pub open spec fn has_error(chunks: Seq<StreamChunk>) -> bool {
    exists|i: int| 0 <= i < chunks.len() && #[trigger] chunks[i] is Error
}

/// One more than the position of the last token chunk, or zero.
pub open spec fn tokens_seen(chunks: Seq<StreamChunk>) -> nat
    decreases chunks.len(),
{
    if chunks.len() == 0 {
        0
    } else {
        match chunks.last() {
            StreamChunk::Token { position, .. } => position as nat + 1,
            _ => tokens_seen(chunks.drop_last()),
        }
    }
}

/// The final result and success of the last end chunk, if any.
pub open spec fn last_end(chunks: Seq<StreamChunk>) -> Option<(Option<Seq<char>>, bool)>
    decreases chunks.len(),
{
    if chunks.len() == 0 {
        None
    } else {
        match chunks.last() {
            StreamChunk::End { final_result, success } => Some((opt_text(final_result), success)),
            _ => last_end(chunks.drop_last()),
        }
    }
}

/// Result of streaming execution
#[derive(Debug)]
pub struct StreamingResult {
    pub chunks: Vec<StreamChunk>,
    pub final_result: Option<String>,
    pub success: bool,
    pub total_tokens: usize,
}

impl StreamingResult {
    /// The summary fields agree with the chunks: the token count, final
    /// result and success are those of the last token and end chunks.
    pub open spec fn tallied(&self) -> bool {
        &&& self.total_tokens == tokens_seen(self.chunks@)
        &&& match last_end(self.chunks@) {
            Some((r, ok)) => opt_text(self.final_result) == r && self.success == ok,
            None => self.final_result is None && !self.success,
        }
    }

    /// A result with no chunks yet.
    pub fn new() -> (r: Self)
        ensures
            r.chunks@.len() == 0,
            r.final_result is None,
            !r.success,
            r.total_tokens == 0,
            r.tallied(),
    {
        StreamingResult { chunks: Vec::new(), final_result: None, success: false, total_tokens: 0 }
    }

    /// Take in the next chunk of a stream: a token sets the token count past
    /// its position, an end chunk sets the final result and success.
    pub fn record(&mut self, chunk: StreamChunk)
        requires
            chunk matches StreamChunk::Token { position, .. } ==> position < usize::MAX,
        ensures
            final(self).chunks@ == old(self).chunks@.push(chunk),
            final(self).total_tokens == (match chunk {
                StreamChunk::Token { position, .. } => (position + 1) as usize,
                _ => old(self).total_tokens,
            }),
            (final(self).final_result, final(self).success) == (match chunk {
                StreamChunk::End { final_result, success } => (final_result, success),
                _ => (old(self).final_result, old(self).success),
            }),
            old(self).tallied() ==> final(self).tallied(),
    {
        let ghost before = self.chunks@;
        match &chunk {
            StreamChunk::Token { position, .. } => {
                self.total_tokens = *position + 1;
            },
            StreamChunk::End { final_result, success } => {
                self.final_result = match final_result {
                    Some(t) => Some(t.clone()),
                    None => None,
                };
                self.success = *success;
            },
            _ => {},
        }
        self.chunks.push(chunk);
        assert(self.chunks@.drop_last() =~= before);
    }

    /// The text of all token chunks, in order.
    pub fn get_text_content(&self) -> (r: String)
        ensures
            r@ == token_text(self.chunks@),
    {
        let mut r = String::new();
        let mut i: usize = 0;
        assert(self.chunks@.subrange(0, 0) =~= Seq::<StreamChunk>::empty());
        while i < self.chunks.len()
            invariant
                i <= self.chunks@.len(),
                r@ == token_text(self.chunks@.subrange(0, i as int)),
            decreases self.chunks@.len() - i,
        {
            assert(self.chunks@.subrange(0, i as int + 1).drop_last() =~= self.chunks@.subrange(0, i as int));
            if let StreamChunk::Token { content, .. } = &self.chunks[i] {
                r.append(content.as_str());
            } else {
                assert(r@ + Seq::<char>::empty() =~= r@);
            }
            i = i + 1;
        }
        assert(self.chunks@.subrange(0, i as int) =~= self.chunks@);
        r
    }

    /// The steps of the step chunks, in order.
    pub fn get_steps(&self) -> (r: Vec<&AgentStep>)
        ensures
            r@.len() == step_list(self.chunks@).len(),
            forall|j: int| 0 <= j < r@.len() ==> *r@[j] == step_list(self.chunks@)[j],
    {
        let mut r: Vec<&AgentStep> = Vec::new();
        let mut i: usize = 0;
        assert(self.chunks@.subrange(0, 0) =~= Seq::<StreamChunk>::empty());
        while i < self.chunks.len()
            invariant
                i <= self.chunks@.len(),
                r@.len() == step_list(self.chunks@.subrange(0, i as int)).len(),
                forall|j: int| 0 <= j < r@.len() ==> *r@[j] == step_list(self.chunks@.subrange(0, i as int))[j],
            decreases self.chunks@.len() - i,
        {
            assert(self.chunks@.subrange(0, i as int + 1).drop_last() =~= self.chunks@.subrange(0, i as int));
            if let StreamChunk::Step { step, .. } = &self.chunks[i] {
                r.push(step);
            }
            i = i + 1;
        }
        assert(self.chunks@.subrange(0, i as int) =~= self.chunks@);
        r
    }

    /// The tool names and arguments of the tool-call chunks, in order.
    pub fn get_tool_calls(&self) -> (r: Vec<(String, JsonValue)>)
        ensures
            r@.len() == tool_call_list(self.chunks@).len(),
            forall|j: int| 0 <= j < r@.len() ==> (#[trigger] r@[j].0@, model(r@[j].1)) == tool_call_list(self.chunks@)[j],
    {
        let mut r: Vec<(String, JsonValue)> = Vec::new();
        let mut i: usize = 0;
        assert(self.chunks@.subrange(0, 0) =~= Seq::<StreamChunk>::empty());
        while i < self.chunks.len()
            invariant
                i <= self.chunks@.len(),
                r@.len() == tool_call_list(self.chunks@.subrange(0, i as int)).len(),
                forall|j: int| 0 <= j < r@.len() ==> (#[trigger] r@[j].0@, model(r@[j].1)) == tool_call_list(self.chunks@.subrange(0, i as int))[j],
            decreases self.chunks@.len() - i,
        {
            assert(self.chunks@.subrange(0, i as int + 1).drop_last() =~= self.chunks@.subrange(0, i as int));
            if let StreamChunk::ToolCall { tool_name, arguments, .. } = &self.chunks[i] {
                r.push((tool_name.clone(), arguments.duplicate()));
            }
            i = i + 1;
        }
        assert(self.chunks@.subrange(0, i as int) =~= self.chunks@);
        r
    }

    /// Whether any chunk reports an error.
    pub fn had_errors(&self) -> (b: bool)
        ensures
            b == has_error(self.chunks@),
    {
        let mut i: usize = 0;
        while i < self.chunks.len()
            invariant
                i <= self.chunks@.len(),
                forall|j: int| 0 <= j < i ==> !(self.chunks@[j] is Error),
            decreases self.chunks@.len() - i,
        {
            if let StreamChunk::Error { .. } = &self.chunks[i] {
                assert(self.chunks@[i as int] is Error);
                return true;
            }
            i = i + 1;
        }
        false
    }
}

/// The state a streaming node ends in: completed with its token count when
/// the stream succeeded, failed otherwise.
pub fn streaming_outcome(result: &StreamingResult) -> (s: StreamingState)
    ensures
        result.success ==> s@ == (StreamingStateView::Completed { total_tokens: result.total_tokens as nat }),
        !result.success ==> s@ == (StreamingStateView::Failed { error: "Streaming execution failed"@ }),
{
    if result.success {
        StreamingState::Completed { total_tokens: result.total_tokens }
    } else {
        StreamingState::Failed { error: String::from_str("Streaming execution failed") }
    }
}

/// A node that streams an agent's run. `A` is the agent it runs.
#[derive(Debug)]
pub struct StreamingAgentNode<A> {
    pub agent: A,
    pub name: String,
    pub buffer_size: usize,
    pub enable_step_streaming: bool,
    pub enable_thinking_streaming: bool,
    pub enable_tool_streaming: bool,
}

impl<A> StreamingAgentNode<A> {
    /// A node named after its agent (`streaming_` and the agent's name), with
    /// a buffer of 1000 chunks and every kind of chunk streamed.
    pub fn new(agent: A, agent_name: &str) -> (n: Self)
        ensures
            n.agent == agent,
            n.name@ == "streaming_"@ + agent_name@,
            n.buffer_size == 1000,
            n.enable_step_streaming,
            n.enable_thinking_streaming,
            n.enable_tool_streaming,
    {
        StreamingAgentNode {
            agent,
            name: join("streaming_", agent_name),
            buffer_size: 1000,
            enable_step_streaming: true,
            enable_thinking_streaming: true,
            enable_tool_streaming: true,
        }
    }

    pub fn with_name(self, name: &str) -> (n: Self)
        ensures
            n.name@ == name@,
            n == (StreamingAgentNode { name: n.name, ..self }),
    {
        StreamingAgentNode { name: String::from_str(name), ..self }
    }

    pub fn with_buffer_size(self, size: usize) -> (n: Self)
        ensures
            n == (StreamingAgentNode { buffer_size: size, ..self }),
    {
        StreamingAgentNode { buffer_size: size, ..self }
    }

    pub fn enable_step_streaming(self, enable: bool) -> (n: Self)
        ensures
            n == (StreamingAgentNode { enable_step_streaming: enable, ..self }),
    {
        StreamingAgentNode { enable_step_streaming: enable, ..self }
    }

    pub fn enable_thinking_streaming(self, enable: bool) -> (n: Self)
        ensures
            n == (StreamingAgentNode { enable_thinking_streaming: enable, ..self }),
    {
        StreamingAgentNode { enable_thinking_streaming: enable, ..self }
    }

    pub fn enable_tool_streaming(self, enable: bool) -> (n: Self)
        ensures
            n == (StreamingAgentNode { enable_tool_streaming: enable, ..self }),
    {
        StreamingAgentNode { enable_tool_streaming: enable, ..self }
    }

    /// The kinds of chunks the node streams.
    pub fn options(&self) -> (o: StreamOptions)
        ensures
            o.enable_step == self.enable_step_streaming,
            o.enable_thinking == self.enable_thinking_streaming,
            o.enable_tool == self.enable_tool_streaming,
    {
        StreamOptions {
            enable_step: self.enable_step_streaming,
            enable_thinking: self.enable_thinking_streaming,
            enable_tool: self.enable_tool_streaming,
        }
    }
}

/// Builder for [`StreamingAgentNode`].
#[derive(Debug)]
pub struct StreamingAgentNodeBuilder<A> {
    pub agent: Option<(A, String)>,
    pub name: Option<String>,
    pub buffer_size: usize,
    pub enable_step_streaming: bool,
    pub enable_thinking_streaming: bool,
    pub enable_tool_streaming: bool,
}

impl<A> StreamingAgentNodeBuilder<A> {
    /// No agent or name yet, a buffer of 1000 chunks, every kind streamed.
    pub fn new() -> (b: Self)
        ensures
            b.agent is None,
            b.name is None,
            b.buffer_size == 1000,
            b.enable_step_streaming,
            b.enable_thinking_streaming,
            b.enable_tool_streaming,
    {
        StreamingAgentNodeBuilder {
            agent: None,
            name: None,
            buffer_size: 1000,
            enable_step_streaming: true,
            enable_thinking_streaming: true,
            enable_tool_streaming: true,
        }
    }

    /// The agent to stream, with its name.
    pub fn with_agent(self, agent: A, agent_name: &str) -> (b: Self)
        ensures
            b.agent matches Some((a, n)) && a == agent && n@ == agent_name@,
            b == (StreamingAgentNodeBuilder { agent: b.agent, ..self }),
    {
        StreamingAgentNodeBuilder { agent: Some((agent, String::from_str(agent_name))), ..self }
    }

    pub fn with_name(self, name: &str) -> (b: Self)
        ensures
            b.name matches Some(n) && n@ == name@,
            b == (StreamingAgentNodeBuilder { name: b.name, ..self }),
    {
        StreamingAgentNodeBuilder { name: Some(String::from_str(name)), ..self }
    }

    pub fn with_buffer_size(self, size: usize) -> (b: Self)
        ensures
            b == (StreamingAgentNodeBuilder { buffer_size: size, ..self }),
    {
        StreamingAgentNodeBuilder { buffer_size: size, ..self }
    }

    pub fn enable_step_streaming(self, enable: bool) -> (b: Self)
        ensures
            b == (StreamingAgentNodeBuilder { enable_step_streaming: enable, ..self }),
    {
        StreamingAgentNodeBuilder { enable_step_streaming: enable, ..self }
    }

    pub fn enable_thinking_streaming(self, enable: bool) -> (b: Self)
        ensures
            b == (StreamingAgentNodeBuilder { enable_thinking_streaming: enable, ..self }),
    {
        StreamingAgentNodeBuilder { enable_thinking_streaming: enable, ..self }
    }

    pub fn enable_tool_streaming(self, enable: bool) -> (b: Self)
        ensures
            b == (StreamingAgentNodeBuilder { enable_tool_streaming: enable, ..self }),
    {
        StreamingAgentNodeBuilder { enable_tool_streaming: enable, ..self }
    }

    /// The node, which needs an agent; its name is the one given, else the
    /// one derived from the agent's name.
    pub fn build(self) -> (r: Result<StreamingAgentNode<A>, AgentError>)
        ensures
            self.agent is None <==> r is Err,
            r matches Err(e) ==> e matches AgentError::Configuration(m) && m@ == "Agent is required for streaming node"@,
            r matches Ok(n) ==> {
                &&& self.agent matches Some((a, an)) && n.agent == a && n.name@ == (match self.name {
                    Some(given) => given@,
                    None => "streaming_"@ + an@,
                })
                &&& n.buffer_size == self.buffer_size
                &&& n.enable_step_streaming == self.enable_step_streaming
                &&& n.enable_thinking_streaming == self.enable_thinking_streaming
                &&& n.enable_tool_streaming == self.enable_tool_streaming
            },
    {
        match self.agent {
            None => Err(AgentError::configuration("Agent is required for streaming node")),
            Some((agent, agent_name)) => {
                let mut node = StreamingAgentNode::new(agent, agent_name.as_str())
                    .with_buffer_size(self.buffer_size)
                    .enable_step_streaming(self.enable_step_streaming)
                    .enable_thinking_streaming(self.enable_thinking_streaming)
                    .enable_tool_streaming(self.enable_tool_streaming);
                if let Some(name) = self.name {
                    node = node.with_name(name.as_str());
                }
                Ok(node)
            },
        }
    }
}

/// A stream of an agent's result always ends with the end chunk, which
/// carries the result's final answer and success.
pub proof fn result_stream_ends_with_end(result: AgentResult, opts: StreamOptions)
    ensures
        result_script(result, opts).len() >= 1,
        result_script(result, opts).last() == ActionModel::Send(
            ChunkModel::End { final_result: opt_text(result.final_answer), success: result.success },
        ),
{
}

/// A stream of a failed run reports the error, unrecoverable, and ends
/// unsuccessfully with no result.
pub proof fn failure_stream_reports_then_ends(error: Seq<char>)
    ensures
        failure_script(error).len() == 2,
        failure_script(error)[0] == ActionModel::Send(ChunkModel::Error { error, recoverable: false }),
        failure_script(error)[1] == ActionModel::Send(ChunkModel::End { final_result: None, success: false }),
{
}

/// The positions of the token chunks among some actions, in order.
pub open spec fn token_positions(s: Seq<ActionModel>) -> Seq<nat>
    decreases s.len(),
{
    if s.len() == 0 {
        Seq::empty()
    } else {
        token_positions(s.drop_last()) + match s.last() {
            ActionModel::Send(ChunkModel::Token { position, .. }) => seq![position],
            _ => Seq::empty(),
        }
    }
}

/// The positions `from`, `from + 1`, ..., up to `to` (excluded).
pub open spec fn positions_between(from: nat, to: nat) -> Seq<nat> {
    Seq::new((to - from) as nat, |j: int| (from + j) as nat)
}

proof fn lemma_positions_concat(a: Seq<ActionModel>, b: Seq<ActionModel>)
    ensures
        token_positions(a + b) == token_positions(a) + token_positions(b),
    decreases b.len(),
{
    if b.len() == 0 {
        assert(a + b =~= a);
        assert(token_positions(a) + token_positions(b) =~= token_positions(a));
    } else {
        lemma_positions_concat(a, b.drop_last());
        assert((a + b).drop_last() =~= a + b.drop_last());
        assert((a + b).last() == b.last());
        let tail: Seq<nat> = match b.last() {
            ActionModel::Send(ChunkModel::Token { position, .. }) => seq![position],
            _ => Seq::empty(),
        };
        assert(token_positions(a) + token_positions(b.drop_last()) + tail =~= token_positions(a) + (token_positions(
            b.drop_last(),
        ) + tail));
    }
}

proof fn lemma_positions_single(a: ActionModel)
    ensures
        token_positions(seq![a]) == match a {
            ActionModel::Send(ChunkModel::Token { position, .. }) => seq![position],
            _ => Seq::<nat>::empty(),
        },
{
    assert(seq![a].drop_last() =~= Seq::<ActionModel>::empty());
    assert(seq![a].last() == a);
    assert(token_positions(Seq::<ActionModel>::empty()) == Seq::<nat>::empty());
    let tail: Seq<nat> = match a {
        ActionModel::Send(ChunkModel::Token { position, .. }) => seq![position],
        _ => Seq::<nat>::empty(),
    };
    assert(Seq::<nat>::empty() + tail =~= tail);
}

proof fn lemma_positions_of_words(ws: Seq<Seq<char>>, k: nat, pos: nat)
    ensures
        token_positions(word_tokens(ws, k, pos)) == positions_between(pos, pos + k),
    decreases k,
{
    if k == 0 {
        assert(token_positions(word_tokens(ws, k, pos)) =~= positions_between(pos, pos));
    } else {
        let j = (k - 1) as nat;
        lemma_positions_of_words(ws, j, pos);
        let seg = seq![
            ActionModel::CheckControl,
            ActionModel::Send(ChunkModel::Token {
                content: word_content(ws, j),
                position: pos + j,
                is_final: j == ws.len() - 1,
            }),
            ActionModel::Sleep(50),
        ];
        lemma_positions_concat(word_tokens(ws, j, pos), seg);
        let a = seq![ActionModel::CheckControl];
        let b = seq![seg[1]];
        let c = seq![ActionModel::Sleep(50)];
        assert(seg =~= a + b + c);
        lemma_positions_single(ActionModel::CheckControl);
        lemma_positions_single(seg[1]);
        lemma_positions_single(ActionModel::Sleep(50));
        lemma_positions_concat(a, b);
        lemma_positions_concat(a + b, c);
        assert(token_positions(seg) =~= seq![pos + j]);
        assert(positions_between(pos, pos + j) + seq![pos + j] =~= positions_between(pos, pos + k));
    }
}

proof fn lemma_no_tokens(s: Seq<ActionModel>)
    requires
        forall|i: int| 0 <= i < s.len() ==> !(#[trigger] s[i] matches ActionModel::Send(ChunkModel::Token { .. })),
    ensures
        token_positions(s) == Seq::<nat>::empty(),
    decreases s.len(),
{
    if s.len() > 0 {
        lemma_no_tokens(s.drop_last());
        assert(!(s[s.len() - 1] matches ActionModel::Send(ChunkModel::Token { .. })));
    }
}

proof fn lemma_positions_of_step(i: nat, step: AgentStep, pos: nat, opts: StreamOptions)
    ensures
        step_script(i, step, pos, opts).1 >= pos,
        token_positions(step_script(i, step, pos, opts).0) == positions_between(pos, step_script(i, step, pos, opts).1),
{
    let body = step_body(i, step, pos, opts);
    let head = seq![ActionModel::CheckControl]
        + (if opts.enable_step { seq![ActionModel::Send(ChunkModel::Step { step_index: i })] } else { Seq::empty() });
    lemma_no_tokens(head);
    lemma_no_tokens(seq![ActionModel::Sleep(10)]);
    match step.step_type {
        AgentStepType::ModelInference => {
            match output_text_of(step) {
                Some(t) => lemma_positions_of_words(words(t), words(t).len(), pos),
                None => {},
            }
        },
        AgentStepType::ToolCall { .. } => {
            lemma_no_tokens(body.0);
        },
        AgentStepType::Delegation { .. } => {
            lemma_no_tokens(body.0);
        },
        AgentStepType::Thinking => {
            lemma_no_tokens(body.0);
        },
        _ => {
            match output_text_of(step) {
                Some(t) => {
                    lemma_positions_single(body.0[0]);
                    assert(body.0 =~= seq![body.0[0]]);
                },
                None => {},
            }
        },
    }
    assert(token_positions(body.0) =~= positions_between(pos, body.1));
    lemma_positions_concat(head, body.0);
    lemma_positions_concat(head + body.0, seq![ActionModel::Sleep(10)]);
    assert(token_positions(head) + token_positions(body.0) + token_positions(seq![ActionModel::Sleep(10)])
        =~= positions_between(pos, body.1));
}

proof fn lemma_positions_of_steps(steps: Seq<AgentStep>, n: nat, opts: StreamOptions)
    requires
        n <= steps.len(),
    ensures
        token_positions(steps_script(steps, n, opts).0) == positions_between(0, steps_script(steps, n, opts).1),
    decreases n,
{
    if n == 0 {
        assert(token_positions(Seq::<ActionModel>::empty()) =~= positions_between(0, 0));
    } else {
        let prev = steps_script(steps, (n - 1) as nat, opts);
        lemma_positions_of_steps(steps, (n - 1) as nat, opts);
        lemma_positions_of_step((n - 1) as nat, steps[n - 1], prev.1, opts);
        let cur = step_script((n - 1) as nat, steps[n - 1], prev.1, opts);
        lemma_positions_concat(prev.0, cur.0);
        assert(positions_between(0, prev.1) + positions_between(prev.1, cur.1) =~= positions_between(0, cur.1));
    }
}

/// The token chunks of a result's stream are numbered 0, 1, 2, ... in the
/// order they are sent, so the number of tokens is one past the last
/// position.
pub proof fn stream_tokens_are_numbered(result: AgentResult, opts: StreamOptions)
    ensures
        token_positions(result_script(result, opts)) == positions_between(
            0,
            steps_script(result.steps@, result.steps@.len(), opts).1,
        ),
{
    let s = steps_script(result.steps@, result.steps@.len(), opts);
    lemma_positions_of_steps(result.steps@, result.steps@.len(), opts);
    let end = seq![ActionModel::Send(ChunkModel::End { final_result: opt_text(result.final_answer), success: result.success })];
    lemma_no_tokens(end);
    lemma_positions_concat(s.0, end);
    assert(token_positions(s.0) + token_positions(end) =~= token_positions(s.0));
}

/// Every action step `k` streams is among the actions of the first `n`
/// steps, for `k < n`.
proof fn lemma_step_in_steps(steps: Seq<AgentStep>, n: nat, k: nat, opts: StreamOptions, x: ActionModel)
    requires
        k < n <= steps.len(),
        step_script(k, steps[k as int], steps_script(steps, k, opts).1, opts).0.contains(x),
    ensures
        steps_script(steps, n, opts).0.contains(x),
    decreases n,
{
    let prev = steps_script(steps, (n - 1) as nat, opts);
    let cur = step_script((n - 1) as nat, steps[n - 1], prev.1, opts);
    assert(steps_script(steps, n, opts).0 == prev.0 + cur.0);
    if k == n - 1 {
        let j = choose|j: int| 0 <= j < cur.0.len() && cur.0[j] == x;
        assert((prev.0 + cur.0)[prev.0.len() + j] == x);
    } else {
        lemma_step_in_steps(steps, (n - 1) as nat, k, opts, x);
        let j = choose|j: int| 0 <= j < prev.0.len() && prev.0[j] == x;
        assert((prev.0 + cur.0)[j] == x);
    }
}

/// With thinking streamed, a thinking step whose output is a string streams
/// that very string as its thought; only a step without a text output
/// streams the stand-in `Thinking...`.
pub proof fn thinking_steps_stream_their_text(result: AgentResult, opts: StreamOptions, k: int)
    requires
        opts.enable_thinking,
        0 <= k < result.steps@.len(),
        result.steps@[k].step_type is Thinking,
    ensures
        output_text_of(result.steps@[k]) matches Some(t) ==> result_script(result, opts).contains(
            ActionModel::Send(ChunkModel::Thinking { content: t, reasoning_type: "step_reasoning"@ }),
        ),
        output_text_of(result.steps@[k]) is None ==> result_script(result, opts).contains(
            ActionModel::Send(ChunkModel::Thinking { content: "Thinking..."@, reasoning_type: "step_reasoning"@ }),
        ),
{
    let steps = result.steps@;
    let content = match output_text_of(steps[k]) {
        Some(t) => t,
        None => "Thinking..."@,
    };
    let x = ActionModel::Send(ChunkModel::Thinking { content, reasoning_type: "step_reasoning"@ });
    let pos = steps_script(steps, k as nat, opts).1;
    let sc = step_script(k as nat, steps[k], pos, opts).0;
    let pre = seq![ActionModel::CheckControl]
        + (if opts.enable_step { seq![ActionModel::Send(ChunkModel::Step { step_index: k as nat })] } else { Seq::empty() });
    assert(step_body(k as nat, steps[k], pos, opts).0 == seq![x]);
    assert(sc == pre + seq![x] + seq![ActionModel::Sleep(10)]);
    assert(sc[pre.len() as int] == x);
    assert(sc.contains(x));
    lemma_step_in_steps(steps, steps.len(), k as nat, opts, x);
    let whole = steps_script(steps, steps.len(), opts).0;
    let j = choose|j: int| 0 <= j < whole.len() && whole[j] == x;
    let end = seq![
        ActionModel::Send(ChunkModel::End { final_result: opt_text(result.final_answer), success: result.success }),
    ];
    assert(result_script(result, opts) == whole + end);
    assert((whole + end)[j] == x);
}

} // verus!
