use pocketflow::agent_error::AgentError;
use pocketflow::agent_types::{AgentResult, AgentStep, AgentStepType};
use pocketflow::json::JsonValue;
use pocketflow::state::FlowState;
use pocketflow::streaming::{
    cancel_chunk, ends_wait, failure_actions, on_control, opening_actions, result_actions, streaming_outcome,
    ControlDecision, StreamAction, StreamChunk, StreamControl, StreamOptions, StreamingAgentNodeBuilder,
    StreamingResult, StreamingState,
};

fn s(x: &str) -> String {
    x.to_string()
}

fn all() -> StreamOptions {
    StreamOptions { enable_step: true, enable_thinking: true, enable_tool: true }
}

#[test]
fn test_streaming_result_methods() {
    let chunks = vec![
        StreamChunk::Token { content: s("Hello"), position: 0, is_final: false },
        StreamChunk::Token { content: s(" world"), position: 1, is_final: true },
        StreamChunk::ToolCall {
            tool_name: s("search"),
            arguments: JsonValue::Object(vec![(s("query"), JsonValue::String(s("test")))]),
            call_id: s("call_1"),
        },
    ];
    let result = StreamingResult { chunks, final_result: Some(s("Hello world")), success: true, total_tokens: 2 };

    assert_eq!(result.get_text_content(), "Hello world");
    assert_eq!(result.get_tool_calls().len(), 1);
    assert!(!result.had_errors());
}

#[test]
fn streaming_result_steps_and_errors() {
    let mut result = StreamingResult::new();
    result.record(StreamChunk::Step { step: AgentStep::new(1, AgentStepType::Thinking, JsonValue::Null), step_index: 0 });
    result.record(StreamChunk::Error { error: s("bad"), recoverable: false });
    result.record(StreamChunk::End { final_result: None, success: false });
    assert_eq!(result.get_steps().len(), 1);
    assert!(result.had_errors());
    assert!(!result.success);
}

#[test]
fn recording_tallies_tokens_and_end() {
    let mut result = StreamingResult::new();
    result.record(StreamChunk::Token { content: s("a"), position: 0, is_final: false });
    result.record(StreamChunk::Token { content: s(" b"), position: 1, is_final: true });
    result.record(StreamChunk::End { final_result: Some(s("a b")), success: true });
    assert_eq!(result.total_tokens, 2);
    assert_eq!(result.final_result, Some(s("a b")));
    assert!(result.success);
    assert!(matches!(streaming_outcome(&result), StreamingState::Completed { total_tokens: 2 }));
    let failed = StreamingResult::new();
    assert!(matches!(streaming_outcome(&failed), StreamingState::Failed { ref error } if error == "Streaming execution failed"));
}

#[test]
fn streaming_states_terminal() {
    assert!(StreamingState::Cancelled.is_terminal());
    assert!(StreamingState::Completed { total_tokens: 3 }.is_terminal());
    assert!(!StreamingState::Streaming { tokens_received: 1 }.is_terminal());
    assert!(!StreamingState::Paused.is_terminal());
}

#[test]
fn opening_announces_the_task() {
    let acts = opening_actions("sum it", all());
    assert_eq!(acts.len(), 2);
    assert!(matches!(&acts[0], StreamAction::Send(StreamChunk::Thinking { content, reasoning_type })
        if content == "Starting to process task: sum it" && reasoning_type == "initial_analysis"));
    assert!(matches!(acts[1], StreamAction::CheckControl));
    let quiet = StreamOptions { enable_step: true, enable_thinking: false, enable_tool: true };
    assert_eq!(opening_actions("x", quiet).len(), 0);
}

#[test]
fn failure_sends_error_then_end() {
    let acts = failure_actions("agent down");
    assert_eq!(acts.len(), 2);
    assert!(matches!(&acts[0], StreamAction::Send(StreamChunk::Error { error, recoverable: false }) if error == "agent down"));
    assert!(matches!(&acts[1], StreamAction::Send(StreamChunk::End { final_result: None, success: false })));
}

fn tokens(acts: &[StreamAction]) -> Vec<(String, usize, bool)> {
    acts.iter()
        .filter_map(|a| match a {
            StreamAction::Send(StreamChunk::Token { content, position, is_final }) => Some((content.clone(), *position, *is_final)),
            _ => None,
        })
        .collect()
}

#[test]
fn model_inference_streams_word_by_word() {
    let step = AgentStep::new(1, AgentStepType::ModelInference, JsonValue::Null)
        .with_output(JsonValue::String(s("  the  quick fox ")));
    let other = AgentStep::new(2, AgentStepType::Validation, JsonValue::Null).with_output(JsonValue::String(s("ok")));
    let result = AgentResult::success(s("done"), vec![step, other], 5);
    let acts = result_actions(&result, all());
    assert_eq!(
        tokens(&acts),
        vec![(s("the"), 0, false), (s(" quick"), 1, false), (s(" fox"), 2, true), (s("ok"), 3, true)]
    );
    assert!(matches!(acts.last(), Some(StreamAction::Send(StreamChunk::End { final_result: Some(f), success: true })) if f == "done"));
}

#[test]
fn tool_calls_stream_call_then_result() {
    let step = AgentStep::new(1, AgentStepType::ToolCall { tool_name: s("search") }, JsonValue::Null)
        .with_output(JsonValue::String(s("found")));
    let result = AgentResult::success(s("done"), vec![step], 5);
    let acts = result_actions(&result, all());
    assert!(matches!(acts[0], StreamAction::CheckControl));
    assert!(matches!(acts[1], StreamAction::SendStep { step_index: 0 }));
    assert!(matches!(&acts[2], StreamAction::Send(StreamChunk::ToolCall { tool_name, call_id, .. }) if tool_name == "tool" && call_id == "call_0"));
    assert!(matches!(acts[3], StreamAction::Sleep { millis: 100 }));
    assert!(matches!(acts[4], StreamAction::CheckControl));
    assert!(matches!(&acts[5], StreamAction::Send(StreamChunk::ToolResult { call_id, result: JsonValue::String(r), success: true }) if call_id == "call_0" && r == "found"));
    assert!(matches!(acts[6], StreamAction::Sleep { millis: 10 }));
    let no_tools = StreamOptions { enable_step: false, enable_thinking: true, enable_tool: false };
    let acts = result_actions(&result, no_tools);
    assert_eq!(acts.len(), 3);
}

#[test]
fn delegations_name_their_task() {
    let step = AgentStep::new(1, AgentStepType::Delegation { target_agent: s("x") }, JsonValue::String(s("review")));
    let result = AgentResult::failure(s("e"), vec![step], 5);
    let acts = result_actions(&result, all());
    assert!(matches!(&acts[2], StreamAction::Send(StreamChunk::Delegation { target_agent, task, delegation_id })
        if target_agent == "unknown_agent" && task == "review" && delegation_id == "delegation_0"));
    assert!(matches!(acts.last(), Some(StreamAction::Send(StreamChunk::End { final_result: None, success: false }))));
}

#[test]
fn control_signals() {
    assert!(matches!(on_control(false, Some(StreamControl::Pause)), ControlDecision::Proceed { paused: true }));
    assert!(matches!(on_control(true, Some(StreamControl::Resume)), ControlDecision::Proceed { paused: false }));
    assert!(matches!(on_control(true, None), ControlDecision::Proceed { paused: true }));
    assert!(matches!(on_control(false, Some(StreamControl::Cancel)), ControlDecision::Cancel));
    assert!(ends_wait(Some(StreamControl::Cancel)));
    assert!(!ends_wait(Some(StreamControl::Pause)));
    assert!(matches!(cancel_chunk(), StreamChunk::End { final_result: None, success: false }));
}

#[test]
fn test_streaming_node_creation() {
    let node = StreamingAgentNodeBuilder::new()
        .with_agent(7u32, "test_agent")
        .with_name("test_streaming")
        .with_buffer_size(500)
        .build()
        .unwrap();
    assert_eq!(node.name, "test_streaming");
    assert_eq!(node.buffer_size, 500);
    let unnamed = StreamingAgentNodeBuilder::new().with_agent(7u32, "test_agent").build().unwrap();
    assert_eq!(unnamed.name, "streaming_test_agent");
    assert_eq!(unnamed.buffer_size, 1000);
}

#[test]
fn streaming_node_needs_an_agent() {
    match StreamingAgentNodeBuilder::<u32>::new().build() {
        Err(AgentError::Configuration(m)) => assert_eq!(m, "Agent is required for streaming node"),
        _ => panic!("expected a configuration error"),
    }
}
