use pocketflow::agent_error::AgentError;
use pocketflow::agent_types::{
    adapter_reply, agent_node_name, has_capability, supports_tools, AgentCapability, AgentHistory, AgentPresets, AgentRegistry,
    AgentResult, AgentRole, AgentState, AgentStep, AgentStepType, ApiConfig, Priority, TokenUsage,
};
use pocketflow::json::{JsonNumber, JsonValue};
use pocketflow::multi_agent::{
    coordination_outcome, hierarchical_outcome, parallel_outcome, refine_task, round_robin_result, round_robin_step,
    sequential_order, sequential_result, sequential_step, vote, AgentOutcome, CoordinationStrategy, ExecutionPhase, ExecutionPlan, MultiAgentState,
    RoundRobinStep, SequentialStep,
};
use pocketflow::state::FlowState;

fn s(x: &str) -> String {
    x.to_string()
}

#[test]
fn test_error_creation() {
    let err = AgentError::model("test model error");
    assert_eq!(err.category(), "model");
    assert!(err.is_retryable());
    assert!(!err.is_user_error());
}

#[test]
fn test_error_conversion() {
    let json_err = serde_json::from_str::<i32>("invalid").unwrap_err();
    let agent_err = AgentError::from_json_error(&json_err);
    assert_eq!(agent_err.category(), "serialization");
}

#[test]
fn error_categories_and_kinds() {
    assert!(AgentError::timeout("t").is_retryable());
    assert!(AgentError::rate_limit("r").is_retryable());
    assert!(!AgentError::validation("v").is_retryable());
    assert!(AgentError::validation("v").is_user_error());
    assert!(AgentError::not_found("n").is_user_error());
    assert_eq!(AgentError::tool_execution("search", "down").category(), "tool_execution");
    assert_eq!(AgentError::state_transition("a", "b", "no").category(), "state_transition");
    assert_eq!(AgentError::configuration("c").message(), "Configuration error: c");
}

#[test]
fn test_multi_agent_state_transitions() {
    assert!(MultiAgentState::Ready.can_transition_to(&MultiAgentState::Planning));
    assert!(MultiAgentState::Planning
        .can_transition_to(&MultiAgentState::Executing { active_agents: vec![s("agent1")], completed_agents: vec![] }));
    assert!(!MultiAgentState::Completed { final_result: s("done") }.can_transition_to(&MultiAgentState::Planning));
}

#[test]
fn failed_coordination_is_terminal() {
    let failed = MultiAgentState::Failed { error: s("x") };
    assert!(failed.is_terminal());
    assert!(!failed.can_transition_to(&MultiAgentState::Ready));
    assert!(!MultiAgentState::Coordinating.is_terminal());
}

#[test]
fn test_execution_plan() {
    let plan = ExecutionPlan::new()
        .add_phase(
            ExecutionPhase::new("research", vec![s("researcher1"), s("researcher2")])
                .with_strategy(CoordinationStrategy::Parallel),
        )
        .add_phase(ExecutionPhase::new("analysis", vec![s("analyst")]).with_strategy(CoordinationStrategy::Sequential))
        .add_dependency("analyst", vec![s("researcher1"), s("researcher2")])
        .with_timeout(std::time::Duration::from_secs(300));

    assert_eq!(plan.phases.len(), 2);
    assert!(plan.dependencies.contains_key("analyst"));
    assert!(plan.timeout.is_some());
}

#[test]
fn test_agent_step() {
    let step = AgentStep::new(
        1,
        AgentStepType::ToolCall { tool_name: s("search") },
        JsonValue::Object(vec![(s("query"), JsonValue::String(s("test")))]),
    )
    .with_output(JsonValue::Object(vec![(s("result"), JsonValue::String(s("found")))]))
    .with_duration(500);

    assert_eq!(step.step_number, 1);
    assert!(step.is_successful());
    assert_eq!(step.duration_ms, Some(500));
}

#[test]
fn step_with_error_is_unsuccessful() {
    let step = AgentStep::new(2, AgentStepType::Thinking, JsonValue::Null).with_error("bad");
    assert!(!step.is_successful());
    assert_eq!(step.error, Some(s("bad")));
}

#[test]
fn token_usage_totals() {
    let u = TokenUsage::new(120, 30);
    assert_eq!(u.total_tokens, 150);
}

#[test]
fn api_config_defaults_and_overrides() {
    let c = ApiConfig::default();
    assert_eq!(c.timeout_ms, 60_000);
    assert_eq!(c.max_retries, 3);
    assert_eq!(c.retry_delay_ms, 1000);
    let c = c.with_api_key("test-key").with_max_retries(5).with_timeout(2000);
    assert_eq!(c.api_key, Some(s("test-key")));
    assert_eq!(c.max_retries, 5);
    assert_eq!(c.timeout_ms, 2000);
}

#[test]
fn agent_state_is_terminal_on_success_or_error() {
    assert!(AgentState::Success.is_terminal());
    assert!(AgentState::Error.is_terminal());
    assert!(!AgentState::Thinking.is_terminal());
}

#[test]
fn test_preset_function_calling() {
    let p = AgentPresets::function_calling_agent("function_caller");
    assert_eq!(p.name, "function_caller");
    assert_eq!(p.max_steps, 15);
    assert_eq!(p.temperature_hundredths, 70);
    assert!(matches!(p.role, AgentRole::Independent));
    assert!(matches!(p.capabilities[1], AgentCapability::ToolCalling));
    assert!(p.system_prompt.starts_with("You are a helpful AI assistant that can use tools"));
    assert!(p.system_prompt.ends_with("Final Answer: [your answer]"));
}

#[test]
fn test_quick_builders() {
    let code = AgentPresets::code_agent("coder");
    assert_eq!(code.max_steps, 20);
    assert!(matches!(code.role, AgentRole::Specialist { ref domain } if domain == "coding"));
    let research = AgentPresets::research_agent("finder");
    assert_eq!(research.max_steps, 25);
    let boss = AgentPresets::coordinator_agent("boss");
    assert_eq!(boss.max_steps, 30);
    assert!(matches!(boss.role, AgentRole::Coordinator));
    let planner = AgentPresets::planning_agent("strategist");
    assert_eq!(planner.temperature_hundredths, 40);
}

#[test]
fn model_adapter_helpers() {
    assert!(supports_tools("gpt-4o"));
    assert!(!supports_tools("llama3"));
    assert_eq!(adapter_reply("gpt-4", "hi"), "Response from gpt-4: hi");
    assert_eq!(agent_node_name("test"), "test");
}

#[test]
fn test_agent_step_execution() {
    let mut history = AgentHistory::new();
    let result = history.step("test_agent", s("Hello, world!"));
    assert!(result.success);
    assert_eq!(result.final_answer, Some(s("Agent test_agent processed: Hello, world!")));
    assert_eq!(result.steps.len(), 1);
    assert_eq!(result.steps[0].step_number, 1);
    let again = history.step("test_agent", s("more"));
    assert_eq!(again.steps.len(), 2);
    assert_eq!(again.steps[1].step_number, 2);
    history.reset();
    assert_eq!(history.get_history().len(), 0);
}

#[test]
fn agent_result_constructors() {
    let ok = AgentResult::success(s("answer"), vec![], 10);
    assert!(ok.success);
    assert_eq!(ok.final_answer, Some(s("answer")));
    let bad = AgentResult::failure(s("oops"), vec![], 5).with_token_usage(TokenUsage::new(1, 2));
    assert!(!bad.success);
    assert_eq!(bad.error, Some(s("oops")));
    assert_eq!(bad.token_usage.unwrap().total_tokens, 3);
}

#[test]
fn agent_registry_reads_what_was_written() {
    let mut registry: AgentRegistry<u32> = AgentRegistry::new();
    registry.register(s("a"), 1);
    registry.register(s("b"), 2);
    registry.register(s("a"), 3);
    assert_eq!(registry.get("a"), Some(&3));
    assert_eq!(registry.get("b"), Some(&2));
    assert_eq!(registry.remove("b"), Some(2));
    assert_eq!(registry.get("b"), None);
    assert_eq!(registry.list_agents(), vec![s("a")]);
}

#[test]
fn sequential_order_is_by_descending_priority_and_stable() {
    let order = sequential_order(&vec![Priority::Low, Priority::High, Priority::Normal, Priority::High]);
    assert_eq!(order, vec![1, 3, 2, 0]);
}

#[test]
fn sequential_steps_chain_or_stop() {
    let ok = Ok(AgentOutcome { success: true, final_answer: Some(s("next")), error: None });
    assert!(matches!(sequential_step("a", &ok), SequentialStep::Continue { next_input: Some(ref t) } if t == "next"));
    let failed = Ok(AgentOutcome { success: false, final_answer: None, error: None });
    assert!(matches!(sequential_step("a", &failed), SequentialStep::Stop { ref error } if error == "Agent 'a' failed: Agent failed"));
    let err = Err(s("boom"));
    assert!(matches!(sequential_step("b", &err), SequentialStep::Stop { ref error } if error == "Agent 'b' error: boom"));
}

#[test]
fn parallel_keeps_last_successful_answer() {
    let outcomes = vec![
        AgentOutcome { success: true, final_answer: Some(s("first")), error: None },
        AgentOutcome { success: false, final_answer: Some(s("ignored")), error: Some(s("x")) },
        AgentOutcome { success: true, final_answer: Some(s("second")), error: None },
    ];
    assert_eq!(parallel_outcome(&outcomes), Ok(s("second")));
    let none = vec![AgentOutcome { success: false, final_answer: None, error: None }];
    assert_eq!(parallel_outcome(&none), Err(s("All agents failed")));
}

#[test]
fn vote_elects_the_most_common_answer() {
    assert_eq!(vote(&vec![s("a"), s("b"), s("b"), s("c")]), Some(s("b")));
    assert_eq!(vote(&vec![s("x"), s("y")]), Some(s("x")));
    assert_eq!(vote(&vec![]), None);
}

#[test]
fn round_robin_finishes_on_final_answers() {
    assert!(matches!(round_robin_step(1, true, Some("This is FINAL")), RoundRobinStep::Finish(ref a) if a == "This is FINAL"));
    assert!(matches!(round_robin_step(3, true, Some("draft")), RoundRobinStep::Finish(_)));
    assert!(matches!(round_robin_step(1, true, Some("draft")), RoundRobinStep::Refine(ref t) if *t == refine_task("draft")));
    assert_eq!(refine_task("draft"), "Previous result: draft\n\nRefine or improve this result.");
    assert!(matches!(round_robin_step(1, false, Some("draft")), RoundRobinStep::Keep));
}

#[test]
fn hierarchical_needs_a_coordinator() {
    let run = Ok(AgentOutcome { success: true, final_answer: Some(s("done")), error: None });
    match hierarchical_outcome(false, &run) {
        Err(AgentError::Configuration(m)) => assert_eq!(m, "Hierarchical strategy requires a coordinator agent"),
        _ => panic!("expected a configuration error"),
    }
    assert!(matches!(hierarchical_outcome(true, &run), Ok(Ok(ref a)) if a == "done"));
    let failed = Ok(AgentOutcome { success: false, final_answer: None, error: None });
    assert!(matches!(hierarchical_outcome(true, &failed), Ok(Err(ref e)) if e == "Coordinator failed"));
}

#[test]
fn coordination_outcome_states() {
    assert!(matches!(coordination_outcome(true, s("r"), None), MultiAgentState::Completed { ref final_result } if final_result == "r"));
    assert!(matches!(coordination_outcome(false, s(""), None), MultiAgentState::Failed { ref error } if error == "Unknown multi-agent error"));
}

#[test]
fn json_numbers_and_members() {
    let v = JsonValue::Object(vec![(s("n"), JsonValue::Number(JsonNumber::PosInt(7))), (s("n"), JsonValue::Bool(true))]);
    assert_eq!(v.get("n").and_then(|x| x.as_u64()), Some(7));
    assert!(v.get("missing").is_none());
}

#[test]
fn capabilities_are_found_by_kind_and_name() {
    let caps = vec![AgentCapability::Basic, AgentCapability::Custom("search".to_string())];
    assert!(has_capability(&caps, &AgentCapability::Basic));
    assert!(has_capability(&caps, &AgentCapability::Custom("search".to_string())));
    assert!(!has_capability(&caps, &AgentCapability::Custom("write".to_string())));
    assert!(!has_capability(&caps, &AgentCapability::ToolCalling));
}

#[test]
fn fallback_answers() {
    assert_eq!(sequential_result(Some(&"done".to_string())), "done");
    assert_eq!(sequential_result(None), "No final result");
    let outcomes = vec![
        AgentOutcome { success: true, final_answer: Some("first".to_string()), error: None },
        AgentOutcome { success: true, final_answer: Some("second".to_string()), error: None },
        AgentOutcome { success: false, final_answer: None, error: Some("x".to_string()) },
    ];
    assert_eq!(round_robin_result(&outcomes), "second");
    assert_eq!(round_robin_result(&vec![]), "Round-robin completed without final answer");
}
