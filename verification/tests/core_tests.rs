use pocketflow::error::FlowError;
use pocketflow::flow_advanced::{
    most_common_final_state, AdvancedAction, AdvancedFlow, AdvancedFlowBuilder, AdvancedFlowResult, FlowRegistry,
};
use pocketflow::flow_simple::{FlowStep, SimpleFlow, SimpleFlowBuilder};
use pocketflow::state::{FlowState, SimpleState, StateTransition};

#[derive(Debug)]
struct TestNode(SimpleState);

#[derive(Debug)]
struct NoMiddleware;

#[derive(Debug)]
struct Flag(bool);

fn run_advanced(flow: &AdvancedFlow<SimpleState, TestNode, NoMiddleware, Flag>) -> AdvancedFlowResult<SimpleState> {
    let mut run = flow.start();
    let mut action = flow.begin_step(&mut run);
    loop {
        action = match action {
            AdvancedAction::RunMiddleware(_) => flow.middleware_finished(&mut run, Ok(())),
            AdvancedAction::EvaluateCondition(i) => {
                let value = flow.condition_at(i).0;
                flow.condition_evaluated(&mut run, value)
            },
            AdvancedAction::RunNode(i) => {
                let next = flow.node_at(i).0.clone_state();
                flow.node_finished(&mut run, Ok(next))
            },
            AdvancedAction::Continue => flow.begin_step(&mut run),
            AdvancedAction::Done(result) => return result,
            AdvancedAction::Failed(e) => panic!("flow failed: {}", e.message()),
        };
    }
}

#[test]
fn test_simple_state_transitions() {
    let start = SimpleState::Start;
    let processing = SimpleState::Processing;
    let success = SimpleState::Success;
    let error = SimpleState::Error;

    assert!(start.can_transition_to(&processing));
    assert!(start.can_transition_to(&success));
    assert!(start.can_transition_to(&error));
    assert!(processing.can_transition_to(&success));
    assert!(processing.can_transition_to(&error));

    assert!(!success.can_transition_to(&processing));
    assert!(!error.can_transition_to(&processing));
    assert!(!processing.can_transition_to(&start));
}

#[test]
fn test_state_transition_validity() {
    let transition = StateTransition::new(SimpleState::Start, SimpleState::Processing);
    assert!(transition.is_valid());

    let invalid_transition = StateTransition::new(SimpleState::Success, SimpleState::Processing);
    assert!(!invalid_transition.is_valid());
}

#[test]
fn test_terminal_states() {
    assert!(!SimpleState::Start.is_terminal());
    assert!(!SimpleState::Processing.is_terminal());
    assert!(SimpleState::Success.is_terminal());
    assert!(SimpleState::Error.is_terminal());
    assert!(!SimpleState::Custom("custom".to_string()).is_terminal());
}

#[test]
fn custom_states_move_only_to_open_states() {
    let custom = SimpleState::Custom("review".to_string());
    assert!(custom.can_transition_to(&SimpleState::Processing));
    assert!(custom.can_transition_to(&SimpleState::Custom("other".to_string())));
    assert!(!custom.can_transition_to(&SimpleState::Success));
    assert!(!custom.can_transition_to(&SimpleState::Error));
}

#[test]
fn same_state_compares_custom_names() {
    let a = SimpleState::Custom("x".to_string());
    assert!(a.same_state(&SimpleState::Custom("x".to_string())));
    assert!(!a.same_state(&SimpleState::Custom("y".to_string())));
    assert!(!SimpleState::Start.same_state(&SimpleState::Processing));
}

#[test]
fn test_advanced_flow_builder() {
    let flow = AdvancedFlowBuilder::new()
        .name("test_flow".to_string())
        .initial_state(SimpleState::Start)
        .on_state(SimpleState::Start, TestNode(SimpleState::Processing))
        .on_state(SimpleState::Processing, TestNode(SimpleState::Success))
        .build()
        .unwrap();
    assert_eq!(flow.name(), "test_flow");
    let result = run_advanced(&flow);
    assert!(result.final_state.same_state(&SimpleState::Success));
    assert!(result.success);
    assert_eq!(result.steps, 2);
    assert_eq!(result.trace.len(), 2);
}

#[test]
fn test_conditional_routing() {
    let build = |skip: bool| {
        AdvancedFlow::builder()
            .name("conditional_test".to_string())
            .initial_state(SimpleState::Start)
            .when_state(SimpleState::Start, Flag(skip), SimpleState::Success, SimpleState::Processing)
            .on_state(SimpleState::Processing, TestNode(SimpleState::Success))
            .build()
            .unwrap()
    };
    let result = run_advanced(&build(false));
    assert_eq!(result.steps, 2);
    let result = run_advanced(&build(true));
    assert_eq!(result.steps, 1);
}

#[test]
fn test_flow_registry() {
    let mut registry = FlowRegistry::new();
    let flow = AdvancedFlow::builder()
        .name("registry_test".to_string())
        .initial_state(SimpleState::Start)
        .on_state(SimpleState::Start, TestNode(SimpleState::Success))
        .build()
        .unwrap();
    registry.register("test_flow".to_string(), flow);
    let found = registry.flow_for("test_flow").unwrap();
    let result = run_advanced(found);
    assert!(result.final_state.same_state(&SimpleState::Success));
    assert!(result.success);
    assert_eq!(registry.list_flows(), vec!["test_flow".to_string()]);
}

#[test]
fn registry_reports_unknown_flows() {
    let registry: FlowRegistry<SimpleState, TestNode, NoMiddleware, Flag> = FlowRegistry::new();
    assert!(registry.get("missing").is_none());
    match registry.flow_for("missing") {
        Err(FlowError::Construction(m)) => assert_eq!(m, "Flow 'missing' not found"),
        _ => panic!("expected a construction error"),
    }
}

#[test]
fn advanced_flow_stops_at_step_limit() {
    let flow = AdvancedFlow::builder()
        .initial_state(SimpleState::Start)
        .max_steps(3)
        .on_state(SimpleState::Start, TestNode(SimpleState::Processing))
        .on_state(SimpleState::Processing, TestNode(SimpleState::Start))
        .build()
        .unwrap();
    let result = run_advanced(&flow);
    assert!(!result.success);
    assert_eq!(result.steps, 4);
    assert_eq!(result.error, Some("Flow exceeded maximum steps (3)".to_string()));
}

#[test]
fn advanced_flow_needs_initial_state() {
    let builder: AdvancedFlowBuilder<SimpleState, TestNode, NoMiddleware, Flag> = AdvancedFlowBuilder::new();
    match builder.build() {
        Err(FlowError::Construction(m)) => assert_eq!(m, "Initial state not set"),
        _ => panic!("expected a construction error"),
    }
}

fn run_simple(flow: &SimpleFlow<SimpleState, TestNode>) -> Result<pocketflow::flow_simple::FlowResult<SimpleState>, FlowError> {
    let mut run = flow.start();
    loop {
        match flow.next_step(&mut run) {
            FlowStep::RunNode(i) => {
                let next = flow.node_at(i).0.clone_state();
                if let Some(r) = flow.node_finished(&mut run, Ok(next)) {
                    return Ok(r);
                }
            },
            FlowStep::Done(r) => return Ok(r),
            FlowStep::Failed(e) => return Err(e),
        }
    }
}

#[test]
fn simple_flow_runs_to_terminal_state() {
    let flow = SimpleFlowBuilder::new()
        .name("simple".to_string())
        .initial_state(SimpleState::Start)
        .node(SimpleState::Start, TestNode(SimpleState::Processing))
        .node(SimpleState::Processing, TestNode(SimpleState::Success))
        .build()
        .unwrap();
    let result = run_simple(&flow).unwrap();
    assert!(result.success);
    assert_eq!(result.steps, 3);
    assert!(result.final_state.same_state(&SimpleState::Success));
}

#[test]
fn simple_flow_fails_without_node() {
    let flow = SimpleFlowBuilder::new()
        .initial_state(SimpleState::Start)
        .node(SimpleState::Start, TestNode(SimpleState::Processing))
        .build()
        .unwrap();
    match run_simple(&flow) {
        Err(FlowError::Context(m)) => assert_eq!(m, "No node found for state: Processing"),
        _ => panic!("expected a missing node"),
    }
}

#[test]
fn simple_flow_node_error_ends_unsuccessfully() {
    let flow = SimpleFlowBuilder::new()
        .initial_state(SimpleState::Start)
        .node(SimpleState::Start, TestNode(SimpleState::Processing))
        .build()
        .unwrap();
    let mut run = flow.start();
    match flow.next_step(&mut run) {
        FlowStep::RunNode(_) => {},
        _ => panic!("expected a node to run"),
    }
    let r = flow.node_finished(&mut run, Err("boom".to_string())).unwrap();
    assert!(!r.success);
    assert_eq!(r.error, Some("boom".to_string()));
    assert_eq!(r.steps, 1);
}

#[test]
fn flow_error_messages() {
    assert_eq!(FlowError::context("x".to_string()).message(), "Context error: x");
    assert_eq!(FlowError::construction("y".to_string()).message(), "Construction error: y");
    assert_eq!(FlowError::Cancelled.message(), "Flow execution was cancelled");
    assert_eq!(FlowError::Timeout.message(), "Flow execution timed out");
    let e = FlowError::invalid_transition(&"a", &"b");
    assert_eq!(e.message(), "Invalid transition from \"\\\"a\\\"\" to \"\\\"b\\\"\"");
}

#[test]
fn most_common_final_state_counts_views() {
    let empty: Vec<SimpleState> = vec![];
    assert_eq!(most_common_final_state(&empty), None);
    let finals = vec![
        SimpleState::Error,
        SimpleState::Success,
        SimpleState::Custom("x".to_string()),
        SimpleState::Success,
    ];
    let i = most_common_final_state(&finals).unwrap();
    assert!(finals[i].same_state(&SimpleState::Success));
}

#[test]
fn simple_flow_starting_terminal_runs_no_node() {
    let flow = SimpleFlowBuilder::new()
        .initial_state(SimpleState::Success)
        .node(SimpleState::Start, TestNode(SimpleState::Processing))
        .build()
        .unwrap();
    let result = run_simple(&flow).unwrap();
    assert!(result.success);
    assert_eq!(result.steps, 1);
}

#[test]
fn flow_error_wrapping_keeps_messages() {
    let e = FlowError::construction("bad".to_string());
    match pocketflow::agent_error::AgentError::from_flow_error(&e) {
        pocketflow::agent_error::AgentError::Context(m) => assert_eq!(m, "Construction error: bad"),
        _ => panic!("expected a context error"),
    }
}
