use pocketflow::cognitive::{
    iterative_accepts, iterative_next, iterative_start, IterAction, IterEvent, IterPhase,
    cognitive_name, fallback_goal, first_pending_step, mark_one_step_completed, parse_reasoning_response,
    CognitiveError, CognitiveWrapper,
};
use pocketflow::error::FlowError;
use pocketflow::execution::{backoff_ms, criteria_met, ExecAction, PlanExecutionNode, PlanExecutionNodeBuilder};
use pocketflow::json::{JsonNumber, JsonValue};
use pocketflow::memory::{analyze_success_patterns, matching_patterns, related_concept_names, Episode, EpisodicMemory, WorkingMemory};
use pocketflow::plan_parsing::{
    adapted_goal, collect_steps_from_array, create_leaf_task_steps, decomposition_sub_goals, flatten_hierarchical_tasks,
    hierarchical_plan, hierarchical_replan_goal, parse_adaptive_response, parse_plan_from_steps_array, parse_planning_response,
    plan_from_checked_object, plan_from_numbered_lines, revised_goal, try_parse_planning_response, HierarchicalTask,
};
use pocketflow::planning::{
    adaptive_recommendations, hierarchical_recommendations,
    detailed_goal, execution_plan, simple_goal, simple_step, validate_execution_plan, validate_goal,
    validate_step_dependencies, ExecutionPlan, Goal, PlanStep,
};
use pocketflow::state::SimpleState;
use pocketflow::text::{split_lines, split_words, trim};

fn s(x: &str) -> String {
    x.to_string()
}

fn goal() -> Goal {
    Goal { id: s("g1"), description: s("desc"), success_criteria: vec![], constraints: vec![], priority: 5 }
}

fn obj(members: Vec<(&str, JsonValue)>) -> JsonValue {
    JsonValue::Object(members.into_iter().map(|(k, v)| (k.to_string(), v)).collect())
}

fn strv(x: &str) -> JsonValue {
    JsonValue::String(x.to_string())
}

fn num(n: u64) -> JsonValue {
    JsonValue::Number(JsonNumber::PosInt(n))
}

#[test]
fn parses_structured_planning_json() {
    let response = obj(vec![
        ("id", strv("plan-json")),
        ("steps", JsonValue::Array(vec![
            obj(vec![("id", strv("a")), ("description", strv("first")), ("estimated_duration_seconds", num(1)), ("required_tools", JsonValue::Array(vec![strv("t1")]))]),
            obj(vec![("description", strv("second"))]),
        ])),
        ("estimated_duration_seconds", num(2)),
        ("required_resources", JsonValue::Array(vec![strv("cpu")])),
        ("risk_factors", JsonValue::Array(vec![strv("latency")])),
    ]);
    let plan = parse_planning_response(&response, goal()).unwrap();
    assert_eq!(plan.id, "plan-json");
    assert_eq!(plan.steps.len(), 2);
    assert_eq!(plan.steps[0].id, "a");
    assert_eq!(plan.steps[0].required_tools, vec![s("t1")]);
    assert_eq!(plan.steps[1].id, "step_2");
    assert_eq!(plan.steps[1].estimated_duration_secs, 300);
    assert!(plan.estimated_duration_secs >= 2);
    assert!(plan.required_resources.contains(&s("cpu")));
    assert!(plan.risk_factors.contains(&s("latency")));
}

#[test]
fn rejects_invalid_planning_json_without_steps() {
    let response = obj(vec![("id", strv("plan-bad"))]);
    match parse_planning_response(&response, goal()) {
        Err(FlowError::Context(m)) => assert!(m.contains("Planning JSON invalid")),
        _ => panic!("expected the schema to refuse the plan"),
    }
}

#[test]
fn checked_object_reports_verdicts() {
    let o = obj(vec![("steps", JsonValue::Array(vec![]))]);
    match plan_from_checked_object(&o, goal(), Ok(Some(s("bad")))) {
        Err(FlowError::Context(m)) => assert_eq!(m, "Planning JSON invalid: bad"),
        _ => panic!("expected an invalid plan"),
    }
    match plan_from_checked_object(&o, goal(), Err(s("no schema"))) {
        Err(FlowError::Context(m)) => assert_eq!(m, "Planning schema compile error: no schema"),
        _ => panic!("expected a compile error"),
    }
    let plan = plan_from_checked_object(&o, goal(), Ok(None)).unwrap();
    assert!(plan.id.starts_with("plan_"));
    assert_eq!(plan.estimated_duration_secs, 0);
}

#[test]
fn json_steps_read_every_field() {
    let steps = collect_steps_from_array(&vec![obj(vec![
        ("dependencies", JsonValue::Array(vec![strv("x"), num(4), JsonValue::Bool(true)])),
        ("duration_seconds", num(9)),
        ("success_criteria", JsonValue::Array(vec![strv("ok")])),
        ("enforce_success_criteria", JsonValue::Bool(true)),
        ("max_retries", num(2)),
        ("initial_backoff_ms", num(50)),
        ("stop_on_error", JsonValue::Bool(false)),
    ])]);
    let st = &steps[0];
    assert_eq!(st.id, "step_1");
    assert_eq!(st.description, "");
    assert_eq!(st.dependencies, vec![s("x"), s("step_4")]);
    assert_eq!(st.estimated_duration_secs, 9);
    assert_eq!(st.success_criteria.len(), 1);
    assert_eq!(st.enforce_success_criteria, Some(true));
    assert_eq!(st.max_retries, Some(2));
    assert_eq!(st.initial_backoff_ms, Some(50));
    assert_eq!(st.stop_on_error, Some(false));
}

#[test]
fn steps_array_sums_durations() {
    let arr = vec![obj(vec![("estimated_duration_seconds", num(10))]), obj(vec![])];
    let plan = parse_plan_from_steps_array(&arr, goal());
    assert_eq!(plan.estimated_duration_secs, 310);
    let plan = parse_planning_response(&JsonValue::Array(arr), goal()).unwrap();
    assert_eq!(plan.steps.len(), 2);
}

#[test]
fn numbered_lines_become_steps() {
    let text = "Intro\n1. Gather: data sources\nStep 2: Analyze\n4. skipped\n3. Report";
    let plan = plan_from_numbered_lines(text, goal());
    assert_eq!(plan.steps.len(), 3);
    assert_eq!(plan.steps[0].id, "step_1");
    assert_eq!(plan.steps[0].description, "data sources");
    assert_eq!(plan.steps[1].description, "Analyze");
    assert_eq!(plan.steps[2].description, "3. Report");
    assert_eq!(plan.estimated_duration_secs, 900);
    let via_response = parse_planning_response(&strv(text), goal()).unwrap();
    assert_eq!(via_response.steps.len(), 3);
}

#[test]
fn planning_reply_strings_holding_json_are_read_as_json() {
    let plan = parse_planning_response(&strv("{\"id\": \"p7\", \"steps\": []}"), goal()).unwrap();
    assert_eq!(plan.id, "p7");
    assert!(try_parse_planning_response(&strv("[]"), goal()).is_some());
}

#[test]
fn planning_reply_of_other_kinds_is_refused() {
    match parse_planning_response(&JsonValue::Bool(true), goal()) {
        Err(FlowError::Context(m)) => assert_eq!(m, "Invalid planning response format"),
        _ => panic!("expected a refusal"),
    }
}

#[test]
fn planning_reply_with_overflowing_durations_is_declined() {
    let arr = JsonValue::Array(vec![
        obj(vec![("estimated_duration_seconds", num(u64::MAX))]),
        obj(vec![("estimated_duration_seconds", num(1))]),
    ]);
    assert!(try_parse_planning_response(&arr, goal()).is_none());
}

#[test]
fn hierarchical_sub_goals_and_leaves() {
    let reply = strv("Sub-goal: design\n2. Build: the thing\nnoise\n3. Ship: it\nSubgoal:   ");
    let gs = decomposition_sub_goals(&reply, &goal()).unwrap();
    assert_eq!(gs.len(), 3);
    assert_eq!(gs[2].description, "it");
    assert_eq!(gs[0].id, "g1_sub_1");
    assert_eq!(gs[0].description, "design");
    assert_eq!(gs[1].description, "the thing");
    assert_eq!(gs[1].success_criteria, vec![s("sub_goal_completed")]);
    match decomposition_sub_goals(&JsonValue::Null, &goal()) {
        Err(FlowError::Context(m)) => assert_eq!(m, "Invalid decomposition response format"),
        _ => panic!("expected a refusal"),
    }
    let leaf = create_leaf_task_steps(&goal());
    assert_eq!(leaf.len(), 3);
    assert_eq!(leaf[0].id, "g1_init");
    assert_eq!(leaf[1].dependencies, vec![s("g1_init")]);
    assert_eq!(leaf[2].description, "Verify: desc");
    assert_eq!(leaf[2].estimated_duration_secs, 120);
}

#[test]
fn hierarchical_plans_flatten_depth_first() {
    let child = HierarchicalTask {
        id: s("c"),
        goal: goal(),
        level: 1,
        parent_id: Some(s("r")),
        sub_tasks: vec![],
        plan_steps: create_leaf_task_steps(&goal()),
    };
    let root = HierarchicalTask {
        id: s("r"),
        goal: goal(),
        level: 0,
        parent_id: None,
        sub_tasks: vec![child],
        plan_steps: vec![simple_step("top", "first")],
    };
    let flat = flatten_hierarchical_tasks(&root);
    let ids: Vec<&str> = flat.iter().map(|st| st.id.as_str()).collect();
    assert_eq!(ids, vec!["top", "g1_init", "g1_execute", "g1_verify"]);
    let plan = hierarchical_plan(goal(), &root);
    assert_eq!(plan.estimated_duration_secs, 4 * 350);
    assert!(plan.id.starts_with("hierarchical_plan_"));
    assert_eq!(plan.required_resources, vec![s("task_decomposer"), s("dependency_manager")]);
}

#[test]
fn adaptive_plans_read_checkpoints() {
    let reply = strv("1. Start\nCheckpoint: measure\nStep 3: adapt\nAdaptation Point: pivot\nplain");
    let plan = parse_adaptive_response(&reply, goal()).unwrap();
    assert_eq!(plan.steps.len(), 4);
    assert_eq!(plan.steps[1].id, "adaptive_step_2");
    assert_eq!(plan.steps[1].description, "measure");
    assert_eq!(plan.steps[0].required_tools, vec![s("adaptation_monitor")]);
    assert_eq!(plan.estimated_duration_secs, 1600);
    assert_eq!(plan.risk_factors, vec![s("adaptation_overhead")]);
    assert!(parse_adaptive_response(&JsonValue::Null, goal()).is_err());
}

#[test]
fn replanning_goals() {
    let g = detailed_goal("g", "do it", vec![s("done")], vec![s("fast")], 7);
    let a = adapted_goal(&g, 2);
    assert_eq!(a.id, "g_adapted_3");
    assert_eq!(a.description, "Adapted: do it");
    assert_eq!(a.constraints, vec![s("fast")]);
    let r = revised_goal(&g);
    assert_eq!(r.id, "g_revised");
    assert_eq!(r.description, "Revised: do it");
    assert_eq!(r.priority, 7);
}

#[test]
fn parses_structured_reasoning_json() {
    let reply = obj(vec![
        ("steps", JsonValue::Array(vec![obj(vec![("thought", strv("t1")), ("inference", strv("i1"))]), obj(vec![("thought", strv("t2"))])])),
        ("conclusion", strv("done")),
    ]);
    let chain = parse_reasoning_response(&reply).unwrap();
    assert_eq!(chain.thoughts.len(), 2);
    assert_eq!(chain.thoughts[0], "t1");
    assert_eq!(chain.inferences[0], "i1");
    assert_eq!(chain.inferences[1], "t2");
    assert_eq!(chain.conclusion, "done");
}

#[test]
fn reasoning_text_steps_and_conclusion() {
    let chain = parse_reasoning_response(&strv("Step 1: look\nStep 3: skip\nStep 2:  think \nConclusion: yes\nConclusion: final")).unwrap();
    assert_eq!(chain.thoughts, vec![s("look"), s("think")]);
    assert_eq!(chain.conclusion, "final");
    match parse_reasoning_response(&num(3)) {
        Err(FlowError::Context(m)) => assert_eq!(m, "Invalid reasoning response format"),
        _ => panic!("expected a refusal"),
    }
}

#[test]
fn goals_validate() {
    assert!(validate_goal(&simple_goal("id", "desc")).is_ok());
    match validate_goal(&simple_goal("  ", "desc")) {
        Err(FlowError::Context(m)) => assert_eq!(m, "Invalid cognitive configuration: Goal ID cannot be empty"),
        _ => panic!("expected an invalid goal"),
    }
    let g = detailed_goal("id", "desc", vec![], vec![], 11);
    assert!(validate_goal(&g).is_err());
}

#[test]
fn plans_validate_dependencies() {
    let mut a = simple_step("a", "A");
    let b = simple_step("b", "B");
    a.dependencies = vec![s("b")];
    let steps = vec![a, b];
    assert!(validate_step_dependencies(&steps).is_ok());
    let bad = vec![PlanStep { dependencies: vec![s("zzz")], ..simple_step("c", "C") }];
    assert!(validate_step_dependencies(&bad).is_err());
    let plan = execution_plan(simple_goal("g", "d"), vec![simple_step("x", "X")]);
    assert_eq!(plan.estimated_duration_secs, 300);
    assert!(validate_execution_plan(&plan).is_ok());
}

#[test]
fn simulated_execution_marks_first_pending_step() {
    let steps = vec![simple_step("s1", "A"), simple_step("s2", "B")];
    let mut completed = vec![s("s1")];
    assert_eq!(first_pending_step(&steps, &completed), Some(1));
    mark_one_step_completed(&steps, &mut completed);
    assert_eq!(completed, vec![s("s1"), s("s2")]);
    mark_one_step_completed(&steps, &mut completed);
    assert_eq!(completed.len(), 2);
}

#[test]
fn fallback_goal_uses_conclusion() {
    let g = fallback_goal("ship it");
    assert!(g.id.starts_with("goal_"));
    assert_eq!(g.description, "ship it");
    assert_eq!(g.success_criteria, vec![s("Plan executed")]);
    assert_eq!(g.priority, 5);
}

#[test]
fn cognitive_wrapper_and_errors() {
    let w = CognitiveWrapper::new(1u8, 2u8);
    assert_eq!(*w.inner(), 1);
    assert_eq!(*w.cognitive(), 2);
    assert_eq!(cognitive_name("n"), "Cognitive(n)");
    let e = CognitiveError::PlanningFailed { message: s("x") };
    assert_eq!(e.message(), "Planning failed: x");
    assert!(matches!(e.into_flow_error(), FlowError::Context(ref m) if m == "Planning failed: x"));
}

fn one_step_plan(step: PlanStep) -> ExecutionPlan {
    ExecutionPlan {
        id: s("plan2"),
        goal: goal(),
        steps: vec![step],
        estimated_duration_secs: 1,
        required_resources: vec![],
        risk_factors: vec![],
    }
}

#[test]
fn retries_then_succeeds() {
    let exec: PlanExecutionNode<SimpleState, u8> = PlanExecutionNodeBuilder::new()
        .with_mcp_client(0u8)
        .max_retries(3)
        .initial_backoff_ms(1)
        .stop_on_error(true)
        .on_success(SimpleState::Success)
        .on_error(SimpleState::Error)
        .build()
        .unwrap();
    let plan = one_step_plan(simple_step("s1", "A"));
    let mut run = exec.begin(vec![], vec![]);
    assert!(matches!(exec.next_action(&plan, &run), ExecAction::CallTool { step: 0 }));
    assert!(matches!(exec.tool_failed(&plan, &mut run, s("flaky")), ExecAction::Wait { ms: 1 }));
    assert!(matches!(exec.tool_failed(&plan, &mut run, s("flaky")), ExecAction::Wait { ms: 2 }));
    match exec.tool_returned(&plan, &mut run, strv("Step completed")) {
        ExecAction::Finish { state, completed_all } => {
            assert!(matches!(state, SimpleState::Success));
            assert!(completed_all);
        },
        _ => panic!("expected the plan to finish"),
    }
    assert_eq!(run.completed, vec![s("s1")]);
}

#[test]
fn executes_all_steps_and_marks_completed() {
    let exec: PlanExecutionNode<SimpleState, u8> = PlanExecutionNodeBuilder::new()
        .with_mcp_client(0u8)
        .on_success(SimpleState::Success)
        .on_error(SimpleState::Error)
        .build()
        .unwrap();
    let plan = ExecutionPlan {
        id: s("plan1"),
        goal: goal(),
        steps: vec![simple_step("s1", "A"), simple_step("s2", "B")],
        estimated_duration_secs: 600,
        required_resources: vec![],
        risk_factors: vec![],
    };
    let mut run = exec.begin(vec![], vec![]);
    assert!(matches!(exec.tool_returned(&plan, &mut run, strv("x")), ExecAction::CallTool { step: 1 }));
    assert!(matches!(exec.tool_returned(&plan, &mut run, strv("y")), ExecAction::Finish { completed_all: true, .. }));
    assert_eq!(run.completed, vec![s("s1"), s("s2")]);
    assert_eq!(run.results.len(), 2);
}

#[test]
fn per_step_retry_override_applies() {
    let exec: PlanExecutionNode<SimpleState, u8> = PlanExecutionNodeBuilder::new()
        .with_mcp_client(0u8)
        .max_retries(0)
        .initial_backoff_ms(1)
        .on_success(SimpleState::Success)
        .on_error(SimpleState::Error)
        .build()
        .unwrap();
    let step = PlanStep { max_retries: Some(1), initial_backoff_ms: Some(1), ..simple_step("s1", "desc") };
    let plan = one_step_plan(step);
    let mut run = exec.begin(vec![], vec![]);
    assert!(matches!(exec.tool_failed(&plan, &mut run, s("once")), ExecAction::Wait { ms: 1 }));
    assert!(matches!(exec.tool_returned(&plan, &mut run, strv("ok")), ExecAction::Finish { completed_all: true, .. }));
    assert_eq!(run.completed, vec![s("s1")]);
}

#[test]
fn stop_on_error_ends_in_error_state() {
    let exec: PlanExecutionNode<SimpleState, u8> = PlanExecutionNodeBuilder::new()
        .with_mcp_client(0u8)
        .max_retries(0)
        .stop_on_error(true)
        .on_success(SimpleState::Success)
        .on_error(SimpleState::Error)
        .build()
        .unwrap();
    let plan = one_step_plan(simple_step("s1", "A"));
    let mut run = exec.begin(vec![], vec![]);
    match exec.tool_failed(&plan, &mut run, s("down")) {
        ExecAction::Finish { state, completed_all } => {
            assert!(matches!(state, SimpleState::Error));
            assert!(!completed_all);
        },
        _ => panic!("expected the plan to stop"),
    }
    assert_eq!(run.last_step_error, Some(s("down")));
}

#[test]
fn enforces_regex_and_json_pointer_criteria() {
    let output = strv("{\"data\": {\"count\": 3, \"items\": [\"alpha\", \"beta\"]}, \"message\": \"processed id=42\"}");
    let criteria = vec![
        obj(vec![("regex", strv("id=\\d+"))]),
        obj(vec![("json_pointer", strv("/data/count")), ("equals", num(3))]),
        obj(vec![("json_pointer", strv("/data/items/0")), ("exists", JsonValue::Bool(true))]),
    ];
    assert!(criteria_met(&criteria, &output));
    let failing = vec![obj(vec![("json_pointer", strv("/data/count")), ("equals", num(4))])];
    assert!(!criteria_met(&failing, &output));
}

#[test]
fn json_pointer_contains_works() {
    let output = obj(vec![("message", strv("hello 123 world")), ("items", JsonValue::Array(vec![strv("a-1"), strv("b-123-y")]))]);
    let criteria = vec![
        obj(vec![("json_pointer", strv("/message")), ("contains", strv("123"))]),
        obj(vec![("json_pointer", strv("/items")), ("contains", strv("123"))]),
        strv("ignored for non-string output"),
    ];
    assert!(!criteria_met(&criteria, &output));
    let first_two: Vec<JsonValue> = criteria[0..2].iter().map(|c| c.duplicate()).collect();
    assert!(criteria_met(&first_two, &output));
}

#[test]
fn backoff_doubles_until_it_overflows() {
    assert_eq!(backoff_ms(100, 1), Some(100));
    assert_eq!(backoff_ms(100, 3), Some(400));
    assert_eq!(backoff_ms(1, 65), None);
    assert_eq!(backoff_ms(u64::MAX, 2), None);
}

#[test]
fn working_memory_keeps_ten_newest_thoughts() {
    let mut m = WorkingMemory::new();
    for i in 0..12 {
        m.add_thought(format!("t{i}"));
    }
    let thoughts = m.get_recent_thoughts();
    assert_eq!(thoughts.len(), 10);
    assert_eq!(thoughts[0], "t2");
    assert_eq!(thoughts[9], "t11");
    m.set_focus(s("f"));
    assert_eq!(m.get_focus(), Some(&s("f")));
    m.store_temporary(s("k"), num(1));
    assert!(m.retrieve_temporary("k").is_some());
    m.clear();
    assert!(m.retrieve_temporary("k").is_none());
}

#[test]
fn episodic_memory_finds_similar_episodes() {
    let mut mem = EpisodicMemory::with_capacity(2);
    mem.add_episode(Episode::new(s("Deploy service"), s("ran deploy"), s("ok"), true, std::time::Duration::from_secs(1)));
    mem.add_episode(Episode::new(s("Write docs"), s("typed"), s("ok"), true, std::time::Duration::from_secs(1)));
    mem.add_episode(Episode::new(s("Fix DEPLOY bug"), s("patched"), s("ok"), false, std::time::Duration::from_secs(1)));
    assert_eq!(mem.episodes().len(), 2);
    assert_eq!(mem.get_recent_episodes(1).len(), 1);
    assert_eq!(mem.find_similar_episodes(&[s("deploy")]), vec![1]);
}

#[test]
fn text_helpers_split_and_trim() {
    assert_eq!(split_words("  a  bc\td "), vec![s("a"), s("bc"), s("d")]);
    assert_eq!(split_lines("x\r\ny\n\nz\n"), vec![s("x"), s("y"), s(""), s("z")]);
    assert_eq!(split_lines(""), Vec::<String>::new());
    assert_eq!(trim("  hi there \n"), "hi there");
}

fn episode(action: &str, success: bool) -> Episode {
    Episode::new(s("ctx"), s(action), s("out"), success, std::time::Duration::from_secs(1))
}

#[test]
fn success_patterns_report_common_words() {
    let eps = vec![
        episode("Deploy the service", true),
        episode("deploy quickly", true),
        episode("write docs", true),
        episode("deploy", false),
    ];
    assert_eq!(analyze_success_patterns(&eps), vec![s("Successful pattern: deploy (used in 66% of successes)")]);
    assert!(analyze_success_patterns(&[episode("deploy", false)]).is_empty());
}

#[test]
fn semantic_lookups() {
    let relations = vec![(s("a"), s("b")), (s("c"), s("a")), (s("b"), s("c"))];
    assert_eq!(related_concept_names(&relations, "a"), vec![s("b"), s("c")]);
    let triggers = vec![vec![s("Error Rate")], vec![s("latency")], vec![s("ERRORS"), s("x")]];
    assert_eq!(matching_patterns(&triggers, &[s("error")]), vec![0, 2]);
    assert!(matching_patterns(&triggers, &[]).is_empty());
}

#[test]
fn progress_recommendations() {
    assert_eq!(
        adaptive_recommendations(4, 1, 2, 1),
        vec![
            s("Consider alternative approaches for blocked steps"),
            s("Address identified issues before proceeding"),
            s("Consider simplifying the approach"),
        ]
    );
    assert!(adaptive_recommendations(4, 2, 0, 0).is_empty());
    assert_eq!(adaptive_recommendations(0, 0, 0, 0), vec![s("Consider simplifying the approach")]);
    assert_eq!(hierarchical_recommendations(8, 1), vec![s("Consider simplifying the hierarchy")]);
    assert!(hierarchical_recommendations(8, 2).is_empty());
    assert_eq!(
        hierarchical_recommendations(21, 21),
        vec![s("Plan may be too complex, consider higher-level abstraction")]
    );
}

#[test]
fn hierarchical_replan_goal_renames() {
    let g = Goal { id: s("g1"), description: s("Ship"), success_criteria: vec![s("done")], constraints: vec![s("fast")], priority: 4 };
    let r = hierarchical_replan_goal(&g);
    assert_eq!(r.id, "g1_hierarchical_replan");
    assert_eq!(r.description, "Hierarchical replan: Ship");
    assert_eq!(r.success_criteria, vec![s("done")]);
    assert_eq!(r.constraints, vec![s("fast")]);
    assert_eq!(r.priority, 4);
}

#[test]
fn executor_without_plan_fails() {
    let exec: PlanExecutionNode<SimpleState, u8> = PlanExecutionNodeBuilder::new()
        .with_mcp_client(0u8)
        .on_success(SimpleState::Success)
        .on_error(SimpleState::Error)
        .build()
        .unwrap();
    assert!(matches!(exec.missing_plan_state(), SimpleState::Error));
}

#[test]
fn blank_goal_ids_are_rejected() {
    let g = Goal { id: s(" "), description: s(""), success_criteria: vec![], constraints: vec![], priority: 0 };
    match validate_goal(&g) {
        Err(FlowError::Context(m)) => assert_eq!(m, "Invalid cognitive configuration: Goal ID cannot be empty"),
        _ => panic!("expected an invalid goal"),
    }
    let g = Goal { id: s("g"), description: s("d"), success_criteria: vec![], constraints: vec![], priority: 11 };
    match validate_goal(&g) {
        Err(FlowError::Context(m)) => assert_eq!(m, "Invalid cognitive configuration: Goal priority must be between 1 and 10"),
        _ => panic!("expected an invalid goal"),
    }
}

#[test]
fn cognitive_errors_keep_their_text() {
    let e = CognitiveError::MissingContextData { key: s("goal") };
    assert!(matches!(e.into_flow_error(), FlowError::Context(ref m) if m == "Context missing required data: goal"));
}

fn step_iter(max: usize, simulate: bool, run: &mut pocketflow::cognitive::IterRun, event: IterEvent) -> IterAction {
    assert!(iterative_accepts(max, run, &event));
    iterative_next(max, simulate, run, event)
}

#[test]
fn iterative_agent_reaches_target_after_simulated_steps() {
    let (mut run, first) = iterative_start();
    assert!(matches!(first, IterAction::Think));
    assert!(matches!(step_iter(5, true, &mut run, IterEvent::Thought(Ok(()))), IterAction::Plan));
    assert!(matches!(step_iter(5, true, &mut run, IterEvent::Planned(Ok(()))), IterAction::Evaluate));
    for round in 0..3 {
        assert!(matches!(step_iter(5, true, &mut run, IterEvent::Progress { reached: false }), IterAction::Simulate));
        assert!(matches!(step_iter(5, true, &mut run, IterEvent::Simulated), IterAction::Reflect));
        assert!(matches!(step_iter(5, true, &mut run, IterEvent::Reflected), IterAction::Rethink));
        assert!(matches!(step_iter(5, true, &mut run, IterEvent::Rethought { ok: true }), IterAction::Replan));
        assert!(matches!(step_iter(5, true, &mut run, IterEvent::Replanned { ok: round % 2 == 0 }), IterAction::Evaluate));
    }
    match step_iter(5, true, &mut run, IterEvent::Progress { reached: true }) {
        IterAction::Finish { success, error } => {
            assert!(success);
            assert_eq!(error, None);
        },
        _ => panic!("expected the run to finish"),
    }
    assert_eq!(run.phase, IterPhase::Finished);
    assert_eq!(run.evaluations, 4);
}

#[test]
fn iterative_agent_stops_on_first_failures_and_round_limit() {
    let (mut run, _) = iterative_start();
    match step_iter(2, false, &mut run, IterEvent::Thought(Err(s("no model")))) {
        IterAction::Finish { success, error } => {
            assert!(!success);
            assert_eq!(error, Some(s("thinking failed: no model")));
        },
        _ => panic!("expected the run to finish"),
    }
    let (mut run, _) = iterative_start();
    step_iter(1, false, &mut run, IterEvent::Thought(Ok(())));
    match step_iter(1, false, &mut run, IterEvent::Planned(Err(s("down")))) {
        IterAction::Finish { error, .. } => assert_eq!(error, Some(s("planning failed: down"))),
        _ => panic!("expected the run to finish"),
    }
    let (mut run, _) = iterative_start();
    step_iter(1, false, &mut run, IterEvent::Thought(Ok(())));
    step_iter(1, false, &mut run, IterEvent::Planned(Ok(())));
    assert!(matches!(step_iter(1, false, &mut run, IterEvent::Progress { reached: false }), IterAction::Reflect));
    step_iter(1, false, &mut run, IterEvent::Reflected);
    step_iter(1, false, &mut run, IterEvent::Rethought { ok: false });
    match step_iter(1, false, &mut run, IterEvent::Replanned { ok: false }) {
        IterAction::Finish { success, error } => {
            assert!(!success);
            assert_eq!(error, None);
        },
        _ => panic!("expected the run to finish"),
    }
    assert!(!iterative_accepts(1, &run, &IterEvent::Reflected));
}
