//! Goals, execution plans and their validation.

use vstd::prelude::*;
use vstd::string::*;

use crate::error::FlowError;
use crate::json::{models, JsonModel, JsonValue};
use crate::text::{blank, copy_strings, is_blank, join, new_uuid, str_eq, string_views};

verus! {

/// Strategy for planning approach
#[derive(Debug, Clone, Copy, PartialEq, Eq, Structural)]
pub enum PlanningStrategy {
    /// Linear step-by-step planning
    Sequential,
    /// Hierarchical task decomposition
    Hierarchical,
    /// Parallel execution planning
    Parallel,
    /// Adaptive planning with feedback loops
    Adaptive,
    /// Goal-oriented backward planning
    BackwardChaining,
}

/// Represents a high-level goal to be achieved. Priority is on a 1-10 scale.
#[derive(Debug)]
pub struct Goal {
    pub id: String,
    pub description: String,
    pub success_criteria: Vec<String>,
    pub constraints: Vec<String>,
    pub priority: u8,
}

/// Individual step in an execution plan. Durations are in seconds.
///
/// Success criteria are JSON values:
/// - a string must appear in the textual output;
/// - `{"regex": pattern}`: the pattern must match the textual output;
/// - `{"json_pointer": p, "equals": v}`: the JSON output at `p` equals `v`;
/// - `{"json_pointer": p, "exists": true}`: `p` resolves;
/// - `{"json_pointer": p, "contains": s}`: the string at `p` contains `s`, or
///   some string of the array at `p` does.
#[derive(Debug)]
pub struct PlanStep {
    pub id: String,
    pub description: String,
    pub dependencies: Vec<String>,
    pub estimated_duration_secs: u64,
    pub required_tools: Vec<String>,
    pub success_criteria: Vec<JsonValue>,
    pub enforce_success_criteria: Option<bool>,
    pub max_retries: Option<usize>,
    pub initial_backoff_ms: Option<u64>,
    pub stop_on_error: Option<bool>,
}

/// Detailed execution plan for achieving a goal. Durations are in seconds.
#[derive(Debug)]
pub struct ExecutionPlan {
    pub id: String,
    pub goal: Goal,
    pub steps: Vec<PlanStep>,
    pub estimated_duration_secs: u64,
    pub required_resources: Vec<String>,
    pub risk_factors: Vec<String>,
}

/// The abstract value of a plan step.
pub struct StepModel {
    pub id: Seq<char>,
    pub description: Seq<char>,
    pub dependencies: Seq<Seq<char>>,
    pub estimated_duration_secs: u64,
    pub required_tools: Seq<Seq<char>>,
    pub success_criteria: Seq<JsonModel>,
    pub enforce_success_criteria: Option<bool>,
    pub max_retries: Option<usize>,
    pub initial_backoff_ms: Option<u64>,
    pub stop_on_error: Option<bool>,
}

pub open spec fn step_model(s: PlanStep) -> StepModel {
    StepModel {
        id: s.id@,
        description: s.description@,
        dependencies: string_views(s.dependencies@),
        estimated_duration_secs: s.estimated_duration_secs,
        required_tools: string_views(s.required_tools@),
        success_criteria: models(s.success_criteria@),
        enforce_success_criteria: s.enforce_success_criteria,
        max_retries: s.max_retries,
        initial_backoff_ms: s.initial_backoff_ms,
        stop_on_error: s.stop_on_error,
    }
}

pub open spec fn step_models(s: Seq<PlanStep>) -> Seq<StepModel> {
    s.map_values(|x: PlanStep| step_model(x))
}

/// Create a simple goal with basic parameters.
pub fn simple_goal(id: &str, description: &str) -> (g: Goal)
    ensures
        g.id@ == id@,
        g.description@ == description@,
        string_views(g.success_criteria@) == seq!["Task completed successfully"@],
        g.constraints@.len() == 0,
        g.priority == 5,
{
    let mut criteria: Vec<String> = Vec::new();
    criteria.push(String::from_str("Task completed successfully"));
    proof {
        assert(string_views(criteria@) =~= seq!["Task completed successfully"@]);
    }
    Goal {
        id: String::from_str(id),
        description: String::from_str(description),
        success_criteria: criteria,
        constraints: Vec::new(),
        priority: 5,
    }
}

/// Create a goal with detailed parameters.
pub fn detailed_goal(
    id: &str,
    description: &str,
    success_criteria: Vec<String>,
    constraints: Vec<String>,
    priority: u8,
) -> (g: Goal)
    ensures
        g.id@ == id@,
        g.description@ == description@,
        g.success_criteria == success_criteria,
        g.constraints == constraints,
        g.priority == priority,
{
    Goal {
        id: String::from_str(id),
        description: String::from_str(description),
        success_criteria,
        constraints,
        priority,
    }
}

/// Create a simple plan step: no dependencies or tools, five minutes, and
/// the criterion that the output says "Step completed".
pub fn simple_step(id: &str, description: &str) -> (s: PlanStep)
    ensures
        s.id@ == id@,
        s.description@ == description@,
        s.dependencies@.len() == 0,
        s.estimated_duration_secs == 300,
        s.required_tools@.len() == 0,
        s.success_criteria@.len() == 1,
        s.success_criteria@[0] matches JsonValue::String(c) && c@ == "Step completed"@,
        s.enforce_success_criteria is None,
        s.max_retries is None,
        s.initial_backoff_ms is None,
        s.stop_on_error is None,
{
    let mut criteria: Vec<JsonValue> = Vec::new();
    criteria.push(JsonValue::String(String::from_str("Step completed")));
    PlanStep {
        id: String::from_str(id),
        description: String::from_str(description),
        dependencies: Vec::new(),
        estimated_duration_secs: 300,
        required_tools: Vec::new(),
        success_criteria: criteria,
        enforce_success_criteria: None,
        max_retries: None,
        initial_backoff_ms: None,
        stop_on_error: None,
    }
}

/// Create a detailed plan step, without executor overrides.
pub fn detailed_step(
    id: &str,
    description: &str,
    dependencies: Vec<String>,
    duration_secs: u64,
    tools: Vec<String>,
    success_criteria: Vec<JsonValue>,
) -> (s: PlanStep)
    ensures
        s.id@ == id@,
        s.description@ == description@,
        s.dependencies == dependencies,
        s.estimated_duration_secs == duration_secs,
        s.required_tools == tools,
        s.success_criteria == success_criteria,
        s.enforce_success_criteria is None,
        s.max_retries is None,
        s.initial_backoff_ms is None,
        s.stop_on_error is None,
{
    PlanStep {
        id: String::from_str(id),
        description: String::from_str(description),
        dependencies,
        estimated_duration_secs: duration_secs,
        required_tools: tools,
        success_criteria,
        enforce_success_criteria: None,
        max_retries: None,
        initial_backoff_ms: None,
        stop_on_error: None,
    }
}

/// The total of the steps' estimated durations.
pub open spec fn total_duration(steps: Seq<PlanStep>) -> nat
    decreases steps.len(),
{
    if steps.len() == 0 {
        0
    } else {
        total_duration(steps.drop_last()) + steps.last().estimated_duration_secs as nat
    }
}

/// Some string of the list has view `t`.
pub open spec fn names_contain(v: Seq<String>, t: Seq<char>) -> bool {
    exists|i: int| 0 <= i < v.len() && v[i]@ == t
}

/// Some step requires the tool `t`.
pub open spec fn some_step_requires(steps: Seq<PlanStep>, t: Seq<char>) -> bool {
    exists|i: int| 0 <= i < steps.len() && names_contain(steps[i].required_tools@, t)
}

/// Whether a list of strings holds a string with the view of `t`.
pub fn list_contains(v: &Vec<String>, t: &str) -> (b: bool)
    ensures
        b == names_contain(v@, t@),
{
    let mut i: usize = 0;
    while i < v.len()
        invariant
            i <= v@.len(),
            forall|j: int| 0 <= j < i ==> v@[j]@ != t@,
        decreases v@.len() - i,
    {
        if str_eq(v[i].as_str(), t) {
            return true;
        }
        i = i + 1;
    }
    false
}

/// Create an execution plan from a goal and steps: its duration is the sum
/// of the steps' durations and its resources are the tools the steps
/// require, each once.
pub fn execution_plan(goal: Goal, steps: Vec<PlanStep>) -> (p: ExecutionPlan)
    requires
        total_duration(steps@) <= u64::MAX,
    ensures
        p.goal == goal,
        p.steps == steps,
        p.estimated_duration_secs == total_duration(steps@),
        forall|t: Seq<char>| names_contain(p.required_resources@, t) <==> some_step_requires(steps@, t),
        forall|i: int, j: int| 0 <= i < j < p.required_resources@.len() ==> p.required_resources@[i]@
            != p.required_resources@[j]@,
        p.risk_factors@.len() == 0,
        p.id@.len() >= 5 && p.id@.subrange(0, 5) == "plan_"@,
{
    let mut total: u64 = 0;
    let mut resources: Vec<String> = Vec::new();
    let mut i: usize = 0;
    while i < steps.len()
        invariant
            i <= steps@.len(),
            total_duration(steps@) <= u64::MAX,
            total == total_duration(steps@.subrange(0, i as int)),
            forall|t: Seq<char>| names_contain(resources@, t) <==> some_step_requires(steps@.subrange(0, i as int), t),
            forall|a: int, b: int| 0 <= a < b < resources@.len() ==> resources@[a]@ != resources@[b]@,
        decreases steps@.len() - i,
    {
        proof {
            lemma_total_prefix(steps@, i as int + 1);
            assert(steps@.subrange(0, i + 1).drop_last() =~= steps@.subrange(0, i as int));
        }
        total = total + steps[i].estimated_duration_secs;
        let tools = &steps[i].required_tools;
        let ghost before = resources@;
        let mut k: usize = 0;
        while k < tools.len()
            invariant
                i < steps@.len(),
                k <= tools@.len(),
                *tools == steps@[i as int].required_tools,
                forall|t: Seq<char>| names_contain(resources@, t) <==> (names_contain(before, t)
                    || names_contain(tools@.subrange(0, k as int), t)),
                forall|a: int, b: int| 0 <= a < b < resources@.len() ==> resources@[a]@ != resources@[b]@,
            decreases tools@.len() - k,
        {
            let ghost prev = resources@;
            let ghost kk = k as int;
            if !list_contains(&resources, tools[k].as_str()) {
                resources.push(tools[k].clone());
            }
            k = k + 1;
            proof {
                assert forall|t: Seq<char>| names_contain(resources@, t) <==> (names_contain(before, t)
                    || names_contain(tools@.subrange(0, k as int), t)) by {
                    lemma_prefix_step(tools@, kk, t);
                    assert(names_contain(prev, t) <==> (names_contain(before, t)
                        || names_contain(tools@.subrange(0, kk), t)));
                    if resources@.len() == prev.len() + 1 {
                        assert(resources@ == prev.push(tools@[kk]));
                        lemma_push_contains(prev, tools@[kk], t);
                    } else {
                        assert(resources@ == prev);
                        if tools@[kk]@ == t {
                            assert(names_contain(prev, tools@[kk]@));
                        }
                    }
                }
            }
        }
        let ghost ii = i as int;
        i = i + 1;
        proof {
            assert(tools@.subrange(0, tools@.len() as int) =~= tools@);
            let pre = steps@.subrange(0, ii);
            let post = steps@.subrange(0, i as int);
            assert forall|t: Seq<char>| names_contain(resources@, t) <==> some_step_requires(post, t) by {
                assert(names_contain(before, t) <==> some_step_requires(pre, t));
                if some_step_requires(post, t) {
                    let w = choose|w: int| 0 <= w < post.len() && names_contain(post[w].required_tools@, t);
                    if w < ii {
                        assert(pre[w] == post[w]);
                    } else {
                        assert(post[w] == steps@[ii]);
                    }
                }
                if some_step_requires(pre, t) {
                    let w = choose|w: int| 0 <= w < pre.len() && names_contain(pre[w].required_tools@, t);
                    assert(post[w] == pre[w]);
                }
                if names_contain(steps@[ii].required_tools@, t) {
                    assert(post[ii] == steps@[ii]);
                }
            }
        }
    }
    proof {
        assert(steps@.subrange(0, steps@.len() as int) =~= steps@);
    }
    let id = join("plan_", new_uuid().as_str());
    proof {
        reveal_strlit("plan_");
        assert(id@.subrange(0, 5) =~= "plan_"@);
    }
    ExecutionPlan {
        id,
        goal,
        steps,
        estimated_duration_secs: total,
        required_resources: resources,
        risk_factors: Vec::new(),
    }
}

/// A list with one more string names what the list named, and that string.
proof fn lemma_push_contains(v: Seq<String>, x: String, t: Seq<char>)
    ensures
        names_contain(v.push(x), t) <==> (names_contain(v, t) || x@ == t),
{
    let w = v.push(x);
    if names_contain(v, t) {
        let j = choose|j: int| 0 <= j < v.len() && v[j]@ == t;
        assert(w[j] == v[j]);
    }
    if x@ == t {
        assert(w[v.len() as int] == x);
    }
    if names_contain(w, t) {
        let j = choose|j: int| 0 <= j < w.len() && w[j]@ == t;
        if j < v.len() {
            assert(w[j] == v[j]);
        }
    }
}

/// A prefix one longer names what the shorter prefix named, and the next string.
proof fn lemma_prefix_step(v: Seq<String>, k: int, t: Seq<char>)
    requires
        0 <= k < v.len(),
    ensures
        names_contain(v.subrange(0, k + 1), t) <==> (names_contain(v.subrange(0, k), t) || v[k]@ == t),
{
    assert(v.subrange(0, k + 1) =~= v.subrange(0, k).push(v[k]));
    lemma_push_contains(v.subrange(0, k), v[k], t);
}

/// A prefix's total duration is at most the whole total.
proof fn lemma_total_prefix(steps: Seq<PlanStep>, n: int)
    requires
        0 <= n <= steps.len(),
    ensures
        total_duration(steps.subrange(0, n)) <= total_duration(steps),
    decreases steps.len() - n,
{
    if n < steps.len() {
        lemma_total_prefix(steps, n + 1);
        assert(steps.subrange(0, n + 1).drop_last() =~= steps.subrange(0, n));
    } else {
        assert(steps.subrange(0, n) =~= steps);
    }
}

/// The message of an invalid configuration.
pub open spec fn invalid_config(m: Seq<char>) -> Seq<char> {
    "Invalid cognitive configuration: "@ + m
}

/// Why a goal is invalid, if it is.
pub open spec fn goal_problem(g: Goal) -> Option<Seq<char>> {
    if blank(g.id@) {
        Some("Goal ID cannot be empty"@)
    } else if blank(g.description@) {
        Some("Goal description cannot be empty"@)
    } else if g.priority < 1 || g.priority > 10 {
        Some("Goal priority must be between 1 and 10"@)
    } else {
        None
    }
}

fn invalid(m: &str) -> (e: FlowError)
    ensures
        e matches FlowError::Context(t) && t@ == invalid_config(m@),
{
    let e = crate::cognitive::CognitiveError::InvalidConfig { message: String::from_str(m) };
    e.into_flow_error()
}

/// Validates a goal: its id and description must not be blank, and its
/// priority must lie between 1 and 10.
pub fn validate_goal(goal: &Goal) -> (r: Result<(), FlowError>)
    ensures
        goal_problem(*goal) is None <==> r is Ok,
        goal_problem(*goal) matches Some(m) ==> (r matches Err(FlowError::Context(t)) && t@ == invalid_config(m)),
{
    if is_blank(goal.id.as_str()) {
        return Err(invalid("Goal ID cannot be empty"));
    }
    if is_blank(goal.description.as_str()) {
        return Err(invalid("Goal description cannot be empty"));
    }
    if goal.priority < 1 || goal.priority > 10 {
        return Err(invalid("Goal priority must be between 1 and 10"));
    }
    Ok(())
}

/// The first step that depends on itself, if any.
pub open spec fn first_self_dependent(steps: Seq<PlanStep>) -> Option<int> {
    if exists|i: int| 0 <= i < steps.len() && names_contain(steps[i].dependencies@, steps[i].id@) {
        Some(choose|i: int| 0 <= i < steps.len() && names_contain(steps[i].dependencies@, steps[i].id@)
            && forall|j: int| 0 <= j < i ==> !names_contain(steps[j].dependencies@, steps[j].id@))
    } else {
        None
    }
}

/// Validate that an execution plan is well-formed: its goal is valid, it has
/// a step, and no step depends on itself.
pub fn validate_execution_plan(plan: &ExecutionPlan) -> (r: Result<(), FlowError>)
    ensures
        r is Ok <==> goal_problem(plan.goal) is None && plan.steps@.len() > 0
            && first_self_dependent(plan.steps@) is None,
        goal_problem(plan.goal) matches Some(m) ==> (r matches Err(FlowError::Context(t))
            && t@ == invalid_config(m)),
        goal_problem(plan.goal) is None && plan.steps@.len() == 0 ==> (r matches Err(FlowError::Context(t))
            && t@ == invalid_config("Execution plan must have at least one step"@)),
        goal_problem(plan.goal) is None && plan.steps@.len() > 0 && first_self_dependent(plan.steps@) is Some
            ==> (r matches Err(FlowError::Context(t)) && t@ == invalid_config("Step "@
            + plan.steps@[first_self_dependent(plan.steps@)->0].id@ + " has circular dependency on itself"@)),
{
    validate_goal(&plan.goal)?;
    if plan.steps.len() == 0 {
        return Err(invalid("Execution plan must have at least one step"));
    }
    let mut i: usize = 0;
    while i < plan.steps.len()
        invariant
            goal_problem(plan.goal) is None,
            plan.steps@.len() > 0,
            i <= plan.steps@.len(),
            forall|j: int| 0 <= j < i ==> !names_contain(plan.steps@[j].dependencies@, plan.steps@[j].id@),
        decreases plan.steps@.len() - i,
    {
        let step = &plan.steps[i];
        if list_contains(&step.dependencies, step.id.as_str()) {
            proof {
                let ss = plan.steps@;
                assert(names_contain(ss[i as int].dependencies@, ss[i as int].id@)
                    && forall|j: int| 0 <= j < i ==> !names_contain(ss[j].dependencies@, ss[j].id@));
                let q = first_self_dependent(ss)->0;
                assert(q == i) by {
                    if q > i {
                    }
                }
            }
            let m = join(join("Step ", step.id.as_str()).as_str(), " has circular dependency on itself");
            return Err(invalid(m.as_str()));
        }
        i = i + 1;
    }
    Ok(())
}

/// Every dependency of every step names a step of the list.
pub open spec fn dependencies_resolve(steps: Seq<PlanStep>) -> bool {
    forall|i: int, d: int| #![trigger steps[i].dependencies@[d]] 0 <= i < steps.len() && 0 <= d < steps[i].dependencies@.len()
        ==> step_named(steps, steps[i].dependencies@[d]@)
}

/// Some step has the id `t`.
pub open spec fn step_named(steps: Seq<PlanStep>, t: Seq<char>) -> bool {
    exists|k: int| 0 <= k < steps.len() && #[trigger] steps[k].id@ == t
}

/// Whether some step of the list has the id `t`.
fn has_step(steps: &Vec<PlanStep>, t: &str) -> (b: bool)
    ensures
        b == step_named(steps@, t@),
{
    let mut k: usize = 0;
    while k < steps.len()
        invariant
            k <= steps@.len(),
            forall|j: int| 0 <= j < k ==> steps@[j].id@ != t@,
        decreases steps@.len() - k,
    {
        if str_eq(steps[k].id.as_str(), t) {
            return true;
        }
        k = k + 1;
    }
    false
}

/// Validate that plan steps depend only on steps of the list. The error
/// names the first step, and its first dependency, that fails.
pub fn validate_step_dependencies(steps: &Vec<PlanStep>) -> (r: Result<(), FlowError>)
    ensures
        r is Ok <==> dependencies_resolve(steps@),
        r matches Err(e) ==> exists|i: int, d: int| 0 <= i < steps@.len() && 0 <= d < steps@[i].dependencies@.len()
            && !step_named(steps@, steps@[i].dependencies@[d]@)
            && (e matches FlowError::Context(t) && t@ == invalid_config("Step "@ + steps@[i].id@
            + " depends on non-existent step "@ + steps@[i].dependencies@[d]@)),
{
    let mut i: usize = 0;
    while i < steps.len()
        invariant
            i <= steps@.len(),
            forall|a: int, d: int| #![trigger steps@[a].dependencies@[d]] 0 <= a < i && 0 <= d < steps@[a].dependencies@.len()
                ==> step_named(steps@, steps@[a].dependencies@[d]@),
        decreases steps@.len() - i,
    {
        let deps = &steps[i].dependencies;
        let mut d: usize = 0;
        while d < deps.len()
            invariant
                i < steps@.len(),
                *deps == steps@[i as int].dependencies,
                d <= deps@.len(),
                forall|a: int, x: int| #![trigger steps@[a].dependencies@[x]] 0 <= a < i && 0 <= x < steps@[a].dependencies@.len()
                    ==> step_named(steps@, steps@[a].dependencies@[x]@),
                forall|x: int| #![trigger steps@[i as int].dependencies@[x]] 0 <= x < d
                    ==> step_named(steps@, steps@[i as int].dependencies@[x]@),
            decreases deps@.len() - d,
        {
            if !has_step(steps, deps[d].as_str()) {
                let m = join(
                    join(join("Step ", steps[i].id.as_str()).as_str(), " depends on non-existent step ").as_str(),
                    deps[d].as_str(),
                );
                return Err(invalid(m.as_str()));
            }
            d = d + 1;
        }
        i = i + 1;
    }
    Ok(())
}


/// Whether `completed` of `total` steps is below `percent` per cent; an
/// empty plan counts as 0 per cent done.
pub open spec fn below_percent(completed: nat, total: nat, percent: nat) -> bool {
    total == 0 || completed * 100 < percent * total
}

/// The advice of an adaptive planner's progress review, in order: one line
/// when some steps are blocked, one when issues were met, one when less than
/// half of the plan is done.
pub open spec fn adaptive_advice(total: nat, completed: nat, blocked: nat, issues: nat) -> Seq<Seq<char>> {
    (if blocked > 0 { seq!["Consider alternative approaches for blocked steps"@] } else { Seq::empty() })
        + (if issues > 0 { seq!["Address identified issues before proceeding"@] } else { Seq::empty() })
        + (if below_percent(completed, total, 50) { seq!["Consider simplifying the approach"@] } else { Seq::empty() })
}

/// The advice of a hierarchical planner's progress review, in order: one line
/// when less than a quarter of the plan is done, one when it has more than
/// twenty steps.
pub open spec fn hierarchical_advice(total: nat, completed: nat) -> Seq<Seq<char>> {
    (if below_percent(completed, total, 25) { seq!["Consider simplifying the hierarchy"@] } else { Seq::empty() })
        + (if total > 20 { seq!["Plan may be too complex, consider higher-level abstraction"@] } else { Seq::empty() })
}

fn is_below_percent(completed: usize, total: usize, percent: u8) -> (b: bool)
    ensures
        b == below_percent(completed as nat, total as nat, percent as nat),
{
    let c: u128 = completed as u128;
    let t: u128 = total as u128;
    let p: u128 = percent as u128;
    assert(c * 100 <= u64::MAX as int * 100);
    assert(p * t <= 255 * u64::MAX as int) by (nonlinear_arith)
        requires
            p <= 255,
            t <= u64::MAX,
    ;
    total == 0 || c * 100 < p * t
}

/// The recommendations an adaptive planner gives for a plan of `total_steps`
/// steps, of which `completed_count` are done, with `blocked_count` blocked
/// steps and `issue_count` issues met so far.
pub fn adaptive_recommendations(total_steps: usize, completed_count: usize, blocked_count: usize, issue_count: usize) -> (r: Vec<String>)
    ensures
        string_views(r@) == adaptive_advice(total_steps as nat, completed_count as nat, blocked_count as nat, issue_count as nat),
{
    let mut r: Vec<String> = Vec::new();
    if blocked_count > 0 {
        r.push(String::from_str("Consider alternative approaches for blocked steps"));
    }
    let ghost first = string_views(r@);
    if issue_count > 0 {
        r.push(String::from_str("Address identified issues before proceeding"));
    }
    let ghost second = string_views(r@);
    if is_below_percent(completed_count, total_steps, 50) {
        r.push(String::from_str("Consider simplifying the approach"));
    }
    proof {
        let a = if blocked_count > 0 { seq!["Consider alternative approaches for blocked steps"@] } else { Seq::<Seq<char>>::empty() };
        let b = if issue_count > 0 { seq!["Address identified issues before proceeding"@] } else { Seq::<Seq<char>>::empty() };
        let c = if below_percent(completed_count as nat, total_steps as nat, 50) { seq!["Consider simplifying the approach"@] } else { Seq::<Seq<char>>::empty() };
        assert(first =~= a);
        assert(second =~= a + b);
        assert(string_views(r@) =~= a + b + c);
    }
    r
}

/// The recommendations a hierarchical planner gives for a plan of
/// `total_steps` steps, of which `completed_count` are done.
pub fn hierarchical_recommendations(total_steps: usize, completed_count: usize) -> (r: Vec<String>)
    ensures
        string_views(r@) == hierarchical_advice(total_steps as nat, completed_count as nat),
{
    let mut r: Vec<String> = Vec::new();
    if is_below_percent(completed_count, total_steps, 25) {
        r.push(String::from_str("Consider simplifying the hierarchy"));
    }
    let ghost first = string_views(r@);
    if total_steps > 20 {
        r.push(String::from_str("Plan may be too complex, consider higher-level abstraction"));
    }
    proof {
        let a = if below_percent(completed_count as nat, total_steps as nat, 25) { seq!["Consider simplifying the hierarchy"@] } else { Seq::<Seq<char>>::empty() };
        let b = if total_steps > 20 { seq!["Plan may be too complex, consider higher-level abstraction"@] } else { Seq::<Seq<char>>::empty() };
        assert(first =~= a);
        assert(string_views(r@) =~= a + b);
    }
    r
}

} // verus!
