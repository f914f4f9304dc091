//! Plan execution: each step of an execution plan becomes a tool call, with
//! per-step retry, backoff, success criteria and stop-on-error policies.
//!
//! The tool calls and the waits are the caller's work; the executor decides
//! what comes next from each outcome.

use vstd::prelude::*;
use vstd::string::*;

use crate::error::FlowError;
use crate::json::{
    bool_of, json_equal, json_same, lemma_models_index, member, model, models, opt_model, parse_json, parsed_json,
    pointer, pointer_target, text_of, JsonModel, JsonValue,
};
use crate::planning::{ExecutionPlan, PlanStep};
use crate::state::FlowState;
use crate::text::{occurs_at, occurs_in, str_contains};

verus! {

/// Whether a pattern matches a text, as `regex` decides; `None` when the
/// pattern does not compile.
pub uninterp spec fn regex_verdict(pattern: Seq<char>, text: Seq<char>) -> Option<bool>;

/// `regex::Regex::new(pattern)` and, when it compiles, `Regex::is_match(text)`.
#[verifier::external_body]
fn regex_check(pattern: &str, text: &str) -> (r: Option<bool>)
    ensures
        r == regex_verdict(pattern@, text@),
{
    regex::Regex::new(pattern).ok().map(|re| re.is_match(text))
}

/// The text of a tool output: the string it is, or nothing.
pub open spec fn output_text(output: JsonValue) -> Seq<char> {
    match text_of(output) {
        Some(t) => t,
        None => Seq::empty(),
    }
}

/// The JSON a tool output holds: a string parsed as JSON, or an object or
/// array as it is.
pub open spec fn output_json(output: JsonValue) -> Option<JsonModel> {
    match output {
        JsonValue::String(s) => parsed_json(s@),
        JsonValue::Object(_) => Some(model(output)),
        JsonValue::Array(_) => Some(model(output)),
        _ => None,
    }
}

/// Some string element of an array contains `sub`.
pub open spec fn some_element_contains(items: Seq<JsonModel>, sub: Seq<char>) -> bool {
    exists|i: int| 0 <= i < items.len() && element_contains(#[trigger] items[i], sub)
}

/// A value is a string that contains `sub`.
pub open spec fn element_contains(item: JsonModel, sub: Seq<char>) -> bool {
    item matches JsonModel::String(t) && occurs_in(t, sub)
}

/// What a pointer criterion says of the value the pointer found.
pub open spec fn pointer_check(crit: JsonValue, target: Option<JsonModel>) -> bool {
    if member(crit, "equals"@) is Some {
        target matches Some(t) && json_same(t, model(member(crit, "equals"@)->0))
    } else if bool_of_member(crit, "exists"@) == Some(true) {
        target is Some
    } else if text_member(crit, "contains"@) is Some {
        let sub = text_member(crit, "contains"@)->0;
        match target {
            Some(JsonModel::String(s)) => occurs_in(s, sub),
            Some(JsonModel::Array(items)) => some_element_contains(items, sub),
            _ => false,
        }
    } else {
        target is Some
    }
}

/// The text of a member, when it is a string.
pub open spec fn text_member(v: JsonValue, key: Seq<char>) -> Option<Seq<char>> {
    match member(v, key) {
        Some(m) => text_of(m),
        None => None,
    }
}

/// The value of a member, when it is a boolean.
pub open spec fn bool_of_member(v: JsonValue, key: Seq<char>) -> Option<bool> {
    match member(v, key) {
        Some(m) => bool_of(m),
        None => None,
    }
}

/// Whether one success criterion holds of an output's text and JSON.
pub open spec fn criterion_holds(crit: JsonValue, text: Seq<char>, json: Option<JsonModel>) -> bool {
    match text_of(crit) {
        Some(s) => occurs_in(text, s),
        None => if text_member(crit, "regex"@) is Some {
            regex_verdict(text_member(crit, "regex"@)->0, text) == Some(true)
        } else if text_member(crit, "json_pointer"@) is Some {
            match json {
                Some(j) => pointer_check(crit, pointer_target(j, text_member(crit, "json_pointer"@)->0)),
                None => false,
            }
        } else {
            false
        },
    }
}

/// Whether every criterion holds of an output.
pub open spec fn criteria_hold(criteria: Seq<JsonValue>, output: JsonValue) -> bool {
    forall|i: int| 0 <= i < criteria.len() ==> criterion_holds(criteria[i], output_text(output), output_json(output))
}

fn text_member_of<'a>(v: &'a JsonValue, key: &str) -> (r: Option<&'a String>)
    ensures
        match r {
            Some(s) => text_member(*v, key@) == Some(s@),
            None => text_member(*v, key@) is None,
        },
{
    match v.get(key) {
        Some(m) => m.as_str(),
        None => None,
    }
}

/// Whether a pointer criterion holds of the value the pointer found.
#[verifier::rlimit(60)]
fn check_pointer(crit: &JsonValue, target: &Option<JsonValue>) -> (b: bool)
    ensures
        b == pointer_check(*crit, opt_model(*target)),
{
    if let Some(expected) = crit.get("equals") {
        return match target {
            Some(t) => json_equal(t, expected),
            None => false,
        };
    }
    let exists_flag = match crit.get("exists") {
        Some(m) => m.as_bool(),
        None => None,
    };
    if exists_flag == Some(true) {
        return target.is_some();
    }
    match text_member_of(crit, "contains") {
        Some(sub) => match target {
            Some(JsonValue::String(s)) => str_contains(s.as_str(), sub.as_str()),
            Some(JsonValue::Array(items)) => some_string_contains(items, sub.as_str()),
            _ => false,
        },
        None => target.is_some(),
    }
}

/// Whether some string element of a list contains `sub`.
fn some_string_contains(items: &Vec<JsonValue>, sub: &str) -> (b: bool)
    ensures
        b == some_element_contains(models(items@), sub@),
{
    proof {
        crate::json::lemma_models_len(items@);
    }
    let mut i: usize = 0;
    while i < items.len()
        invariant
            models(items@).len() == items@.len(),
            i <= items@.len(),
            forall|j: int| 0 <= j < i ==> !element_contains(models(items@)[j], sub@),
        decreases items@.len() - i,
    {
        proof {
            lemma_models_index(items@, i as int);
        }
        if let Some(t) = items[i].as_str() {
            if str_contains(t.as_str(), sub) {
                assert(element_contains(models(items@)[i as int], sub@));
                return true;
            }
        }
        i = i + 1;
    }
    false
}

/// Whether one criterion holds of an output's text and JSON.
pub fn criterion_met(crit: &JsonValue, text: &str, json: Option<&JsonValue>) -> (b: bool)
    ensures
        b == criterion_holds(*crit, text@, match json { Some(j) => Some(model(*j)), None => None }),
{
    if let Some(s) = crit.as_str() {
        return str_contains(text, s.as_str());
    }
    if let Some(p) = text_member_of(crit, "regex") {
        return regex_check(p.as_str(), text) == Some(true);
    }
    if let Some(ptr) = text_member_of(crit, "json_pointer") {
        return match json {
            Some(j) => {
                let target = pointer(j, ptr.as_str());
                check_pointer(crit, &target)
            },
            None => false,
        };
    }
    false
}

/// Whether every success criterion holds of a tool output.
pub fn criteria_met(criteria: &Vec<JsonValue>, output: &JsonValue) -> (b: bool)
    ensures
        b == criteria_hold(criteria@, *output),
{
    let text: &str = match output.as_str() {
        Some(s) => s.as_str(),
        None => "",
    };
    proof {
        reveal_strlit("");
    }
    let parsed: Option<JsonValue> = match output {
        JsonValue::String(s) => parse_json(s.as_str()),
        _ => None,
    };
    let json: Option<&JsonValue> = match output {
        JsonValue::String(_) => parsed.as_ref(),
        JsonValue::Object(_) | JsonValue::Array(_) => Some(output),
        _ => None,
    };
    let mut i: usize = 0;
    while i < criteria.len()
        invariant
            i <= criteria@.len(),
            text@ == output_text(*output),
            (match json { Some(j) => Some(model(*j)), None => None }) == output_json(*output),
            forall|j: int| 0 <= j < i ==> criterion_holds(criteria@[j], output_text(*output), output_json(*output)),
        decreases criteria@.len() - i,
    {
        if !criterion_met(&criteria[i], text, json) {
            return false;
        }
        i = i + 1;
    }
    true
}


/// How the executor treats steps unless a step says otherwise.
#[derive(Debug, Clone)]
pub struct ExecutorSettings {
    pub tool_name: String,
    pub stop_on_error: bool,
    pub max_retries: usize,
    pub initial_backoff_ms: u64,
    pub enforce_success_criteria: bool,
}

/// The policy that applies to one step: the step's overrides, else the
/// executor's settings.
#[derive(Debug, Clone, Copy)]
pub struct StepPolicy {
    pub enforce: bool,
    pub max_retries: usize,
    pub initial_backoff_ms: u64,
    pub stop_on_error: bool,
}

/// The policy for a step under some settings.
pub open spec fn policy_for(settings: ExecutorSettings, step: PlanStep) -> StepPolicy {
    StepPolicy {
        enforce: match step.enforce_success_criteria { Some(b) => b, None => settings.enforce_success_criteria },
        max_retries: match step.max_retries { Some(n) => n, None => settings.max_retries },
        initial_backoff_ms: match step.initial_backoff_ms { Some(n) => n, None => settings.initial_backoff_ms },
        stop_on_error: match step.stop_on_error { Some(b) => b, None => settings.stop_on_error },
    }
}

/// `initial` doubled `e` times.
pub open spec fn doubled(initial: nat, e: nat) -> nat
    decreases e,
{
    if e == 0 { initial } else { 2 * doubled(initial, (e - 1) as nat) }
}

/// The wait before retry number `attempt` (counting from 1) fits the
/// arithmetic: the shift is below 64 and the product fits in a `u64`.
pub open spec fn backoff_fits(initial: u64, attempt: nat) -> bool {
    attempt >= 1 && attempt - 1 < 64 && doubled(initial as nat, (attempt - 1) as nat) <= u64::MAX
}

/// The progress of an execution of a plan.
pub struct PlanRun {
    /// The position of the step being executed.
    pub step: usize,
    /// The failed attempts at the current step.
    pub attempt: usize,
    /// One result object per finished step.
    pub results: Vec<JsonValue>,
    /// The ids of the steps that succeeded.
    pub completed: Vec<String>,
    /// The error of the last step that failed, if one did.
    pub last_step_error: Option<String>,
}

/// What the executor asks its caller to do next.
pub enum ExecAction<S> {
    /// Call the tool for the step at this position.
    CallTool { step: usize },
    /// Wait this many milliseconds, then call the tool for the same step again.
    Wait { ms: u64 },
    /// The execution is over in this state; `completed_all` when every step was processed.
    Finish { state: S, completed_all: bool },
}

/// A string member of an object.
pub open spec fn string_member(m: (String, JsonValue), key: Seq<char>, text: Seq<char>) -> bool {
    m.0@ == key && text_of(m.1) == Some(text)
}

/// The result object of a step whose tool call succeeded.
pub open spec fn is_ok_result(r: JsonValue, id: Seq<char>, output: JsonValue) -> bool {
    r matches JsonValue::Object(ms) && ms@.len() == 3 && ms@[0].0@ == "output"@ && ms@[0].1 == output
        && string_member(ms@[1], "status"@, "ok"@) && string_member(ms@[2], "step_id"@, id)
}

/// The result object of a step whose output missed its success criteria.
pub open spec fn is_criteria_failure(r: JsonValue, id: Seq<char>, output: JsonValue) -> bool {
    r matches JsonValue::Object(ms) && ms@.len() == 4
        && string_member(ms@[0], "error"@, "success criteria not met"@) && ms@[1].0@ == "output"@
        && ms@[1].1 == output && string_member(ms@[2], "status"@, "error"@)
        && string_member(ms@[3], "step_id"@, id)
}

/// The result object of a step whose tool call kept failing.
pub open spec fn is_call_failure(r: JsonValue, id: Seq<char>, error: Seq<char>) -> bool {
    r matches JsonValue::Object(ms) && ms@.len() == 3 && string_member(ms@[0], "error"@, error)
        && string_member(ms@[1], "status"@, "error"@) && string_member(ms@[2], "step_id"@, id)
}

fn text_value(s: &str) -> (v: JsonValue)
    ensures
        text_of(v) == Some(s@),
{
    JsonValue::String(String::from_str(s))
}

fn ok_result(id: &String, output: JsonValue) -> (r: JsonValue)
    ensures
        is_ok_result(r, id@, output),
{
    let mut ms: Vec<(String, JsonValue)> = Vec::new();
    ms.push((String::from_str("output"), output));
    ms.push((String::from_str("status"), text_value("ok")));
    ms.push((String::from_str("step_id"), JsonValue::String(id.clone())));
    JsonValue::Object(ms)
}

fn criteria_failure(id: &String, output: JsonValue) -> (r: JsonValue)
    ensures
        is_criteria_failure(r, id@, output),
{
    let mut ms: Vec<(String, JsonValue)> = Vec::new();
    ms.push((String::from_str("error"), text_value("success criteria not met")));
    ms.push((String::from_str("output"), output));
    ms.push((String::from_str("status"), text_value("error")));
    ms.push((String::from_str("step_id"), JsonValue::String(id.clone())));
    JsonValue::Object(ms)
}

fn call_failure(id: &String, error: &String) -> (r: JsonValue)
    ensures
        is_call_failure(r, id@, error@),
{
    let mut ms: Vec<(String, JsonValue)> = Vec::new();
    ms.push((String::from_str("error"), JsonValue::String(error.clone())));
    ms.push((String::from_str("status"), text_value("error")));
    ms.push((String::from_str("step_id"), JsonValue::String(id.clone())));
    JsonValue::Object(ms)
}

/// The arguments of the tool call for a step: the step's id, description
/// and required tools, and a JSON snapshot of the context.
pub fn tool_arguments(step: &PlanStep, context: JsonValue) -> (args: JsonValue)
    ensures
        args matches JsonValue::Object(ms) && ms@.len() == 4 && ms@[0].0@ == "context"@ && ms@[0].1 == context
            && string_member(ms@[1], "description"@, step.description@) && ms@[2].0@ == "required_tools"@
            && (ms@[2].1 matches JsonValue::Array(tools) && tools@.len() == step.required_tools@.len()
                && forall|i: int| 0 <= i < tools@.len() ==> text_of(#[trigger] tools@[i]) == Some(step.required_tools@[i]@))
            && string_member(ms@[3], "step_id"@, step.id@),
{
    let mut tools: Vec<JsonValue> = Vec::new();
    let mut i: usize = 0;
    while i < step.required_tools.len()
        invariant
            i <= step.required_tools@.len(),
            tools@.len() == i,
            forall|j: int| 0 <= j < i ==> text_of(#[trigger] tools@[j]) == Some(step.required_tools@[j]@),
        decreases step.required_tools@.len() - i,
    {
        tools.push(JsonValue::String(step.required_tools[i].clone()));
        i = i + 1;
    }
    let mut ms: Vec<(String, JsonValue)> = Vec::new();
    ms.push((String::from_str("context"), context));
    ms.push((String::from_str("description"), JsonValue::String(step.description.clone())));
    ms.push((String::from_str("required_tools"), JsonValue::Array(tools)));
    ms.push((String::from_str("step_id"), JsonValue::String(step.id.clone())));
    JsonValue::Object(ms)
}

/// Executes each step of an execution plan by invoking a configured tool
/// through a client (`Cl`).
pub struct PlanExecutionNode<S, Cl> {
    name: String,
    client: Cl,
    settings: ExecutorSettings,
    success_state: S,
    error_state: S,
}

impl<S: FlowState, Cl> PlanExecutionNode<S, Cl> {
    pub closed spec fn settings_view(&self) -> ExecutorSettings {
        self.settings
    }

    pub closed spec fn success(&self) -> S {
        self.success_state
    }

    pub closed spec fn failure(&self) -> S {
        self.error_state
    }

    pub closed spec fn name_view(&self) -> Seq<char> {
        self.name@
    }

    pub closed spec fn client_view(&self) -> Cl {
        self.client
    }

    /// Create a new builder.
    pub fn builder() -> (b: PlanExecutionNodeBuilder<S, Cl>)
        ensures
            b.default_settings(),
    {
        PlanExecutionNodeBuilder::new()
    }

    pub fn name(&self) -> (s: &str)
        ensures
            s@ == self.name_view(),
    {
        self.name.as_str()
    }

    /// The client that calls the tool.
    pub fn client(&self) -> (c: &Cl)
        ensures
            *c == self.client_view(),
    {
        &self.client
    }

    /// The state an execution ends in when the context holds no plan: the
    /// failure state.
    pub fn missing_plan_state(&self) -> (s: S)
        ensures
            s@ == self.failure()@,
    {
        self.error_state.clone_state()
    }

    /// The settings of the executor.
    pub fn settings(&self) -> (s: &ExecutorSettings)
        ensures
            *s == self.settings_view(),
    {
        &self.settings
    }

    /// The policy for a step: its overrides, else the executor's settings.
    pub fn step_policy(&self, step: &PlanStep) -> (p: StepPolicy)
        ensures
            p == policy_for(self.settings_view(), *step),
    {
        StepPolicy {
            enforce: match step.enforce_success_criteria {
                Some(b) => b,
                None => self.settings.enforce_success_criteria,
            },
            max_retries: match step.max_retries {
                Some(n) => n,
                None => self.settings.max_retries,
            },
            initial_backoff_ms: match step.initial_backoff_ms {
                Some(n) => n,
                None => self.settings.initial_backoff_ms,
            },
            stop_on_error: match step.stop_on_error {
                Some(b) => b,
                None => self.settings.stop_on_error,
            },
        }
    }

    /// Begin executing a plan, with the results and completed steps the
    /// context already holds.
    pub fn begin(&self, results: Vec<JsonValue>, completed: Vec<String>) -> (run: PlanRun)
        ensures
            run.step == 0,
            run.attempt == 0,
            run.results == results,
            run.completed == completed,
            run.last_step_error is None,
    {
        PlanRun { step: 0, attempt: 0, results, completed, last_step_error: None }
    }

    /// What comes next: the tool call for the current step, or, past the last
    /// step, success.
    pub fn next_action(&self, plan: &ExecutionPlan, run: &PlanRun) -> (a: ExecAction<S>)
        ensures
            run.step < plan.steps@.len() ==> a == (ExecAction::<S>::CallTool { step: run.step }),
            run.step >= plan.steps@.len() ==> (a matches ExecAction::Finish { state, completed_all }
                && state@ == self.success()@ && completed_all),
    {
        if run.step < plan.steps.len() {
            ExecAction::CallTool { step: run.step }
        } else {
            ExecAction::Finish { state: self.success_state.clone_state(), completed_all: true }
        }
    }

    /// Take back a tool output for the current step. When the step's policy
    /// enforces its success criteria and the output misses them, the step
    /// fails: its failure is recorded, and the execution stops in the error
    /// state if the policy says so. Otherwise the step succeeds and is
    /// recorded as completed. Either way, unless stopped, the next step follows.
    pub fn tool_returned(&self, plan: &ExecutionPlan, run: &mut PlanRun, output: JsonValue) -> (a: ExecAction<S>)
        requires
            old(run).step < plan.steps@.len(),
        ensures
            ({
                let step = plan.steps@[old(run).step as int];
                let pol = policy_for(self.settings_view(), step);
                let missed = pol.enforce && !criteria_hold(step.success_criteria@, output);
                &&& final(run).results@.len() == old(run).results@.len() + 1
                &&& final(run).results@.drop_last() == old(run).results@
                &&& missed ==> is_criteria_failure(final(run).results@.last(), step.id@, output)
                    && final(run).completed == old(run).completed
                    && final(run).last_step_error is Some
                    && final(run).last_step_error->0@ == "success criteria not met"@
                &&& !missed ==> is_ok_result(final(run).results@.last(), step.id@, output)
                    && final(run).completed@.len() == old(run).completed@.len() + 1
                    && final(run).completed@.drop_last() == old(run).completed@
                    && final(run).completed@.last()@ == step.id@
                    && final(run).last_step_error == old(run).last_step_error
                &&& missed && pol.stop_on_error ==> (a matches ExecAction::Finish { state, completed_all }
                    && state@ == self.failure()@ && !completed_all) && final(run).step == old(run).step
                &&& !(missed && pol.stop_on_error) ==> final(run).step == old(run).step + 1 && final(run).attempt == 0
                    && (final(run).step < plan.steps@.len() ==> a == (ExecAction::<S>::CallTool { step: final(run).step }))
                    && (final(run).step >= plan.steps@.len() ==> (a matches ExecAction::Finish { state, completed_all }
                        && state@ == self.success()@ && completed_all))
            }),
    {
        let n = plan.steps.len();
        let step = &plan.steps[run.step];
        let pol = self.step_policy(step);
        let missed = pol.enforce && !criteria_met(&step.success_criteria, &output);
        let ghost old_results = run.results@;
        let ghost old_completed = run.completed@;
        if missed {
            run.results.push(criteria_failure(&step.id, output));
            run.last_step_error = Some(String::from_str("success criteria not met"));
            proof {
                assert(run.results@.drop_last() =~= old_results);
            }
            if pol.stop_on_error {
                return ExecAction::Finish { state: self.error_state.clone_state(), completed_all: false };
            }
        } else {
            run.results.push(ok_result(&step.id, output));
            run.completed.push(step.id.clone());
            proof {
                assert(run.results@.drop_last() =~= old_results);
                assert(run.completed@.drop_last() =~= old_completed);
            }
        }
        run.step = run.step + 1;
        run.attempt = 0;
        self.next_action(plan, run)
    }

    /// Whether the wait before the next retry of the current step would
    /// overflow its arithmetic.
    pub fn retry_would_overflow(&self, plan: &ExecutionPlan, run: &PlanRun) -> (b: bool)
        requires
            run.step < plan.steps@.len(),
            run.attempt < usize::MAX,
        ensures
            b == (run.attempt + 1 <= policy_for(self.settings_view(), plan.steps@[run.step as int]).max_retries
                && !backoff_fits(policy_for(self.settings_view(), plan.steps@[run.step as int]).initial_backoff_ms,
                (run.attempt + 1) as nat)),
    {
        let pol = self.step_policy(&plan.steps[run.step]);
        let attempt = run.attempt + 1;
        if attempt > pol.max_retries {
            return false;
        }
        backoff_ms(pol.initial_backoff_ms, attempt).is_none()
    }

    /// Take back a failed tool call for the current step. Within the step's
    /// retry budget the caller waits, then calls again; the wait doubles with
    /// each attempt. Past the budget the step fails with the call's error,
    /// and the execution stops in the error state if the policy says so;
    /// otherwise the next step follows.
    pub fn tool_failed(&self, plan: &ExecutionPlan, run: &mut PlanRun, error: String) -> (a: ExecAction<S>)
        requires
            old(run).step < plan.steps@.len(),
            old(run).attempt < usize::MAX,
            ({
                let pol = policy_for(self.settings_view(), plan.steps@[old(run).step as int]);
                old(run).attempt + 1 <= pol.max_retries ==> backoff_fits(pol.initial_backoff_ms,
                    (old(run).attempt + 1) as nat)
            }),
        ensures
            ({
                let step = plan.steps@[old(run).step as int];
                let pol = policy_for(self.settings_view(), step);
                let attempt = old(run).attempt + 1;
                &&& attempt <= pol.max_retries ==> a == (ExecAction::<S>::Wait {
                    ms: doubled(pol.initial_backoff_ms as nat, (attempt - 1) as nat) as u64,
                }) && final(run).attempt == attempt && final(run).step == old(run).step
                    && final(run).results == old(run).results && final(run).completed == old(run).completed
                    && final(run).last_step_error == old(run).last_step_error
                &&& attempt > pol.max_retries ==> final(run).results@.len() == old(run).results@.len() + 1
                    && final(run).results@.drop_last() == old(run).results@
                    && is_call_failure(final(run).results@.last(), step.id@, error@)
                    && final(run).completed == old(run).completed
                    && final(run).last_step_error == Some(error)
                &&& attempt > pol.max_retries && pol.stop_on_error ==> (a matches ExecAction::Finish {
                    state, completed_all } && state@ == self.failure()@ && !completed_all)
                    && final(run).step == old(run).step
                &&& attempt > pol.max_retries && !pol.stop_on_error ==> final(run).step == old(run).step + 1
                    && final(run).attempt == 0
                    && (final(run).step < plan.steps@.len() ==> a == (ExecAction::<S>::CallTool { step: final(run).step }))
                    && (final(run).step >= plan.steps@.len() ==> (a matches ExecAction::Finish { state, completed_all }
                        && state@ == self.success()@ && completed_all))
            }),
    {
        let n = plan.steps.len();
        let step = &plan.steps[run.step];
        let pol = self.step_policy(step);
        run.attempt = run.attempt + 1;
        if run.attempt > pol.max_retries {
            let ghost old_results = run.results@;
            run.results.push(call_failure(&step.id, &error));
            proof {
                assert(run.results@.drop_last() =~= old_results);
            }
            run.last_step_error = Some(error);
            if pol.stop_on_error {
                return ExecAction::Finish { state: self.error_state.clone_state(), completed_all: false };
            }
            run.step = run.step + 1;
            run.attempt = 0;
            self.next_action(plan, run)
        } else {
            match backoff_ms(pol.initial_backoff_ms, run.attempt) {
                Some(ms) => ExecAction::Wait { ms },
                None => ExecAction::Wait { ms: 0 },
            }
        }
    }
}

/// The wait before retry number `attempt`: the initial backoff doubled
/// `attempt - 1` times, when that fits the arithmetic.
pub fn backoff_ms(initial: u64, attempt: usize) -> (r: Option<u64>)
    requires
        attempt >= 1,
    ensures
        backoff_fits(initial, attempt as nat) <==> r is Some,
        r matches Some(ms) ==> ms == doubled(initial as nat, (attempt - 1) as nat),
{
    let shift = attempt - 1;
    if shift >= 64 {
        return None;
    }
    let mut value: u64 = initial;
    let mut i: usize = 0;
    while i < shift
        invariant
            attempt >= 1,
            shift == attempt - 1,
            shift < 64,
            i <= shift,
            value == doubled(initial as nat, i as nat),
        decreases shift - i,
    {
        if value > u64::MAX / 2 {
            proof {
                assert(doubled(initial as nat, (i + 1) as nat) == 2 * value);
                assert(2 * value > u64::MAX);
                lemma_doubled_grows(initial as nat, (i + 1) as nat, shift as nat);
                assert(doubled(initial as nat, shift as nat) > u64::MAX);
            }
            return None;
        }
        value = value * 2;
        i = i + 1;
    }
    Some(value)
}

/// Doubling more times never gives less.
proof fn lemma_doubled_grows(initial: nat, a: nat, b: nat)
    requires
        a <= b,
    ensures
        doubled(initial, a) <= doubled(initial, b),
    decreases b - a,
{
    if a < b {
        lemma_doubled_grows(initial, a, (b - 1) as nat);
    }
}

/// Builder for PlanExecutionNode.
pub struct PlanExecutionNodeBuilder<S, Cl> {
    name: Option<String>,
    client: Option<Cl>,
    settings: ExecutorSettings,
    success_state: Option<S>,
    error_state: Option<S>,
}

impl<S: FlowState, Cl> PlanExecutionNodeBuilder<S, Cl> {
    pub closed spec fn name_view(&self) -> Option<String> {
        self.name
    }

    pub closed spec fn client_view(&self) -> Option<Cl> {
        self.client
    }

    pub closed spec fn settings_view(&self) -> ExecutorSettings {
        self.settings
    }

    pub closed spec fn success(&self) -> Option<S> {
        self.success_state
    }

    pub closed spec fn failure(&self) -> Option<S> {
        self.error_state
    }

    /// Nothing set, and the default settings: the tool "execute_step", stop
    /// on error, two retries from 200 ms, criteria not enforced.
    pub open spec fn default_settings(&self) -> bool {
        &&& self.name_view() is None
        &&& self.client_view() is None
        &&& self.success() is None
        &&& self.failure() is None
        &&& self.settings_view().tool_name@ == "execute_step"@
        &&& self.settings_view().stop_on_error
        &&& self.settings_view().max_retries == 2
        &&& self.settings_view().initial_backoff_ms == 200
        &&& !self.settings_view().enforce_success_criteria
    }

    pub fn new() -> (b: Self)
        ensures
            b.default_settings(),
    {
        PlanExecutionNodeBuilder {
            name: None,
            client: None,
            settings: ExecutorSettings {
                tool_name: String::from_str("execute_step"),
                stop_on_error: true,
                max_retries: 2,
                initial_backoff_ms: 200,
                enforce_success_criteria: false,
            },
            success_state: None,
            error_state: None,
        }
    }

    pub fn name(self, name: &str) -> (b: Self)
        ensures
            b.name_view() matches Some(n) && n@ == name@,
            b.client_view() == self.client_view(),
            b.settings_view() == self.settings_view(),
            b.success() == self.success(),
            b.failure() == self.failure(),
    {
        PlanExecutionNodeBuilder { name: Some(String::from_str(name)), ..self }
    }

    pub fn with_mcp_client(self, client: Cl) -> (b: Self)
        ensures
            b.client_view() == Some(client),
            b.name_view() == self.name_view(),
            b.settings_view() == self.settings_view(),
            b.success() == self.success(),
            b.failure() == self.failure(),
    {
        PlanExecutionNodeBuilder { client: Some(client), ..self }
    }

    pub fn tool_name(self, tool: &str) -> (b: Self)
        ensures
            b.settings_view().tool_name@ == tool@,
            b.settings_view().stop_on_error == self.settings_view().stop_on_error,
            b.settings_view().max_retries == self.settings_view().max_retries,
            b.settings_view().initial_backoff_ms == self.settings_view().initial_backoff_ms,
            b.settings_view().enforce_success_criteria == self.settings_view().enforce_success_criteria,
            b.name_view() == self.name_view(),
            b.client_view() == self.client_view(),
            b.success() == self.success(),
            b.failure() == self.failure(),
    {
        let mut settings = self.settings;
        settings.tool_name = String::from_str(tool);
        PlanExecutionNodeBuilder { settings, ..self }
    }

    pub fn stop_on_error(self, stop: bool) -> (b: Self)
        ensures
            b.settings_view() == (ExecutorSettings { stop_on_error: stop, ..self.settings_view() }),
            b.name_view() == self.name_view(),
            b.client_view() == self.client_view(),
            b.success() == self.success(),
            b.failure() == self.failure(),
    {
        let mut settings = self.settings;
        settings.stop_on_error = stop;
        PlanExecutionNodeBuilder { settings, ..self }
    }

    pub fn max_retries(self, n: usize) -> (b: Self)
        ensures
            b.settings_view() == (ExecutorSettings { max_retries: n, ..self.settings_view() }),
            b.name_view() == self.name_view(),
            b.client_view() == self.client_view(),
            b.success() == self.success(),
            b.failure() == self.failure(),
    {
        let mut settings = self.settings;
        settings.max_retries = n;
        PlanExecutionNodeBuilder { settings, ..self }
    }

    pub fn initial_backoff_ms(self, ms: u64) -> (b: Self)
        ensures
            b.settings_view() == (ExecutorSettings { initial_backoff_ms: ms, ..self.settings_view() }),
            b.name_view() == self.name_view(),
            b.client_view() == self.client_view(),
            b.success() == self.success(),
            b.failure() == self.failure(),
    {
        let mut settings = self.settings;
        settings.initial_backoff_ms = ms;
        PlanExecutionNodeBuilder { settings, ..self }
    }

    pub fn enforce_success_criteria(self, enforce: bool) -> (b: Self)
        ensures
            b.settings_view() == (ExecutorSettings { enforce_success_criteria: enforce, ..self.settings_view() }),
            b.name_view() == self.name_view(),
            b.client_view() == self.client_view(),
            b.success() == self.success(),
            b.failure() == self.failure(),
    {
        let mut settings = self.settings;
        settings.enforce_success_criteria = enforce;
        PlanExecutionNodeBuilder { settings, ..self }
    }

    pub fn on_success(self, state: S) -> (b: Self)
        ensures
            b.success() == Some(state),
            b.name_view() == self.name_view(),
            b.client_view() == self.client_view(),
            b.settings_view() == self.settings_view(),
            b.failure() == self.failure(),
    {
        PlanExecutionNodeBuilder { success_state: Some(state), ..self }
    }

    pub fn on_error(self, state: S) -> (b: Self)
        ensures
            b.failure() == Some(state),
            b.name_view() == self.name_view(),
            b.client_view() == self.client_view(),
            b.settings_view() == self.settings_view(),
            b.success() == self.success(),
    {
        PlanExecutionNodeBuilder { error_state: Some(state), ..self }
    }

    /// Build the executor: the client and both states are required; the
    /// name defaults to "plan_executor".
    pub fn build(self) -> (r: Result<PlanExecutionNode<S, Cl>, FlowError>)
        ensures
            self.client_view() is None ==> (r matches Err(FlowError::Construction(m)) && m@ == "MCP client is required"@),
            self.client_view() is Some && self.success() is None ==> (r matches Err(FlowError::Construction(m))
                && m@ == "Success state is required"@),
            self.client_view() is Some && self.success() is Some && self.failure() is None ==> (r matches Err(
                FlowError::Construction(m)) && m@ == "Error state is required"@),
            r is Ok <==> self.client_view() is Some && self.success() is Some && self.failure() is Some,
            r matches Ok(n) ==> Some(n.client_view()) == self.client_view() && n.settings_view() == self.settings_view()
                && Some(n.success()) == self.success() && Some(n.failure()) == self.failure()
                && (self.name_view() matches Some(x) ==> n.name_view() == x@)
                && (self.name_view() is None ==> n.name_view() == "plan_executor"@),
    {
        let name = match self.name {
            Some(n) => n,
            None => String::from_str("plan_executor"),
        };
        let client = match self.client {
            Some(c) => c,
            None => {
                return Err(FlowError::construction(String::from_str("MCP client is required")));
            },
        };
        let success_state = match self.success_state {
            Some(s) => s,
            None => {
                return Err(FlowError::construction(String::from_str("Success state is required")));
            },
        };
        let error_state = match self.error_state {
            Some(s) => s,
            None => {
                return Err(FlowError::construction(String::from_str("Error state is required")));
            },
        };
        Ok(PlanExecutionNode { name, client, settings: self.settings, success_state, error_state })
    }
}

/// Each retry waits twice as long as the one before it, and waits never
/// shrink as attempts go on.
pub proof fn backoff_doubles(initial: nat, attempt: nat, later: nat)
    requires
        attempt <= later,
    ensures
        doubled(initial, attempt + 1) == 2 * doubled(initial, attempt),
        doubled(initial, attempt) <= doubled(initial, later),
{
    lemma_doubled_grows(initial, attempt, later);
}

/// A step's own settings override the executor's: each policy field is the
/// step's value when the step gives one, and the executor's only when it does
/// not. In particular a step that says not to stop on error never stops the
/// run, whatever the executor says.
pub proof fn step_overrides_win(settings: ExecutorSettings, step: PlanStep)
    ensures
        step.stop_on_error matches Some(b) ==> policy_for(settings, step).stop_on_error == b,
        step.stop_on_error is None ==> policy_for(settings, step).stop_on_error == settings.stop_on_error,
        step.stop_on_error == Some(false) ==> !policy_for(settings, step).stop_on_error,
        step.max_retries matches Some(n) ==> policy_for(settings, step).max_retries == n,
        step.max_retries is None ==> policy_for(settings, step).max_retries == settings.max_retries,
        step.initial_backoff_ms matches Some(n) ==> policy_for(settings, step).initial_backoff_ms == n,
        step.initial_backoff_ms is None ==> policy_for(settings, step).initial_backoff_ms == settings.initial_backoff_ms,
        step.enforce_success_criteria matches Some(b) ==> policy_for(settings, step).enforce == b,
        step.enforce_success_criteria is None ==> policy_for(settings, step).enforce
            == settings.enforce_success_criteria,
{
}

/// A string criterion is met exactly when it appears inside the output text:
/// any text made of something, the criterion, and something more meets it,
/// and a text that meets it splits that way.
pub proof fn string_criterion_is_substring(crit: String, before: Seq<char>, after: Seq<char>, text: Seq<char>, json: Option<JsonModel>)
    ensures
        criterion_holds(JsonValue::String(crit), before + crit@ + after, json),
        criterion_holds(JsonValue::String(crit), text, json) ==> exists|p: Seq<char>, q: Seq<char>| text == p + crit@ + q,
{
    let t = before + crit@ + after;
    assert(t.subrange(before.len() as int, (before.len() + crit@.len()) as int) =~= crit@);
    assert(occurs_at(t, crit@, before.len() as int));
    if criterion_holds(JsonValue::String(crit), text, json) {
        let at = choose|at: int| occurs_at(text, crit@, at);
        let p = text.subrange(0, at);
        let q = text.subrange(at + crit@.len(), text.len() as int);
        assert(text =~= p + crit@ + q);
    }
}

} // verus!
