//! Cognitive extensions of nodes: the wrapper that runs a cognitive
//! implementation around a node, decisions, and chain-of-thought reasoning
//! read from a reasoning service's reply.

use vstd::prelude::*;
use vstd::string::*;

use crate::error::{flow_error_text, FlowError};
use crate::mcp::mcp_error_text;
use crate::json::{lemma_models_index, lemma_models_len, model, model_text, models, JsonModel, JsonValue};
use crate::plan_parsing::{array_of_member, m_array, m_text, text_of_member};
use crate::planning::{Goal, PlanStep};
use crate::text::{
    copy_strings, decimal, decimal_string, join, occurs_at, split_lines, str_eq, str_starts_with, string_views, text_lines,
    trim, trimmed,
};

verus! {

/// Errors that can occur during cognitive operations
#[derive(Debug)]
pub enum CognitiveError {
    ReasoningFailed { message: String },
    PlanningFailed { message: String },
    MemoryFailed { message: String },
    McpError { message: String },
    InvalidConfig { message: String },
    MissingContextData { key: String },
    Serialization(serde_json::Error),
    CoreError(FlowError),
    Mcp(crate::mcp::McpError),
}

/// `s` is the display text of cognitive error `e`. The text of a wrapped
/// error is its own display text.
pub open spec fn cognitive_error_text(e: CognitiveError, s: Seq<char>) -> bool {
    match e {
        CognitiveError::ReasoningFailed { message } => s == "Reasoning failed: "@ + message@,
        CognitiveError::PlanningFailed { message } => s == "Planning failed: "@ + message@,
        CognitiveError::MemoryFailed { message } => s == "Memory operation failed: "@ + message@,
        CognitiveError::McpError { message } => s == "MCP communication error: "@ + message@,
        CognitiveError::InvalidConfig { message } => s == "Invalid cognitive configuration: "@ + message@,
        CognitiveError::MissingContextData { key } => s == "Context missing required data: "@ + key@,
        CognitiveError::Serialization(j) => exists|t: String|
            s == "Serialization error: "@ + t@ && #[trigger] to_string_from_display_ensures::<serde_json::Error>(&j, t),
        CognitiveError::CoreError(f) => exists|t: Seq<char>| s == "Core flow error: "@ + t && #[trigger] flow_error_text(f, t),
        CognitiveError::Mcp(m) => exists|t: Seq<char>| s == "MCP error: "@ + t && #[trigger] mcp_error_text(m, t),
    }
}

impl CognitiveError {
    /// The message of the error, as its display text reads.
    pub fn message(&self) -> (s: String)
        ensures
            self matches CognitiveError::ReasoningFailed { message } ==> s@ == "Reasoning failed: "@ + message@,
            self matches CognitiveError::PlanningFailed { message } ==> s@ == "Planning failed: "@ + message@,
            self matches CognitiveError::MemoryFailed { message } ==> s@ == "Memory operation failed: "@ + message@,
            self matches CognitiveError::McpError { message } ==> s@ == "MCP communication error: "@ + message@,
            self matches CognitiveError::InvalidConfig { message } ==> s@ == "Invalid cognitive configuration: "@
                + message@,
            self matches CognitiveError::MissingContextData { key } ==> s@ == "Context missing required data: "@ + key@,
            self matches CognitiveError::Mcp(e) ==> exists|t: Seq<char>| s@ == "MCP error: "@ + t,
            self matches CognitiveError::CoreError(e) ==> exists|t: Seq<char>| s@ == "Core flow error: "@ + t,
            cognitive_error_text(*self, s@),
    {
        match self {
            CognitiveError::ReasoningFailed { message } => join("Reasoning failed: ", message.as_str()),
            CognitiveError::PlanningFailed { message } => join("Planning failed: ", message.as_str()),
            CognitiveError::MemoryFailed { message } => join("Memory operation failed: ", message.as_str()),
            CognitiveError::McpError { message } => join("MCP communication error: ", message.as_str()),
            CognitiveError::InvalidConfig { message } => join("Invalid cognitive configuration: ", message.as_str()),
            CognitiveError::MissingContextData { key } => join("Context missing required data: ", key.as_str()),
            CognitiveError::Serialization(e) => join("Serialization error: ", e.to_string().as_str()),
            CognitiveError::CoreError(e) => join("Core flow error: ", e.message().as_str()),
            CognitiveError::Mcp(e) => join("MCP error: ", e.message().as_str()),
        }
    }

    /// The flow error a cognitive error becomes: a context error with its
    /// message.
    pub fn into_flow_error(&self) -> (e: FlowError)
        ensures
            e is Context,
            e matches FlowError::Context(m) && cognitive_error_text(*self, m@),
            self matches CognitiveError::InvalidConfig { message } ==> (e matches FlowError::Context(m) && m@
                == "Invalid cognitive configuration: "@ + message@),
    {
        FlowError::context(self.message())
    }
}

/// Strategy for reasoning approach
#[derive(Debug, Clone, Copy, PartialEq, Eq, Structural)]
pub enum ReasoningStrategy {
    /// Step-by-step logical reasoning
    StepByStep,
    /// Problem decomposition approach
    Decomposition,
    /// Analogical reasoning using similar cases
    Analogical,
    /// Critical thinking with explicit evaluation
    Critical,
    /// Creative thinking for novel solutions
    Creative,
}

/// Decision point in reasoning or planning
#[derive(Debug, Clone)]
pub struct Decision {
    pub decision_point: String,
    pub chosen_option: String,
    pub available_options: Vec<String>,
    pub decision_criteria: Vec<String>,
}

/// A node `N` with a cognitive implementation `C` that thinks before the
/// node runs.
#[derive(Debug)]
pub struct CognitiveWrapper<N, C> {
    inner_node: N,
    cognitive_impl: C,
}

impl<N, C> CognitiveWrapper<N, C> {
    pub closed spec fn inner_view(&self) -> N {
        self.inner_node
    }

    pub closed spec fn cognitive_view(&self) -> C {
        self.cognitive_impl
    }

    pub fn new(inner_node: N, cognitive_impl: C) -> (w: Self)
        ensures
            w.inner_view() == inner_node,
            w.cognitive_view() == cognitive_impl,
    {
        CognitiveWrapper { inner_node, cognitive_impl }
    }

    /// The wrapped node.
    pub fn inner(&self) -> (n: &N)
        ensures
            *n == self.inner_view(),
    {
        &self.inner_node
    }

    /// The cognitive implementation.
    pub fn cognitive(&self) -> (c: &C)
        ensures
            *c == self.cognitive_view(),
    {
        &self.cognitive_impl
    }
}

/// The name of a wrapped node: `Cognitive(` and the inner node's name and `)`.
pub fn cognitive_name(inner_name: &str) -> (s: String)
    ensures
        s@ == "Cognitive("@ + inner_name@ + ")"@,
{
    let a = join("Cognitive(", inner_name);
    join(a.as_str(), ")")
}

/// The thoughts and conclusion of a chain of reasoning.
#[derive(Debug)]
pub struct ReasoningOutline {
    pub thoughts: Vec<String>,
    pub inferences: Vec<String>,
    pub conclusion: String,
}

/// The label that opens reasoning step `c`.
pub open spec fn step_label(c: nat) -> Seq<char> {
    "Step "@ + decimal(c) + ":"@
}

/// The thoughts among the first `n` lines: a line that, trimmed, opens the
/// next step gives the trimmed text after the step's label.
pub open spec fn reasoning_thoughts(ls: Seq<Seq<char>>, n: nat) -> Seq<Seq<char>>
    decreases n,
{
    if n == 0 {
        Seq::empty()
    } else {
        let d = reasoning_thoughts(ls, (n - 1) as nat);
        let line = trimmed(ls[n - 1]);
        let label = step_label(d.len() + 1);
        if occurs_at(line, label, 0) { d.push(trimmed(line.subrange(label.len() as int, line.len() as int))) } else { d }
    }
}

/// The conclusion among the first `n` lines: the trimmed text after
/// `Conclusion:` on the last line that opens with it (and does not open the
/// next step), else nothing.
pub open spec fn reasoning_conclusion(ls: Seq<Seq<char>>, n: nat) -> Seq<char>
    decreases n,
{
    if n == 0 {
        Seq::empty()
    } else {
        let prev = reasoning_conclusion(ls, (n - 1) as nat);
        let line = trimmed(ls[n - 1]);
        let label = step_label(reasoning_thoughts(ls, (n - 1) as nat).len() + 1);
        if !occurs_at(line, label, 0) && occurs_at(line, "Conclusion:"@, 0) {
            trimmed(line.subrange(11, line.len() as int))
        } else {
            prev
        }
    }
}

/// The text of a string after its first `k` characters.
fn rest_after(s: &str, k: usize) -> (r: String)
    requires
        k <= s@.len(),
    ensures
        r@ == s@.subrange(k as int, s@.len() as int),
{
    let cs = crate::text::chars_of(s);
    let mut v: Vec<char> = Vec::new();
    let mut i: usize = k;
    while i < cs.len()
        invariant
            k <= i <= cs@.len(),
            cs@ == s@,
            v@ == cs@.subrange(k as int, i as int),
        decreases cs@.len() - i,
    {
        v.push(cs[i]);
        assert(cs@.subrange(k as int, i + 1) =~= cs@.subrange(k as int, i as int).push(cs@[i as int]));
        i = i + 1;
    }
    crate::text::string_of(v.as_slice())
}

/// The chain of reasoning that lines of text lay out: its `Step 1:`,
/// `Step 2:`, ... lines in order, each its own inference, and its last
/// `Conclusion:`.
pub fn parse_reasoning_text(text: &str) -> (o: ReasoningOutline)
    ensures
        string_views(o.thoughts@) == reasoning_thoughts(text_lines(text@), text_lines(text@).len()),
        string_views(o.inferences@) == string_views(o.thoughts@),
        o.conclusion@ == reasoning_conclusion(text_lines(text@), text_lines(text@).len()),
{
    let lines = split_lines(text);
    let ghost ls = text_lines(text@);
    assert(string_views(lines@).len() == lines@.len());
    let mut thoughts: Vec<String> = Vec::new();
    let mut conclusion = String::new();
    let mut i: usize = 0;
    assert(string_views(thoughts@) =~= Seq::empty());
    while i < lines.len()
        invariant
            i <= lines@.len(),
            string_views(lines@) == ls,
            ls.len() == lines@.len(),
            lines@.len() <= text@.len() + 1,
            thoughts@.len() <= i,
            string_views(thoughts@) == reasoning_thoughts(ls, i as nat),
            conclusion@ == reasoning_conclusion(ls, i as nat),
        decreases lines@.len() - i,
    {
        let line = trim(lines[i].as_str());
        assert(lines@[i as int]@ == ls[i as int]);
        assert(string_views(thoughts@).len() == thoughts@.len());
        let a = join("Step ", decimal_string((thoughts.len() + 1) as u64).as_str());
        let label = join(a.as_str(), ":");
        if str_starts_with(line.as_str(), label.as_str()) {
            let n = crate::text::char_count(label.as_str());
            let thought = trim(rest_after(line.as_str(), n).as_str());
            let ghost before = string_views(thoughts@);
            thoughts.push(thought);
            assert(string_views(thoughts@) =~= before.push(thought@));
        } else if str_starts_with(line.as_str(), "Conclusion:") {
            proof {
                reveal_strlit("Conclusion:");
            }
            conclusion = trim(rest_after(line.as_str(), 11).as_str());
        }
        i = i + 1;
    }
    let inferences = copy_strings(&thoughts);
    ReasoningOutline { thoughts, inferences, conclusion }
}

/// The thought and inference of a JSON reasoning step: its `thought` (or
/// nothing), and its `inference`, else the thought.
pub open spec fn json_thought(item: JsonModel) -> (Seq<char>, Seq<char>) {
    let t = match m_text(item, "thought"@) {
        Some(x) => x,
        None => Seq::empty(),
    };
    (t, match m_text(item, "inference"@) {
        Some(x) => x,
        None => t,
    })
}

/// The steps array of a JSON reasoning reply, or nothing.
pub open spec fn reasoning_steps_of(m: JsonModel) -> Seq<JsonModel> {
    match m_array(m, "steps"@) {
        Some(a) => a,
        None => Seq::empty(),
    }
}

/// The chain of reasoning a structured reply lays out: its `steps`, each
/// with a `thought` and an `inference`, and its `conclusion`.
pub fn parse_reasoning_json(obj: &JsonValue) -> (o: ReasoningOutline)
    ensures
        string_views(o.thoughts@) == Seq::new(reasoning_steps_of(model(*obj)).len(), |i: int| json_thought(reasoning_steps_of(model(*obj))[i]).0),
        string_views(o.inferences@) == Seq::new(reasoning_steps_of(model(*obj)).len(), |i: int| json_thought(reasoning_steps_of(model(*obj))[i]).1),
        o.conclusion@ == match m_text(model(*obj), "conclusion"@) {
            Some(c) => c,
            None => Seq::empty(),
        },
{
    let ghost items = reasoning_steps_of(model(*obj));
    let mut thoughts: Vec<String> = Vec::new();
    let mut inferences: Vec<String> = Vec::new();
    let empty: Vec<JsonValue> = Vec::new();
    let arr: &Vec<JsonValue> = match array_of_member(obj, "steps") {
        Some(a) => a,
        None => &empty,
    };
    proof {
        lemma_models_len(arr@);
        assert(models(arr@) == items) by {
            if m_array(model(*obj), "steps"@) is None {
                assert(models(arr@) =~= Seq::<JsonModel>::empty());
            }
        }
    }
    let mut i: usize = 0;
    while i < arr.len()
        invariant
            i <= arr@.len(),
            models(arr@) == items,
            items.len() == arr@.len(),
            thoughts@.len() == i,
            inferences@.len() == i,
            forall|k: int| 0 <= k < i ==> (#[trigger] thoughts@[k])@ == json_thought(items[k]).0,
            forall|k: int| 0 <= k < i ==> (#[trigger] inferences@[k])@ == json_thought(items[k]).1,
        decreases arr@.len() - i,
    {
        proof {
            lemma_models_index(arr@, i as int);
        }
        let thought = match text_of_member(&arr[i], "thought") {
            Some(t) => t,
            None => String::new(),
        };
        let inference = match text_of_member(&arr[i], "inference") {
            Some(t) => t,
            None => thought.clone(),
        };
        thoughts.push(thought);
        inferences.push(inference);
        i = i + 1;
    }
    let conclusion = match text_of_member(obj, "conclusion") {
        Some(c) => c,
        None => String::new(),
    };
    assert(string_views(thoughts@) =~= Seq::new(items.len(), |k: int| json_thought(items[k]).0));
    assert(string_views(inferences@) =~= Seq::new(items.len(), |k: int| json_thought(items[k]).1));
    ReasoningOutline { thoughts, inferences, conclusion }
}

/// The chain of reasoning a reasoning service's reply lays out: a JSON
/// object is read as structured steps, a string as `Step N:` lines; any
/// other reply is refused.
pub fn parse_reasoning_response(response: &JsonValue) -> (r: Result<ReasoningOutline, FlowError>)
    ensures
        !(*response is String || *response is Object) <==> r is Err,
        r matches Err(e) ==> e matches FlowError::Context(m) && m@ == "Invalid reasoning response format"@,
        *response is String ==> (r matches Ok(o) && {
            let ls = text_lines(model_text(model(*response))->0);
            &&& string_views(o.thoughts@) == reasoning_thoughts(ls, ls.len())
            &&& string_views(o.inferences@) == string_views(o.thoughts@)
            &&& o.conclusion@ == reasoning_conclusion(ls, ls.len())
        }),
        *response is Object ==> (r matches Ok(o) && {
            let items = reasoning_steps_of(model(*response));
            &&& string_views(o.thoughts@) == Seq::new(items.len(), |i: int| json_thought(items[i]).0)
            &&& string_views(o.inferences@) == Seq::new(items.len(), |i: int| json_thought(items[i]).1)
            &&& o.conclusion@ == match m_text(model(*response), "conclusion"@) {
                Some(c) => c,
                None => Seq::empty(),
            }
        }),
{
    match response {
        JsonValue::String(s) => Ok(parse_reasoning_text(s.as_str())),
        JsonValue::Object(_) => Ok(parse_reasoning_json(response)),
        _ => Err(FlowError::context(String::from_str("Invalid reasoning response format"))),
    }
}

/// Some completed id is `id`.
pub open spec fn is_completed(completed: Seq<String>, id: Seq<char>) -> bool {
    exists|j: int| 0 <= j < completed.len() && completed[j]@ == id
}

/// Whether a list of ids holds `id`.
fn holds_id(completed: &Vec<String>, id: &str) -> (b: bool)
    ensures
        b == is_completed(completed@, id@),
{
    let mut j: usize = 0;
    while j < completed.len()
        invariant
            j <= completed@.len(),
            forall|k: int| 0 <= k < j ==> completed@[k]@ != id@,
        decreases completed@.len() - j,
    {
        if str_eq(completed[j].as_str(), id) {
            return true;
        }
        j = j + 1;
    }
    false
}

/// The first step of a plan that is not yet completed, if any.
pub fn first_pending_step(steps: &Vec<PlanStep>, completed: &Vec<String>) -> (r: Option<usize>)
    ensures
        match r {
            Some(i) => i < steps@.len() && !is_completed(completed@, steps@[i as int].id@) && forall|k: int|
                0 <= k < i ==> is_completed(completed@, #[trigger] steps@[k].id@),
            None => forall|k: int| 0 <= k < steps@.len() ==> is_completed(completed@, #[trigger] steps@[k].id@),
        },
{
    let mut i: usize = 0;
    while i < steps.len()
        invariant
            i <= steps@.len(),
            forall|k: int| 0 <= k < i ==> is_completed(completed@, #[trigger] steps@[k].id@),
        decreases steps@.len() - i,
    {
        if !holds_id(completed, steps[i].id.as_str()) {
            return Some(i);
        }
        i = i + 1;
    }
    None
}

/// One simulated step of work: the first pending step of the plan joins the
/// completed ids; nothing changes when every step is complete.
pub fn mark_one_step_completed(steps: &Vec<PlanStep>, completed: &mut Vec<String>)
    ensures
        match first_pending_step_spec(steps@, old(completed)@) {
            Some(i) => final(completed)@ == old(completed)@.push(steps@[i].id),
            None => final(completed)@ == old(completed)@,
        },
{
    match first_pending_step(steps, completed) {
        Some(i) => {
            proof {
                lemma_first_pending(steps@, completed@, i as int);
            }
            completed.push(steps[i].id.clone());
        },
        None => {
            proof {
                if first_pending_step_spec(steps@, completed@) is Some {
                    let i = first_pending_step_spec(steps@, completed@)->0;
                    assert(!is_completed(completed@, steps@[i].id@));
                }
            }
        },
    }
}

/// The position of the first step not yet completed.
pub open spec fn first_pending_step_spec(steps: Seq<PlanStep>, completed: Seq<String>) -> Option<int> {
    if exists|i: int| 0 <= i < steps.len() && !is_completed(completed, steps[i].id@) {
        Some(
            choose|i: int| 0 <= i < steps.len() && !is_completed(completed, steps[i].id@) && forall|k: int|
                0 <= k < i ==> is_completed(completed, #[trigger] steps[k].id@),
        )
    } else {
        None
    }
}

proof fn lemma_first_pending(steps: Seq<PlanStep>, completed: Seq<String>, i: int)
    requires
        0 <= i < steps.len(),
        !is_completed(completed, steps[i].id@),
        forall|k: int| 0 <= k < i ==> is_completed(completed, #[trigger] steps[k].id@),
    ensures
        first_pending_step_spec(steps, completed) == Some(i),
{
    let c = choose|c: int| 0 <= c < steps.len() && !is_completed(completed, steps[c].id@) && forall|k: int|
        0 <= k < c ==> is_completed(completed, #[trigger] steps[k].id@);
    assert(0 <= c < steps.len() && !is_completed(completed, steps[c].id@) && forall|k: int|
        0 <= k < c ==> is_completed(completed, #[trigger] steps[k].id@));
    if c < i {
        assert(is_completed(completed, steps[c].id@));
    } else if c > i {
        assert(is_completed(completed, steps[i].id@));
    }
}

/// The goal an iterative agent pursues when none is given: a fresh `goal_`
/// id, the reasoning's conclusion as description, the criterion
/// `Plan executed`, no constraints, priority 5.
pub fn fallback_goal(conclusion: &str) -> (g: Goal)
    ensures
        occurs_at(g.id@, "goal_"@, 0),
        g.description@ == conclusion@,
        string_views(g.success_criteria@) == seq!["Plan executed"@],
        g.constraints@.len() == 0,
        g.priority == 5,
{
    let id = crate::plan_parsing::fresh("goal_");
    let mut criteria: Vec<String> = Vec::new();
    criteria.push(String::from_str("Plan executed"));
    assert(string_views(criteria@) =~= seq!["Plan executed"@]);
    Goal { id, description: String::from_str(conclusion), success_criteria: criteria, constraints: Vec::new(), priority: 5 }
}

/// Where an iterative agent's run stands: what it waits to hear about.
#[derive(Debug, Clone, Copy, PartialEq, Eq, Structural)]
pub enum IterPhase {
    /// The first reasoning about the problem.
    Thinking,
    /// The first plan.
    Planning,
    /// The plan's progress, at the start of a round.
    Evaluating,
    /// One simulated step of the plan.
    Simulating,
    /// A reflection on the progress.
    Reflecting,
    /// Renewed reasoning.
    Rethinking,
    /// A renewed plan, at the end of a round.
    Replanning,
    /// Nothing: the run is over.
    Finished,
}

/// The state of an iterative agent's run: its phase, the rounds completed,
/// and the progress evaluations asked for.
#[derive(Debug, Clone, Copy)]
pub struct IterRun {
    pub phase: IterPhase,
    pub iteration: usize,
    pub evaluations: usize,
}

/// What the caller reports back after doing what it was asked.
#[derive(Debug)]
pub enum IterEvent {
    /// The first reasoning succeeded or failed with this message.
    Thought(Result<(), String>),
    /// The first plan was made or failed with this message.
    Planned(Result<(), String>),
    /// The evaluation: whether the plan's completion reached the target.
    Progress { reached: bool },
    /// One step was simulated.
    Simulated,
    /// The reflection is over, whether it succeeded or not.
    Reflected,
    /// The renewed reasoning is over; `ok` when it succeeded.
    Rethought { ok: bool },
    /// The renewed plan is over; `ok` when it succeeded.
    Replanned { ok: bool },
}

/// What an iterative agent asks its caller to do next.
#[derive(Debug)]
pub enum IterAction {
    Think,
    Plan,
    Evaluate,
    Simulate,
    Reflect,
    Rethink,
    Replan,
    /// The run is over, successfully or with an error message, if any.
    Finish { success: bool, error: Option<String> },
}

/// The phase is one of a round's.
pub open spec fn in_round(p: IterPhase) -> bool {
    p is Evaluating || p is Simulating || p is Reflecting || p is Rethinking || p is Replanning
}

/// The run invariant for at most `max_iterations` rounds: before the first
/// round nothing was counted; inside a round, fewer rounds than the limit are
/// done and this round's evaluation was asked for; evaluations never exceed
/// the limit.
pub open spec fn iter_ok(run: IterRun, max_iterations: usize) -> bool {
    &&& run.iteration <= max_iterations
    &&& run.evaluations <= max_iterations
    &&& (run.phase is Thinking || run.phase is Planning) ==> run.iteration == 0 && run.evaluations == 0
    &&& in_round(run.phase) ==> run.iteration < max_iterations && run.evaluations == run.iteration + 1
}

/// The event a phase waits for.
pub open spec fn expects(p: IterPhase, e: IterEvent) -> bool {
    match p {
        IterPhase::Thinking => e is Thought,
        IterPhase::Planning => e is Planned,
        IterPhase::Evaluating => e is Progress,
        IterPhase::Simulating => e is Simulated,
        IterPhase::Reflecting => e is Reflected,
        IterPhase::Rethinking => e is Rethought,
        IterPhase::Replanning => e is Replanned,
        IterPhase::Finished => false,
    }
}

/// The start of an iterative agent's run: it thinks first.
pub fn iterative_start() -> (r: (IterRun, IterAction))
    ensures
        r.0 == (IterRun { phase: IterPhase::Thinking, iteration: 0, evaluations: 0 }),
        r.1 is Think,
{
    (IterRun { phase: IterPhase::Thinking, iteration: 0, evaluations: 0 }, IterAction::Think)
}

/// Whether the run holds its invariant and waits for this event, so that
/// [`iterative_next`] may take it.
pub fn iterative_accepts(max_iterations: usize, run: &IterRun, event: &IterEvent) -> (b: bool)
    ensures
        b == (iter_ok(*run, max_iterations) && expects(run.phase, *event)),
{
    let ok = run.iteration <= max_iterations && run.evaluations <= max_iterations && match run.phase {
        IterPhase::Thinking | IterPhase::Planning => run.iteration == 0 && run.evaluations == 0,
        IterPhase::Finished => true,
        _ => run.iteration < max_iterations && run.evaluations == run.iteration + 1,
    };
    let waits = match run.phase {
        IterPhase::Thinking => matches!(event, IterEvent::Thought(_)),
        IterPhase::Planning => matches!(event, IterEvent::Planned(_)),
        IterPhase::Evaluating => matches!(event, IterEvent::Progress { .. }),
        IterPhase::Simulating => matches!(event, IterEvent::Simulated),
        IterPhase::Reflecting => matches!(event, IterEvent::Reflected),
        IterPhase::Rethinking => matches!(event, IterEvent::Rethought { .. }),
        IterPhase::Replanning => matches!(event, IterEvent::Replanned { .. }),
        IterPhase::Finished => false,
    };
    ok && waits
}

/// Begin a round if rounds are left, else end the run unsuccessfully.
fn next_round(max_iterations: usize, run: &mut IterRun) -> (a: IterAction)
    requires
        old(run).iteration <= max_iterations,
        old(run).evaluations <= old(run).iteration,
    ensures
        final(run).iteration == old(run).iteration,
        old(run).iteration < max_iterations ==> a is Evaluate && final(run).phase == IterPhase::Evaluating
            && final(run).evaluations == old(run).evaluations + 1,
        old(run).iteration >= max_iterations ==> a == (IterAction::Finish { success: false, error: None })
            && final(run).phase == IterPhase::Finished && final(run).evaluations == old(run).evaluations,
{
    if run.iteration < max_iterations {
        run.phase = IterPhase::Evaluating;
        run.evaluations = run.evaluations + 1;
        IterAction::Evaluate
    } else {
        run.phase = IterPhase::Finished;
        IterAction::Finish { success: false, error: None }
    }
}

/// The next step of an iterative agent that thinks, plans, then runs rounds
/// of evaluate, simulate (when `simulate` is set), reflect, rethink and
/// replan, for at most `max_iterations` rounds. Reaching the target ends the
/// run successfully; a failure of the first reasoning or plan ends it with an
/// error; failures within a round are passed over; running out of rounds
/// ends it unsuccessfully.
pub fn iterative_next(max_iterations: usize, simulate: bool, run: &mut IterRun, event: IterEvent) -> (a: IterAction)
    requires
        iter_ok(*old(run), max_iterations),
        expects(old(run).phase, event),
    ensures
        iter_ok(*final(run), max_iterations),
        final(run).evaluations <= max_iterations,
        a is Evaluate <==> final(run).evaluations == old(run).evaluations + 1,
        !(a is Evaluate) ==> final(run).evaluations == old(run).evaluations,
        !(event is Replanned) ==> final(run).iteration == old(run).iteration,
        a is Finish <==> final(run).phase == IterPhase::Finished,
        match event {
            IterEvent::Thought(Ok(())) => a is Plan && final(run).phase == IterPhase::Planning,
            IterEvent::Thought(Err(e)) => a matches IterAction::Finish { success, error: Some(m) } && !success
                && m@ == "thinking failed: "@ + e@,
            IterEvent::Planned(Err(e)) => a matches IterAction::Finish { success, error: Some(m) } && !success
                && m@ == "planning failed: "@ + e@,
            IterEvent::Planned(Ok(())) => (0 < max_iterations ==> a is Evaluate) && (max_iterations == 0 ==> a
                == (IterAction::Finish { success: false, error: None })),
            IterEvent::Progress { reached } => if reached {
                a == (IterAction::Finish { success: true, error: None })
            } else if simulate {
                a is Simulate && final(run).phase == IterPhase::Simulating
            } else {
                a is Reflect && final(run).phase == IterPhase::Reflecting
            },
            IterEvent::Simulated => a is Reflect && final(run).phase == IterPhase::Reflecting,
            IterEvent::Reflected => a is Rethink && final(run).phase == IterPhase::Rethinking,
            IterEvent::Rethought { .. } => a is Replan && final(run).phase == IterPhase::Replanning,
            IterEvent::Replanned { .. } => final(run).iteration == old(run).iteration + 1 && (final(run).iteration
                < max_iterations ==> a is Evaluate) && (final(run).iteration >= max_iterations ==> a == (
            IterAction::Finish { success: false, error: None })),
        },
{
    match event {
        IterEvent::Thought(Ok(())) => {
            run.phase = IterPhase::Planning;
            IterAction::Plan
        },
        IterEvent::Thought(Err(e)) => {
            run.phase = IterPhase::Finished;
            IterAction::Finish { success: false, error: Some(join("thinking failed: ", e.as_str())) }
        },
        IterEvent::Planned(Ok(())) => next_round(max_iterations, run),
        IterEvent::Planned(Err(e)) => {
            run.phase = IterPhase::Finished;
            IterAction::Finish { success: false, error: Some(join("planning failed: ", e.as_str())) }
        },
        IterEvent::Progress { reached } => {
            if reached {
                run.phase = IterPhase::Finished;
                IterAction::Finish { success: true, error: None }
            } else if simulate {
                run.phase = IterPhase::Simulating;
                IterAction::Simulate
            } else {
                run.phase = IterPhase::Reflecting;
                IterAction::Reflect
            }
        },
        IterEvent::Simulated => {
            run.phase = IterPhase::Reflecting;
            IterAction::Reflect
        },
        IterEvent::Reflected => {
            run.phase = IterPhase::Rethinking;
            IterAction::Rethink
        },
        IterEvent::Rethought { .. } => {
            run.phase = IterPhase::Replanning;
            IterAction::Replan
        },
        IterEvent::Replanned { .. } => {
            run.iteration = run.iteration + 1;
            next_round(max_iterations, run)
        },
    }
}

} // verus!
