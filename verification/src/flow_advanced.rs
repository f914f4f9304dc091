//! Advanced flow orchestration: middleware that runs before every node,
//! conditional routing between states, a step limit and an execution trace.
//!
//! Nodes (`N`), middleware (`M`) and conditions (`C`) are opaque values whose
//! running is the caller's work. The flow decides, one event at a time, what
//! the caller runs next.

use vstd::prelude::*;

use crate::error::{debug_text, FlowError};
use crate::state::FlowState;
use crate::table::{distinct_views, holds_view, NameTable, StateTable};
use crate::text::{decimal, decimal_string, join};

verus! {

/// The step limit of a new advanced flow.
pub const DEFAULT_MAX_STEPS: usize = 1000;

/// What carried out a step of an execution.
#[derive(Debug, Clone, Copy, PartialEq, Eq)]
pub enum StepSource {
    /// A conditional route chose the next state.
    Router,
    /// The node at this position of the flow's node table ran.
    Node(usize),
}

/// Individual execution step information.
#[derive(Debug)]
pub struct ExecutionStep<S> {
    pub step_number: usize,
    pub from_state: S,
    pub to_state: S,
    pub source: StepSource,
}

/// Advanced flow execution result.
#[derive(Debug)]
pub struct AdvancedFlowResult<S> {
    /// Final execution state.
    pub final_state: S,
    /// Number of steps executed.
    pub steps: usize,
    /// Whether the flow completed successfully.
    pub success: bool,
    /// Any error that occurred.
    pub error: Option<String>,
    /// Step-by-step execution trace.
    pub trace: Vec<ExecutionStep<S>>,
}

/// A conditional route: the condition picks one of two states.
pub struct Route<S, C> {
    pub condition: C,
    pub when_true: S,
    pub when_false: S,
}

/// Advanced workflow execution engine with middleware support.
pub struct AdvancedFlow<S, N, M, C> {
    nodes: StateTable<S, N>,
    initial_state: S,
    name: String,
    middleware: Vec<M>,
    conditions: StateTable<S, Route<S, C>>,
    max_steps: usize,
}

/// What the flow waits for.
#[derive(Debug, Clone, Copy, PartialEq, Eq)]
pub enum Awaiting {
    /// Nothing: the next call begins a step.
    Step,
    /// The outcome of the middleware at this position.
    Middleware(usize),
    /// The value of the condition of the route at this position.
    Condition(usize),
    /// The outcome of the node at this position.
    Node(usize),
    /// Nothing more: the execution has ended.
    Ended,
}

/// The progress of one execution of an advanced flow.
pub struct AdvancedRun<S> {
    current: S,
    steps: usize,
    trace: Vec<ExecutionStep<S>>,
    awaiting: Awaiting,
}

/// What an advanced flow asks its caller to do next.
pub enum AdvancedAction<S> {
    /// Run the middleware at this position on the context and current state.
    RunMiddleware(usize),
    /// Evaluate the condition of the route at this position.
    EvaluateCondition(usize),
    /// Run the node at this position on the context.
    RunNode(usize),
    /// The step is over; begin the next one.
    Continue,
    /// The execution has ended with this result.
    Done(AdvancedFlowResult<S>),
    /// The execution failed without a result.
    Failed(FlowError),
}

impl<S> AdvancedRun<S> {
    pub closed spec fn current(&self) -> S {
        self.current
    }

    pub closed spec fn steps(&self) -> usize {
        self.steps
    }

    pub closed spec fn trace(&self) -> Seq<ExecutionStep<S>> {
        self.trace@
    }

    pub closed spec fn awaiting(&self) -> Awaiting {
        self.awaiting
    }

    /// What the execution waits for.
    pub fn waiting_for(&self) -> (a: Awaiting)
        ensures
            a == self.awaiting(),
    {
        self.awaiting
    }

    /// The state the execution is in.
    pub fn current_state(&self) -> (s: &S)
        ensures
            *s == self.current(),
    {
        &self.current
    }
}

/// The message of a flow that ran out of steps.
pub open spec fn exceeded_message(max: nat) -> Seq<char> {
    "Flow exceeded maximum steps ("@ + decimal(max) + ")"@
}

impl<S: FlowState, N, M, C> AdvancedFlow<S, N, M, C> {
    pub closed spec fn node_table(&self) -> StateTable<S, N> {
        self.nodes
    }

    pub closed spec fn route_table(&self) -> StateTable<S, Route<S, C>> {
        self.conditions
    }

    pub closed spec fn middleware_list(&self) -> Seq<M> {
        self.middleware@
    }

    pub closed spec fn initial(&self) -> S {
        self.initial_state
    }

    pub closed spec fn name_view(&self) -> Seq<char> {
        self.name@
    }

    pub closed spec fn step_limit(&self) -> usize {
        self.max_steps
    }

    pub open spec fn wf(&self) -> bool {
        self.node_table().wf() && self.route_table().wf()
    }

    /// The run invariant: the step count stays within the limit, the trace
    /// has at most one entry per step, and what is awaited exists.
    pub open spec fn run_ok(&self, run: &AdvancedRun<S>) -> bool {
        &&& run.steps() <= self.step_limit()
        &&& run.trace().len() <= run.steps()
        &&& (run.awaiting() is Middleware || run.awaiting() is Condition || run.awaiting() is Node)
            ==> run.trace().len() < run.steps()
        &&& run.awaiting() matches Awaiting::Middleware(i) ==> i < self.middleware_list().len()
        &&& run.awaiting() matches Awaiting::Condition(i) ==> i < self.route_table().keys().len()
            && self.route_table().keys()[i as int]@ == run.current()@
        &&& run.awaiting() matches Awaiting::Node(i) ==> i < self.node_table().keys().len()
            && self.node_table().keys()[i as int]@ == run.current()@
    }

    /// Get the flow name.
    pub fn name(&self) -> (s: &str)
        ensures
            s@ == self.name_view(),
    {
        self.name.as_str()
    }

    /// Create a new flow builder.
    pub fn builder() -> (b: AdvancedFlowBuilder<S, N, M, C>)
        ensures
            b.wf(),
            b.node_table().keys().len() == 0,
            b.route_table().keys().len() == 0,
            b.middleware_list().len() == 0,
            b.initial() is None,
            b.name_view() == "advanced_flow"@,
            b.step_limit() == DEFAULT_MAX_STEPS,
    {
        AdvancedFlowBuilder::new()
    }

    /// The node at a position of the node table.
    pub fn node_at(&self, i: usize) -> (n: &N)
        requires
            self.wf(),
            i < self.node_table().keys().len(),
        ensures
            *n == self.node_table().values()[i as int],
    {
        self.nodes.value_at(i)
    }

    /// The middleware at a position.
    pub fn middleware_at(&self, i: usize) -> (m: &M)
        requires
            i < self.middleware_list().len(),
        ensures
            *m == self.middleware_list()[i as int],
    {
        &self.middleware[i]
    }

    /// The condition of the route at a position.
    pub fn condition_at(&self, i: usize) -> (c: &C)
        requires
            self.wf(),
            i < self.route_table().keys().len(),
        ensures
            *c == self.route_table().values()[i as int].condition,
    {
        &self.conditions.value_at(i).condition
    }

    /// Begin an execution at the initial state.
    pub fn start(&self) -> (run: AdvancedRun<S>)
        ensures
            self.run_ok(&run),
            run.current()@ == self.initial()@,
            run.steps() == 0,
            run.trace().len() == 0,
            run.awaiting() == Awaiting::Step,
    {
        AdvancedRun { current: self.initial_state.clone_state(), steps: 0, trace: Vec::new(), awaiting: Awaiting::Step }
    }

    /// End an execution with a result built from its current state.
    fn finish(&self, run: &mut AdvancedRun<S>, steps: usize, success: bool, error: Option<String>) -> (a: AdvancedAction<S>)
        ensures
            final(run).current() == old(run).current(),
            final(run).steps() == old(run).steps(),
            final(run).trace().len() == 0,
            final(run).awaiting() == Awaiting::Ended,
            a matches AdvancedAction::Done(r) && r.final_state@ == old(run).current()@ && r.steps == steps
                && r.success == success && r.error == error && r.trace@ == old(run).trace(),
    {
        let mut trace = Vec::new();
        std::mem::swap(&mut trace, &mut run.trace);
        run.awaiting = Awaiting::Ended;
        AdvancedAction::Done(
            AdvancedFlowResult { final_state: run.current.clone_state(), steps, success, error, trace },
        )
    }

    /// After the middleware: follow the route for the current state, or run
    /// its node, or fail when it has neither.
    fn route(&self, run: &mut AdvancedRun<S>) -> (a: AdvancedAction<S>)
        requires
            self.wf(),
            self.run_ok(old(run)),
            old(run).trace().len() < old(run).steps(),
        ensures
            self.run_ok(final(run)),
            final(run).current() == old(run).current(),
            final(run).steps() == old(run).steps(),
            final(run).trace() == old(run).trace(),
            self.route_table().contains(old(run).current()@) <==> (a matches AdvancedAction::EvaluateCondition(i)
                && final(run).awaiting() == Awaiting::Condition(i)),
            !self.route_table().contains(old(run).current()@) && self.node_table().contains(old(run).current()@)
                <==> (a matches AdvancedAction::RunNode(i) && final(run).awaiting() == Awaiting::Node(i)),
            !self.route_table().contains(old(run).current()@) && !self.node_table().contains(old(run).current()@)
                <==> (a matches AdvancedAction::Failed(FlowError::Context(m)) && final(run).awaiting() == Awaiting::Ended),
    {
        match self.conditions.find(&run.current) {
            Some(i) => {
                run.awaiting = Awaiting::Condition(i);
                AdvancedAction::EvaluateCondition(i)
            },
            None => match self.nodes.find(&run.current) {
                Some(i) => {
                    run.awaiting = Awaiting::Node(i);
                    AdvancedAction::RunNode(i)
                },
                None => {
                    run.awaiting = Awaiting::Ended;
                    AdvancedAction::Failed(
                        FlowError::execution(join("No node found for state: ", debug_text(&run.current).as_str())),
                    )
                },
            },
        }
    }

    /// Begin a step.
    ///
    /// Past the step limit the execution ends unsuccessfully; at a terminal
    /// state it ends successfully, reporting the steps carried out; otherwise
    /// the middleware runs in order, then the route or node of the state.
    pub fn begin_step(&self, run: &mut AdvancedRun<S>) -> (a: AdvancedAction<S>)
        requires
            self.wf(),
            self.run_ok(old(run)),
            old(run).awaiting() == Awaiting::Step,
        ensures
            self.run_ok(final(run)),
            final(run).current() == old(run).current(),
            old(run).steps() == self.step_limit() <==> (a matches AdvancedAction::Done(r) && !r.success
                && r.error is Some && r.error->0@ == exceeded_message(self.step_limit() as nat)
                && r.final_state@ == old(run).current()@ && r.trace@ == old(run).trace()),
            old(run).steps() < self.step_limit() && old(run).current().terminal() <==> (a matches AdvancedAction::Done(r)
                && r.success && r.error is None && r.final_state@ == old(run).current()@
                && r.steps == old(run).steps() && r.trace@ == old(run).trace()),
            old(run).steps() < self.step_limit() && !old(run).current().terminal() ==> final(run).steps()
                == old(run).steps() + 1 && final(run).trace() == old(run).trace(),
            old(run).steps() < self.step_limit() && !old(run).current().terminal() && self.middleware_list().len() > 0
                <==> (a matches AdvancedAction::RunMiddleware(i) && i == 0 && final(run).awaiting() == Awaiting::Middleware(0)),
            old(run).steps() < self.step_limit() && !old(run).current().terminal() && self.middleware_list().len() == 0
                && self.route_table().contains(old(run).current()@) <==> a is EvaluateCondition,
            old(run).steps() < self.step_limit() && !old(run).current().terminal() && self.middleware_list().len() == 0
                && !self.route_table().contains(old(run).current()@) && self.node_table().contains(old(run).current()@)
                <==> a is RunNode,
            old(run).steps() < self.step_limit() && !old(run).current().terminal() && self.middleware_list().len() == 0
                && !self.route_table().contains(old(run).current()@) && !self.node_table().contains(old(run).current()@)
                <==> a is Failed,
            a matches AdvancedAction::RunNode(i) ==> final(run).awaiting() == Awaiting::Node(i)
                && i < self.node_table().keys().len() && self.node_table().keys()[i as int]@ == old(run).current()@,
            a matches AdvancedAction::EvaluateCondition(i) ==> final(run).awaiting() == Awaiting::Condition(i)
                && i < self.route_table().keys().len() && self.route_table().keys()[i as int]@ == old(run).current()@,
            a is Failed ==> final(run).awaiting() == Awaiting::Ended && a matches AdvancedAction::Failed(FlowError::Context(_)),
    {
        if run.steps >= self.max_steps {
            let shown = if self.max_steps < usize::MAX { self.max_steps + 1 } else { self.max_steps };
            let msg = join(
                join("Flow exceeded maximum steps (", decimal_string(self.max_steps as u64).as_str()).as_str(),
                ")",
            );
            proof {
                assert(msg@ == exceeded_message(self.step_limit() as nat));
            }
            return self.finish(run, shown, false, Some(msg));
        }
        run.steps = run.steps + 1;
        if run.current.is_terminal() {
            let done = run.steps - 1;
            return self.finish(run, done, true, None);
        }
        if self.middleware.len() > 0 {
            run.awaiting = Awaiting::Middleware(0);
            AdvancedAction::RunMiddleware(0)
        } else {
            self.route(run)
        }
    }

    /// Take back the outcome of the awaited middleware: an error ends the
    /// execution unsuccessfully; otherwise the next middleware runs, and after
    /// the last one the route or node of the state.
    pub fn middleware_finished(&self, run: &mut AdvancedRun<S>, outcome: Result<(), String>) -> (a: AdvancedAction<S>)
        requires
            self.wf(),
            self.run_ok(old(run)),
            old(run).awaiting() is Middleware,
        ensures
            self.run_ok(final(run)),
            final(run).current() == old(run).current(),
            final(run).steps() == old(run).steps(),
            outcome matches Err(e) ==> (a matches AdvancedAction::Done(r) && !r.success
                && r.error is Some && r.error->0@ == "Middleware error: "@ + e@
                && r.final_state@ == old(run).current()@ && r.steps == old(run).steps()
                && r.trace@ == old(run).trace()),
            outcome is Ok ==> final(run).trace() == old(run).trace(),
            outcome is Ok && old(run).awaiting()->Middleware_0 + 1 < self.middleware_list().len() ==> (
                a matches AdvancedAction::RunMiddleware(j) && j == old(run).awaiting()->Middleware_0 + 1
                && final(run).awaiting() == Awaiting::Middleware(j)),
            outcome is Ok && old(run).awaiting()->Middleware_0 + 1 == self.middleware_list().len() ==> (
                (self.route_table().contains(old(run).current()@) <==> a is EvaluateCondition)
                && (!self.route_table().contains(old(run).current()@) && self.node_table().contains(old(run).current()@)
                    <==> a is RunNode)
                && (!self.route_table().contains(old(run).current()@) && !self.node_table().contains(old(run).current()@)
                    <==> a is Failed)),
            a matches AdvancedAction::RunNode(i) ==> final(run).awaiting() == Awaiting::Node(i)
                && i < self.node_table().keys().len() && self.node_table().keys()[i as int]@ == old(run).current()@,
            a matches AdvancedAction::EvaluateCondition(i) ==> final(run).awaiting() == Awaiting::Condition(i)
                && i < self.route_table().keys().len() && self.route_table().keys()[i as int]@ == old(run).current()@,
            a is Failed ==> final(run).awaiting() == Awaiting::Ended && a matches AdvancedAction::Failed(FlowError::Context(_)),
    {
        let i = match run.awaiting {
            Awaiting::Middleware(i) => i,
            _ => 0,
        };
        match outcome {
            Err(e) => {
                let msg = join("Middleware error: ", e.as_str());
                let steps = run.steps;
                self.finish(run, steps, false, Some(msg))
            },
            Ok(()) => {
                let n = self.middleware.len();
                if i < n - 1 {
                    run.awaiting = Awaiting::Middleware(i + 1);
                    AdvancedAction::RunMiddleware(i + 1)
                } else {
                    self.route(run)
                }
            },
        }
    }

    /// Take back the value of the awaited condition: the route's true or false
    /// state becomes the current state, and the step is traced as routed.
    pub fn condition_evaluated(&self, run: &mut AdvancedRun<S>, value: bool) -> (a: AdvancedAction<S>)
        requires
            self.wf(),
            self.run_ok(old(run)),
            old(run).awaiting() is Condition,
        ensures
            self.run_ok(final(run)),
            a is Continue,
            final(run).awaiting() == Awaiting::Step,
            final(run).steps() == old(run).steps(),
            ({
                let route = self.route_table().values()[old(run).awaiting()->Condition_0 as int];
                let next = if value { route.when_true } else { route.when_false };
                &&& final(run).current()@ == next@
                &&& final(run).trace().len() == old(run).trace().len() + 1
                &&& final(run).trace().drop_last() == old(run).trace()
                &&& final(run).trace().last().step_number == old(run).steps()
                &&& final(run).trace().last().from_state@ == old(run).current()@
                &&& final(run).trace().last().to_state@ == next@
                &&& final(run).trace().last().source == StepSource::Router
            }),
    {
        let i = match run.awaiting {
            Awaiting::Condition(i) => i,
            _ => 0,
        };
        let route = self.conditions.value_at(i);
        let next = if value { route.when_true.clone_state() } else { route.when_false.clone_state() };
        let step = ExecutionStep {
            step_number: run.steps,
            from_state: run.current.clone_state(),
            to_state: next.clone_state(),
            source: StepSource::Router,
        };
        run.trace.push(step);
        run.current = next;
        run.awaiting = Awaiting::Step;
        proof {
            assert(run.trace@.drop_last() =~= old(run).trace@);
        }
        AdvancedAction::Continue
    }

    /// Take back the outcome of the awaited node: on success the node's state
    /// becomes the current state; on failure the execution ends unsuccessfully
    /// with the node's message. Either way the step is traced.
    pub fn node_finished(&self, run: &mut AdvancedRun<S>, outcome: Result<S, String>) -> (a: AdvancedAction<S>)
        requires
            self.wf(),
            self.run_ok(old(run)),
            old(run).awaiting() is Node,
        ensures
            self.run_ok(final(run)),
            final(run).steps() == old(run).steps(),
            outcome matches Ok(s) ==> a is Continue && final(run).awaiting() == Awaiting::Step
                && final(run).current() == s && final(run).trace().len() == old(run).trace().len() + 1
                && final(run).trace().drop_last() == old(run).trace()
                && final(run).trace().last().step_number == old(run).steps()
                && final(run).trace().last().from_state@ == old(run).current()@
                && final(run).trace().last().to_state@ == s@
                && final(run).trace().last().source == StepSource::Node(old(run).awaiting()->Node_0),
            outcome matches Err(e) ==> (a matches AdvancedAction::Done(r) && !r.success
                && r.error == Some(e) && r.final_state@ == old(run).current()@ && r.steps == old(run).steps()
                && r.trace@.len() == old(run).trace().len() + 1
                && r.trace@.drop_last() == old(run).trace()
                && r.trace@.last().from_state@ == old(run).current()@
                && r.trace@.last().to_state@ == old(run).current()@
                && r.trace@.last().source == StepSource::Node(old(run).awaiting()->Node_0)),
    {
        let i = match run.awaiting {
            Awaiting::Node(i) => i,
            _ => 0,
        };
        match outcome {
            Ok(s) => {
                let step = ExecutionStep {
                    step_number: run.steps,
                    from_state: run.current.clone_state(),
                    to_state: s.clone_state(),
                    source: StepSource::Node(i),
                };
                run.trace.push(step);
                run.current = s;
                run.awaiting = Awaiting::Step;
                proof {
                    assert(run.trace@.drop_last() =~= old(run).trace@);
                }
                AdvancedAction::Continue
            },
            Err(e) => {
                let step = ExecutionStep {
                    step_number: run.steps,
                    from_state: run.current.clone_state(),
                    to_state: run.current.clone_state(),
                    source: StepSource::Node(i),
                };
                run.trace.push(step);
                proof {
                    assert(run.trace@.drop_last() =~= old(run).trace@);
                }
                let steps = run.steps;
                self.finish(run, steps, false, Some(e))
            },
        }
    }
}

/// Builder for constructing advanced flows.
pub struct AdvancedFlowBuilder<S, N, M, C> {
    nodes: StateTable<S, N>,
    initial_state: Option<S>,
    name: String,
    middleware: Vec<M>,
    conditions: StateTable<S, Route<S, C>>,
    max_steps: usize,
}

impl<S: FlowState, N, M, C> AdvancedFlowBuilder<S, N, M, C> {
    pub closed spec fn node_table(&self) -> StateTable<S, N> {
        self.nodes
    }

    pub closed spec fn route_table(&self) -> StateTable<S, Route<S, C>> {
        self.conditions
    }

    pub closed spec fn middleware_list(&self) -> Seq<M> {
        self.middleware@
    }

    pub closed spec fn initial(&self) -> Option<S> {
        self.initial_state
    }

    pub closed spec fn name_view(&self) -> Seq<char> {
        self.name@
    }

    pub closed spec fn step_limit(&self) -> usize {
        self.max_steps
    }

    pub open spec fn wf(&self) -> bool {
        self.node_table().wf() && self.route_table().wf()
    }

    /// Create a new flow builder.
    pub fn new() -> (b: Self)
        ensures
            b.wf(),
            b.node_table().keys().len() == 0,
            b.route_table().keys().len() == 0,
            b.middleware_list().len() == 0,
            b.initial() is None,
            b.name_view() == "advanced_flow"@,
            b.step_limit() == DEFAULT_MAX_STEPS,
    {
        AdvancedFlowBuilder {
            nodes: StateTable::new(),
            initial_state: None,
            name: String::from_str("advanced_flow"),
            middleware: Vec::new(),
            conditions: StateTable::new(),
            max_steps: DEFAULT_MAX_STEPS,
        }
    }

    /// Set the flow name.
    pub fn name(self, name: String) -> (b: Self)
        ensures
            b.name_view() == name@,
            b.node_table() == self.node_table(),
            b.route_table() == self.route_table(),
            b.middleware_list() == self.middleware_list(),
            b.initial() == self.initial(),
            b.step_limit() == self.step_limit(),
    {
        AdvancedFlowBuilder { name, ..self }
    }

    /// Set the initial state.
    pub fn initial_state(self, state: S) -> (b: Self)
        ensures
            b.initial() == Some(state),
            b.name_view() == self.name_view(),
            b.node_table() == self.node_table(),
            b.route_table() == self.route_table(),
            b.middleware_list() == self.middleware_list(),
            b.step_limit() == self.step_limit(),
    {
        AdvancedFlowBuilder { initial_state: Some(state), ..self }
    }

    /// Set maximum number of execution steps.
    pub fn max_steps(self, max_steps: usize) -> (b: Self)
        ensures
            b.step_limit() == max_steps,
            b.initial() == self.initial(),
            b.name_view() == self.name_view(),
            b.node_table() == self.node_table(),
            b.route_table() == self.route_table(),
            b.middleware_list() == self.middleware_list(),
    {
        AdvancedFlowBuilder { max_steps, ..self }
    }

    /// Add a node for a specific state, replacing the node already set for it.
    pub fn on_state(self, state: S, node: N) -> (b: Self)
        requires
            self.wf(),
        ensures
            b.wf(),
            b.initial() == self.initial(),
            b.name_view() == self.name_view(),
            b.route_table() == self.route_table(),
            b.middleware_list() == self.middleware_list(),
            b.step_limit() == self.step_limit(),
            self.node_table().contains(state@) ==> exists|i: int|
                0 <= i < self.node_table().keys().len() && self.node_table().keys()[i]@ == state@
                && b.node_table().keys() == self.node_table().keys()
                && b.node_table().values() == self.node_table().values().update(i, node),
            !self.node_table().contains(state@) ==> b.node_table().keys() == self.node_table().keys().push(state)
                && b.node_table().values() == self.node_table().values().push(node),
    {
        let mut nodes = self.nodes;
        nodes.set(state, node);
        AdvancedFlowBuilder {
            nodes,
            initial_state: self.initial_state,
            name: self.name,
            middleware: self.middleware,
            conditions: self.conditions,
            max_steps: self.max_steps,
        }
    }

    /// Add middleware that runs before each node execution.
    pub fn middleware(self, middleware: M) -> (b: Self)
        ensures
            b.middleware_list() == self.middleware_list().push(middleware),
            b.initial() == self.initial(),
            b.name_view() == self.name_view(),
            b.node_table() == self.node_table(),
            b.route_table() == self.route_table(),
            b.step_limit() == self.step_limit(),
    {
        let mut list = self.middleware;
        list.push(middleware);
        AdvancedFlowBuilder {
            nodes: self.nodes,
            initial_state: self.initial_state,
            name: self.name,
            middleware: list,
            conditions: self.conditions,
            max_steps: self.max_steps,
        }
    }

    /// Add conditional routing for a state, replacing a route already set for it.
    pub fn when_state(self, state: S, condition: C, true_state: S, false_state: S) -> (b: Self)
        requires
            self.wf(),
        ensures
            b.wf(),
            b.initial() == self.initial(),
            b.name_view() == self.name_view(),
            b.node_table() == self.node_table(),
            b.middleware_list() == self.middleware_list(),
            b.step_limit() == self.step_limit(),
            ({
                let route = Route { condition, when_true: true_state, when_false: false_state };
                &&& self.route_table().contains(state@) ==> exists|i: int|
                    0 <= i < self.route_table().keys().len() && self.route_table().keys()[i]@ == state@
                    && b.route_table().keys() == self.route_table().keys()
                    && b.route_table().values() == self.route_table().values().update(i, route)
                &&& !self.route_table().contains(state@) ==> b.route_table().keys()
                    == self.route_table().keys().push(state)
                    && b.route_table().values() == self.route_table().values().push(route)
            }),
    {
        let mut conditions = self.conditions;
        conditions.set(state, Route { condition, when_true: true_state, when_false: false_state });
        AdvancedFlowBuilder {
            nodes: self.nodes,
            initial_state: self.initial_state,
            name: self.name,
            middleware: self.middleware,
            conditions,
            max_steps: self.max_steps,
        }
    }

    /// Build the flow: the initial state must be set, and some node or route added.
    pub fn build(self) -> (r: Result<AdvancedFlow<S, N, M, C>, FlowError>)
        requires
            self.wf(),
        ensures
            self.initial() is None ==> (r matches Err(FlowError::Construction(m))
                && m@ == "Initial state not set"@),
            self.initial() is Some && self.node_table().keys().len() == 0 && self.route_table().keys().len() == 0
                ==> (r matches Err(FlowError::Construction(m)) && m@ == "No nodes or conditions added to flow"@),
            r is Ok <==> self.initial() is Some && (self.node_table().keys().len() > 0
                || self.route_table().keys().len() > 0),
            r matches Ok(f) ==> f.wf() && f.node_table() == self.node_table() && f.route_table() == self.route_table()
                && f.middleware_list() == self.middleware_list() && Some(f.initial()) == self.initial()
                && f.name_view() == self.name_view() && f.step_limit() == self.step_limit(),
    {
        let initial_state = match self.initial_state {
            Some(s) => s,
            None => {
                return Err(FlowError::construction(String::from_str("Initial state not set")));
            },
        };
        if self.nodes.is_empty() && self.conditions.is_empty() {
            return Err(FlowError::construction(String::from_str("No nodes or conditions added to flow")));
        }
        Ok(AdvancedFlow {
            nodes: self.nodes,
            initial_state,
            name: self.name,
            middleware: self.middleware,
            conditions: self.conditions,
            max_steps: self.max_steps,
        })
    }
}

} // verus!

verus! {

/// Flow registry for managing multiple flows by name.
pub struct FlowRegistry<S, N, M, C> {
    flows: NameTable<AdvancedFlow<S, N, M, C>>,
}

impl<S: FlowState, N, M, C> FlowRegistry<S, N, M, C> {
    /// The registered flows by name.
    pub closed spec fn flow_map(&self) -> Map<Seq<char>, AdvancedFlow<S, N, M, C>> {
        self.flows.view_map()
    }

    /// The name table is well formed and every registered flow is.
    pub closed spec fn wf(&self) -> bool {
        &&& self.flows.wf()
        &&& forall|k: Seq<char>| #[trigger] self.flows.view_map().contains_key(k) ==> self.flows.view_map()[k].wf()
    }

    pub fn new() -> (r: Self)
        ensures
            r.wf(),
            r.flow_map() == Map::<Seq<char>, AdvancedFlow<S, N, M, C>>::empty(),
    {
        FlowRegistry { flows: NameTable::new() }
    }

    /// Register a flow under a name, replacing a flow registered under it before.
    pub fn register(&mut self, name: String, flow: AdvancedFlow<S, N, M, C>)
        requires
            old(self).wf(),
            flow.wf(),
        ensures
            final(self).wf(),
            final(self).flow_map() == old(self).flow_map().insert(name@, flow),
    {
        self.flows.insert(name, flow);
    }

    /// The flow registered under a name.
    pub fn get(&self, name: &str) -> (r: Option<&AdvancedFlow<S, N, M, C>>)
        requires
            self.wf(),
        ensures
            match r {
                Some(f) => self.flow_map().contains_key(name@) && *f == self.flow_map()[name@] && f.wf(),
                None => !self.flow_map().contains_key(name@),
            },
    {
        self.flows.get(name)
    }

    /// The flow to execute under a name, or the error that executing an
    /// unknown name gives.
    pub fn flow_for(&self, name: &str) -> (r: Result<&AdvancedFlow<S, N, M, C>, FlowError>)
        requires
            self.wf(),
        ensures
            match r {
                Ok(f) => self.flow_map().contains_key(name@) && *f == self.flow_map()[name@] && f.wf(),
                Err(e) => !self.flow_map().contains_key(name@) && (e matches FlowError::Construction(m)
                    && m@ == "Flow '"@ + name@ + "' not found"@),
            },
    {
        match self.flows.get(name) {
            Some(f) => Ok(f),
            None => Err(FlowError::construction(join(join("Flow '", name).as_str(), "' not found"))),
        }
    }

    /// The names of all registered flows.
    pub fn list_flows(&self) -> (v: Vec<String>)
        requires
            self.wf(),
        ensures
            forall|k: Seq<char>| self.flow_map().contains_key(k) <==> holds_view(v@, k),
            v@.len() == self.flow_map().dom().len(),
            distinct_views(v@),
    {
        proof {
            self.flows.lemma_dom_len();
        }
        self.flows.name_list()
    }
}

/// How many of the states have the view `v`.
pub open spec fn state_count<S: View>(states: Seq<S>, v: S::V) -> nat
    decreases states.len(),
{
    if states.len() == 0 {
        0
    } else {
        state_count(states.drop_last(), v) + if states.last()@ == v { 1nat } else { 0nat }
    }
}

fn count_state<S: FlowState>(states: &Vec<S>, target: &S) -> (n: usize)
    ensures
        n == state_count(states@, target@),
{
    let mut n: usize = 0;
    let mut i: usize = 0;
    assert(states@.subrange(0, 0) =~= Seq::<S>::empty());
    while i < states.len()
        invariant
            i <= states@.len(),
            n <= i,
            n == state_count(states@.subrange(0, i as int), target@),
        decreases states@.len() - i,
    {
        assert(states@.subrange(0, i + 1).drop_last() =~= states@.subrange(0, i as int));
        if states[i].same_state(target) {
            n = n + 1;
        }
        i = i + 1;
    }
    assert(states@.subrange(0, states@.len() as int) =~= states@);
    n
}

/// The position of a final state reached most often among the final states
/// of recorded executions; none when nothing was recorded.
pub fn most_common_final_state<S: FlowState>(finals: &Vec<S>) -> (r: Option<usize>)
    ensures
        r is None <==> finals@.len() == 0,
        r matches Some(i) ==> i < finals@.len() && forall|j: int|
            0 <= j < finals@.len() ==> state_count(finals@, finals@[i as int]@) >= #[trigger] state_count(
                finals@,
                finals@[j]@,
            ),
{
    if finals.len() == 0 {
        return None;
    }
    let mut best: usize = 0;
    let mut best_count = count_state(finals, &finals[0]);
    let mut i: usize = 1;
    while i < finals.len()
        invariant
            1 <= i <= finals@.len(),
            best < finals@.len(),
            best_count == state_count(finals@, finals@[best as int]@),
            forall|j: int| 0 <= j < i ==> #[trigger] state_count(finals@, finals@[j]@) <= best_count,
        decreases finals@.len() - i,
    {
        let c = count_state(finals, &finals[i]);
        if c > best_count {
            best = i;
            best_count = c;
        }
        i = i + 1;
    }
    Some(best)
}

} // verus!
