//! Simple flow orchestration: a table from states to nodes and the decisions
//! that run it.
//!
//! The nodes themselves are opaque values of type `N`; running one is work for
//! the caller. [`SimpleFlow::next_step`] says what to do next and
//! [`SimpleFlow::node_finished`] takes the node's outcome back.

use vstd::prelude::*;

use crate::error::{debug_text, FlowError};
use crate::text::join;
use crate::state::FlowState;
use crate::table::StateTable;

verus! {

/// The most steps a simple flow runs before it gives up.
pub const MAX_SIMPLE_STEPS: usize = 1000;

/// Workflow execution result.
#[derive(Debug)]
pub struct FlowResult<S> {
    /// Final execution state.
    pub final_state: S,
    /// Number of steps executed.
    pub steps: usize,
    /// Whether the flow completed successfully.
    pub success: bool,
    /// Any error that occurred.
    pub error: Option<String>,
}

/// How a run of a simple flow ends, given what its nodes return in turn.
pub enum SimpleRunEnd<S> {
    /// It reached a terminal state after this many steps.
    Completed { final_state: S, steps: nat },
    /// The node of this state failed with this message at this step.
    NodeFailed { state: S, message: Seq<char>, steps: nat },
    /// This non-terminal state has no node.
    MissingNode { state: S },
    /// It began more steps than the limit allows.
    StepLimit,
    /// It needs more node outcomes than were given.
    Pending,
}

/// Simple workflow execution engine.
pub struct SimpleFlow<S, N> {
    nodes: StateTable<S, N>,
    initial_state: S,
    name: String,
}

/// The progress of one execution of a flow.
pub struct FlowRun<S> {
    /// The state the flow is in.
    pub current: S,
    /// The number of steps begun so far.
    pub steps: usize,
}

/// What a flow asks its caller to do next.
pub enum FlowStep<S> {
    /// Run the node at this position of the flow's table on the context.
    RunNode(usize),
    /// The flow has ended with this result.
    Done(FlowResult<S>),
    /// The flow failed; no result is produced.
    Failed(FlowError),
}

impl<S: FlowState, N> SimpleFlow<S, N> {
    /// The node table.
    pub closed spec fn table(&self) -> StateTable<S, N> {
        self.nodes
    }

    /// The initial state.
    pub closed spec fn initial(&self) -> S {
        self.initial_state
    }

    /// The name.
    pub closed spec fn name_view(&self) -> Seq<char> {
        self.name@
    }

    /// The table is well formed and not empty.
    pub open spec fn wf(&self) -> bool {
        self.table().wf() && self.table().keys().len() > 0
    }

    /// How a run that is in state `current` after `steps` steps ends, when
    /// the nodes it runs return `outcomes` in turn.
    pub open spec fn run_end(&self, current: S, steps: nat, outcomes: Seq<Result<S, String>>) -> SimpleRunEnd<S>
        decreases outcomes.len(),
    {
        if steps >= MAX_SIMPLE_STEPS {
            SimpleRunEnd::StepLimit
        } else if current.terminal() {
            SimpleRunEnd::Completed { final_state: current, steps: steps + 1 }
        } else if !self.table().contains(current@) {
            SimpleRunEnd::MissingNode { state: current }
        } else if outcomes.len() == 0 {
            SimpleRunEnd::Pending
        } else {
            match outcomes[0] {
                Ok(next) => self.run_end(next, steps + 1, outcomes.drop_first()),
                Err(m) => SimpleRunEnd::NodeFailed { state: current, message: m@, steps: steps + 1 },
            }
        }
    }

    /// Create a new flow builder.
    pub fn builder() -> (b: SimpleFlowBuilder<S, N>)
        ensures
            b.wf(),
            b.table().keys().len() == 0,
            b.initial() is None,
            b.name_view() == "simple_flow"@,
    {
        SimpleFlowBuilder::new()
    }

    /// Get the flow name.
    pub fn name(&self) -> (s: &str)
        ensures
            s@ == self.name_view(),
    {
        self.name.as_str()
    }

    /// The node at a position of the table.
    pub fn node_at(&self, i: usize) -> (n: &N)
        requires
            self.wf(),
            i < self.table().keys().len(),
        ensures
            *n == self.table().values()[i as int],
    {
        self.nodes.value_at(i)
    }

    /// Begin an execution at the initial state.
    pub fn start(&self) -> (run: FlowRun<S>)
        ensures
            run.current@ == self.initial()@,
            run.current.terminal() == self.initial().terminal(),
            run.steps == 0,
    {
        FlowRun { current: self.initial_state.clone_state(), steps: 0 }
    }

    /// Decide the next step of an execution.
    ///
    /// A step begins by counting itself. Past the step limit the flow fails;
    /// at a terminal state it ends successfully, reporting every step begun,
    /// the final check included; otherwise the node registered for the current state runs, and
    /// a state without a node fails the flow.
    pub fn next_step(&self, run: &mut FlowRun<S>) -> (step: FlowStep<S>)
        requires
            self.wf(),
            old(run).steps <= MAX_SIMPLE_STEPS,
        ensures
            final(run).current == old(run).current,
            final(run).steps == old(run).steps + 1,
            old(run).steps == MAX_SIMPLE_STEPS ==> (step matches FlowStep::Failed(FlowError::Context(m))
                && m@ == "Flow exceeded maximum steps (1000)"@),
            old(run).steps < MAX_SIMPLE_STEPS && old(run).current.terminal() <==> (step matches FlowStep::Done(r)
                && r.success && r.error is None && r.final_state@ == old(run).current@
                && r.steps == old(run).steps + 1),
            old(run).steps < MAX_SIMPLE_STEPS && !old(run).current.terminal()
                && self.table().contains(old(run).current@) <==> (step matches FlowStep::RunNode(i)
                && i < self.table().keys().len() && self.table().keys()[i as int]@ == old(run).current@),
            old(run).steps < MAX_SIMPLE_STEPS && !old(run).current.terminal()
                && !self.table().contains(old(run).current@) ==> step matches FlowStep::Failed(
                FlowError::Context(m),
            ),            step is Done ==> forall|outs: Seq<Result<S, String>>| #[trigger] self.run_end(
                old(run).current,
                old(run).steps as nat,
                outs,
            ) == (SimpleRunEnd::Completed { final_state: old(run).current, steps: final(run).steps as nat }),
            step is Failed ==> forall|outs: Seq<Result<S, String>>|
                #[trigger] self.run_end(old(run).current, old(run).steps as nat, outs) is StepLimit || self.run_end(
                    old(run).current,
                    old(run).steps as nat,
                    outs,
                ) is MissingNode,
            step is RunNode ==> forall|o: Result<S, String>, outs: Seq<Result<S, String>>| #[trigger] self.run_end(
                old(run).current,
                old(run).steps as nat,
                seq![o] + outs,
            ) == match o {
                Ok(next) => self.run_end(next, final(run).steps as nat, outs),
                Err(m) => SimpleRunEnd::NodeFailed {
                    state: old(run).current,
                    message: m@,
                    steps: final(run).steps as nat,
                },
            },
    {
        run.steps = run.steps + 1;
        if run.steps > MAX_SIMPLE_STEPS {
            return FlowStep::Failed(FlowError::execution(String::from_str("Flow exceeded maximum steps (1000)")));
        }
        if run.current.is_terminal() {
            return FlowStep::Done(
                FlowResult {
                    final_state: run.current.clone_state(),
                    steps: run.steps,
                    success: true,
                    error: None,
                },
            );
        }
        match self.nodes.find(&run.current) {
            Some(i) => {
                proof {
                    assert forall|o: Result<S, String>, outs: Seq<Result<S, String>>| #[trigger] self.run_end(
                        old(run).current,
                        old(run).steps as nat,
                        seq![o] + outs,
                    ) == match o {
                        Ok(next) => self.run_end(next, run.steps as nat, outs),
                        Err(m) => SimpleRunEnd::NodeFailed { state: old(run).current, message: m@, steps: run.steps as nat },
                    } by {
                        assert((seq![o] + outs)[0] == o);
                        assert((seq![o] + outs).drop_first() =~= outs);
                    }
                }
                FlowStep::RunNode(i)
            },
            None => FlowStep::Failed(
                FlowError::execution(join("No node found for state: ", debug_text(&run.current).as_str())),
            ),
        }
    }

    /// Take back the outcome of the node that ran: on success the flow moves
    /// to the node's state and goes on; on failure it ends unsuccessfully in
    /// the state it was in, with the node's error message.
    pub fn node_finished(&self, run: &mut FlowRun<S>, outcome: Result<S, String>) -> (r: Option<FlowResult<S>>)
        ensures
            final(run).steps == old(run).steps,
            outcome is Ok <==> r is None,
            outcome matches Ok(s) ==> final(run).current == s,
            outcome matches Err(m) ==> final(run).current == old(run).current && (r matches Some(res)
                && !res.success && res.error == Some(m) && res.final_state@ == old(run).current@
                && res.steps == old(run).steps),
    {
        match outcome {
            Ok(s) => {
                run.current = s;
                None
            },
            Err(m) => Some(
                FlowResult {
                    final_state: run.current.clone_state(),
                    steps: run.steps,
                    success: false,
                    error: Some(m),
                },
            ),
        }
    }
}

/// Builder for SimpleFlow.
pub struct SimpleFlowBuilder<S, N> {
    nodes: StateTable<S, N>,
    initial_state: Option<S>,
    name: String,
}

impl<S: FlowState, N> SimpleFlowBuilder<S, N> {
    /// The node table.
    pub closed spec fn table(&self) -> StateTable<S, N> {
        self.nodes
    }

    /// The initial state, if set.
    pub closed spec fn initial(&self) -> Option<S> {
        self.initial_state
    }

    /// The name.
    pub closed spec fn name_view(&self) -> Seq<char> {
        self.name@
    }

    /// The table is well formed.
    pub open spec fn wf(&self) -> bool {
        self.table().wf()
    }

    /// Create a new flow builder.
    pub fn new() -> (b: Self)
        ensures
            b.wf(),
            b.table().keys().len() == 0,
            b.initial() is None,
            b.name_view() == "simple_flow"@,
    {
        SimpleFlowBuilder { nodes: StateTable::new(), initial_state: None, name: String::from_str("simple_flow") }
    }

    /// Set the flow name.
    pub fn name(self, name: String) -> (b: Self)
        ensures
            b.name_view() == name@,
            b.table() == self.table(),
            b.initial() == self.initial(),
    {
        SimpleFlowBuilder { name, ..self }
    }

    /// Add a node for a specific state, replacing the node already set for it.
    pub fn node(self, state: S, node: N) -> (b: Self)
        requires
            self.wf(),
        ensures
            b.wf(),
            b.name_view() == self.name_view(),
            b.initial() == self.initial(),
            self.table().contains(state@) ==> exists|i: int|
                0 <= i < self.table().keys().len() && self.table().keys()[i]@ == state@
                && b.table().keys() == self.table().keys()
                && b.table().values() == self.table().values().update(i, node),
            !self.table().contains(state@) ==> b.table().keys() == self.table().keys().push(state)
                && b.table().values() == self.table().values().push(node),
    {
        let mut nodes = self.nodes;
        nodes.set(state, node);
        SimpleFlowBuilder { nodes, initial_state: self.initial_state, name: self.name }
    }

    /// Set the initial state.
    pub fn initial_state(self, state: S) -> (b: Self)
        ensures
            b.initial() == Some(state),
            b.table() == self.table(),
            b.name_view() == self.name_view(),
    {
        SimpleFlowBuilder { initial_state: Some(state), ..self }
    }

    /// Build the flow: the initial state must be set and some node added.
    pub fn build(self) -> (r: Result<SimpleFlow<S, N>, FlowError>)
        requires
            self.wf(),
        ensures
            self.initial() is None ==> (r matches Err(FlowError::Construction(m))
                && m@ == "Initial state not set"@),
            self.initial() is Some && self.table().keys().len() == 0 ==> (r matches Err(FlowError::Construction(m))
                && m@ == "No nodes added to flow"@),
            r is Ok <==> self.initial() is Some && self.table().keys().len() > 0,
            r matches Ok(f) ==> f.wf() && f.table() == self.table() && Some(f.initial()) == self.initial()
                && f.name_view() == self.name_view(),
    {
        let initial_state = match self.initial_state {
            Some(s) => s,
            None => {
                return Err(FlowError::construction(String::from_str("Initial state not set")));
            },
        };
        if self.nodes.is_empty() {
            return Err(FlowError::construction(String::from_str("No nodes added to flow")));
        }
        Ok(SimpleFlow { nodes: self.nodes, initial_state, name: self.name })
    }
}

/// How a run of a simple flow ends, whatever its nodes return: it completes
/// only in a terminal state, within the step limit; it fails at the first
/// node error, with that node's message; it stops at a non-terminal state
/// without a node; and a run that starts in a terminal state completes at
/// once, without running a node.
pub proof fn simple_run_ends<S: FlowState, N>(
    flow: SimpleFlow<S, N>,
    current: S,
    steps: nat,
    outcomes: Seq<Result<S, String>>,
)
    ensures
        current.terminal() && steps < MAX_SIMPLE_STEPS ==> flow.run_end(current, steps, outcomes)
            == (SimpleRunEnd::Completed { final_state: current, steps: steps + 1 }),
        flow.run_end(current, steps, outcomes) matches SimpleRunEnd::Completed { final_state, steps: n }
            ==> final_state.terminal() && n <= MAX_SIMPLE_STEPS,
        flow.run_end(current, steps, outcomes) matches SimpleRunEnd::NodeFailed { message, .. } ==> exists|i: int|
            0 <= i < outcomes.len() && (#[trigger] outcomes[i] matches Err(m) && m@ == message) && forall|j: int|
                0 <= j < i ==> outcomes[j] is Ok,
        flow.run_end(current, steps, outcomes) matches SimpleRunEnd::MissingNode { state } ==> !state.terminal()
            && !flow.table().contains(state@),
    decreases outcomes.len(),
{
    if steps >= MAX_SIMPLE_STEPS || current.terminal() || !flow.table().contains(current@) || outcomes.len() == 0 {
    } else {
        match outcomes[0] {
            Ok(next) => {
                simple_run_ends(flow, next, steps + 1, outcomes.drop_first());
                let e = flow.run_end(current, steps, outcomes);
                if e is NodeFailed {
                    let i = choose|i: int| 0 <= i < outcomes.drop_first().len() && (#[trigger] outcomes.drop_first()[i] matches Err(m)
                        && m@ == e->message) && forall|j: int| 0 <= j < i ==> outcomes.drop_first()[j] is Ok;
                    assert(outcomes[i + 1] == outcomes.drop_first()[i]);
                    assert forall|j: int| 0 <= j < i + 1 implies outcomes[j] is Ok by {
                        if j > 0 {
                            assert(outcomes[j] == outcomes.drop_first()[j - 1]);
                        }
                    }
                }
            },
            Err(m) => {
                assert(outcomes[0] matches Err(x) && x@ == m@);
            },
        }
    }
}

} // verus!
