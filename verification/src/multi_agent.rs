//! Multi-agent coordination: strategies, the coordination state machine,
//! execution plans, and the decisions taken between agent runs.

use vstd::prelude::*;
use vstd::string::*;

use crate::agent_error::AgentError;
use crate::agent_types::{priority_rank, Priority};
use crate::state::FlowState;
use crate::table::NameTable;
use crate::text::{copy_strings, join, lowercase, occurs_in, str_contains, str_eq, string_views, to_lower};

verus! {

/// Multi-agent coordination strategies
#[derive(Debug, Clone)]
pub enum CoordinationStrategy {
    Sequential,
    Parallel,
    Hierarchical,
    Voting,
    RoundRobin,
    Custom(String),
}

/// Multi-agent execution states
#[derive(Debug, Clone)]
pub enum MultiAgentState {
    Ready,
    Planning,
    Executing { active_agents: Vec<String>, completed_agents: Vec<String> },
    Waiting { agent_name: String },
    Coordinating,
    Completed { final_result: String },
    Failed { error: String },
}

/// The abstract value of a [`MultiAgentState`].
pub enum MultiAgentStateView {
    Ready,
    Planning,
    Executing { active_agents: Seq<Seq<char>>, completed_agents: Seq<Seq<char>> },
    Waiting { agent_name: Seq<char> },
    Coordinating,
    Completed { final_result: Seq<char> },
    Failed { error: Seq<char> },
}

impl View for MultiAgentState {
    type V = MultiAgentStateView;

    open spec fn view(&self) -> MultiAgentStateView {
        match self {
            MultiAgentState::Ready => MultiAgentStateView::Ready,
            MultiAgentState::Planning => MultiAgentStateView::Planning,
            MultiAgentState::Executing { active_agents, completed_agents } => MultiAgentStateView::Executing {
                active_agents: string_views(active_agents@),
                completed_agents: string_views(completed_agents@),
            },
            MultiAgentState::Waiting { agent_name } => MultiAgentStateView::Waiting { agent_name: agent_name@ },
            MultiAgentState::Coordinating => MultiAgentStateView::Coordinating,
            MultiAgentState::Completed { final_result } => MultiAgentStateView::Completed {
                final_result: final_result@,
            },
            MultiAgentState::Failed { error } => MultiAgentStateView::Failed { error: error@ },
        }
    }
}

/// Whether two lists of strings hold the same strings in the same order.
fn same_strings(a: &Vec<String>, b: &Vec<String>) -> (r: bool)
    ensures
        r == (string_views(a@) == string_views(b@)),
{
    if a.len() != b.len() {
        proof {
            assert(string_views(a@).len() != string_views(b@).len());
        }
        return false;
    }
    let mut i: usize = 0;
    while i < a.len()
        invariant
            a@.len() == b@.len(),
            i <= a@.len(),
            forall|j: int| 0 <= j < i ==> a@[j]@ == b@[j]@,
        decreases a@.len() - i,
    {
        if !crate::text::str_eq(a[i].as_str(), b[i].as_str()) {
            proof {
                assert(string_views(a@)[i as int] != string_views(b@)[i as int]);
            }
            return false;
        }
        i = i + 1;
    }
    proof {
        assert(string_views(a@) =~= string_views(b@));
    }
    true
}

impl FlowState for MultiAgentState {
    /// Completed and Failed end the coordination.
    open spec fn terminal(&self) -> bool {
        self is Completed || self is Failed
    }

    /// A finished coordination goes nowhere; any other state goes anywhere.
    open spec fn allows(&self, target: &Self) -> bool {
        !self.terminal()
    }

    fn is_terminal(&self) -> (b: bool) {
        matches!(self, MultiAgentState::Completed { .. } | MultiAgentState::Failed { .. })
    }

    fn can_transition_to(&self, target: &Self) -> (b: bool) {
        !self.is_terminal()
    }

    fn same_state(&self, other: &Self) -> (b: bool) {
        match self {
            MultiAgentState::Ready => matches!(other, MultiAgentState::Ready),
            MultiAgentState::Planning => matches!(other, MultiAgentState::Planning),
            MultiAgentState::Coordinating => matches!(other, MultiAgentState::Coordinating),
            MultiAgentState::Executing { active_agents: a1, completed_agents: c1 } => match other {
                MultiAgentState::Executing { active_agents: a2, completed_agents: c2 } => {
                    let x = same_strings(a1, a2);
                    let y = same_strings(c1, c2);
                    x && y
                },
                _ => false,
            },
            MultiAgentState::Waiting { agent_name: n1 } => match other {
                MultiAgentState::Waiting { agent_name: n2 } => crate::text::str_eq(n1.as_str(), n2.as_str()),
                _ => false,
            },
            MultiAgentState::Completed { final_result: r1 } => match other {
                MultiAgentState::Completed { final_result: r2 } => crate::text::str_eq(r1.as_str(), r2.as_str()),
                _ => false,
            },
            MultiAgentState::Failed { error: e1 } => match other {
                MultiAgentState::Failed { error: e2 } => crate::text::str_eq(e1.as_str(), e2.as_str()),
                _ => false,
            },
        }
    }

    fn clone_state(&self) -> (s: Self) {
        match self {
            MultiAgentState::Ready => MultiAgentState::Ready,
            MultiAgentState::Planning => MultiAgentState::Planning,
            MultiAgentState::Coordinating => MultiAgentState::Coordinating,
            MultiAgentState::Executing { active_agents, completed_agents } => MultiAgentState::Executing {
                active_agents: copy_strings(active_agents),
                completed_agents: copy_strings(completed_agents),
            },
            MultiAgentState::Waiting { agent_name } => MultiAgentState::Waiting { agent_name: agent_name.clone() },
            MultiAgentState::Completed { final_result } => MultiAgentState::Completed {
                final_result: final_result.clone(),
            },
            MultiAgentState::Failed { error } => MultiAgentState::Failed { error: error.clone() },
        }
    }
}

/// Execution phase in a plan. The timeout is a duration when set.
#[derive(Debug, Clone)]
pub struct ExecutionPhase {
    pub name: String,
    pub agents: Vec<String>,
    pub strategy: CoordinationStrategy,
    pub timeout: Option<std::time::Duration>,
}

impl ExecutionPhase {
    /// A phase running the agents in parallel, without a timeout.
    pub fn new(name: &str, agents: Vec<String>) -> (p: Self)
        ensures
            p.name@ == name@,
            p.agents == agents,
            p.strategy is Parallel,
            p.timeout is None,
    {
        ExecutionPhase { name: String::from_str(name), agents, strategy: CoordinationStrategy::Parallel, timeout: None }
    }

    pub fn with_strategy(self, strategy: CoordinationStrategy) -> (p: Self)
        ensures
            p.strategy == strategy,
            p.name == self.name,
            p.agents == self.agents,
            p.timeout == self.timeout,
    {
        ExecutionPhase { strategy, ..self }
    }

    pub fn with_timeout(self, timeout: std::time::Duration) -> (p: Self)
        ensures
            p.timeout == Some(timeout),
            p.name == self.name,
            p.agents == self.agents,
            p.strategy == self.strategy,
    {
        ExecutionPhase { timeout: Some(timeout), ..self }
    }
}

/// Execution plan for complex multi-agent workflows.
#[derive(Debug)]
pub struct ExecutionPlan {
    pub phases: Vec<ExecutionPhase>,
    pub dependencies: NameTable<Vec<String>>,
    pub timeout: Option<std::time::Duration>,
}

impl ExecutionPlan {
    /// An empty plan.
    pub fn new() -> (p: Self)
        ensures
            p.phases@.len() == 0,
            p.dependencies.wf(),
            p.dependencies.view_map() == Map::<Seq<char>, Vec<String>>::empty(),
            p.timeout is None,
    {
        ExecutionPlan { phases: Vec::new(), dependencies: NameTable::new(), timeout: None }
    }

    /// Append a phase.
    pub fn add_phase(self, phase: ExecutionPhase) -> (p: Self)
        ensures
            p.phases@ == self.phases@.push(phase),
            p.dependencies == self.dependencies,
            p.timeout == self.timeout,
    {
        let mut phases = self.phases;
        phases.push(phase);
        ExecutionPlan { phases, dependencies: self.dependencies, timeout: self.timeout }
    }

    /// Record which agents an agent depends on, replacing earlier dependencies.
    pub fn add_dependency(self, agent: &str, depends_on: Vec<String>) -> (p: Self)
        requires
            self.dependencies.wf(),
        ensures
            p.dependencies.wf(),
            p.dependencies.view_map() == self.dependencies.view_map().insert(agent@, depends_on),
            p.phases == self.phases,
            p.timeout == self.timeout,
    {
        let mut dependencies = self.dependencies;
        dependencies.insert(String::from_str(agent), depends_on);
        ExecutionPlan { phases: self.phases, dependencies, timeout: self.timeout }
    }

    pub fn with_timeout(self, timeout: std::time::Duration) -> (p: Self)
        ensures
            p.timeout == Some(timeout),
            p.phases == self.phases,
            p.dependencies == self.dependencies,
    {
        ExecutionPlan { timeout: Some(timeout), ..self }
    }
}

/// How a coordination runs its agents.
#[derive(Debug, Clone, Copy, PartialEq, Eq)]
pub enum CoordinationMode {
    Sequential,
    Parallel,
    Hierarchical,
    Voting,
    RoundRobin,
}

/// The way a strategy runs, or the error for a strategy that cannot run.
pub fn coordination_mode(strategy: &CoordinationStrategy) -> (r: Result<CoordinationMode, AgentError>)
    ensures
        strategy is Sequential <==> r == Ok::<CoordinationMode, AgentError>(CoordinationMode::Sequential),
        strategy is Parallel <==> r == Ok::<CoordinationMode, AgentError>(CoordinationMode::Parallel),
        strategy is Hierarchical <==> r == Ok::<CoordinationMode, AgentError>(CoordinationMode::Hierarchical),
        strategy is Voting <==> r == Ok::<CoordinationMode, AgentError>(CoordinationMode::Voting),
        strategy is RoundRobin <==> r == Ok::<CoordinationMode, AgentError>(CoordinationMode::RoundRobin),
        strategy is Custom <==> (r matches Err(AgentError::Coordination(m))
            && m@ == "Custom strategies not yet implemented"@),
{
    match strategy {
        CoordinationStrategy::Sequential => Ok(CoordinationMode::Sequential),
        CoordinationStrategy::Parallel => Ok(CoordinationMode::Parallel),
        CoordinationStrategy::Hierarchical => Ok(CoordinationMode::Hierarchical),
        CoordinationStrategy::Voting => Ok(CoordinationMode::Voting),
        CoordinationStrategy::RoundRobin => Ok(CoordinationMode::RoundRobin),
        CoordinationStrategy::Custom(_) => Err(AgentError::coordination("Custom strategies not yet implemented")),
    }
}

/// `order` lists each position below `n` exactly once.
pub open spec fn is_permutation(order: Seq<usize>, n: nat) -> bool {
    &&& order.len() == n
    &&& forall|i: int| 0 <= i < order.len() ==> order[i] < n
    &&& forall|i: int, j: int| 0 <= i < j < order.len() ==> order[i] != order[j]
}

/// The order in which sequential coordination runs agents: highest priority
/// first, agents of equal priority in their given order.
pub fn sequential_order(priorities: &Vec<Priority>) -> (order: Vec<usize>)
    ensures
        is_permutation(order@, priorities@.len()),
        forall|i: int, j: int| 0 <= i < j < order@.len() ==> priority_rank(priorities@[order@[i] as int])
            >= priority_rank(priorities@[order@[j] as int]),
        forall|i: int, j: int| 0 <= i < j < order@.len() && priority_rank(priorities@[order@[i] as int])
            == priority_rank(priorities@[order@[j] as int]) ==> order@[i] < order@[j],
{
    let mut order: Vec<usize> = Vec::new();
    let mut rank: u8 = 4;
    // take the agents rank by rank, from Critical down to Low
    while rank > 0
        invariant
            rank <= 4,
            forall|i: int| 0 <= i < order@.len() ==> order@[i] < priorities@.len(),
            forall|i: int, j: int| 0 <= i < j < order@.len() ==> order@[i] != order@[j],
            forall|i: int| 0 <= i < order@.len() ==> priority_rank(priorities@[order@[i] as int]) >= rank,
            forall|k: int| 0 <= k < priorities@.len() && priority_rank(priorities@[k]) >= rank
                ==> order@.contains(k as usize),
            forall|i: int, j: int| 0 <= i < j < order@.len() ==> priority_rank(priorities@[order@[i] as int])
                >= priority_rank(priorities@[order@[j] as int]),
            forall|i: int, j: int| 0 <= i < j < order@.len() && priority_rank(priorities@[order@[i] as int])
                == priority_rank(priorities@[order@[j] as int]) ==> order@[i] < order@[j],
        decreases rank,
    {
        rank = rank - 1;
        let ghost before = order@;
        let mut k: usize = 0;
        while k < priorities.len()
            invariant
                rank < 4,
                k <= priorities@.len(),
                order@.len() >= before.len(),
                order@.subrange(0, before.len() as int) == before,
                forall|i: int| 0 <= i < before.len() ==> priority_rank(priorities@[before[i] as int]) > rank,
                forall|i: int| before.len() <= i < order@.len() ==> priority_rank(priorities@[order@[i] as int])
                    == rank && order@[i] < k,
                forall|i: int| 0 <= i < order@.len() ==> order@[i] < priorities@.len(),
                forall|i: int, j: int| 0 <= i < j < order@.len() ==> order@[i] != order@[j],
                forall|i: int, j: int| before.len() <= i < j < order@.len() ==> order@[i] < order@[j],
                forall|q: int| 0 <= q < k && priority_rank(priorities@[q]) == rank ==> order@.contains(q as usize),
                forall|q: int| 0 <= q < priorities@.len() && priority_rank(priorities@[q]) > rank
                    ==> before.contains(q as usize),
                forall|i: int, j: int| 0 <= i < j < before.len() ==> priority_rank(priorities@[before[i] as int])
                    >= priority_rank(priorities@[before[j] as int]),
                forall|i: int, j: int| 0 <= i < j < before.len() && priority_rank(priorities@[before[i] as int])
                    == priority_rank(priorities@[before[j] as int]) ==> before[i] < before[j],
            decreases priorities@.len() - k,
        {
            if priorities[k].rank() == rank {
                let ghost prev = order@;
                order.push(k);
                proof {
                    assert(order@.subrange(0, before.len() as int) =~= prev.subrange(0, before.len() as int));
                    assert forall|q: int| 0 <= q < k + 1 && priority_rank(priorities@[q]) == rank implies order@.contains(q as usize) by {
                        if q < k {
                            let w = choose|w: int| 0 <= w < prev.len() && prev[w] == q as usize;
                            assert(order@[w] == q as usize);
                        } else {
                            assert(order@[order@.len() - 1] == q as usize);
                        }
                    }
                    assert forall|i: int, j: int| 0 <= i < j < order@.len() implies order@[i] != order@[j] by {
                        if j == order@.len() - 1 && i >= before.len() {
                            assert(order@[i] < k);
                        } else if j == order@.len() - 1 {
                            assert(order@[i] == prev[i]);
                            assert(prev.subrange(0, before.len() as int)[i] == before[i]);
                            assert(priority_rank(priorities@[order@[i] as int]) > rank);
                        }
                    }
                }
            }
            k = k + 1;
        }
        proof {
            assert forall|q: int| 0 <= q < priorities@.len() && priority_rank(priorities@[q]) >= rank implies order@.contains(q as usize) by {
                if priority_rank(priorities@[q]) > rank {
                    let w = choose|w: int| 0 <= w < before.len() && before[w] == q as usize;
                    assert(order@[w] == before[w]);
                }
            }
            assert forall|i: int| 0 <= i < order@.len() implies priority_rank(priorities@[order@[i] as int]) >= rank by {
                if i < before.len() {
                    assert(order@[i] == before[i]);
                }
            }
            assert forall|i: int, j: int| 0 <= i < j < order@.len() implies priority_rank(priorities@[order@[i] as int])
                >= priority_rank(priorities@[order@[j] as int]) by {
                if j < before.len() {
                    assert(order@[i] == before[i]);
                    assert(order@[j] == before[j]);
                } else if i < before.len() {
                    assert(order@[i] == before[i]);
                }
            }
            assert forall|i: int, j: int| 0 <= i < j < order@.len() && priority_rank(priorities@[order@[i] as int])
                == priority_rank(priorities@[order@[j] as int]) implies order@[i] < order@[j] by {
                if j < before.len() {
                    assert(order@[i] == before[i]);
                    assert(order@[j] == before[j]);
                } else if i < before.len() {
                    assert(order@[i] == before[i]);
                }
            }
        }
    }
    proof {
        // every position occurs, and none twice: the order is a permutation
        let n = priorities@.len();
        assert(n == priorities.len());
        assert forall|q: usize| q < n implies #[trigger] order@.contains(q) by {
            assert(priority_rank(priorities@[q as int]) >= 0);
        }
        lemma_distinct_bounded_cover(order@, n);
    }
    order
}

/// A sequence of distinct positions below `n` that contains every position
/// below `n` has length `n`.
proof fn lemma_distinct_bounded_cover(order: Seq<usize>, n: nat)
    requires
        n <= usize::MAX,
        forall|i: int| 0 <= i < order.len() ==> order[i] < n,
        forall|i: int, j: int| 0 <= i < j < order.len() ==> order[i] != order[j],
        forall|q: usize| q < n ==> #[trigger] order.contains(q),
    ensures
        order.len() == n,
{
    let ints = order.map_values(|x: usize| x as int);
    assert(ints.no_duplicates()) by {
        assert forall|i: int, j: int| 0 <= i < ints.len() && 0 <= j < ints.len() && i != j implies ints[i] != ints[j] by {
            if i < j {
                assert(order[i] != order[j]);
            } else {
                assert(order[j] != order[i]);
            }
        }
    }
    ints.unique_seq_to_set();
    let full = vstd::set_lib::set_int_range(0, n as int);
    assert(ints.to_set() =~= full) by {
        assert forall|q: int| ints.to_set().contains(q) <==> full.contains(q) by {
            if 0 <= q < n {
                assert(order.contains(q as usize));
                let w = choose|w: int| 0 <= w < order.len() && order[w] == q as usize;
                assert(ints[w] == q);
            }
            if ints.to_set().contains(q) {
                let w = choose|w: int| 0 <= w < ints.len() && ints[w] == q;
                assert(order[w] < n);
            }
        }
    }
    vstd::set_lib::lemma_int_range(0, n as int);
}

/// Whether an answer of round-robin coordination reads as final: its
/// lower-case form mentions "final" or "complete".
pub fn reads_as_final(answer: &str) -> (b: bool)
    ensures
        b == (occurs_in(lowercase(answer@), "final"@) || occurs_in(lowercase(answer@), "complete"@)),
{
    let lower = to_lower(answer);
    str_contains(lower.as_str(), "final") || str_contains(lower.as_str(), "complete")
}

/// The state a multi-agent node ends in after its coordination: Completed
/// with the final result on success, otherwise Failed with the error, or a
/// generic message when there is none.
pub fn coordination_outcome(success: bool, final_result: String, error: Option<String>) -> (s: MultiAgentState)
    ensures
        success ==> s == (MultiAgentState::Completed { final_result }),
        !success && error is Some ==> s == (MultiAgentState::Failed { error: error->0 }),
        !success && error is None ==> (s is Failed && s->Failed_error@ == "Unknown multi-agent error"@),
{
    if success {
        MultiAgentState::Completed { final_result }
    } else {
        match error {
            Some(e) => MultiAgentState::Failed { error: e },
            None => MultiAgentState::Failed { error: String::from_str("Unknown multi-agent error") },
        }
    }
}

/// How an agent's run ended, as coordination sees it.
#[derive(Debug, Clone)]
pub struct AgentOutcome {
    pub success: bool,
    pub final_answer: Option<String>,
    pub error: Option<String>,
}

/// What sequential coordination does after an agent's run.
#[derive(Debug)]
pub enum SequentialStep {
    /// Go on to the next agent; its input is the answer, when there is one.
    Continue { next_input: Option<String> },
    /// Stop the coordination with this error.
    Stop { error: String },
}

/// The step after an agent of sequential coordination ran (`Err` when the
/// run itself failed): a success passes its answer on; a failure stops with
/// the agent's error (or `Agent failed`); an error stops too.
pub fn sequential_step(agent_name: &str, run: &Result<AgentOutcome, String>) -> (s: SequentialStep)
    ensures
        match run {
            Ok(o) => if o.success {
                s matches SequentialStep::Continue { next_input } && next_input == o.final_answer
            } else {
                s matches SequentialStep::Stop { error } && error@ == "Agent '"@ + agent_name@ + "' failed: "@
                    + match o.error {
                    Some(e) => e@,
                    None => "Agent failed"@,
                }
            },
            Err(e) => s matches SequentialStep::Stop { error } && error@ == "Agent '"@ + agent_name@ + "' error: "@ + e@,
        },
{
    let head = join("Agent '", agent_name);
    match run {
        Ok(o) => {
            if o.success {
                SequentialStep::Continue { next_input: o.final_answer.clone() }
            } else {
                let why = match &o.error {
                    Some(e) => e.clone(),
                    None => String::from_str("Agent failed"),
                };
                let a = join(head.as_str(), "' failed: ");
                SequentialStep::Stop { error: join(a.as_str(), why.as_str()) }
            }
        },
        Err(e) => {
            let a = join(head.as_str(), "' error: ");
            SequentialStep::Stop { error: join(a.as_str(), e.as_str()) }
        },
    }
}

/// Some run succeeded.
pub open spec fn any_success(os: Seq<AgentOutcome>) -> bool {
    exists|i: int| 0 <= i < os.len() && #[trigger] os[i].success
}

/// The answer of the last successful run that gave one, else nothing.
pub open spec fn last_success_answer(os: Seq<AgentOutcome>) -> Seq<char>
    decreases os.len(),
{
    if os.len() == 0 {
        Seq::empty()
    } else if os.last().success && os.last().final_answer is Some {
        os.last().final_answer->0@
    } else {
        last_success_answer(os.drop_last())
    }
}

/// The result of parallel coordination from the runs in the order they
/// finished: the answer of the last successful run that gave one when any
/// run succeeded, else the failure `All agents failed`.
pub fn parallel_outcome(outcomes: &Vec<AgentOutcome>) -> (r: Result<String, String>)
    ensures
        any_success(outcomes@) ==> (r matches Ok(f) && f@ == last_success_answer(outcomes@)),
        !any_success(outcomes@) ==> (r matches Err(e) && e@ == "All agents failed"@),
{
    let mut has_success = false;
    let mut final_result = String::new();
    let mut i: usize = 0;
    assert(outcomes@.subrange(0, 0) =~= Seq::<AgentOutcome>::empty());
    while i < outcomes.len()
        invariant
            i <= outcomes@.len(),
            has_success == any_success(outcomes@.subrange(0, i as int)),
            final_result@ == last_success_answer(outcomes@.subrange(0, i as int)),
        decreases outcomes@.len() - i,
    {
        let ghost pre = outcomes@.subrange(0, i as int);
        let ghost cur = outcomes@.subrange(0, i + 1);
        assert(cur.drop_last() =~= pre);
        assert(cur.last() == outcomes@[i as int]);
        if outcomes[i].success {
            has_success = true;
            assert(cur[i as int].success);
            if let Some(a) = &outcomes[i].final_answer {
                final_result = a.clone();
            }
        } else {
            assert(any_success(cur) == any_success(pre)) by {
                if any_success(cur) {
                    let w = choose|w: int| 0 <= w < cur.len() && #[trigger] cur[w].success;
                    assert(w < i);
                    assert(pre[w].success);
                }
            }
        }
        if has_success {
            assert(any_success(cur)) by {
                if !outcomes@[i as int].success {
                    let w = choose|w: int| 0 <= w < pre.len() && #[trigger] pre[w].success;
                    assert(cur[w].success);
                }
            }
        }
        i = i + 1;
    }
    assert(outcomes@.subrange(0, i as int) =~= outcomes@);
    if has_success {
        Ok(final_result)
    } else {
        Err(String::from_str("All agents failed"))
    }
}

/// How many times an answer occurs among some answers.
pub open spec fn votes_for(answers: Seq<Seq<char>>, a: Seq<char>) -> nat
    decreases answers.len(),
{
    if answers.len() == 0 {
        0
    } else {
        votes_for(answers.drop_last(), a) + if answers.last() == a { 1nat } else { 0nat }
    }
}

pub(crate) fn count_votes(answers: &Vec<String>, a: &str) -> (n: usize)
    ensures
        n == votes_for(string_views(answers@), a@),
{
    let mut n: usize = 0;
    let mut i: usize = 0;
    assert(string_views(answers@.subrange(0, 0)) =~= Seq::<Seq<char>>::empty());
    while i < answers.len()
        invariant
            i <= answers@.len(),
            n == votes_for(string_views(answers@.subrange(0, i as int)), a@),
            n <= i,
        decreases answers@.len() - i,
    {
        assert(string_views(answers@.subrange(0, i + 1)).drop_last() =~= string_views(answers@.subrange(0, i as int)));
        if str_eq(answers[i].as_str(), a) {
            n = n + 1;
        }
        i = i + 1;
    }
    assert(answers@.subrange(0, i as int) =~= answers@);
    n
}

/// The answer with the most votes: one that some run gave, and that no
/// other answer outnumbers (the first such, where several tie). `None` when
/// there are no answers.
pub fn vote(answers: &Vec<String>) -> (w: Option<String>)
    ensures
        answers@.len() == 0 <==> w is None,
        w matches Some(x) ==> {
            &&& exists|i: int| 0 <= i < answers@.len() && answers@[i]@ == x@
            &&& forall|i: int| 0 <= i < answers@.len() ==> votes_for(string_views(answers@), #[trigger] answers@[i]@)
                <= votes_for(string_views(answers@), x@)
        },
{
    if answers.len() == 0 {
        return None;
    }
    let mut best: usize = 0;
    let mut best_votes = count_votes(answers, answers[0].as_str());
    let mut i: usize = 1;
    while i < answers.len()
        invariant
            1 <= i <= answers@.len(),
            best < answers@.len(),
            best_votes == votes_for(string_views(answers@), answers@[best as int]@),
            forall|j: int| 0 <= j < i ==> votes_for(string_views(answers@), #[trigger] answers@[j]@) <= best_votes,
        decreases answers@.len() - i,
    {
        let c = count_votes(answers, answers[i].as_str());
        if c > best_votes {
            best = i;
            best_votes = c;
        }
        i = i + 1;
    }
    Some(answers[best].clone())
}

/// The rounds round-robin coordination runs at most.
pub const MAX_ROUNDS: usize = 3;

/// What round-robin coordination does after a run.
#[derive(Debug)]
pub enum RoundRobinStep {
    /// Finish with this answer.
    Finish(String),
    /// Continue; the following runs take this text as their input.
    Refine(String),
    /// Continue with the same task.
    Keep,
}

/// The task that asks the next agent to improve an answer.
pub fn refine_task(answer: &str) -> (t: String)
    ensures
        t@ == "Previous result: "@ + answer@ + "\n\nRefine or improve this result."@,
{
    let a = join("Previous result: ", answer);
    join(a.as_str(), "\n\nRefine or improve this result.")
}

/// The step after a run in round `round` (from one): a successful answer
/// finishes the coordination when it reads as final or the round is the
/// last, else it becomes the next task; other runs change nothing.
pub fn round_robin_step(round: usize, success: bool, answer: Option<&str>) -> (s: RoundRobinStep)
    ensures
        match answer {
            Some(a) if success => if occurs_in(lowercase(a@), "final"@) || occurs_in(lowercase(a@), "complete"@)
                || round == MAX_ROUNDS {
                s matches RoundRobinStep::Finish(f) && f@ == a@
            } else {
                s matches RoundRobinStep::Refine(t) && t@ == "Previous result: "@ + a@ + "\n\nRefine or improve this result."@
            },
            _ => s is Keep,
        },
{
    match answer {
        Some(a) => {
            if success {
                if reads_as_final(a) || round == MAX_ROUNDS {
                    RoundRobinStep::Finish(String::from_str(a))
                } else {
                    RoundRobinStep::Refine(refine_task(a))
                }
            } else {
                RoundRobinStep::Keep
            }
        },
        None => RoundRobinStep::Keep,
    }
}

/// The result of hierarchical coordination: without a coordinator it cannot
/// run; else the coordinator's answer (or nothing) when it succeeded, its
/// error (or `Coordinator failed`) when it failed, and the run's error when
/// the run itself failed.
pub fn hierarchical_outcome(has_coordinator: bool, run: &Result<AgentOutcome, String>) -> (r: Result<
    Result<String, String>,
    AgentError,
>)
    ensures
        !has_coordinator ==> (r matches Err(AgentError::Configuration(m)) && m@
            == "Hierarchical strategy requires a coordinator agent"@),
        has_coordinator ==> match run {
            Ok(o) => if o.success {
                r matches Ok(Ok(f)) && f@ == match o.final_answer {
                    Some(a) => a@,
                    None => Seq::empty(),
                }
            } else {
                r matches Ok(Err(e)) && e@ == match o.error {
                    Some(x) => x@,
                    None => "Coordinator failed"@,
                }
            },
            Err(e) => r matches Ok(Err(x)) && x@ == e@,
        },
{
    if !has_coordinator {
        return Err(AgentError::configuration("Hierarchical strategy requires a coordinator agent"));
    }
    match run {
        Ok(o) => {
            if o.success {
                Ok(
                    Ok(
                        match &o.final_answer {
                            Some(a) => a.clone(),
                            None => String::new(),
                        },
                    ),
                )
            } else {
                Ok(
                    Err(
                        match &o.error {
                            Some(e) => e.clone(),
                            None => String::from_str("Coordinator failed"),
                        },
                    ),
                )
            }
        },
        Err(e) => Ok(Err(e.clone())),
    }
}

/// Multi-agent coordination never leaves Completed or Failed, and may move
/// from any other state to any state.
pub proof fn multi_agent_terminal_states_are_final(s: MultiAgentState, t: MultiAgentState)
    ensures
        s.terminal() ==> !s.allows(&t),
        !s.terminal() ==> s.allows(&t),
{
}

/// The answer a vote elects is never outvoted: no answer has more votes.
pub proof fn vote_winner_is_never_outvoted(answers: Seq<Seq<char>>, winner: Seq<char>)
    requires
        forall|i: int| 0 <= i < answers.len() ==> votes_for(answers, #[trigger] answers[i]) <= votes_for(answers, winner),
    ensures
        forall|a: Seq<char>| answers.contains(a) ==> votes_for(answers, a) <= votes_for(answers, winner),
{
    assert forall|a: Seq<char>| answers.contains(a) implies votes_for(answers, a) <= votes_for(answers, winner) by {
        let i = choose|i: int| 0 <= i < answers.len() && answers[i] == a;
        assert(votes_for(answers, answers[i]) <= votes_for(answers, winner));
    }
}

/// The answer of a sequential run that went through every agent: the last
/// agent's answer, or `No final result` when it gave none.
pub fn sequential_result(last_answer: Option<&String>) -> (r: String)
    ensures
        match last_answer {
            Some(a) => r@ == a@,
            None => r@ == "No final result"@,
        },
{
    match last_answer {
        Some(a) => a.clone(),
        None => String::from_str("No final result"),
    }
}

/// The last successful outcome, if any.
pub open spec fn last_success(os: Seq<AgentOutcome>) -> Option<AgentOutcome>
    decreases os.len(),
{
    if os.len() == 0 {
        None
    } else if os.last().success {
        Some(os.last())
    } else {
        last_success(os.drop_last())
    }
}

/// The answer of a round-robin run whose rounds ran out: the answer of the
/// last successful outcome, or a note that none was reached.
pub fn round_robin_result(outcomes: &Vec<AgentOutcome>) -> (r: String)
    ensures
        match last_success(outcomes@) {
            Some(o) if o.final_answer is Some => r@ == o.final_answer->0@,
            _ => r@ == "Round-robin completed without final answer"@,
        },
{
    let mut i: usize = outcomes.len();
    assert(outcomes@.subrange(0, outcomes@.len() as int) =~= outcomes@);
    while i > 0
        invariant
            i <= outcomes@.len(),
            last_success(outcomes@) == last_success(outcomes@.subrange(0, i as int)),
        decreases i,
    {
        assert(outcomes@.subrange(0, i as int).drop_last() =~= outcomes@.subrange(0, i - 1));
        if outcomes[i - 1].success {
            return match &outcomes[i - 1].final_answer {
                Some(a) => a.clone(),
                None => String::from_str("Round-robin completed without final answer"),
            };
        }
        i = i - 1;
    }
    String::from_str("Round-robin completed without final answer")
}

} // verus!
