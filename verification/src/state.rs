//! Workflow states and the transitions between them.

use vstd::prelude::*;

use crate::json::JsonValue;

verus! {

/// A state of a workflow.
///
/// A state says whether it ends the workflow and which states it may move to.
/// Two states are the same when their views agree.
pub trait FlowState: Sized + View + std::fmt::Debug {
    /// Whether the state ends the workflow.
    spec fn terminal(&self) -> bool;

    /// Whether the state may move to `target`.
    spec fn allows(&self, target: &Self) -> bool;

    /// Returns true if this is a terminal state (workflow should stop).
    fn is_terminal(&self) -> (b: bool)
        ensures
            b == self.terminal(),
    ;

    /// Returns true if this state can transition to the target state.
    fn can_transition_to(&self, target: &Self) -> (b: bool)
        ensures
            b == self.allows(target),
    ;

    /// Whether two states are the same state.
    fn same_state(&self, other: &Self) -> (b: bool)
        ensures
            b == (self@ == other@),
    ;

    /// A copy of the state.
    fn clone_state(&self) -> (s: Self)
        ensures
            s@ == self@,
            s.terminal() == self.terminal(),
    ;
}

/// The abstract value of a [`SimpleState`].
pub enum SimpleStateView {
    Start,
    Processing,
    Success,
    Error,
    Custom(Seq<char>),
}

/// A simple enum-based state for basic workflows.
#[derive(Debug)]
pub enum SimpleState {
    /// Initial state
    Start,
    /// Processing state
    Processing,
    /// Successful completion
    Success,
    /// Error state
    Error,
    /// Custom state with a name
    Custom(String),
}

impl View for SimpleState {
    type V = SimpleStateView;

    open spec fn view(&self) -> SimpleStateView {
        match self {
            SimpleState::Start => SimpleStateView::Start,
            SimpleState::Processing => SimpleStateView::Processing,
            SimpleState::Success => SimpleStateView::Success,
            SimpleState::Error => SimpleStateView::Error,
            SimpleState::Custom(name) => SimpleStateView::Custom(name@),
        }
    }
}

impl SimpleStateView {
    /// Success and Error end a workflow.
    pub open spec fn is_end(self) -> bool {
        self is Success || self is Error
    }

    /// Terminal states go nowhere; Start goes anywhere; Processing goes to a
    /// terminal state; a custom state goes to any non-terminal state.
    pub open spec fn may_move_to(self, target: SimpleStateView) -> bool {
        if self.is_end() {
            false
        } else if self is Start {
            true
        } else if self is Processing {
            target.is_end()
        } else {
            !target.is_end()
        }
    }
}

impl FlowState for SimpleState {
    open spec fn terminal(&self) -> bool {
        self@.is_end()
    }

    open spec fn allows(&self, target: &Self) -> bool {
        self@.may_move_to(target@)
    }

    fn is_terminal(&self) -> (b: bool) {
        matches!(self, SimpleState::Success | SimpleState::Error)
    }

    fn can_transition_to(&self, target: &Self) -> (b: bool) {
        match self {
            SimpleState::Success | SimpleState::Error => false,
            SimpleState::Start => true,
            SimpleState::Processing => target.is_terminal(),
            SimpleState::Custom(_) => !target.is_terminal(),
        }
    }

    fn same_state(&self, other: &Self) -> (b: bool) {
        match self {
            SimpleState::Start => matches!(other, SimpleState::Start),
            SimpleState::Processing => matches!(other, SimpleState::Processing),
            SimpleState::Success => matches!(other, SimpleState::Success),
            SimpleState::Error => matches!(other, SimpleState::Error),
            SimpleState::Custom(a) => match other {
                SimpleState::Custom(b) => {
                    let r = a.eq(b);
                    r
                },
                _ => false,
            },
        }
    }

    fn clone_state(&self) -> (s: Self) {
        match self {
            SimpleState::Start => SimpleState::Start,
            SimpleState::Processing => SimpleState::Processing,
            SimpleState::Success => SimpleState::Success,
            SimpleState::Error => SimpleState::Error,
            SimpleState::Custom(name) => SimpleState::Custom(name.clone()),
        }
    }
}

/// A move from one state to another, with optional metadata.
#[derive(Debug)]
pub struct StateTransition<S: FlowState> {
    /// Source state
    pub from: S,
    /// Target state
    pub to: S,
    /// Optional metadata about the transition
    pub metadata: Option<JsonValue>,
}

impl<S: FlowState> StateTransition<S> {
    /// A transition without metadata.
    pub fn new(from: S, to: S) -> (t: Self)
        ensures
            t.from == from,
            t.to == to,
            t.metadata is None,
    {
        StateTransition { from, to, metadata: None }
    }

    /// A transition carrying metadata.
    pub fn with_metadata(from: S, to: S, metadata: JsonValue) -> (t: Self)
        ensures
            t.from == from,
            t.to == to,
            t.metadata == Some(metadata),
    {
        StateTransition { from, to, metadata: Some(metadata) }
    }

    /// Whether the source state may move to the target state.
    pub fn is_valid(&self) -> (b: bool)
        ensures
            b == self.from.allows(&self.to),
    {
        self.from.can_transition_to(&self.to)
    }
}

/// A simple workflow never leaves a terminal state: from Success or Error no
/// transition is allowed.
pub proof fn simple_terminal_states_are_final(s: SimpleState, t: SimpleState)
    requires
        s.terminal(),
    ensures
        !s.allows(&t),
{
}

/// From Start every state may follow; from Processing exactly the terminal
/// states may.
pub proof fn simple_transitions_from_open_states(t: SimpleState)
    ensures
        SimpleState::Start.allows(&t),
        SimpleState::Processing.allows(&t) <==> t.terminal(),
{
}

} // verus!
