//! Errors of flow construction and execution.

use vstd::prelude::*;
use vstd::string::*;

use crate::text::join;

verus! {

#[verifier::external_type_specification]
#[verifier::external_body]
pub struct ExJsonError(serde_json::Error);

#[verifier::external_type_specification]
#[verifier::external_body]
pub struct ExIoError(std::io::Error);

#[verifier::external_type_specification]
#[verifier::external_body]
pub struct ExReport(eyre::Report);

/// Error types that can occur during flow execution.
#[derive(Debug)]
pub enum FlowError {
    /// Context manipulation error.
    Context(String),
    /// Flow construction error.
    Construction(String),
    /// Invalid state transition.
    InvalidTransition {
        /// Source state
        from: String,
        /// Target state
        to: String,
    },
    /// Serialization/Deserialization error.
    Serialization(serde_json::Error),
    /// IO error.
    Io(std::io::Error),
    /// Generic error.
    Generic(eyre::Report),
    /// Flow execution was cancelled.
    Cancelled,
    /// Flow execution timeout.
    Timeout,
}

/// The text that `Debug` gives of a value.
#[verifier::external_body]
pub(crate) fn debug_text<T: std::fmt::Debug>(value: &T) -> String {
    format!("{value:?}")
}

/// What `Debug` prints for a string: the string in quotes, with escapes.
pub uninterp spec fn debug_quoted(s: Seq<char>) -> Seq<char>;

/// The `Debug` text of a string (`<str as Debug>::fmt`).
#[verifier::external_body]
fn quoted(s: &str) -> (r: String)
    ensures
        r@ == debug_quoted(s@),
{
    format!("{s:?}")
}

/// `s` is the display text of flow error `e`. The text of a wrapped outside
/// error is what its `to_string` gives.
pub open spec fn flow_error_text(e: FlowError, s: Seq<char>) -> bool {
    match e {
        FlowError::Context(m) => s == "Context error: "@ + m@,
        FlowError::Construction(m) => s == "Construction error: "@ + m@,
        FlowError::InvalidTransition { from, to } => s == "Invalid transition from "@ + debug_quoted(from@) + " to "@
            + debug_quoted(to@),
        FlowError::Serialization(j) => exists|t: String|
            s == "Serialization error: "@ + t@ && #[trigger] to_string_from_display_ensures::<serde_json::Error>(&j, t),
        FlowError::Io(i) => exists|t: String|
            s == "IO error: "@ + t@ && #[trigger] to_string_from_display_ensures::<std::io::Error>(&i, t),
        FlowError::Generic(r) => exists|t: String|
            s == "Error: "@ + t@ && #[trigger] to_string_from_display_ensures::<eyre::Report>(&r, t),
        FlowError::Cancelled => s == "Flow execution was cancelled"@,
        FlowError::Timeout => s == "Flow execution timed out"@,
    }
}

impl FlowError {
    /// Create a new context error.
    pub fn context(msg: String) -> (e: Self)
        ensures
            e == FlowError::Context(msg),
    {
        FlowError::Context(msg)
    }

    /// Create a new construction error.
    pub fn construction(msg: String) -> (e: Self)
        ensures
            e == FlowError::Construction(msg),
    {
        FlowError::Construction(msg)
    }

    /// Create an execution error (reported as a context error).
    pub fn execution(msg: String) -> (e: Self)
        ensures
            e == FlowError::Context(msg),
    {
        FlowError::Context(msg)
    }

    /// Create a new invalid transition error from the `Debug` text of both states.
    pub fn invalid_transition<A: std::fmt::Debug, B: std::fmt::Debug>(from: &A, to: &B) -> (e: Self)
        ensures
            e is InvalidTransition,
    {
        FlowError::InvalidTransition { from: debug_text(from), to: debug_text(to) }
    }

    /// The message of the error, as its display text reads.
    pub fn message(&self) -> (s: String)
        ensures
            self matches FlowError::Context(m) ==> s@ == "Context error: "@ + m@,
            self matches FlowError::Construction(m) ==> s@ == "Construction error: "@ + m@,
            self matches FlowError::InvalidTransition { from, to } ==> s@
                == "Invalid transition from "@ + debug_quoted(from@) + " to "@ + debug_quoted(to@),
            self is Cancelled ==> s@ == "Flow execution was cancelled"@,
            self is Timeout ==> s@ == "Flow execution timed out"@,
            flow_error_text(*self, s@),
    {
        match self {
            FlowError::Context(m) => join("Context error: ", m.as_str()),
            FlowError::Construction(m) => join("Construction error: ", m.as_str()),
            FlowError::InvalidTransition { from, to } => {
                let a = join("Invalid transition from ", quoted(from.as_str()).as_str());
                let b = join(a.as_str(), " to ");
                join(b.as_str(), quoted(to.as_str()).as_str())
            },
            FlowError::Serialization(e) => join("Serialization error: ", e.to_string().as_str()),
            FlowError::Io(e) => join("IO error: ", e.to_string().as_str()),
            FlowError::Generic(e) => join("Error: ", e.to_string().as_str()),
            FlowError::Cancelled => String::from_str("Flow execution was cancelled"),
            FlowError::Timeout => String::from_str("Flow execution timed out"),
        }
    }
}

} // verus!
