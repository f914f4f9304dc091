//! Errors of agent operations.

use vstd::prelude::*;
use vstd::string::*;

use crate::error::{flow_error_text, FlowError};
use crate::text::join;

verus! {

/// Main error type for agent operations.
#[derive(Debug, Clone)]
pub enum AgentError {
    Configuration(String),
    Model(String),
    ToolExecution { tool: String, message: String },
    Delegation { target: String, message: String },
    Validation(String),
    Timeout(String),
    RateLimit(String),
    Permission(String),
    NotFound(String),
    StateTransition { from: String, to: String, reason: String },
    Streaming(String),
    Coordination(String),
    Context(String),
    Serialization(String),
    Internal(String),
}

/// The category name of each kind of agent error.
pub open spec fn category_of(e: AgentError) -> Seq<char> {
    match e {
        AgentError::Configuration(_) => "configuration"@,
        AgentError::Model(_) => "model"@,
        AgentError::ToolExecution { .. } => "tool_execution"@,
        AgentError::Delegation { .. } => "delegation"@,
        AgentError::Validation(_) => "validation"@,
        AgentError::Timeout(_) => "timeout"@,
        AgentError::RateLimit(_) => "rate_limit"@,
        AgentError::Permission(_) => "permission"@,
        AgentError::NotFound(_) => "not_found"@,
        AgentError::StateTransition { .. } => "state_transition"@,
        AgentError::Streaming(_) => "streaming"@,
        AgentError::Coordination(_) => "coordination"@,
        AgentError::Context(_) => "context"@,
        AgentError::Serialization(_) => "serialization"@,
        AgentError::Internal(_) => "internal"@,
    }
}

/// Errors worth retrying: timeouts, rate limits and model errors.
pub open spec fn retryable(e: AgentError) -> bool {
    e is Timeout || e is RateLimit || e is Model
}

/// Errors the user caused: configuration, validation, permission, not found.
pub open spec fn user_caused(e: AgentError) -> bool {
    e is Configuration || e is Validation || e is Permission || e is NotFound
}

/// The display text of an agent error.
pub open spec fn agent_message(e: AgentError) -> Seq<char> {
    match e {
        AgentError::Configuration(m) => "Configuration error: "@ + m@,
        AgentError::Model(m) => "Model error: "@ + m@,
        AgentError::ToolExecution { tool, message } => "Tool execution error: "@ + tool@ + ": "@ + message@,
        AgentError::Delegation { target, message } => "Agent delegation error: "@ + target@ + ": "@ + message@,
        AgentError::Validation(m) => "Validation error: "@ + m@,
        AgentError::Timeout(m) => "Timeout error: "@ + m@,
        AgentError::RateLimit(m) => "Rate limit error: "@ + m@,
        AgentError::Permission(m) => "Permission denied: "@ + m@,
        AgentError::NotFound(m) => "Resource not found: "@ + m@,
        AgentError::StateTransition { from, to, reason } => "State transition error: from "@ + from@ + " to "@
            + to@ + ": "@ + reason@,
        AgentError::Streaming(m) => "Streaming error: "@ + m@,
        AgentError::Coordination(m) => "Coordination error: "@ + m@,
        AgentError::Context(m) => "Context error: "@ + m@,
        AgentError::Serialization(m) => "Serialization error: "@ + m@,
        AgentError::Internal(m) => "Internal error: "@ + m@,
    }
}

impl AgentError {
    /// Create a configuration error
    pub fn configuration(message: &str) -> (e: Self)
        ensures
            e matches AgentError::Configuration(m) && m@ == message@,
    {
        AgentError::Configuration(String::from_str(message))
    }

    /// Create a model error
    pub fn model(message: &str) -> (e: Self)
        ensures
            e matches AgentError::Model(m) && m@ == message@,
    {
        AgentError::Model(String::from_str(message))
    }

    /// Create a tool execution error
    pub fn tool_execution(tool: &str, message: &str) -> (e: Self)
        ensures
            e matches AgentError::ToolExecution { tool: t, message: m } && t@ == tool@ && m@ == message@,
    {
        AgentError::ToolExecution { tool: String::from_str(tool), message: String::from_str(message) }
    }

    /// Create a delegation error
    pub fn delegation(target: &str, message: &str) -> (e: Self)
        ensures
            e matches AgentError::Delegation { target: t, message: m } && t@ == target@ && m@ == message@,
    {
        AgentError::Delegation { target: String::from_str(target), message: String::from_str(message) }
    }

    /// Create a validation error
    pub fn validation(message: &str) -> (e: Self)
        ensures
            e matches AgentError::Validation(m) && m@ == message@,
    {
        AgentError::Validation(String::from_str(message))
    }

    /// Create a timeout error
    pub fn timeout(message: &str) -> (e: Self)
        ensures
            e matches AgentError::Timeout(m) && m@ == message@,
    {
        AgentError::Timeout(String::from_str(message))
    }

    /// Create a rate limit error
    pub fn rate_limit(message: &str) -> (e: Self)
        ensures
            e matches AgentError::RateLimit(m) && m@ == message@,
    {
        AgentError::RateLimit(String::from_str(message))
    }

    /// Create a permission error
    pub fn permission(message: &str) -> (e: Self)
        ensures
            e matches AgentError::Permission(m) && m@ == message@,
    {
        AgentError::Permission(String::from_str(message))
    }

    /// Create a not found error
    pub fn not_found(message: &str) -> (e: Self)
        ensures
            e matches AgentError::NotFound(m) && m@ == message@,
    {
        AgentError::NotFound(String::from_str(message))
    }

    /// Create a state transition error
    pub fn state_transition(from: &str, to: &str, reason: &str) -> (e: Self)
        ensures
            e matches AgentError::StateTransition { from: f, to: t, reason: r } && f@ == from@ && t@ == to@
                && r@ == reason@,
    {
        AgentError::StateTransition {
            from: String::from_str(from),
            to: String::from_str(to),
            reason: String::from_str(reason),
        }
    }

    /// Create a streaming error
    pub fn streaming(message: &str) -> (e: Self)
        ensures
            e matches AgentError::Streaming(m) && m@ == message@,
    {
        AgentError::Streaming(String::from_str(message))
    }

    /// Create a coordination error
    pub fn coordination(message: &str) -> (e: Self)
        ensures
            e matches AgentError::Coordination(m) && m@ == message@,
    {
        AgentError::Coordination(String::from_str(message))
    }

    /// Create a context error
    pub fn context(message: &str) -> (e: Self)
        ensures
            e matches AgentError::Context(m) && m@ == message@,
    {
        AgentError::Context(String::from_str(message))
    }

    /// Create a serialization error
    pub fn serialization(message: &str) -> (e: Self)
        ensures
            e matches AgentError::Serialization(m) && m@ == message@,
    {
        AgentError::Serialization(String::from_str(message))
    }

    /// Create an internal error
    pub fn internal(message: &str) -> (e: Self)
        ensures
            e matches AgentError::Internal(m) && m@ == message@,
    {
        AgentError::Internal(String::from_str(message))
    }

    /// Check if the error is retryable
    pub fn is_retryable(&self) -> (b: bool)
        ensures
            b == retryable(*self),
    {
        matches!(self, AgentError::Timeout(_) | AgentError::RateLimit(_) | AgentError::Model(_))
    }

    /// Check if the error is a user error
    pub fn is_user_error(&self) -> (b: bool)
        ensures
            b == user_caused(*self),
    {
        matches!(
            self,
            AgentError::Configuration(_) | AgentError::Validation(_) | AgentError::Permission(_)
                | AgentError::NotFound(_)
        )
    }

    /// Get error category for logging/monitoring
    pub fn category(&self) -> (s: &'static str)
        ensures
            s@ == category_of(*self),
    {
        match self {
            AgentError::Configuration(_) => "configuration",
            AgentError::Model(_) => "model",
            AgentError::ToolExecution { .. } => "tool_execution",
            AgentError::Delegation { .. } => "delegation",
            AgentError::Validation(_) => "validation",
            AgentError::Timeout(_) => "timeout",
            AgentError::RateLimit(_) => "rate_limit",
            AgentError::Permission(_) => "permission",
            AgentError::NotFound(_) => "not_found",
            AgentError::StateTransition { .. } => "state_transition",
            AgentError::Streaming(_) => "streaming",
            AgentError::Coordination(_) => "coordination",
            AgentError::Context(_) => "context",
            AgentError::Serialization(_) => "serialization",
            AgentError::Internal(_) => "internal",
        }
    }

    /// The display text of the error.
    pub fn message(&self) -> (s: String)
        ensures
            s@ == agent_message(*self),
    {
        match self {
            AgentError::Configuration(m) => join("Configuration error: ", m.as_str()),
            AgentError::Model(m) => join("Model error: ", m.as_str()),
            AgentError::ToolExecution { tool, message } => {
                let a = join("Tool execution error: ", tool.as_str());
                let b = join(a.as_str(), ": ");
                join(b.as_str(), message.as_str())
            },
            AgentError::Delegation { target, message } => {
                let a = join("Agent delegation error: ", target.as_str());
                let b = join(a.as_str(), ": ");
                join(b.as_str(), message.as_str())
            },
            AgentError::Validation(m) => join("Validation error: ", m.as_str()),
            AgentError::Timeout(m) => join("Timeout error: ", m.as_str()),
            AgentError::RateLimit(m) => join("Rate limit error: ", m.as_str()),
            AgentError::Permission(m) => join("Permission denied: ", m.as_str()),
            AgentError::NotFound(m) => join("Resource not found: ", m.as_str()),
            AgentError::StateTransition { from, to, reason } => {
                let a = join("State transition error: from ", from.as_str());
                let b = join(a.as_str(), " to ");
                let c = join(b.as_str(), to.as_str());
                let d = join(c.as_str(), ": ");
                join(d.as_str(), reason.as_str())
            },
            AgentError::Streaming(m) => join("Streaming error: ", m.as_str()),
            AgentError::Coordination(m) => join("Coordination error: ", m.as_str()),
            AgentError::Context(m) => join("Context error: ", m.as_str()),
            AgentError::Serialization(m) => join("Serialization error: ", m.as_str()),
            AgentError::Internal(m) => join("Internal error: ", m.as_str()),
        }
    }

    /// The flow error an agent error becomes: configuration and validation
    /// errors are construction errors, the rest context errors, both carrying
    /// the agent error's text.
    pub fn into_flow_error(&self) -> (f: FlowError)
        ensures
            (self is Configuration || self is Validation) ==> (f matches FlowError::Construction(m)
                && m@ == agent_message(*self)),
            !(self is Configuration || self is Validation) ==> (f matches FlowError::Context(m)
                && m@ == agent_message(*self)),
    {
        let text = self.message();
        match self {
            AgentError::Configuration(_) | AgentError::Validation(_) => FlowError::construction(text),
            _ => FlowError::context(text),
        }
    }

    /// The agent error a flow error becomes: a context error carrying the
    /// flow error's text.
    pub fn from_flow_error(err: &FlowError) -> (e: Self)
        ensures
            e matches AgentError::Context(m) && err matches FlowError::Context(c) ==> m@ == "Context error: "@ + c@,
            e matches AgentError::Context(m) && flow_error_text(*err, m@),
    {
        AgentError::Context(err.message())
    }

    /// The agent error a JSON error becomes: a serialization error carrying
    /// the JSON error's text.
    pub fn from_json_error(err: &serde_json::Error) -> (e: Self)
        ensures
            e is Serialization,
    {
        AgentError::Serialization(err.to_string())
    }
}

/// No error is both worth retrying and caused by the user.
pub proof fn retryable_errors_are_not_user_errors(e: AgentError)
    ensures
        !(retryable(e) && user_caused(e)),
{
}

} // verus!
