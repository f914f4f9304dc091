//! Agent description types and the agent state machine.

use vstd::prelude::*;
use vstd::string::*;

use crate::json::{model, models, opt_model, JsonValue};
use crate::memory::now_millis;
use crate::state::FlowState;
use crate::table::NameTable;

verus! {

/// Agent capabilities
#[derive(Debug, Clone)]
pub enum AgentCapability {
    Basic,
    ToolCalling,
    CodeExecution,
    Planning,
    Coordination,
    Streaming,
    Memory,
    Learning,
    ErrorRecovery,
    Custom(String),
}

/// Agent role in multi-agent systems
#[derive(Debug, Clone)]
pub enum AgentRole {
    Independent,
    Coordinator,
    Specialist { domain: String },
    Worker,
    Reviewer,
    Custom(String),
}

/// Agent execution mode
#[derive(Debug, Clone, Copy, PartialEq, Eq, Structural)]
pub enum ExecutionMode {
    Sync,
    Async,
    Streaming,
    Background,
}

/// Agent priority level, from lowest to highest.
#[derive(Debug, Clone, Copy, PartialEq, Eq, Structural)]
pub enum Priority {
    Low,
    Normal,
    High,
    Critical,
}

/// The position of a priority in the order Low < Normal < High < Critical.
pub open spec fn priority_rank(p: Priority) -> nat {
    match p {
        Priority::Low => 0,
        Priority::Normal => 1,
        Priority::High => 2,
        Priority::Critical => 3,
    }
}

impl Priority {
    /// The position of the priority in the order Low < Normal < High < Critical.
    pub fn rank(&self) -> (r: u8)
        ensures
            r as nat == priority_rank(*self),
    {
        match self {
            Priority::Low => 0,
            Priority::Normal => 1,
            Priority::High => 2,
            Priority::Critical => 3,
        }
    }
}

/// Model provider types
#[derive(Debug, Clone)]
pub enum ModelProvider {
    OpenAI,
    Anthropic,
    Google,
    Ollama,
    Custom { name: String, base_url: String },
}

/// Types of agent steps
#[derive(Debug, Clone)]
pub enum AgentStepType {
    Thinking,
    ToolCall { tool_name: String },
    Delegation { target_agent: String },
    ModelInference,
    Validation,
    Planning,
    MemoryUpdate,
    Custom(String),
}

/// API configuration. Durations are in milliseconds.
#[derive(Debug, Clone)]
pub struct ApiConfig {
    pub api_key: Option<String>,
    pub base_url: Option<String>,
    pub timeout_ms: u64,
    pub max_retries: usize,
    pub retry_delay_ms: u64,
}

impl Default for ApiConfig {
    /// No key and no base URL, a 60 s timeout, 3 retries 1 s apart.
    fn default() -> (c: Self)
        ensures
            c.api_key is None,
            c.base_url is None,
            c.timeout_ms == 60_000,
            c.max_retries == 3,
            c.retry_delay_ms == 1000,
    {
        ApiConfig { api_key: None, base_url: None, timeout_ms: 60_000, max_retries: 3, retry_delay_ms: 1000 }
    }
}

impl ApiConfig {
    pub fn with_api_key(self, api_key: &str) -> (c: Self)
        ensures
            c.api_key matches Some(k) && k@ == api_key@,
            c.base_url == self.base_url,
            c.timeout_ms == self.timeout_ms,
            c.max_retries == self.max_retries,
            c.retry_delay_ms == self.retry_delay_ms,
    {
        ApiConfig { api_key: Some(String::from_str(api_key)), ..self }
    }

    pub fn with_base_url(self, base_url: &str) -> (c: Self)
        ensures
            c.base_url matches Some(u) && u@ == base_url@,
            c.api_key == self.api_key,
            c.timeout_ms == self.timeout_ms,
            c.max_retries == self.max_retries,
            c.retry_delay_ms == self.retry_delay_ms,
    {
        ApiConfig { base_url: Some(String::from_str(base_url)), ..self }
    }

    /// Set the request timeout, in milliseconds.
    pub fn with_timeout(self, timeout_ms: u64) -> (c: Self)
        ensures
            c.timeout_ms == timeout_ms,
            c.api_key == self.api_key,
            c.base_url == self.base_url,
            c.max_retries == self.max_retries,
            c.retry_delay_ms == self.retry_delay_ms,
    {
        ApiConfig { timeout_ms, ..self }
    }

    pub fn with_max_retries(self, max_retries: usize) -> (c: Self)
        ensures
            c.max_retries == max_retries,
            c.api_key == self.api_key,
            c.base_url == self.base_url,
            c.timeout_ms == self.timeout_ms,
            c.retry_delay_ms == self.retry_delay_ms,
    {
        ApiConfig { max_retries, ..self }
    }
}

/// Token usage tracking
#[derive(Debug, Clone, Copy)]
pub struct TokenUsage {
    pub prompt_tokens: usize,
    pub completion_tokens: usize,
    pub total_tokens: usize,
}

impl TokenUsage {
    /// Usage whose total is the sum of prompt and completion tokens.
    pub fn new(prompt_tokens: usize, completion_tokens: usize) -> (u: Self)
        requires
            prompt_tokens + completion_tokens <= usize::MAX,
        ensures
            u.prompt_tokens == prompt_tokens,
            u.completion_tokens == completion_tokens,
            u.total_tokens == prompt_tokens + completion_tokens,
    {
        TokenUsage { prompt_tokens, completion_tokens, total_tokens: prompt_tokens + completion_tokens }
    }
}

/// Agent states for flow control.
#[derive(Debug, Clone, Copy, PartialEq, Eq, Structural)]
pub enum AgentState {
    Ready,
    Thinking,
    UsingTool,
    Delegating,
    Success,
    Error,
}

impl View for AgentState {
    type V = AgentState;

    open spec fn view(&self) -> AgentState {
        *self
    }
}

impl FlowState for AgentState {
    open spec fn terminal(&self) -> bool {
        *self is Success || *self is Error
    }

    /// Agent states allow every transition.
    open spec fn allows(&self, target: &Self) -> bool {
        true
    }

    fn is_terminal(&self) -> (b: bool) {
        matches!(self, AgentState::Success | AgentState::Error)
    }

    fn can_transition_to(&self, target: &Self) -> (b: bool) {
        true
    }

    fn same_state(&self, other: &Self) -> (b: bool) {
        *self == *other
    }

    fn clone_state(&self) -> (s: Self) {
        *self
    }
}

/// One step of an agent's work. The timestamp is in milliseconds since the
/// Unix epoch, the duration in milliseconds.
#[derive(Debug)]
pub struct AgentStep {
    pub step_number: usize,
    pub timestamp_ms: i64,
    pub step_type: AgentStepType,
    pub input: JsonValue,
    pub output: Option<JsonValue>,
    pub error: Option<String>,
    pub duration_ms: Option<u64>,
    pub metadata: NameTable<JsonValue>,
}

impl AgentStep {
    /// A step taken now, with no output, error, duration or metadata yet.
    pub fn new(step_number: usize, step_type: AgentStepType, input: JsonValue) -> (s: Self)
        ensures
            s.step_number == step_number,
            s.step_type == step_type,
            s.input == input,
            s.output is None,
            s.error is None,
            s.duration_ms is None,
            s.metadata.wf(),
            s.metadata.view_map().is_empty(),
    {
        AgentStep {
            step_number,
            timestamp_ms: now_millis(),
            step_type,
            input,
            output: None,
            error: None,
            duration_ms: None,
            metadata: NameTable::new(),
        }
    }

    pub fn with_output(self, output: JsonValue) -> (s: Self)
        ensures
            s == (AgentStep { output: Some(output), ..self }),
    {
        AgentStep { output: Some(output), ..self }
    }

    pub fn with_error(self, error: &str) -> (s: Self)
        ensures
            s.error matches Some(e) && e@ == error@,
            s == (AgentStep { error: s.error, ..self }),
    {
        AgentStep { error: Some(String::from_str(error)), ..self }
    }

    /// Record how long the step took, in milliseconds.
    pub fn with_duration(self, duration_ms: u64) -> (s: Self)
        ensures
            s == (AgentStep { duration_ms: Some(duration_ms), ..self }),
    {
        AgentStep { duration_ms: Some(duration_ms), ..self }
    }

    pub fn with_metadata(self, key: &str, value: JsonValue) -> (s: Self)
        requires
            self.metadata.wf(),
        ensures
            s.metadata.wf(),
            s.metadata.view_map() == self.metadata.view_map().insert(key@, value),
            s == (AgentStep { metadata: s.metadata, ..self }),
    {
        let mut s = self;
        s.metadata.insert(String::from_str(key), value);
        s
    }

    /// A step succeeded when it recorded no error.
    pub fn is_successful(&self) -> (b: bool)
        ensures
            b == self.error is None,
    {
        self.error.is_none()
    }
}

/// The outcome of an agent's run. The duration is in milliseconds.
#[derive(Debug)]
pub struct AgentResult {
    pub success: bool,
    pub final_answer: Option<String>,
    pub steps: Vec<AgentStep>,
    pub total_duration_ms: u64,
    pub token_usage: Option<TokenUsage>,
    pub error: Option<String>,
    pub metadata: NameTable<JsonValue>,
}

impl AgentResult {
    /// A successful run with its answer.
    pub fn success(final_answer: String, steps: Vec<AgentStep>, duration_ms: u64) -> (r: Self)
        ensures
            r.success,
            r.final_answer == Some(final_answer),
            r.steps == steps,
            r.total_duration_ms == duration_ms,
            r.token_usage is None,
            r.error is None,
            r.metadata.wf(),
            r.metadata.view_map().is_empty(),
    {
        AgentResult {
            success: true,
            final_answer: Some(final_answer),
            steps,
            total_duration_ms: duration_ms,
            token_usage: None,
            error: None,
            metadata: NameTable::new(),
        }
    }

    /// A failed run with its error.
    pub fn failure(error: String, steps: Vec<AgentStep>, duration_ms: u64) -> (r: Self)
        ensures
            !r.success,
            r.final_answer is None,
            r.steps == steps,
            r.total_duration_ms == duration_ms,
            r.token_usage is None,
            r.error == Some(error),
            r.metadata.wf(),
            r.metadata.view_map().is_empty(),
    {
        AgentResult {
            success: false,
            final_answer: None,
            steps,
            total_duration_ms: duration_ms,
            token_usage: None,
            error: Some(error),
            metadata: NameTable::new(),
        }
    }

    pub fn with_token_usage(self, usage: TokenUsage) -> (r: Self)
        ensures
            r == (AgentResult { token_usage: Some(usage), ..self }),
    {
        AgentResult { token_usage: Some(usage), ..self }
    }

    pub fn with_metadata(self, key: &str, value: JsonValue) -> (r: Self)
        requires
            self.metadata.wf(),
        ensures
            r.metadata.wf(),
            r.metadata.view_map() == self.metadata.view_map().insert(key@, value),
            r == (AgentResult { metadata: r.metadata, ..self }),
    {
        let mut r = self;
        r.metadata.insert(String::from_str(key), value);
        r
    }
}

/// The configuration a preset gives an agent. The temperature is in
/// hundredths (70 stands for 0.7).
#[derive(Debug)]
pub struct AgentPreset {
    pub name: String,
    pub description: String,
    pub capabilities: Vec<AgentCapability>,
    pub role: AgentRole,
    pub system_prompt: String,
    pub max_steps: usize,
    pub temperature_hundredths: u32,
}

/// Preset configurations for common use cases
pub struct AgentPresets;

impl AgentPresets {
    /// A basic function-calling agent: independent, with tool calling, 15 steps, temperature 0.7.
    pub fn function_calling_agent(name: &str) -> (p: AgentPreset)
        ensures
            p.name@ == name@,
            p.description@ == "An AI agent capable of calling tools to complete tasks"@,
            p.capabilities@.len() == 2,
            p.capabilities@[0] is Basic && p.capabilities@[1] is ToolCalling,
            p.role is Independent,
            p.system_prompt@ == "You are a helpful AI assistant that can use tools to complete tasks. \
                When you need to use a tool, respond with JSON in this format: \
                {\"tool_call\": \"tool_name\", \"parameters\": {...}}. \
                When you have a final answer, respond with: Final Answer: [your answer]"@,
            p.max_steps == 15,
            p.temperature_hundredths == 70,
    {
        let mut caps: Vec<AgentCapability> = Vec::new();
        caps.push(AgentCapability::Basic);
        caps.push(AgentCapability::ToolCalling);
        AgentPreset {
            name: String::from_str(name),
            description: String::from_str("An AI agent capable of calling tools to complete tasks"),
            capabilities: caps,
            role: AgentRole::Independent,
            system_prompt: String::from_str(
                "You are a helpful AI assistant that can use tools to complete tasks. \
                When you need to use a tool, respond with JSON in this format: \
                {\"tool_call\": \"tool_name\", \"parameters\": {...}}. \
                When you have a final answer, respond with: Final Answer: [your answer]",
            ),
            max_steps: 15,
            temperature_hundredths: 70,
        }
    }

    /// A coding specialist: with tool calling and code execution, 20 steps, temperature 0.3.
    pub fn code_agent(name: &str) -> (p: AgentPreset)
        ensures
            p.name@ == name@,
            p.description@ == "An AI agent specialized in code analysis and generation"@,
            p.capabilities@.len() == 3,
            p.capabilities@[0] is Basic && p.capabilities@[1] is ToolCalling && p.capabilities@[2] is CodeExecution,
            p.role matches AgentRole::Specialist { domain } && domain@ == "coding"@,
            p.system_prompt@ == "You are an expert software engineer. You can analyze code, write programs, \
                debug issues, and use development tools. Always provide working, well-commented code."@,
            p.max_steps == 20,
            p.temperature_hundredths == 30,
    {
        let mut caps: Vec<AgentCapability> = Vec::new();
        caps.push(AgentCapability::Basic);
        caps.push(AgentCapability::ToolCalling);
        caps.push(AgentCapability::CodeExecution);
        AgentPreset {
            name: String::from_str(name),
            description: String::from_str("An AI agent specialized in code analysis and generation"),
            capabilities: caps,
            role: AgentRole::Specialist { domain: String::from_str("coding") },
            system_prompt: String::from_str(
                "You are an expert software engineer. You can analyze code, write programs, \
                debug issues, and use development tools. Always provide working, well-commented code.",
            ),
            max_steps: 20,
            temperature_hundredths: 30,
        }
    }

    /// A research specialist: with tool calling, 25 steps, temperature 0.5.
    pub fn research_agent(name: &str) -> (p: AgentPreset)
        ensures
            p.name@ == name@,
            p.description@ == "An AI agent specialized in research and information gathering"@,
            p.capabilities@.len() == 2,
            p.capabilities@[0] is Basic && p.capabilities@[1] is ToolCalling,
            p.role matches AgentRole::Specialist { domain } && domain@ == "research"@,
            p.system_prompt@ == "You are a research specialist. You excel at finding, analyzing, and synthesizing \
                information from various sources. Use tools to gather data and provide comprehensive, \
                well-sourced answers."@,
            p.max_steps == 25,
            p.temperature_hundredths == 50,
    {
        let mut caps: Vec<AgentCapability> = Vec::new();
        caps.push(AgentCapability::Basic);
        caps.push(AgentCapability::ToolCalling);
        AgentPreset {
            name: String::from_str(name),
            description: String::from_str("An AI agent specialized in research and information gathering"),
            capabilities: caps,
            role: AgentRole::Specialist { domain: String::from_str("research") },
            system_prompt: String::from_str(
                "You are a research specialist. You excel at finding, analyzing, and synthesizing \
                information from various sources. Use tools to gather data and provide comprehensive, \
                well-sourced answers.",
            ),
            max_steps: 25,
            temperature_hundredths: 50,
        }
    }

    /// A coordinator of other agents: with coordination and planning, 30 steps, temperature 0.6.
    pub fn coordinator_agent(name: &str) -> (p: AgentPreset)
        ensures
            p.name@ == name@,
            p.description@ == "An AI agent that coordinates other agents"@,
            p.capabilities@.len() == 3,
            p.capabilities@[0] is Basic && p.capabilities@[1] is Coordination && p.capabilities@[2] is Planning,
            p.role is Coordinator,
            p.system_prompt@ == "You are a team coordinator. Your role is to break down complex tasks, \
                delegate subtasks to appropriate specialist agents, and synthesize their \
                results into a final answer. To delegate, use: \
                delegate to \"agent_name\" task: \"specific task description\""@,
            p.max_steps == 30,
            p.temperature_hundredths == 60,
    {
        let mut caps: Vec<AgentCapability> = Vec::new();
        caps.push(AgentCapability::Basic);
        caps.push(AgentCapability::Coordination);
        caps.push(AgentCapability::Planning);
        AgentPreset {
            name: String::from_str(name),
            description: String::from_str("An AI agent that coordinates other agents"),
            capabilities: caps,
            role: AgentRole::Coordinator,
            system_prompt: String::from_str(
                "You are a team coordinator. Your role is to break down complex tasks, \
                delegate subtasks to appropriate specialist agents, and synthesize their \
                results into a final answer. To delegate, use: \
                delegate to \"agent_name\" task: \"specific task description\"",
            ),
            max_steps: 30,
            temperature_hundredths: 60,
        }
    }

    /// A planning specialist: with planning and tool calling, 20 steps, temperature 0.4.
    pub fn planning_agent(name: &str) -> (p: AgentPreset)
        ensures
            p.name@ == name@,
            p.description@ == "An AI agent specialized in planning and strategy"@,
            p.capabilities@.len() == 3,
            p.capabilities@[0] is Basic && p.capabilities@[1] is Planning && p.capabilities@[2] is ToolCalling,
            p.role matches AgentRole::Specialist { domain } && domain@ == "planning"@,
            p.system_prompt@ == "You are a strategic planning expert. You excel at breaking down complex goals \
                into actionable steps, identifying dependencies, and creating detailed execution plans."@,
            p.max_steps == 20,
            p.temperature_hundredths == 40,
    {
        let mut caps: Vec<AgentCapability> = Vec::new();
        caps.push(AgentCapability::Basic);
        caps.push(AgentCapability::Planning);
        caps.push(AgentCapability::ToolCalling);
        AgentPreset {
            name: String::from_str(name),
            description: String::from_str("An AI agent specialized in planning and strategy"),
            capabilities: caps,
            role: AgentRole::Specialist { domain: String::from_str("planning") },
            system_prompt: String::from_str(
                "You are a strategic planning expert. You excel at breaking down complex goals \
                into actionable steps, identifying dependencies, and creating detailed execution plans.",
            ),
            max_steps: 20,
            temperature_hundredths: 40,
        }
    }
}

/// Whether a model supports tool calling: the GPT-4 family and GPT-3.5
/// Turbo do.
pub fn supports_tools(model_name: &str) -> (b: bool)
    ensures
        b == (model_name@ == "gpt-4"@ || model_name@ == "gpt-4-turbo"@ || model_name@ == "gpt-4o"@ || model_name@
            == "gpt-4o-mini"@ || model_name@ == "gpt-3.5-turbo"@),
{
    crate::text::str_eq(model_name, "gpt-4") || crate::text::str_eq(model_name, "gpt-4-turbo") || crate::text::str_eq(
        model_name,
        "gpt-4o",
    ) || crate::text::str_eq(model_name, "gpt-4o-mini") || crate::text::str_eq(model_name, "gpt-3.5-turbo")
}

/// The reply of the stand-in model adapter: `Response from {model}: {prompt}`.
pub fn adapter_reply(model_name: &str, prompt: &str) -> (r: String)
    ensures
        r@ == "Response from "@ + model_name@ + ": "@ + prompt@,
{
    let a = crate::text::join("Response from ", model_name);
    let b = crate::text::join(a.as_str(), ": ");
    crate::text::join(b.as_str(), prompt)
}

/// An agent node's name: the agent's own configured name.
pub fn agent_node_name(agent_name: &str) -> (r: String)
    ensures
        r@ == agent_name@,
{
    String::from_str(agent_name)
}

/// The answer an agent gives to an input: `Agent {name} processed: {input}`.
pub fn processed_reply(agent_name: &str, input: &str) -> (r: String)
    ensures
        r@ == "Agent "@ + agent_name@ + " processed: "@ + input@,
{
    let a = crate::text::join("Agent ", agent_name);
    let b = crate::text::join(a.as_str(), " processed: ");
    crate::text::join(b.as_str(), input)
}

/// The abstract value of a step type.
pub enum StepKindView {
    Thinking,
    ToolCall(Seq<char>),
    Delegation(Seq<char>),
    ModelInference,
    Validation,
    Planning,
    MemoryUpdate,
    Custom(Seq<char>),
}

pub open spec fn kind_view(k: AgentStepType) -> StepKindView {
    match k {
        AgentStepType::Thinking => StepKindView::Thinking,
        AgentStepType::ToolCall { tool_name } => StepKindView::ToolCall(tool_name@),
        AgentStepType::Delegation { target_agent } => StepKindView::Delegation(target_agent@),
        AgentStepType::ModelInference => StepKindView::ModelInference,
        AgentStepType::Validation => StepKindView::Validation,
        AgentStepType::Planning => StepKindView::Planning,
        AgentStepType::MemoryUpdate => StepKindView::MemoryUpdate,
        AgentStepType::Custom(c) => StepKindView::Custom(c@),
    }
}

impl AgentStepType {
    /// A copy of the step type.
    pub fn duplicate(&self) -> (r: Self)
        ensures
            kind_view(r) == kind_view(*self),
    {
        match self {
            AgentStepType::Thinking => AgentStepType::Thinking,
            AgentStepType::ToolCall { tool_name } => AgentStepType::ToolCall { tool_name: tool_name.clone() },
            AgentStepType::Delegation { target_agent } => AgentStepType::Delegation { target_agent: target_agent.clone() },
            AgentStepType::ModelInference => AgentStepType::ModelInference,
            AgentStepType::Validation => AgentStepType::Validation,
            AgentStepType::Planning => AgentStepType::Planning,
            AgentStepType::MemoryUpdate => AgentStepType::MemoryUpdate,
            AgentStepType::Custom(c) => AgentStepType::Custom(c.clone()),
        }
    }
}

/// Two steps hold the same content.
pub open spec fn same_step(a: AgentStep, b: AgentStep) -> bool {
    &&& a.step_number == b.step_number
    &&& a.timestamp_ms == b.timestamp_ms
    &&& kind_view(a.step_type) == kind_view(b.step_type)
    &&& model(a.input) == model(b.input)
    &&& opt_model(a.output) == opt_model(b.output)
    &&& crate::streaming::opt_text(a.error) == crate::streaming::opt_text(b.error)
    &&& a.duration_ms == b.duration_ms
    &&& a.metadata.wf() && b.metadata.wf()
    &&& crate::text::string_views(a.metadata.names()) == crate::text::string_views(b.metadata.names())
    &&& models(a.metadata.vals()) == models(b.metadata.vals())
}

/// Two lists of steps hold the same steps.
pub open spec fn same_steps(a: Seq<AgentStep>, b: Seq<AgentStep>) -> bool {
    a.len() == b.len() && forall|i: int| 0 <= i < a.len() ==> same_step(#[trigger] a[i], b[i])
}

impl AgentStep {
    /// A copy of the step.
    pub fn duplicate(&self) -> (r: Self)
        requires
            self.metadata.wf(),
        ensures
            same_step(r, *self),
    {
        AgentStep {
            step_number: self.step_number,
            timestamp_ms: self.timestamp_ms,
            step_type: self.step_type.duplicate(),
            input: self.input.duplicate(),
            output: match &self.output {
                Some(o) => Some(o.duplicate()),
                None => None,
            },
            error: match &self.error {
                Some(e) => Some(e.clone()),
                None => None,
            },
            duration_ms: self.duration_ms,
            metadata: self.metadata.duplicate(),
        }
    }
}

/// The steps an agent has taken, oldest first.
#[derive(Debug)]
pub struct AgentHistory {
    pub steps: Vec<AgentStep>,
}

impl AgentHistory {
    /// Every step's metadata is well formed.
    pub open spec fn wf(&self) -> bool {
        forall|i: int| 0 <= i < self.steps@.len() ==> (#[trigger] self.steps@[i]).metadata.wf()
    }

    pub fn new() -> (h: Self)
        ensures
            h.wf(),
            h.steps@.len() == 0,
    {
        AgentHistory { steps: Vec::new() }
    }

    /// Copies of the steps taken.
    pub fn get_history(&self) -> (r: Vec<AgentStep>)
        requires
            self.wf(),
        ensures
            same_steps(r@, self.steps@),
    {
        let mut r: Vec<AgentStep> = Vec::new();
        let mut i: usize = 0;
        while i < self.steps.len()
            invariant
                self.wf(),
                i <= self.steps@.len(),
                r@.len() == i,
                forall|j: int| 0 <= j < i ==> same_step(#[trigger] r@[j], self.steps@[j]),
            decreases self.steps@.len() - i,
        {
            assert(self.steps@[i as int].metadata.wf());
            r.push(self.steps[i].duplicate());
            i = i + 1;
        }
        r
    }

    /// Forget every step.
    pub fn reset(&mut self)
        ensures
            final(self).wf(),
            final(self).steps@.len() == 0,
    {
        self.steps = Vec::new();
    }

    /// The agent `agent_name` takes a step on `input`: a thinking step,
    /// numbered after the last, that answers `Agent {name} processed:
    /// {input}` in 100 ms; the result succeeds with that answer and copies of
    /// every step so far.
    pub fn step(&mut self, agent_name: &str, input: String) -> (r: AgentResult)
        requires
            old(self).wf(),
            old(self).steps@.len() < usize::MAX,
        ensures
            final(self).wf(),
            final(self).steps@.len() == old(self).steps@.len() + 1,
            forall|i: int| 0 <= i < old(self).steps@.len() ==> #[trigger] final(self).steps@[i] == old(self).steps@[i],
            ({
                let s = final(self).steps@.last();
                &&& s.step_number == old(self).steps@.len() + 1
                &&& s.step_type is Thinking
                &&& model(s.input) == crate::json::JsonModel::String(input@)
                &&& s.output matches Some(JsonValue::String(o)) && o@ == "Agent "@ + agent_name@ + " processed: "@ + input@
                &&& s.error is None
                &&& s.duration_ms == Some(100u64)
                &&& s.metadata.view_map().is_empty()
            }),
            r.success,
            r.final_answer matches Some(a) && a@ == "Agent "@ + agent_name@ + " processed: "@ + input@,
            same_steps(r.steps@, final(self).steps@),
            r.total_duration_ms == 100,
            r.token_usage is None,
            r.error is None,
            r.metadata.wf(),
            r.metadata.view_map().is_empty(),
    {
        let step_number = self.steps.len() + 1;
        let response = processed_reply(agent_name, input.as_str());
        let step = AgentStep {
            step_number,
            timestamp_ms: now_millis(),
            step_type: AgentStepType::Thinking,
            input: JsonValue::String(input),
            output: Some(JsonValue::String(response.clone())),
            error: None,
            duration_ms: Some(100),
            metadata: NameTable::new(),
        };
        let ghost before = self.steps@;
        self.steps.push(step);
        assert forall|i: int| 0 <= i < self.steps@.len() implies (#[trigger] self.steps@[i]).metadata.wf() by {
            if i < before.len() {
                assert(self.steps@[i] == before[i]);
            }
        }
        let steps = self.get_history();
        AgentResult {
            success: true,
            final_answer: Some(response),
            steps,
            total_duration_ms: 100,
            token_usage: None,
            error: None,
            metadata: NameTable::new(),
        }
    }
}

/// Agents by name.
#[derive(Debug)]
pub struct AgentRegistry<A> {
    agents: NameTable<A>,
}

impl<A> AgentRegistry<A> {
    /// The agents by name.
    pub closed spec fn agent_map(&self) -> Map<Seq<char>, A> {
        self.agents.view_map()
    }

    pub closed spec fn wf(&self) -> bool {
        self.agents.wf()
    }

    pub fn new() -> (r: Self)
        ensures
            r.wf(),
            r.agent_map().is_empty(),
    {
        AgentRegistry { agents: NameTable::new() }
    }

    /// Register an agent under a name, replacing any of that name.
    pub fn register(&mut self, name: String, agent: A)
        requires
            old(self).wf(),
        ensures
            final(self).wf(),
            final(self).agent_map() == old(self).agent_map().insert(name@, agent),
    {
        self.agents.insert(name, agent);
    }

    /// The agent registered under a name.
    pub fn get(&self, name: &str) -> (r: Option<&A>)
        requires
            self.wf(),
        ensures
            match r {
                Some(a) => self.agent_map().contains_key(name@) && *a == self.agent_map()[name@],
                None => !self.agent_map().contains_key(name@),
            },
    {
        self.agents.get(name)
    }

    /// The names of the registered agents.
    pub fn list_agents(&self) -> (v: Vec<String>)
        requires
            self.wf(),
        ensures
            forall|k: Seq<char>| self.agent_map().contains_key(k) <==> exists|i: int| 0 <= i < v@.len() && #[trigger] v@[i]@ == k,
    {
        self.agents.name_list()
    }

    /// Remove the agent registered under a name, giving it back.
    pub fn remove(&mut self, name: &str) -> (r: Option<A>)
        requires
            old(self).wf(),
        ensures
            final(self).wf(),
            final(self).agent_map() == old(self).agent_map().remove(name@),
            match r {
                Some(a) => old(self).agent_map().contains_key(name@) && a == old(self).agent_map()[name@],
                None => !old(self).agent_map().contains_key(name@),
            },
    {
        self.agents.remove(name)
    }
}

/// Two capabilities are the same: the same kind, and for custom ones the
/// same name.
pub open spec fn same_capability(a: AgentCapability, b: AgentCapability) -> bool {
    match a {
        AgentCapability::Basic => b is Basic,
        AgentCapability::ToolCalling => b is ToolCalling,
        AgentCapability::CodeExecution => b is CodeExecution,
        AgentCapability::Planning => b is Planning,
        AgentCapability::Coordination => b is Coordination,
        AgentCapability::Streaming => b is Streaming,
        AgentCapability::Memory => b is Memory,
        AgentCapability::Learning => b is Learning,
        AgentCapability::ErrorRecovery => b is ErrorRecovery,
        AgentCapability::Custom(x) => b matches AgentCapability::Custom(y) && x@ == y@,
    }
}

fn capability_matches(a: &AgentCapability, b: &AgentCapability) -> (r: bool)
    ensures
        r == same_capability(*a, *b),
{
    match a {
        AgentCapability::Basic => matches!(b, AgentCapability::Basic),
        AgentCapability::ToolCalling => matches!(b, AgentCapability::ToolCalling),
        AgentCapability::CodeExecution => matches!(b, AgentCapability::CodeExecution),
        AgentCapability::Planning => matches!(b, AgentCapability::Planning),
        AgentCapability::Coordination => matches!(b, AgentCapability::Coordination),
        AgentCapability::Streaming => matches!(b, AgentCapability::Streaming),
        AgentCapability::Memory => matches!(b, AgentCapability::Memory),
        AgentCapability::Learning => matches!(b, AgentCapability::Learning),
        AgentCapability::ErrorRecovery => matches!(b, AgentCapability::ErrorRecovery),
        AgentCapability::Custom(x) => match b {
            AgentCapability::Custom(y) => crate::text::str_eq(x.as_str(), y.as_str()),
            _ => false,
        },
    }
}

/// Whether an agent with these capabilities has the given one.
pub fn has_capability(capabilities: &Vec<AgentCapability>, capability: &AgentCapability) -> (b: bool)
    ensures
        b == exists|i: int| 0 <= i < capabilities@.len() && same_capability(#[trigger] capabilities@[i], *capability),
{
    let mut i: usize = 0;
    while i < capabilities.len()
        invariant
            i <= capabilities@.len(),
            forall|j: int| 0 <= j < i ==> !same_capability(#[trigger] capabilities@[j], *capability),
        decreases capabilities@.len() - i,
    {
        if capability_matches(&capabilities[i], capability) {
            return true;
        }
        i = i + 1;
    }
    false
}

} // verus!
