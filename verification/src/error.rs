//! Errors of the library: the crate-wide error and the rejection of a tool
//! call by the user.
use crate::text::{append_vec, chars_of, string_of};
use vstd::prelude::*;

verus! {

/// Base error type of the library. Errors that come from an I/O or parsing
/// layer carry that layer's message.
#[derive(Debug)]
pub enum KimiCliError {
    Config(String),
    AgentSpec(String),
    InvalidTool(String),
    SystemPromptTemplate(String),
    McpConfig(String),
    McpRuntime(String),
    Io(String),
    SerdeJson(String),
    SerdeYaml(String),
    Toml(String),
    TomlSer(String),
    Http(String),
    ApprovalTimeout,
    ApprovalCancelled,
    LlmNotSet,
    LlmNotSupported(String),
    RunCancelled,
    MaxStepsReached,
    OAuthUnauthorized,
    Generic(String),
}

/// The text an error displays: a fixed prefix per kind, then its message.
pub open spec fn error_text(e: KimiCliError) -> Seq<char> {
    match e {
        KimiCliError::Config(m) => "configuration error: "@ + m@,
        KimiCliError::AgentSpec(m) => "agent spec error: "@ + m@,
        KimiCliError::InvalidTool(m) => "invalid tool: "@ + m@,
        KimiCliError::SystemPromptTemplate(m) => "system prompt template error: "@ + m@,
        KimiCliError::McpConfig(m) => "MCP config error: "@ + m@,
        KimiCliError::McpRuntime(m) => "MCP runtime error: "@ + m@,
        KimiCliError::Io(m) => "I/O error: "@ + m@,
        KimiCliError::SerdeJson(m) => "serialization error: "@ + m@,
        KimiCliError::SerdeYaml(m) => "YAML error: "@ + m@,
        KimiCliError::Toml(m) => "TOML error: "@ + m@,
        KimiCliError::TomlSer(m) => "TOML serialize error: "@ + m@,
        KimiCliError::Http(m) => "HTTP error: "@ + m@,
        KimiCliError::ApprovalTimeout => "approval timed out"@,
        KimiCliError::ApprovalCancelled => "approval cancelled"@,
        KimiCliError::LlmNotSet => "LLM not set"@,
        KimiCliError::LlmNotSupported(m) => "LLM not supported: "@ + m@,
        KimiCliError::RunCancelled => "run cancelled"@,
        KimiCliError::MaxStepsReached => "max steps reached"@,
        KimiCliError::OAuthUnauthorized => "OAuth unauthorized"@,
        KimiCliError::Generic(m) => "generic error: "@ + m@,
    }
}

fn prefixed(prefix: &str, m: &String) -> (r: String)
    ensures
        r@ == prefix@ + m@,
{
    let mut v = chars_of(prefix);
    append_vec(&mut v, &chars_of(m.as_str()));
    string_of(&v)
}

impl KimiCliError {
    /// The text this error displays (see `error_text`).
    pub fn to_string(&self) -> (r: String)
        ensures
            r@ == error_text(*self),
    {
        match self {
            KimiCliError::Config(m) => prefixed("configuration error: ", m),
            KimiCliError::AgentSpec(m) => prefixed("agent spec error: ", m),
            KimiCliError::InvalidTool(m) => prefixed("invalid tool: ", m),
            KimiCliError::SystemPromptTemplate(m) => prefixed("system prompt template error: ", m),
            KimiCliError::McpConfig(m) => prefixed("MCP config error: ", m),
            KimiCliError::McpRuntime(m) => prefixed("MCP runtime error: ", m),
            KimiCliError::Io(m) => prefixed("I/O error: ", m),
            KimiCliError::SerdeJson(m) => prefixed("serialization error: ", m),
            KimiCliError::SerdeYaml(m) => prefixed("YAML error: ", m),
            KimiCliError::Toml(m) => prefixed("TOML error: ", m),
            KimiCliError::TomlSer(m) => prefixed("TOML serialize error: ", m),
            KimiCliError::Http(m) => prefixed("HTTP error: ", m),
            KimiCliError::ApprovalTimeout => "approval timed out".to_string(),
            KimiCliError::ApprovalCancelled => "approval cancelled".to_string(),
            KimiCliError::LlmNotSet => "LLM not set".to_string(),
            KimiCliError::LlmNotSupported(m) => prefixed("LLM not supported: ", m),
            KimiCliError::RunCancelled => "run cancelled".to_string(),
            KimiCliError::MaxStepsReached => "max steps reached".to_string(),
            KimiCliError::OAuthUnauthorized => "OAuth unauthorized".to_string(),
            KimiCliError::Generic(m) => prefixed("generic error: ", m),
        }
    }
}

/// Error raised when a tool call is rejected by the user.
#[derive(Debug, Clone)]
pub struct ToolRejectedError {
    pub message: String,
    pub brief: String,
    pub has_feedback: bool,
}

pub open spec fn rejected_brief() -> Seq<char> {
    "Rejected by user"@
}

pub open spec fn feedback_message(feedback: Seq<char>) -> Seq<char> {
    "The tool call is rejected by the user. User feedback: "@ + feedback
}

pub open spec fn feedback_brief(feedback: Seq<char>) -> Seq<char> {
    "Rejected: "@ + feedback
}

pub open spec fn subagent_rejection_message() -> Seq<char> {
    "The tool call is rejected by the user. "@
        + "Try a different approach to complete your task, or explain the "@
        + "limitation in your summary if no alternative is available. "@
        + "Do not retry the same tool call, and do not attempt to bypass "@
        + "this restriction through indirect means."@
}

pub open spec fn default_rejection_message() -> Seq<char> {
    "The tool call is rejected by the user. "@
        + "Stop what you are doing and wait for the user to tell you how to proceed."@
}

impl ToolRejectedError {
    /// A rejection with the given message and the default brief.
    pub fn new(message: String) -> (r: Self)
        ensures
            r.message@ == message@,
            r.brief@ == rejected_brief(),
            !r.has_feedback,
    {
        ToolRejectedError { brief: "Rejected by user".to_string(), has_feedback: false, message }
    }

    /// The same rejection with another brief.
    pub fn with_brief(self, brief: String) -> (r: Self)
        ensures
            r.brief@ == brief@,
            r.message@ == self.message@,
            r.has_feedback == self.has_feedback,
    {
        let mut s = self;
        s.brief = brief;
        s
    }

    /// The same rejection carrying the user's feedback, which message and
    /// brief then report.
    pub fn with_feedback(self, feedback: String) -> (r: Self)
        ensures
            r.has_feedback,
            r.message@ == feedback_message(feedback@),
            r.brief@ == feedback_brief(feedback@),
    {
        let mut s = self;
        s.has_feedback = true;
        s.message = prefixed("The tool call is rejected by the user. User feedback: ", &feedback);
        s.brief = prefixed("Rejected: ", &feedback);
        s
    }

    /// The rejection a subagent is given.
    pub fn for_subagent() -> (r: Self)
        ensures
            r.message@ == subagent_rejection_message(),
            r.brief@ == rejected_brief(),
            !r.has_feedback,
    {
        let mut v = chars_of("The tool call is rejected by the user. ");
        append_vec(&mut v, &chars_of("Try a different approach to complete your task, or explain the "));
        append_vec(&mut v, &chars_of("limitation in your summary if no alternative is available. "));
        append_vec(&mut v, &chars_of("Do not retry the same tool call, and do not attempt to bypass "));
        append_vec(&mut v, &chars_of("this restriction through indirect means."));
        ToolRejectedError { message: string_of(&v), brief: "Rejected by user".to_string(), has_feedback: false }
    }

    /// The text the rejection displays: its message.
    pub fn to_string(&self) -> (r: String)
        ensures
            r@ == self.message@,
    {
        self.message.clone()
    }
}

impl Default for ToolRejectedError {
    fn default() -> (r: Self)
        ensures
            r.message@ == default_rejection_message(),
            r.brief@ == rejected_brief(),
            !r.has_feedback,
    {
        let mut v = chars_of("The tool call is rejected by the user. ");
        append_vec(&mut v, &chars_of("Stop what you are doing and wait for the user to tell you how to proceed."));
        ToolRejectedError { message: string_of(&v), brief: "Rejected by user".to_string(), has_feedback: false }
    }
}

} // verus!
