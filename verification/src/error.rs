//! Error types of the library.
//!
//! `HarnessError` gathers every error the library reports, grouped by
//! area (configuration, model, tool, middleware, sandbox, memory, I/O,
//! serialization, network).  Each error renders to the message that its
//! variant documents, and `ErrorContext` carries extra debugging detail.
use crate::text::{concat2, concat3, concat4, decimal, fmt_u64, has_prefix, join, join_strings, owned, views};
use vstd::prelude::*;

verus! {

/// `std::io::Error`, carried inside `HarnessError::Io`.
#[verifier::external_type_specification]
#[verifier::external_body]
pub struct ExIoError(std::io::Error);

/// `serde_json::Error`, carried inside `HarnessError::Json`.
#[verifier::external_type_specification]
#[verifier::external_body]
pub struct ExJsonError(serde_json::Error);

/// `serde_yaml::Error`, carried inside `HarnessError::Yaml`.
#[verifier::external_type_specification]
#[verifier::external_body]
pub struct ExYamlError(serde_yaml::Error);

/// The `Display` text of an I/O error (`<std::io::Error as ToString>::to_string`).
///
/// The text depends on the operating system's error description, so
/// nothing is stated of it.
#[verifier::external_body]
fn io_error_text(e: &std::io::Error) -> String {
    e.to_string()
}

/// The `Display` text of a JSON error (`<serde_json::Error as ToString>::to_string`).
///
/// serde_json composes the text from the error's kind and position; the
/// contract states nothing of it.
#[verifier::external_body]
fn json_error_text(e: &serde_json::Error) -> String {
    e.to_string()
}

/// The `Display` text of a YAML error (`<serde_yaml::Error as ToString>::to_string`).
///
/// serde_yaml composes the text from the error's kind and position; the
/// contract states nothing of it.
#[verifier::external_body]
fn yaml_error_text(e: &serde_yaml::Error) -> String {
    e.to_string()
}

/// Configuration-related errors.
#[derive(Debug)]
pub enum ConfigError {
    /// Loading the configuration from a path failed.
    LoadError(String, String),
    /// A required field is missing.
    MissingField(String),
    /// A field holds an invalid value.
    InvalidValue(String, String),
    /// The configuration file does not exist.
    FileNotFound(String),
    /// An environment variable could not be parsed.
    EnvVarError(String, String),
    /// The configuration has an unexpected version.
    VersionMismatch(String, String),
}

/// Model-related errors.
#[derive(Debug)]
pub enum ModelError {
    /// No such model or provider.
    NotFound(String),
    /// The model could not be initialized.
    InitializationFailed(String),
    /// Invoking the model failed.
    InvocationFailed(String),
    /// The provider rate-limited the request; retry after this many seconds.
    RateLimited(u64),
    /// The request timed out.
    Timeout,
    /// The API key of the provider is invalid or missing.
    InvalidApiKey(String),
    /// Tokens used and the limit.
    TokenLimitExceeded(u32, u32),
    /// The model does not support thinking mode.
    ThinkingNotSupported(String),
    /// The model does not support vision.
    VisionNotSupported(String),
    /// The model's response could not be understood.
    InvalidResponse(String),
    /// Streaming failed.
    StreamError(String),
}

/// Tool-related errors.
#[derive(Debug)]
pub enum ToolError {
    /// No such tool.
    NotFound(String),
    /// The tool failed.
    ExecutionFailed(String),
    /// The tool's arguments are invalid.
    InvalidArguments(String),
    /// The tool timed out.
    Timeout(String),
    /// The tool reported an error.
    ToolErrorResult(String),
    /// The tool call was interrupted.
    Interrupted,
    /// The tool's validation failed.
    ValidationFailed(String),
    /// Too many tool calls.
    TooManyCalls(usize),
}

/// Middleware-related errors.
#[derive(Debug)]
pub enum MiddlewareError {
    /// A middleware (named first) failed with a message.
    ExecutionFailed(String, String),
    /// The chain itself failed.
    ChainError(String),
    /// A middleware found an invalid state.
    InvalidState(String),
    /// A loop was detected.
    LoopDetected(String),
    /// The user must clarify.
    ClarificationRequired(String),
}

/// Sandbox-related errors.
#[derive(Debug)]
pub enum SandboxError {
    /// No such sandbox.
    NotFound(String),
    /// The sandbox could not be initialized.
    InitializationFailed(String),
    /// A command failed.
    CommandFailed(String),
    /// A path left the sandbox.
    PathTraversal(String),
    /// No such file in the sandbox.
    FileNotFound(String),
    /// Permission denied.
    PermissionDenied(String),
    /// Cleanup failed.
    CleanupFailed(String),
}

/// Memory-related errors.
#[derive(Debug)]
pub enum MemoryError {
    /// The store failed.
    StorageError(String),
    /// An update failed.
    UpdateFailed(String),
    /// Injecting memory into a prompt failed.
    InjectionFailed(String),
    /// The update queue is full.
    QueueFull,
    /// No such memory.
    NotFound(String),
}

/// Main error type of the library.
#[derive(Debug)]
pub enum HarnessError {
    /// Configuration-related errors.
    Config(ConfigError),
    /// Model-related errors.
    Model(ModelError),
    /// Tool-related errors.
    Tool(ToolError),
    /// Middleware-related errors.
    Middleware(MiddlewareError),
    /// Sandbox-related errors.
    Sandbox(SandboxError),
    /// Memory-related errors.
    Memory(MemoryError),
    /// I/O errors.
    Io(std::io::Error),
    /// JSON errors.
    Json(serde_json::Error),
    /// YAML errors.
    Yaml(serde_yaml::Error),
    /// HTTP errors.
    Http(String),
    /// Any other error, with its message.
    Other(String),
}

/// Result type of the library.
pub type Result<T> = core::result::Result<T, HarnessError>;

/// Error categories for classification.
#[derive(Debug, Clone, Copy, PartialEq, Eq, Hash, Structural)]
pub enum ErrorCategory {
    /// Configuration errors.
    Config,
    /// Model errors.
    Model,
    /// Tool errors.
    Tool,
    /// Middleware errors.
    Middleware,
    /// Sandbox errors.
    Sandbox,
    /// Memory errors.
    Memory,
    /// I/O errors.
    Io,
    /// Serialization errors.
    Serialization,
    /// Network errors.
    Network,
    /// Other errors.
    Other,
}

/// The category of an error.
pub open spec fn category_of(e: HarnessError) -> ErrorCategory {
    match e {
        HarnessError::Config(_) => ErrorCategory::Config,
        HarnessError::Model(_) => ErrorCategory::Model,
        HarnessError::Tool(_) => ErrorCategory::Tool,
        HarnessError::Middleware(_) => ErrorCategory::Middleware,
        HarnessError::Sandbox(_) => ErrorCategory::Sandbox,
        HarnessError::Memory(_) => ErrorCategory::Memory,
        HarnessError::Io(_) => ErrorCategory::Io,
        HarnessError::Json(_) => ErrorCategory::Serialization,
        HarnessError::Yaml(_) => ErrorCategory::Serialization,
        HarnessError::Http(_) => ErrorCategory::Network,
        HarnessError::Other(_) => ErrorCategory::Other,
    }
}

/// Whether retrying might succeed: HTTP errors, rate limits and timeouts.
pub open spec fn retryable(e: HarnessError) -> bool {
    match e {
        HarnessError::Http(_) => true,
        HarnessError::Model(ModelError::RateLimited(_)) => true,
        HarnessError::Model(ModelError::Timeout) => true,
        _ => false,
    }
}

/// The name under which a category is displayed.
pub open spec fn category_name(c: ErrorCategory) -> Seq<char> {
    match c {
        ErrorCategory::Config => "config"@,
        ErrorCategory::Model => "model"@,
        ErrorCategory::Tool => "tool"@,
        ErrorCategory::Middleware => "middleware"@,
        ErrorCategory::Sandbox => "sandbox"@,
        ErrorCategory::Memory => "memory"@,
        ErrorCategory::Io => "io"@,
        ErrorCategory::Serialization => "serialization"@,
        ErrorCategory::Network => "network"@,
        ErrorCategory::Other => "other"@,
    }
}

impl ErrorCategory {
    /// The category's display name.
    pub fn to_string(&self) -> (s: String)
        ensures
            s@ == category_name(*self),
    {
        match self {
            ErrorCategory::Config => owned("config"),
            ErrorCategory::Model => owned("model"),
            ErrorCategory::Tool => owned("tool"),
            ErrorCategory::Middleware => owned("middleware"),
            ErrorCategory::Sandbox => owned("sandbox"),
            ErrorCategory::Memory => owned("memory"),
            ErrorCategory::Io => owned("io"),
            ErrorCategory::Serialization => owned("serialization"),
            ErrorCategory::Network => owned("network"),
            ErrorCategory::Other => owned("other"),
        }
    }
}

/// The message of a configuration error.
pub open spec fn config_message(e: ConfigError) -> Seq<char> {
    match e {
        ConfigError::LoadError(a, b) => "Failed to load configuration from "@ + a@ + ": "@ + b@,
        ConfigError::MissingField(a) => "Missing required configuration field: "@ + a@,
        ConfigError::InvalidValue(a, b) => "Invalid configuration value for "@ + a@ + ": "@ + b@,
        ConfigError::FileNotFound(a) => "Configuration file not found: "@ + a@,
        ConfigError::EnvVarError(a, b) => "Failed to parse environment variable "@ + a@ + ": "@
            + b@,
        ConfigError::VersionMismatch(a, b) => "Configuration version mismatch: expected "@ + a@
            + ", found "@ + b@,
    }
}

/// The message of a model error.
pub open spec fn model_message(e: ModelError) -> Seq<char> {
    match e {
        ModelError::NotFound(a) => "Model not found: "@ + a@,
        ModelError::InitializationFailed(a) => "Model initialization failed: "@ + a@,
        ModelError::InvocationFailed(a) => "Model invocation failed: "@ + a@,
        ModelError::RateLimited(n) => "Rate limited: retry after "@ + decimal(n as nat)
            + " seconds"@,
        ModelError::Timeout => "Request timeout"@,
        ModelError::InvalidApiKey(a) => "Invalid API key for provider "@ + a@,
        ModelError::TokenLimitExceeded(u, l) => "Token limit exceeded: used "@ + decimal(
            u as nat,
        ) + ", limit "@ + decimal(l as nat),
        ModelError::ThinkingNotSupported(a) => "Thinking mode not supported by model "@ + a@,
        ModelError::VisionNotSupported(a) => "Vision mode not supported by model "@ + a@,
        ModelError::InvalidResponse(a) => "Invalid response from model: "@ + a@,
        ModelError::StreamError(a) => "Stream error: "@ + a@,
    }
}

/// The message of a tool error.
pub open spec fn tool_message(e: ToolError) -> Seq<char> {
    match e {
        ToolError::NotFound(a) => "Tool not found: "@ + a@,
        ToolError::ExecutionFailed(a) => "Tool execution failed: "@ + a@,
        ToolError::InvalidArguments(a) => "Invalid tool arguments: "@ + a@,
        ToolError::Timeout(a) => "Tool timeout: "@ + a@,
        ToolError::ToolErrorResult(a) => "Tool returned error: "@ + a@,
        ToolError::Interrupted => "Tool call interrupted"@,
        ToolError::ValidationFailed(a) => "Tool validation failed: "@ + a@,
        ToolError::TooManyCalls(n) => "Too many tool calls: "@ + decimal(n as nat),
    }
}

/// The message of a middleware error.
pub open spec fn middleware_message(e: MiddlewareError) -> Seq<char> {
    match e {
        MiddlewareError::ExecutionFailed(a, b) => "Middleware execution failed in "@ + a@ + ": "@
            + b@,
        MiddlewareError::ChainError(a) => "Middleware chain error: "@ + a@,
        MiddlewareError::InvalidState(a) => "Invalid middleware state: "@ + a@,
        MiddlewareError::LoopDetected(a) => "Loop detected: "@ + a@,
        MiddlewareError::ClarificationRequired(a) => "Clarification required: "@ + a@,
    }
}

/// The message of a sandbox error.
pub open spec fn sandbox_message(e: SandboxError) -> Seq<char> {
    match e {
        SandboxError::NotFound(a) => "Sandbox not found: "@ + a@,
        SandboxError::InitializationFailed(a) => "Sandbox initialization failed: "@ + a@,
        SandboxError::CommandFailed(a) => "Command execution failed: "@ + a@,
        SandboxError::PathTraversal(a) => "Path traversal detected: "@ + a@,
        SandboxError::FileNotFound(a) => "File not found in sandbox: "@ + a@,
        SandboxError::PermissionDenied(a) => "Permission denied: "@ + a@,
        SandboxError::CleanupFailed(a) => "Sandbox cleanup failed: "@ + a@,
    }
}

/// The message of a memory error.
pub open spec fn memory_message(e: MemoryError) -> Seq<char> {
    match e {
        MemoryError::StorageError(a) => "Memory storage error: "@ + a@,
        MemoryError::UpdateFailed(a) => "Memory update failed: "@ + a@,
        MemoryError::InjectionFailed(a) => "Memory injection failed: "@ + a@,
        MemoryError::QueueFull => "Memory queue full"@,
        MemoryError::NotFound(a) => "Memory not found: "@ + a@,
    }
}

impl ConfigError {
    /// The error's message.
    pub fn to_string(&self) -> (s: String)
        ensures
            s@ == config_message(*self),
    {
        match self {
            ConfigError::LoadError(a, b) => concat4(
                "Failed to load configuration from ",
                a.as_str(),
                ": ",
                b.as_str(),
            ),
            ConfigError::MissingField(a) => concat2(
                "Missing required configuration field: ",
                a.as_str(),
            ),
            ConfigError::InvalidValue(a, b) => concat4(
                "Invalid configuration value for ",
                a.as_str(),
                ": ",
                b.as_str(),
            ),
            ConfigError::FileNotFound(a) => concat2("Configuration file not found: ", a.as_str()),
            ConfigError::EnvVarError(a, b) => concat4(
                "Failed to parse environment variable ",
                a.as_str(),
                ": ",
                b.as_str(),
            ),
            ConfigError::VersionMismatch(a, b) => concat4(
                "Configuration version mismatch: expected ",
                a.as_str(),
                ", found ",
                b.as_str(),
            ),
        }
    }
}

impl ModelError {
    /// The error's message.
    pub fn to_string(&self) -> (s: String)
        ensures
            s@ == model_message(*self),
    {
        match self {
            ModelError::NotFound(a) => concat2("Model not found: ", a.as_str()),
            ModelError::InitializationFailed(a) => concat2(
                "Model initialization failed: ",
                a.as_str(),
            ),
            ModelError::InvocationFailed(a) => concat2("Model invocation failed: ", a.as_str()),
            ModelError::RateLimited(n) => {
                let d = fmt_u64(*n);
                concat3("Rate limited: retry after ", d.as_str(), " seconds")
            },
            ModelError::Timeout => owned("Request timeout"),
            ModelError::InvalidApiKey(a) => concat2("Invalid API key for provider ", a.as_str()),
            ModelError::TokenLimitExceeded(u, l) => {
                let du = fmt_u64(*u as u64);
                let dl = fmt_u64(*l as u64);
                concat4("Token limit exceeded: used ", du.as_str(), ", limit ", dl.as_str())
            },
            ModelError::ThinkingNotSupported(a) => concat2(
                "Thinking mode not supported by model ",
                a.as_str(),
            ),
            ModelError::VisionNotSupported(a) => concat2(
                "Vision mode not supported by model ",
                a.as_str(),
            ),
            ModelError::InvalidResponse(a) => concat2(
                "Invalid response from model: ",
                a.as_str(),
            ),
            ModelError::StreamError(a) => concat2("Stream error: ", a.as_str()),
        }
    }
}

impl ToolError {
    /// The error's message.
    pub fn to_string(&self) -> (s: String)
        ensures
            s@ == tool_message(*self),
    {
        match self {
            ToolError::NotFound(a) => concat2("Tool not found: ", a.as_str()),
            ToolError::ExecutionFailed(a) => concat2("Tool execution failed: ", a.as_str()),
            ToolError::InvalidArguments(a) => concat2("Invalid tool arguments: ", a.as_str()),
            ToolError::Timeout(a) => concat2("Tool timeout: ", a.as_str()),
            ToolError::ToolErrorResult(a) => concat2("Tool returned error: ", a.as_str()),
            ToolError::Interrupted => owned("Tool call interrupted"),
            ToolError::ValidationFailed(a) => concat2("Tool validation failed: ", a.as_str()),
            ToolError::TooManyCalls(n) => {
                let d = fmt_u64(*n as u64);
                concat2("Too many tool calls: ", d.as_str())
            },
        }
    }
}

impl MiddlewareError {
    /// The error's message.
    pub fn to_string(&self) -> (s: String)
        ensures
            s@ == middleware_message(*self),
    {
        match self {
            MiddlewareError::ExecutionFailed(a, b) => concat4(
                "Middleware execution failed in ",
                a.as_str(),
                ": ",
                b.as_str(),
            ),
            MiddlewareError::ChainError(a) => concat2("Middleware chain error: ", a.as_str()),
            MiddlewareError::InvalidState(a) => concat2("Invalid middleware state: ", a.as_str()),
            MiddlewareError::LoopDetected(a) => concat2("Loop detected: ", a.as_str()),
            MiddlewareError::ClarificationRequired(a) => concat2(
                "Clarification required: ",
                a.as_str(),
            ),
        }
    }
}

impl SandboxError {
    /// The error's message.
    pub fn to_string(&self) -> (s: String)
        ensures
            s@ == sandbox_message(*self),
    {
        match self {
            SandboxError::NotFound(a) => concat2("Sandbox not found: ", a.as_str()),
            SandboxError::InitializationFailed(a) => concat2(
                "Sandbox initialization failed: ",
                a.as_str(),
            ),
            SandboxError::CommandFailed(a) => concat2("Command execution failed: ", a.as_str()),
            SandboxError::PathTraversal(a) => concat2("Path traversal detected: ", a.as_str()),
            SandboxError::FileNotFound(a) => concat2("File not found in sandbox: ", a.as_str()),
            SandboxError::PermissionDenied(a) => concat2("Permission denied: ", a.as_str()),
            SandboxError::CleanupFailed(a) => concat2("Sandbox cleanup failed: ", a.as_str()),
        }
    }
}

impl MemoryError {
    /// The error's message.
    pub fn to_string(&self) -> (s: String)
        ensures
            s@ == memory_message(*self),
    {
        match self {
            MemoryError::StorageError(a) => concat2("Memory storage error: ", a.as_str()),
            MemoryError::UpdateFailed(a) => concat2("Memory update failed: ", a.as_str()),
            MemoryError::InjectionFailed(a) => concat2("Memory injection failed: ", a.as_str()),
            MemoryError::QueueFull => owned("Memory queue full"),
            MemoryError::NotFound(a) => concat2("Memory not found: ", a.as_str()),
        }
    }
}

/// The message of an error whose text is composed entirely by this
/// library (every variant but the I/O, JSON and YAML ones, whose inner
/// text comes from the outside error).
pub open spec fn harness_message(e: HarnessError) -> Seq<char> {
    match e {
        HarnessError::Config(c) => "Configuration error: "@ + config_message(c),
        HarnessError::Model(m) => "Model error: "@ + model_message(m),
        HarnessError::Tool(t) => "Tool error: "@ + tool_message(t),
        HarnessError::Middleware(m) => "Middleware error: "@ + middleware_message(m),
        HarnessError::Sandbox(s) => "Sandbox error: "@ + sandbox_message(s),
        HarnessError::Memory(m) => "Memory error: "@ + memory_message(m),
        HarnessError::Io(_) => "IO error: "@,
        HarnessError::Json(_) => "JSON error: "@,
        HarnessError::Yaml(_) => "YAML error: "@,
        HarnessError::Http(s) => "HTTP error: "@ + s@,
        HarnessError::Other(s) => s@,
    }
}

/// The error wraps an outside error whose own text follows the prefix.
pub open spec fn wraps_outside_error(e: HarnessError) -> bool {
    e is Io || e is Json || e is Yaml
}

impl HarnessError {
    /// A generic error with a message.
    pub fn other(msg: &str) -> (e: Self)
        ensures
            e matches HarnessError::Other(m) && m@ == msg@,
    {
        HarnessError::Other(owned(msg))
    }

    /// An HTTP error with a message.
    pub fn http(msg: &str) -> (e: Self)
        ensures
            e matches HarnessError::Http(m) && m@ == msg@,
    {
        HarnessError::Http(owned(msg))
    }

    /// Whether this error may go away on retry.
    pub fn is_retryable(&self) -> (r: bool)
        ensures
            r == retryable(*self),
    {
        match self {
            HarnessError::Http(_) => true,
            HarnessError::Model(ModelError::RateLimited(_)) => true,
            HarnessError::Model(ModelError::Timeout) => true,
            _ => false,
        }
    }

    /// The error's category, for logging and monitoring.
    pub fn category(&self) -> (c: ErrorCategory)
        ensures
            c == category_of(*self),
    {
        match self {
            HarnessError::Config(_) => ErrorCategory::Config,
            HarnessError::Model(_) => ErrorCategory::Model,
            HarnessError::Tool(_) => ErrorCategory::Tool,
            HarnessError::Middleware(_) => ErrorCategory::Middleware,
            HarnessError::Sandbox(_) => ErrorCategory::Sandbox,
            HarnessError::Memory(_) => ErrorCategory::Memory,
            HarnessError::Io(_) => ErrorCategory::Io,
            HarnessError::Json(_) => ErrorCategory::Serialization,
            HarnessError::Yaml(_) => ErrorCategory::Serialization,
            HarnessError::Http(_) => ErrorCategory::Network,
            HarnessError::Other(_) => ErrorCategory::Other,
        }
    }

    /// The error's message.  For errors wrapping an I/O, JSON or YAML
    /// error the message is the prefix followed by the outside error's
    /// own text; for all others it is exactly `harness_message`.
    pub fn to_string(&self) -> (s: String)
        ensures
            !wraps_outside_error(*self) ==> s@ == harness_message(*self),
            wraps_outside_error(*self) ==> has_prefix(s@, harness_message(*self)),
    {
        match self {
            HarnessError::Config(c) => {
                let m = c.to_string();
                concat2("Configuration error: ", m.as_str())
            },
            HarnessError::Model(c) => {
                let m = c.to_string();
                concat2("Model error: ", m.as_str())
            },
            HarnessError::Tool(c) => {
                let m = c.to_string();
                concat2("Tool error: ", m.as_str())
            },
            HarnessError::Middleware(c) => {
                let m = c.to_string();
                concat2("Middleware error: ", m.as_str())
            },
            HarnessError::Sandbox(c) => {
                let m = c.to_string();
                concat2("Sandbox error: ", m.as_str())
            },
            HarnessError::Memory(c) => {
                let m = c.to_string();
                concat2("Memory error: ", m.as_str())
            },
            HarnessError::Io(e) => {
                let m = io_error_text(e);
                let s = concat2("IO error: ", m.as_str());
                assert(s@.take("IO error: "@.len() as int) == "IO error: "@);
                s
            },
            HarnessError::Json(e) => {
                let m = json_error_text(e);
                let s = concat2("JSON error: ", m.as_str());
                assert(s@.take("JSON error: "@.len() as int) == "JSON error: "@);
                s
            },
            HarnessError::Yaml(e) => {
                let m = yaml_error_text(e);
                let s = concat2("YAML error: ", m.as_str());
                assert(s@.take("YAML error: "@.len() as int) == "YAML error: "@);
                s
            },
            HarnessError::Http(m) => concat2("HTTP error: ", m.as_str()),
            HarnessError::Other(m) => owned(m.as_str()),
        }
    }
}

impl From<ConfigError> for HarnessError {
    fn from(e: ConfigError) -> (r: Self) {
        HarnessError::Config(e)
    }
}

impl vstd::std_specs::convert::FromSpecImpl<ConfigError> for HarnessError {
    open spec fn obeys_from_spec() -> bool {
        true
    }

    open spec fn from_spec(e: ConfigError) -> Self {
        HarnessError::Config(e)
    }
}

impl From<ModelError> for HarnessError {
    fn from(e: ModelError) -> (r: Self) {
        HarnessError::Model(e)
    }
}

impl vstd::std_specs::convert::FromSpecImpl<ModelError> for HarnessError {
    open spec fn obeys_from_spec() -> bool {
        true
    }

    open spec fn from_spec(e: ModelError) -> Self {
        HarnessError::Model(e)
    }
}

impl From<ToolError> for HarnessError {
    fn from(e: ToolError) -> (r: Self) {
        HarnessError::Tool(e)
    }
}

impl vstd::std_specs::convert::FromSpecImpl<ToolError> for HarnessError {
    open spec fn obeys_from_spec() -> bool {
        true
    }

    open spec fn from_spec(e: ToolError) -> Self {
        HarnessError::Tool(e)
    }
}

impl From<MiddlewareError> for HarnessError {
    fn from(e: MiddlewareError) -> (r: Self) {
        HarnessError::Middleware(e)
    }
}

impl vstd::std_specs::convert::FromSpecImpl<MiddlewareError> for HarnessError {
    open spec fn obeys_from_spec() -> bool {
        true
    }

    open spec fn from_spec(e: MiddlewareError) -> Self {
        HarnessError::Middleware(e)
    }
}

impl From<SandboxError> for HarnessError {
    fn from(e: SandboxError) -> (r: Self) {
        HarnessError::Sandbox(e)
    }
}

impl vstd::std_specs::convert::FromSpecImpl<SandboxError> for HarnessError {
    open spec fn obeys_from_spec() -> bool {
        true
    }

    open spec fn from_spec(e: SandboxError) -> Self {
        HarnessError::Sandbox(e)
    }
}

impl From<MemoryError> for HarnessError {
    fn from(e: MemoryError) -> (r: Self) {
        HarnessError::Memory(e)
    }
}

impl vstd::std_specs::convert::FromSpecImpl<MemoryError> for HarnessError {
    open spec fn obeys_from_spec() -> bool {
        true
    }

    open spec fn from_spec(e: MemoryError) -> Self {
        HarnessError::Memory(e)
    }
}

impl From<std::io::Error> for HarnessError {
    fn from(e: std::io::Error) -> (r: Self) {
        HarnessError::Io(e)
    }
}

impl vstd::std_specs::convert::FromSpecImpl<std::io::Error> for HarnessError {
    open spec fn obeys_from_spec() -> bool {
        true
    }

    open spec fn from_spec(e: std::io::Error) -> Self {
        HarnessError::Io(e)
    }
}

impl From<serde_json::Error> for HarnessError {
    fn from(e: serde_json::Error) -> (r: Self) {
        HarnessError::Json(e)
    }
}

impl vstd::std_specs::convert::FromSpecImpl<serde_json::Error> for HarnessError {
    open spec fn obeys_from_spec() -> bool {
        true
    }

    open spec fn from_spec(e: serde_json::Error) -> Self {
        HarnessError::Json(e)
    }
}

impl From<serde_yaml::Error> for HarnessError {
    fn from(e: serde_yaml::Error) -> (r: Self) {
        HarnessError::Yaml(e)
    }
}

impl vstd::std_specs::convert::FromSpecImpl<serde_yaml::Error> for HarnessError {
    open spec fn obeys_from_spec() -> bool {
        true
    }

    open spec fn from_spec(e: serde_yaml::Error) -> Self {
        HarnessError::Yaml(e)
    }
}

/// Extra debugging information about an error.
#[derive(Debug)]
pub struct ErrorContext {
    /// The operation that failed.
    pub operation: String,
    /// Additional context.
    pub context: Option<String>,
    /// The source error's message.
    pub source: Option<String>,
}

/// The parts that `ErrorContext::format` joins.
pub open spec fn context_parts(c: ErrorContext) -> Seq<Seq<char>> {
    let p0 = seq!["operation: "@ + c.operation@];
    let p1 = match c.context {
        Some(x) => p0.push("context: "@ + x@),
        None => p0,
    };
    match c.source {
        Some(x) => p1.push("source: "@ + x@),
        None => p1,
    }
}

impl Clone for ErrorContext {
    fn clone(&self) -> (r: Self)
        ensures
            r == *self,
    {
        ErrorContext {
            operation: self.operation.clone(),
            context: self.context.clone(),
            source: self.source.clone(),
        }
    }
}

impl ErrorContext {
    /// A context for `operation`, with no further detail.
    pub fn new(operation: &str) -> (c: Self)
        ensures
            c.operation@ == operation@,
            c.context is None,
            c.source is None,
    {
        ErrorContext { operation: owned(operation), context: None, source: None }
    }

    /// Adds context to the error.
    pub fn with_context(self, context: &str) -> (c: Self)
        ensures
            c.operation == self.operation,
            c.context matches Some(x) && x@ == context@,
            c.source == self.source,
    {
        ErrorContext { context: Some(owned(context)), ..self }
    }

    /// Sets the source error's message.
    pub fn with_source(self, source: &str) -> (c: Self)
        ensures
            c.operation == self.operation,
            c.context == self.context,
            c.source matches Some(x) && x@ == source@,
    {
        ErrorContext { source: Some(owned(source)), ..self }
    }

    /// The context as `operation: ..., context: ..., source: ...`,
    /// leaving out the parts that are not set.
    pub fn format(&self) -> (s: String)
        ensures
            s@ == join(context_parts(*self), ", "@),
    {
        let mut parts: Vec<String> = Vec::new();
        parts.push(concat2("operation: ", self.operation.as_str()));
        match &self.context {
            Some(x) => parts.push(concat2("context: ", x.as_str())),
            None => {},
        }
        match &self.source {
            Some(x) => parts.push(concat2("source: ", x.as_str())),
            None => {},
        }
        assert(views(parts@) =~= context_parts(*self));
        join_strings(&parts, ", ")
    }

    /// The context's display text, the same as `format`.
    pub fn to_string(&self) -> (s: String)
        ensures
            s@ == join(context_parts(*self), ", "@),
    {
        self.format()
    }
}

} // verus!
