//! The configuration, as the engine takes it once it has been read.

use vstd::prelude::*;
use serde_json::Value;
use crate::dict::Dict;

verus! {

/// `serde_json::Value`: any JSON value. Opaque: a task's `meta` is carried
/// through as it is.
#[verifier::external_type_specification]
#[verifier::external_body]
pub struct ExValue(Value);

/// How to reach an OAuth provider.
#[derive(Debug, Clone, PartialEq, Eq)]
pub struct OAuthConfig {
    pub app_id: String,
    pub secret: String,
    pub base_url: String,
}

/// The providers users may log in with.
#[derive(Debug, Clone, PartialEq, Eq)]
pub struct AuthConfig {
    pub gitlab: Option<OAuthConfig>,
}

/// Whether a task keeps the output of its run, where its configuration
/// does not say: it does.
pub fn default_buffered() -> (buffered: bool)
    ensures
        buffered,
{
    true
}

/// A task's `meta`, where its configuration has none: JSON `null`, which
/// `serde_json` writes as `Value::Null`.
#[verifier::external_body]
pub fn default_meta() -> Value {
    Value::Null
}

/// What kind of value an argument of a run takes.
#[derive(Debug, Clone, Copy, PartialEq, Eq, Structural)]
pub enum ArgumentType {
    /// Any text.
    String,
    /// A whole number.
    Int,
    /// One of the lines that another task has written.
    Enum,
}

/// One argument that a run of a task takes.
#[derive(Debug, Clone, PartialEq, Eq)]
pub struct Argument {
    pub name: String,
    pub datatype: ArgumentType,
    /// For an `Enum`: the task whose output lists the values to choose from.
    pub enum_source: Option<String>,
}

/// One task, as configured.
#[derive(Debug)]
pub struct TaskConfig {
    /// The command line; a segment that starts with `$` stands for an
    /// argument of the run.
    pub command: Vec<String>,
    /// The arguments a run takes.
    pub arguments: Vec<Argument>,
    /// Whether a run keeps its output in the task's record.
    pub buffered: bool,
    /// Whatever the configuration attaches to the task.
    pub meta: Value,
    /// Headers to send with the task's output.
    pub headers: Dict<String>,
}

impl TaskConfig {
    /// A task of which the configuration gives the command line and
    /// nothing else: it takes no arguments, its runs are buffered, and it
    /// has no `meta` and no headers.
    pub fn with_defaults(command: Vec<String>) -> (task: Self)
        ensures
            task.command == command,
            task.arguments@.len() == 0,
            task.buffered,
            task.headers@.len() == 0,
    {
        TaskConfig {
            command,
            arguments: Vec::new(),
            buffered: default_buffered(),
            meta: default_meta(),
            headers: Dict::new(),
        }
    }
}

/// What one user may do, each as a list of task names.
#[derive(Debug, Clone, PartialEq, Eq)]
pub struct User {
    pub can_run: Vec<String>,
    pub can_view_output: Vec<String>,
    pub can_view_status: Vec<String>,
    pub can_change_data: Vec<String>,
}

/// The configuration.
#[derive(Debug)]
pub struct Config {
    /// The tasks, by name.
    pub tasks: Dict<TaskConfig>,
    /// The users, by login.
    pub users: Dict<User>,
    /// The seconds between two signs of life on the global bus, if any are
    /// to be sent.
    pub heartbeat: Option<u64>,
}

} // verus!
