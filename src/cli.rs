//! The command line, as plain data: what the user asked for, once parsed.

use vstd::prelude::*;

verus! {

/// The whole command line.
pub struct Cli {
    pub command: Commands,
}

/// The `config` subcommands.
pub enum ConfigCommands {
    /// Add a command nickname.
    AddCommand { nickname: String, command: String },
    /// Add a script nickname.
    AddScript { nickname: String, script: String },
    /// Add or update the interpreter for a file extension.
    AddInterpreter { extension: String, interpreter_path: String },
    /// Remove a command nickname.
    RemoveCommand { nickname: String },
    /// Remove a script nickname.
    RemoveScript { nickname: String },
    /// Remove a custom interpreter.
    RemoveInterpreter { extension: String },
    /// Show the configuration.
    List,
}

/// The subcommands.
#[allow(inconsistent_fields)]
pub enum Commands {
    /// List the contexts, or switch to the one that a pattern names.
    Ctx { name: Option<String> },
    /// List pods, optionally filtered by a pattern.
    PodsList { pattern: Option<String>, context: Option<String>, namespace: Option<String> },
    /// The same as `PodsList`.
    Pod { pattern: Option<String>, context: Option<String>, namespace: Option<String> },
    /// Show the logs of a pod.
    Logs {
        pod: String,
        context: Option<String>,
        namespace: Option<String>,
        follow: bool,
        tail: Option<u32>,
        previous: bool,
        container: Option<String>,
        grep: Option<String>,
        exclude: Option<String>,
    },
    /// The same as `Logs`.
    Log {
        pod: String,
        context: Option<String>,
        namespace: Option<String>,
        follow: bool,
        tail: Option<u32>,
        previous: bool,
        container: Option<String>,
        grep: Option<String>,
        exclude: Option<String>,
    },
    /// Run a command or a script on a pod, or open a shell there.
    Exec {
        pod: String,
        command: Option<String>,
        script: Option<String>,
        context: Option<String>,
        namespace: Option<String>,
    },
    /// Show or edit the configuration.
    Config { command: Option<ConfigCommands> },
}

} // verus!
