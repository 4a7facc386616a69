//! The `exec` subcommand: what to run on the pod, and which interpreter reads a script.

use vstd::prelude::*;
use vstd::string::*;
use crate::config::{nickname_or, KubixConfig};
use crate::text::{opt_string, same_text};

verus! {

broadcast use vstd::string::group_string_axioms;

/// What `exec` runs on the chosen pod.
pub enum ExecPlan {
    /// This command line, through `sh -c`.
    Run(String),
    /// The script at this local path, fed on standard input.
    Script(String),
    /// An interactive bash session.
    Shell,
    /// Both a command and a script were given: an error.
    Conflict,
}

/// Decides what `exec` runs: a command or a script, each resolved through its nickname
/// table, or else a shell.
pub fn handle_exec_command(config: &KubixConfig, command: Option<&str>, script: Option<&str>) -> (r:
    ExecPlan)
    requires
        config.wf(),
    ensures
        match (command, script) {
            (Some(c), None) => r matches ExecPlan::Run(x) && x@ == nickname_or(config.commands@, c@),
            (None, Some(s)) => r matches ExecPlan::Script(x) && x@ == nickname_or(config.scripts@, s@),
            (None, None) => r is Shell,
            (Some(_), Some(_)) => r is Conflict,
        },
{
    match (command, script) {
        (Some(c), None) => ExecPlan::Run(config.resolve_command(c)),
        (None, Some(s)) => ExecPlan::Script(config.resolve_script(s)),
        (None, None) => ExecPlan::Shell,
        (Some(_), Some(_)) => ExecPlan::Conflict,
    }
}

/// The extension of the file that `path` names, as `Path::extension` gives it.
pub uninterp spec fn path_extension(path: Seq<char>) -> Option<Seq<char>>;

/// Relies on `std::path::Path::extension`: the part of the path's file name after its
/// last `.`, if there is one that does not start the name. The result depends on the
/// path's characters alone; from a `str` it is always valid UTF-8.
#[verifier::external_body]
fn extension_of(path: &str) -> (r: Option<String>)
    ensures
        match r {
            Some(e) => path_extension(path@) == Some(e@),
            None => path_extension(path@) is None,
        },
{
    let ext = std::path::Path::new(path).extension()?;
    Some(ext.to_str()?.to_string())
}

/// The interpreter that kubix knows for a file extension without configuration.
pub open spec fn builtin_interpreter(e: Seq<char>) -> Option<Seq<char>> {
    if e == "py"@ {
        Some("python3"@)
    } else if e == "js"@ {
        Some("node"@)
    } else if e == "rb"@ {
        Some("ruby"@)
    } else if e == "pl"@ {
        Some("perl"@)
    } else if e == "php"@ {
        Some("php"@)
    } else if e == "sh"@ || e == "bash"@ {
        Some("bash"@)
    } else if e == "r"@ {
        Some("Rscript"@)
    } else if e == "lua"@ {
        Some("lua"@)
    } else if e == "scala"@ {
        Some("scala"@)
    } else if e == "groovy"@ {
        Some("groovy"@)
    } else {
        None
    }
}

/// The interpreter for a script with extension `extension`: the configured one first,
/// then the built-in one; none without an extension.
pub open spec fn interpreter_for(
    interpreters: Map<Seq<char>, Seq<char>>,
    extension: Option<Seq<char>>,
) -> Option<Seq<char>> {
    match extension {
        None => None,
        Some(e) => match interpreters.get(e) {
            Some(i) => Some(i),
            None => builtin_interpreter(e),
        },
    }
}

fn builtin_interpreter_of(e: &str) -> (r: Option<String>)
    ensures
        opt_string(r) == builtin_interpreter(e@),
{
    let name: Option<&str> = if same_text(e, "py") {
        Some("python3")
    } else if same_text(e, "js") {
        Some("node")
    } else if same_text(e, "rb") {
        Some("ruby")
    } else if same_text(e, "pl") {
        Some("perl")
    } else if same_text(e, "php") {
        Some("php")
    } else if same_text(e, "sh") || same_text(e, "bash") {
        Some("bash")
    } else if same_text(e, "r") {
        Some("Rscript")
    } else if same_text(e, "lua") {
        Some("lua")
    } else if same_text(e, "scala") {
        Some("scala")
    } else if same_text(e, "groovy") {
        Some("groovy")
    } else {
        None
    };
    match name {
        Some(n) => Some(String::from_str(n)),
        None => None,
    }
}

/// The interpreter for a script whose file extension is `extension`.
pub fn interpreter_for_extension(config: &KubixConfig, extension: Option<&str>) -> (r: Option<
    String,
>)
    requires
        config.wf(),
    ensures
        opt_string(r) == interpreter_for(
            config.interpreters@,
            match extension {
                Some(e) => Some(e@),
                None => None,
            },
        ),
{
    match extension {
        None => None,
        Some(e) => match config.resolve_interpreter(e) {
            Some(i) => Some(i),
            None => builtin_interpreter_of(e),
        },
    }
}

/// The interpreter for the script at `script_path`, by its file extension.
pub fn get_interpreter_for_script(script_path: &str, config: &KubixConfig) -> (r: Option<String>)
    requires
        config.wf(),
    ensures
        opt_string(r) == interpreter_for(config.interpreters@, path_extension(script_path@)),
{
    match extension_of(script_path) {
        Some(e) => interpreter_for_extension(config, Some(e.as_str())),
        None => None,
    }
}

} // verus!
