//! Free-form commands such as `run command 'ls -la' on pod web in production context`:
//! which action they ask for, and the pod, context and namespace patterns they name.

use vstd::prelude::*;
use vstd::string::*;
use crate::text::{
    contains, contains_text, find_in, find_text, last_index_of, opt_string, rfind_char, slice_of,
    trim, trim_str,
};

verus! {

broadcast use vstd::string::group_string_axioms;

/// The text after the first `key` in `s`, up to the first `stop` after it, trimmed.
/// Without a `stop`, the rest of `s` when `open_ended`, else nothing. Nothing either
/// when `key` does not occur.
pub open spec fn phrase(s: Seq<char>, key: Seq<char>, stop: Seq<char>, open_ended: bool) -> Option<
    Seq<char>,
> {
    match find_text(s, key) {
        None => None,
        Some(pos) => {
            let rest = s.subrange(pos + key.len(), s.len() as int);
            match find_text(rest, stop) {
                Some(e) => Some(trim(rest.subrange(0, e))),
                None => if open_ended {
                    Some(trim(rest))
                } else {
                    None
                },
            }
        },
    }
}

fn phrase_of(s: &str, key: &str, stop: &str, open_ended: bool) -> (r: Option<String>)
    ensures
        opt_string(r) == phrase(s@, key@, stop@, open_ended),
{
    let pos = match find_in(s, key) {
        Some(p) => p,
        None => return None,
    };
    let n = s.unicode_len();
    let rest = slice_of(s, pos + key.unicode_len(), n);
    match find_in(rest.as_str(), stop) {
        Some(e) => {
            let head = slice_of(rest.as_str(), 0, e);
            Some(trim_str(head.as_str()))
        },
        None => if open_ended {
            Some(trim_str(rest.as_str()))
        } else {
            None
        },
    }
}

/// The pod pattern: `pod that has X in its name`, else the word after `pod `.
pub open spec fn pod_pattern_in(s: Seq<char>) -> Option<Seq<char>> {
    if find_text(s, "pod that has"@) is Some {
        phrase(s, "pod that has"@, " in its name"@, false)
    } else {
        phrase(s, "pod "@, " "@, true)
    }
}

/// The context pattern: the word after `context `, else `on X context`.
pub open spec fn context_in(s: Seq<char>) -> Option<Seq<char>> {
    if find_text(s, "context "@) is Some {
        phrase(s, "context "@, " "@, true)
    } else {
        phrase(s, "on "@, " context"@, false)
    }
}

/// The namespace pattern: the word after `namespace `, else `in X namespace`.
pub open spec fn namespace_in(s: Seq<char>) -> Option<Seq<char>> {
    if find_text(s, "namespace "@) is Some {
        phrase(s, "namespace "@, " "@, true)
    } else {
        phrase(s, "in "@, " namespace"@, false)
    }
}

/// The pod pattern that a free-form command names.
pub fn extract_pod_pattern(command: &str) -> (r: Option<String>)
    ensures
        opt_string(r) == pod_pattern_in(command@),
{
    if find_in(command, "pod that has").is_some() {
        phrase_of(command, "pod that has", " in its name", false)
    } else {
        phrase_of(command, "pod ", " ", true)
    }
}

/// The context pattern that a free-form command names.
pub fn extract_context(command: &str) -> (r: Option<String>)
    ensures
        opt_string(r) == context_in(command@),
{
    if find_in(command, "context ").is_some() {
        phrase_of(command, "context ", " ", true)
    } else {
        phrase_of(command, "on ", " context", false)
    }
}

/// The namespace pattern that a free-form command names.
pub fn extract_namespace(command: &str) -> (r: Option<String>)
    ensures
        opt_string(r) == namespace_in(command@),
{
    if find_in(command, "namespace ").is_some() {
        phrase_of(command, "namespace ", " ", true)
    } else {
        phrase_of(command, "in ", " namespace", false)
    }
}

/// What a free-form command asks for.
#[derive(Debug, PartialEq, Eq)]
pub enum SmartCommand {
    /// Run `command` on a pod matching `pod_pattern`.
    Run { command: String, pod_pattern: String, context: Option<String>, namespace: Option<String> },
    /// Open a shell on a pod matching `pod_pattern`.
    Shell { pod_pattern: String, context: Option<String>, namespace: Option<String> },
    /// Run the local script `script_path` on a pod matching `pod_pattern`.
    Script {
        script_path: String,
        pod_pattern: String,
        context: Option<String>,
        namespace: Option<String>,
    },
    /// A run request whose command is not between single quotes.
    UnquotedCommand,
    /// A script request whose path is not between single quotes.
    UnquotedScript,
    /// Nothing recognised.
    Unknown,
}

/// The text between the first and the last single quote of `s`, when they differ.
pub open spec fn quoted(s: Seq<char>) -> Option<Seq<char>> {
    match (find_text(s, seq!['\'']), last_index_of(s, '\'')) {
        (Some(a), Some(b)) => if a < b {
            Some(s.subrange(a + 1, b))
        } else {
            None
        },
        _ => None,
    }
}

/// The pod pattern, with `web` when none is named.
pub open spec fn pod_or_default(s: Seq<char>) -> Seq<char> {
    match pod_pattern_in(s) {
        Some(p) => p,
        None => "web"@,
    }
}

fn quoted_of(s: &str) -> (r: Option<String>)
    ensures
        opt_string(r) == quoted(s@),
{
    let quote = "'";
    proof {
        reveal_strlit("'");
        assert(quote@ =~= seq!['\'']);
    }
    match (find_in(s, quote), rfind_char(s, '\'')) {
        (Some(a), Some(b)) => if a < b {
            Some(slice_of(s, a + 1, b))
        } else {
            None
        },
        _ => None,
    }
}

fn pod_pattern_or_default(command: &str) -> (r: String)
    ensures
        r@ == pod_or_default(command@),
{
    match extract_pod_pattern(command) {
        Some(p) => p,
        None => String::from_str("web"),
    }
}

/// The reading of a run request.
pub open spec fn run_request(s: Seq<char>, r: SmartCommand) -> bool {
    match quoted(s) {
        Some(c) => r matches SmartCommand::Run { command, pod_pattern, context, namespace }
            && command@ == c && pod_pattern@ == pod_or_default(s) && opt_string(context)
            == context_in(s) && opt_string(namespace) == namespace_in(s),
        None => r is UnquotedCommand,
    }
}

/// The reading of a shell request.
pub open spec fn shell_request(s: Seq<char>, r: SmartCommand) -> bool {
    r matches SmartCommand::Shell { pod_pattern, context, namespace } && pod_pattern@
        == pod_or_default(s) && opt_string(context) == context_in(s) && opt_string(namespace)
        == namespace_in(s)
}

/// The reading of a script request.
pub open spec fn script_request(s: Seq<char>, r: SmartCommand) -> bool {
    match quoted(s) {
        Some(p) => r matches SmartCommand::Script { script_path, pod_pattern, context, namespace }
            && script_path@ == p && pod_pattern@ == pod_or_default(s) && opt_string(context)
            == context_in(s) && opt_string(namespace) == namespace_in(s),
        None => r is UnquotedScript,
    }
}

/// Reads a run request: the quoted command and the pod, context and namespace patterns.
pub fn handle_run_command(command: &str) -> (r: SmartCommand)
    ensures
        run_request(command@, r),
{
    match quoted_of(command) {
        Some(c) => SmartCommand::Run {
            command: c,
            pod_pattern: pod_pattern_or_default(command),
            context: extract_context(command),
            namespace: extract_namespace(command),
        },
        None => SmartCommand::UnquotedCommand,
    }
}

/// Reads a shell request: the pod, context and namespace patterns.
pub fn handle_shell_command(command: &str) -> (r: SmartCommand)
    ensures
        shell_request(command@, r),
{
    SmartCommand::Shell {
        pod_pattern: pod_pattern_or_default(command),
        context: extract_context(command),
        namespace: extract_namespace(command),
    }
}

/// Reads a script request: the quoted script path and the pod, context and namespace
/// patterns.
pub fn handle_script_command(command: &str) -> (r: SmartCommand)
    ensures
        script_request(command@, r),
{
    match quoted_of(command) {
        Some(p) => SmartCommand::Script {
            script_path: p,
            pod_pattern: pod_pattern_or_default(command),
            context: extract_context(command),
            namespace: extract_namespace(command),
        },
        None => SmartCommand::UnquotedScript,
    }
}

/// Reads a free-form command: a run request mentions `run` and `on pod`; otherwise a
/// shell request mentions `bash` or `shell`; otherwise a script request mentions
/// `script`.
pub fn process_smart_command(command: &str) -> (r: SmartCommand)
    ensures
        if contains_text(command@, "run"@) && contains_text(command@, "on pod"@) {
            run_request(command@, r)
        } else if contains_text(command@, "bash"@) || contains_text(command@, "shell"@) {
            shell_request(command@, r)
        } else if contains_text(command@, "script"@) {
            script_request(command@, r)
        } else {
            r is Unknown
        },
{
    if contains(command, "run") && contains(command, "on pod") {
        handle_run_command(command)
    } else if contains(command, "bash") || contains(command, "shell") {
        handle_shell_command(command)
    } else if contains(command, "script") {
        handle_script_command(command)
    } else {
        SmartCommand::Unknown
    }
}

} // verus!
