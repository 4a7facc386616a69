//! The argument lists handed to kubectl.

use vstd::prelude::*;
use vstd::string::*;
use crate::text::views;

verus! {

broadcast use vstd::string::group_string_axioms;

pub open spec fn opt_str(o: Option<&str>) -> Option<Seq<char>> {
    match o {
        Some(s) => Some(s@),
        None => None,
    }
}

pub open spec fn str_views(s: Seq<&str>) -> Seq<Seq<char>> {
    s.map_values(|x: &str| x@)
}

/// The scope flags that lead a kubectl command line: the context, then the namespace.
pub open spec fn scope_flags(context: Option<Seq<char>>, namespace: Option<Seq<char>>) -> Seq<
    Seq<char>,
> {
    (match context {
        Some(c) => seq!["--context"@, c],
        None => Seq::empty(),
    }) + (match namespace {
        Some(n) => seq!["-n"@, n],
        None => Seq::empty(),
    })
}

/// The full argument list: scope flags, then `base_args`.
pub fn build_args(base_args: &[&str], context: Option<&str>, namespace: Option<&str>) -> (r: Vec<
    String,
>)
    ensures
        views(r@) == scope_flags(opt_str(context), opt_str(namespace)) + str_views(base_args@),
{
    let mut args: Vec<String> = Vec::new();
    if let Some(ctx) = context {
        args.push(String::from_str("--context"));
        args.push(String::from_str(ctx));
    }
    if let Some(ns) = namespace {
        args.push(String::from_str("-n"));
        args.push(String::from_str(ns));
    }
    let ghost head = views(args@);
    assert(head =~= scope_flags(opt_str(context), opt_str(namespace)));
    let mut i: usize = 0;
    while i < base_args.len()
        invariant
            i <= base_args@.len(),
            head == scope_flags(opt_str(context), opt_str(namespace)),
            views(args@) == head + str_views(base_args@).subrange(0, i as int),
        decreases base_args@.len() - i,
    {
        let a = String::from_str(base_args[i]);
        proof {
            assert(views(args@.push(a)) =~= views(args@).push(a@));
            assert(str_views(base_args@).subrange(0, i + 1) =~= str_views(base_args@).subrange(
                0,
                i as int,
            ).push(base_args@[i as int]@));
        }
        args.push(a);
        i = i + 1;
    }
    assert(str_views(base_args@).subrange(0, i as int) =~= str_views(base_args@));
    args
}

/// Lists the names of all contexts.
pub fn context_listing_args() -> (r: Vec<String>)
    ensures
        views(r@) == seq!["config"@, "get-contexts"@, "-o"@, "name"@],
{
    let base: [&str; 4] = ["config", "get-contexts", "-o", "name"];
    let r = build_args(&base, None, None);
    assert(str_views(base@) =~= seq!["config"@, "get-contexts"@, "-o"@, "name"@]);
    r
}

/// Asks for the current context.
pub fn current_context_args() -> (r: Vec<String>)
    ensures
        views(r@) == seq!["config"@, "current-context"@],
{
    let base: [&str; 2] = ["config", "current-context"];
    let r = build_args(&base, None, None);
    assert(str_views(base@) =~= seq!["config"@, "current-context"@]);
    r
}

/// Makes `name` the current context.
pub fn use_context_args(name: &str) -> (r: Vec<String>)
    ensures
        views(r@) == seq!["config"@, "use-context"@, name@],
{
    let base: [&str; 3] = ["config", "use-context", name];
    let r = build_args(&base, None, None);
    assert(str_views(base@) =~= seq!["config"@, "use-context"@, name@]);
    r
}

/// Lists the names of the namespaces, in `context` if one is given.
pub fn namespace_listing_args(context: Option<&str>) -> (r: Vec<String>)
    ensures
        views(r@) == scope_flags(opt_str(context), None) + seq![
            "get"@,
            "namespaces"@,
            "-o"@,
            "name"@,
        ],
{
    let base: [&str; 4] = ["get", "namespaces", "-o", "name"];
    let r = build_args(&base, context, None);
    assert(str_views(base@) =~= seq!["get"@, "namespaces"@, "-o"@, "name"@]);
    r
}

/// Lists the names of the pods in the given scope.
pub fn pod_listing_args(context: Option<&str>, namespace: Option<&str>) -> (r: Vec<String>)
    ensures
        views(r@) == scope_flags(opt_str(context), opt_str(namespace)) + seq![
            "get"@,
            "pods"@,
            "-o"@,
            "name"@,
        ],
{
    let base: [&str; 4] = ["get", "pods", "-o", "name"];
    let r = build_args(&base, context, namespace);
    assert(str_views(base@) =~= seq!["get"@, "pods"@, "-o"@, "name"@]);
    r
}

/// Lists the pods in the given scope as a table.
pub fn pod_table_args(context: Option<&str>, namespace: Option<&str>) -> (r: Vec<String>)
    ensures
        views(r@) == scope_flags(opt_str(context), opt_str(namespace)) + seq!["get"@, "pods"@],
{
    let base: [&str; 2] = ["get", "pods"];
    let r = build_args(&base, context, namespace);
    assert(str_views(base@) =~= seq!["get"@, "pods"@]);
    r
}

/// Opens an interactive bash session on `pod_name`.
pub fn bash_to_pod(pod_name: &str, context: Option<&str>, namespace: Option<&str>) -> (r: Vec<
    String,
>)
    ensures
        views(r@) == scope_flags(opt_str(context), opt_str(namespace)) + seq![
            "exec"@,
            "-it"@,
            pod_name@,
            "--"@,
            "bash"@,
        ],
{
    let base: [&str; 5] = ["exec", "-it", pod_name, "--", "bash"];
    let r = build_args(&base, context, namespace);
    assert(str_views(base@) =~= seq!["exec"@, "-it"@, pod_name@, "--"@, "bash"@]);
    r
}

/// Runs `command` through `sh -c` on `pod_name`, interactively.
pub fn run_command_on_pod(
    pod_name: &str,
    command: &str,
    context: Option<&str>,
    namespace: Option<&str>,
) -> (r: Vec<String>)
    ensures
        views(r@) == scope_flags(opt_str(context), opt_str(namespace)) + seq![
            "exec"@,
            "-it"@,
            pod_name@,
            "--"@,
            "sh"@,
            "-c"@,
            command@,
        ],
{
    let base: [&str; 7] = ["exec", "-it", pod_name, "--", "sh", "-c", command];
    let r = build_args(&base, context, namespace);
    assert(str_views(base@) =~= seq![
        "exec"@,
        "-it"@,
        pod_name@,
        "--"@,
        "sh"@,
        "-c"@,
        command@,
    ]);
    r
}

/// Runs a script fed on standard input to `pod_name`: through `interpreter` when one
/// is known, else through `sh`.
pub fn exec_script_args(
    pod_name: &str,
    interpreter: Option<&str>,
    context: Option<&str>,
    namespace: Option<&str>,
) -> (r: Vec<String>)
    ensures
        views(r@) == scope_flags(opt_str(context), opt_str(namespace)) + seq![
            "exec"@,
            "-i"@,
            pod_name@,
            "--"@,
            match interpreter {
                Some(i) => i@,
                None => "sh"@,
            },
        ],
{
    let program: &str = match interpreter {
        Some(i) => i,
        None => "sh",
    };
    let base: [&str; 5] = ["exec", "-i", pod_name, "--", program];
    let r = build_args(&base, context, namespace);
    assert(str_views(base@) =~= seq!["exec"@, "-i"@, pod_name@, "--"@, program@]);
    r
}

} // verus!
