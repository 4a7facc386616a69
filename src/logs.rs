//! The `logs` subcommand: the kubectl arguments, and which log lines are shown when
//! include and exclude patterns are given. The patterns are regular expressions,
//! matched by the `regex` crate.

use vstd::prelude::*;
use vstd::string::*;
use crate::kubectl::{build_args, opt_str, scope_flags};
use crate::text::{decimal_of, decimal_string, views};

verus! {

broadcast use vstd::string::group_string_axioms;

#[verifier::external_type_specification]
#[verifier::external_body]
pub struct ExRegex(regex::Regex);

#[verifier::external_type_specification]
#[verifier::external_body]
pub struct ExRegexError(regex::Error);

/// Whether the regular expression `pattern` compiles.
pub uninterp spec fn regex_compiles(pattern: Seq<char>) -> bool;

/// Whether the regular expression `pattern` matches somewhere in `line`.
pub uninterp spec fn regex_matches(pattern: Seq<char>, line: Seq<char>) -> bool;

/// Relies on `regex::Regex::new`: whether it compiles depends on the pattern alone.
#[verifier::external_body]
fn compile_regex(pattern: &str) -> (r: Result<regex::Regex, regex::Error>)
    ensures
        r is Ok <==> regex_compiles(pattern@),
{
    regex::Regex::new(pattern)
}

/// Relies on `regex::Error`'s `Display`: the message for a pattern that does not compile.
#[verifier::external_body]
fn regex_error_message(e: &regex::Error) -> (r: String) {
    e.to_string()
}

/// A compiled regular expression, with the pattern it was compiled from.
pub struct LineFilter {
    source: String,
    regex: regex::Regex,
}

impl LineFilter {
    /// The pattern this filter was compiled from.
    pub closed spec fn pattern(&self) -> Seq<char> {
        self.source@
    }

    /// Compiles `pattern`; the error carries the regex crate's message.
    pub fn new(pattern: &str) -> (r: Result<LineFilter, String>)
        ensures
            r is Ok <==> regex_compiles(pattern@),
            r matches Ok(f) ==> f.pattern() == pattern@,
    {
        match compile_regex(pattern) {
            Ok(regex) => Ok(LineFilter { source: String::from_str(pattern), regex }),
            Err(e) => Err(regex_error_message(&e)),
        }
    }

    /// The pattern this filter was compiled from.
    pub fn as_str(&self) -> (r: &str)
        ensures
            r@ == self.pattern(),
    {
        self.source.as_str()
    }
}

/// Relies on `regex::Regex::is_match`; the filter's regex was compiled from its
/// pattern by `LineFilter::new`, the only way one is made.
#[verifier::external_body]
fn filter_hits(f: &LineFilter, line: &str) -> (r: bool)
    ensures
        r == regex_matches(f.pattern(), line@),
{
    f.regex.is_match(line)
}

/// Whether a line is shown, given whether the include pattern matched it (`None`:
/// there is none) and whether the exclude pattern did.
pub open spec fn shown(grep_hit: Option<bool>, exclude_hit: Option<bool>) -> bool {
    exclude_hit != Some(true) && grep_hit != Some(false)
}

/// A line is shown unless the exclude pattern matches it, and only if the include
/// pattern, when there is one, matches it.
pub fn line_shown(grep_hit: Option<bool>, exclude_hit: Option<bool>) -> (r: bool)
    ensures
        r == shown(grep_hit, exclude_hit),
{
    let excluded = match exclude_hit {
        Some(hit) => hit,
        None => false,
    };
    let included = match grep_hit {
        Some(hit) => hit,
        None => true,
    };
    !excluded && included
}

pub open spec fn hit(f: Option<&LineFilter>, line: Seq<char>) -> Option<bool> {
    match f {
        Some(f) => Some(regex_matches(f.pattern(), line)),
        None => None,
    }
}

/// Whether `line` is shown under the include filter `grep` and the exclude filter
/// `exclude`.
pub fn should_show_line(line: &str, grep: Option<&LineFilter>, exclude: Option<&LineFilter>) -> (r:
    bool)
    ensures
        r == shown(hit(grep, line@), hit(exclude, line@)),
{
    let exclude_hit = match exclude {
        Some(f) => Some(filter_hits(f, line)),
        None => None,
    };
    if exclude_hit == Some(true) {
        return false;
    }
    let grep_hit = match grep {
        Some(f) => Some(filter_hits(f, line)),
        None => None,
    };
    line_shown(grep_hit, exclude_hit)
}

/// The options of `kubectl logs` after the pod name.
pub open spec fn log_options(
    follow: bool,
    tail: Option<u32>,
    previous: bool,
    container: Option<Seq<char>>,
) -> Seq<Seq<char>> {
    (if follow {
        seq!["-f"@]
    } else {
        Seq::empty()
    }) + (match tail {
        Some(n) => seq!["--tail"@, decimal_of(n as nat)],
        None => Seq::empty(),
    }) + (if previous {
        seq!["-p"@]
    } else {
        Seq::empty()
    }) + (match container {
        Some(c) => seq!["-c"@, c],
        None => Seq::empty(),
    })
}

/// The arguments of `kubectl logs` for `pod_name`.
pub fn logs_args(
    pod_name: &str,
    follow: bool,
    tail: Option<u32>,
    previous: bool,
    container: Option<&str>,
    context: Option<&str>,
    namespace: Option<&str>,
) -> (r: Vec<String>)
    ensures
        views(r@) == scope_flags(opt_str(context), opt_str(namespace)) + seq!["logs"@, pod_name@]
            + log_options(follow, tail, previous, opt_str(container)),
{
    let head: [&str; 0] = [];
    let mut args = build_args(&head, context, namespace);
    let ghost flags = scope_flags(opt_str(context), opt_str(namespace));
    assert(views(args@) =~= flags);
    let mut options: Vec<String> = Vec::new();
    options.push(String::from_str("logs"));
    options.push(String::from_str(pod_name));
    if follow {
        options.push(String::from_str("-f"));
    }
    if let Some(n) = tail {
        options.push(String::from_str("--tail"));
        options.push(decimal_string(n as usize));
    }
    if previous {
        options.push(String::from_str("-p"));
    }
    if let Some(c) = container {
        options.push(String::from_str("-c"));
        options.push(String::from_str(c));
    }
    assert(views(options@) =~= seq!["logs"@, pod_name@] + log_options(
        follow,
        tail,
        previous,
        opt_str(container),
    ));
    let ghost first = args@;
    let ghost rest = options@;
    args.append(&mut options);
    assert(views(args@) =~= views(first) + views(rest));
    args
}

} // verus!
