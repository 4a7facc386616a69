//! Candidate lists read from kubectl's name-only output, and the resolution of a
//! pattern against them.

use vstd::prelude::*;
use crate::matcher::{filter_matches, match_set};
use crate::select::{resolves, select_from_matches, Step};
use crate::text::{
    lines_of, split_lines, strip_prefix_repeated, strip_repeated, trim, trim_str, views,
};

verus! {

pub open spec fn is_nonempty() -> spec_fn(Seq<char>) -> bool {
    |l: Seq<char>| l.len() > 0
}

/// A listed line reduced to a name: the resource-type prefix `prefix` removed, then trimmed.
pub open spec fn name_of(prefix: Seq<char>) -> spec_fn(Seq<char>) -> Seq<char> {
    |l: Seq<char>| trim(strip_repeated(l, prefix))
}

/// The context names in the output of `kubectl config get-contexts -o name`.
pub open spec fn contexts_in(output: Seq<char>) -> Seq<Seq<char>> {
    lines_of(output).map_values(|l: Seq<char>| trim(l)).filter(is_nonempty())
}

/// The namespace names in the output of `kubectl get namespaces -o name`.
pub open spec fn namespaces_in(output: Seq<char>) -> Seq<Seq<char>> {
    lines_of(output).map_values(name_of("namespace/"@)).filter(is_nonempty())
}

/// The pod names in the output of `kubectl get pods -o name`.
pub open spec fn pods_in(output: Seq<char>) -> Seq<Seq<char>> {
    lines_of(output).map_values(name_of("pod/"@)).filter(is_nonempty())
}

/// The lines of `lines` reduced to names, empty ones dropped.
fn names_of_lines(lines: &Vec<String>, prefix: &str) -> (r: Vec<String>)
    ensures
        views(r@) == views(lines@).map_values(name_of(prefix@)).filter(is_nonempty()),
{
    let ghost f = name_of(prefix@);
    let ghost ls = views(lines@);
    let mut r: Vec<String> = Vec::new();
    let mut i: usize = 0;
    reveal(Seq::filter);
    assert(ls.map_values(f).subrange(0, 0) =~= Seq::<Seq<char>>::empty());
    while i < lines.len()
        invariant
            i <= lines@.len(),
            ls == views(lines@),
            f == name_of(prefix@),
            views(r@) == ls.map_values(f).subrange(0, i as int).filter(is_nonempty()),
        decreases lines@.len() - i,
    {
        let name = trim_str(strip_prefix_repeated(lines[i].as_str(), prefix).as_str());
        proof {
            assert(ls.map_values(f).subrange(0, i + 1) =~= ls.map_values(f).subrange(
                0,
                i as int,
            ).push(name@));
            ls.map_values(f).subrange(0, i as int).lemma_filter_push(name@, is_nonempty());
        }
        if name.unicode_len() > 0 {
            proof {
                assert(views(r@.push(name)) =~= views(r@).push(name@));
            }
            r.push(name);
        }
        i = i + 1;
    }
    assert(ls.map_values(f).subrange(0, i as int) =~= ls.map_values(f));
    r
}

/// The context names listed in `output`, one per line.
pub fn get_all_contexts(output: &str) -> (r: Vec<String>)
    ensures
        views(r@) == contexts_in(output@),
{
    let lines = split_lines(output);
    let r = names_of_lines(&lines, "");
    proof {
        let ls = lines_of(output@);
        assert forall|k: int| 0 <= k < ls.len() implies strip_repeated(ls[k], ""@) == ls[k] by {
            assert(""@.len() == 0) by {
                reveal_strlit("");
            }
        }
        assert(ls.map_values(name_of(""@)) =~= ls.map_values(|l: Seq<char>| trim(l)));
    }
    r
}

/// The namespace names listed in `output`, their `namespace/` prefix removed.
pub fn get_all_namespaces(output: &str) -> (r: Vec<String>)
    ensures
        views(r@) == namespaces_in(output@),
{
    let lines = split_lines(output);
    names_of_lines(&lines, "namespace/")
}

/// The pod names listed in `output`, their `pod/` prefix removed.
pub fn get_all_pods(output: &str) -> (r: Vec<String>)
    ensures
        views(r@) == pods_in(output@),
{
    let lines = split_lines(output);
    names_of_lines(&lines, "pod/")
}

/// The pod names listed in `output` that contain `pattern`, in listed order.
pub fn find_pods(output: &str, pattern: &str) -> (r: Vec<String>)
    ensures
        views(r@) == match_set(pods_in(output@), pattern@),
{
    filter_matches(&get_all_pods(output), pattern)
}

/// The current context, from the output of `kubectl config current-context`; `None`
/// when that command failed.
pub fn get_current_context(output: &Result<String, String>) -> (r: Option<String>)
    ensures
        match output {
            Ok(o) => r matches Some(c) && c@ == trim(o@),
            Err(_) => r is None,
        },
{
    match output {
        Ok(o) => Some(trim_str(o.as_str())),
        Err(_) => None,
    }
}

/// Resolves a context pattern against the context listing `output`.
pub fn resolve_context_pattern(pattern: &str, output: &str) -> (r: Step)
    ensures
        resolves(r, match_set(contexts_in(output@), pattern@), pattern@, "context"@),
{
    let contexts = get_all_contexts(output);
    select_from_matches(filter_matches(&contexts, pattern), pattern, "context")
}

/// Resolves a namespace pattern against the namespace listing `output`.
pub fn resolve_namespace_pattern(pattern: &str, output: &str) -> (r: Step)
    ensures
        resolves(r, match_set(namespaces_in(output@), pattern@), pattern@, "namespace"@),
{
    let namespaces = get_all_namespaces(output);
    select_from_matches(filter_matches(&namespaces, pattern), pattern, "namespace")
}

/// Resolves a pod pattern against the pod listing `output`.
pub fn select_pod(pattern: &str, output: &str) -> (r: Step)
    ensures
        resolves(r, match_set(pods_in(output@), pattern@), pattern@, "pod"@),
{
    select_from_matches(find_pods(output, pattern), pattern, "pod")
}

} // verus!
