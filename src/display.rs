//! The rows of the tables that kubix shows, computed from kubectl's output and the
//! configuration. Drawing and colouring them is the caller's.

use vstd::prelude::*;
use vstd::string::*;
use crate::kubectl::opt_str;
use crate::listing::{contexts_in, get_all_contexts};
use crate::text::{
    contains, contains_text, decimal_of, decimal_string, lines_of, same_text, split_lines,
    split_words, views, words,
};

verus! {

broadcast use vstd::string::group_string_axioms;

/// A row of the pods table.
#[derive(Debug, PartialEq, Eq)]
pub struct PodDisplay {
    pub name: String,
    pub ready: String,
    pub status: String,
    pub restarts: String,
    pub age: String,
}

impl View for PodDisplay {
    type V = Seq<Seq<char>>;

    open spec fn view(&self) -> Seq<Seq<char>> {
        seq![self.name@, self.ready@, self.status@, self.restarts@, self.age@]
    }
}

/// A row of the command nicknames table.
#[derive(Debug, PartialEq, Eq)]
pub struct CommandDisplay {
    pub nickname: String,
    pub command: String,
}

/// A row of the script nicknames table.
#[derive(Debug, PartialEq, Eq)]
pub struct ScriptDisplay {
    pub nickname: String,
    pub script: String,
}

/// A row of the contexts table.
#[derive(Debug, PartialEq, Eq)]
pub struct ContextDisplay {
    pub context: String,
    pub current: String,
}

/// A row of the table that lists the names to choose from.
#[derive(Debug, PartialEq, Eq)]
pub struct SelectionDisplay {
    pub number: String,
    pub name: String,
    pub details: String,
}

/// The lines of `kubectl get pods` after its header line.
pub open spec fn body_lines(output: Seq<char>) -> Seq<Seq<char>> {
    let ls = lines_of(output);
    if ls.len() == 0 {
        ls
    } else {
        ls.drop_first()
    }
}

/// A line of the pods listing is shown when it has at least five columns and contains
/// the pattern, if one is given.
pub open spec fn shows_pod(pattern: Option<Seq<char>>) -> spec_fn(Seq<char>) -> bool {
    |l: Seq<char>|
        words(l).len() >= 5 && match pattern {
            Some(p) => contains_text(l, p),
            None => true,
        }
}

/// The first five columns of a listed pod line.
pub open spec fn pod_columns() -> spec_fn(Seq<char>) -> Seq<Seq<char>> {
    |l: Seq<char>| words(l).subrange(0, 5)
}

/// The rows of the pods table for the output of `kubectl get pods`.
pub open spec fn pod_rows(output: Seq<char>, pattern: Option<Seq<char>>) -> Seq<Seq<Seq<char>>> {
    body_lines(output).filter(shows_pod(pattern)).map_values(pod_columns())
}

pub open spec fn pod_views(rows: Seq<PodDisplay>) -> Seq<Seq<Seq<char>>> {
    rows.map_values(|p: PodDisplay| p@)
}

/// The pods table for the output of `kubectl get pods`, keeping the lines that
/// contain `pattern` when one is given.
pub fn list_pods(output: &str, pattern: Option<&str>) -> (r: Vec<PodDisplay>)
    ensures
        pod_views(r@) == pod_rows(output@, opt_str(pattern)),
{
    let lines = split_lines(output);
    let ghost ls = views(lines@);
    let ghost body = body_lines(output@);
    let ghost pred = shows_pod(opt_str(pattern));
    let ghost f = pod_columns();
    let mut rows: Vec<PodDisplay> = Vec::new();
    if lines.len() == 0 {
        return rows;
    }
    let mut i: usize = 1;
    reveal(Seq::filter);
    assert(body.subrange(0, 0) =~= Seq::<Seq<char>>::empty());
    assert(body.subrange(0, 0).filter(pred).map_values(f) =~= Seq::<Seq<Seq<char>>>::empty());
    while i < lines.len()
        invariant
            1 <= i <= lines@.len(),
            ls == views(lines@),
            ls == lines_of(output@),
            body == ls.drop_first(),
            pred == shows_pod(opt_str(pattern)),
            f == pod_columns(),
            pod_views(rows@) == body.subrange(0, i - 1).filter(pred).map_values(f),
        decreases lines@.len() - i,
    {
        let line = &lines[i];
        let parts = split_words(line.as_str());
        proof {
            assert(body.subrange(0, i as int) =~= body.subrange(0, i - 1).push(line@));
            body.subrange(0, i - 1).lemma_filter_push(line@, pred);
        }
        let keep = parts.len() >= 5 && match pattern {
            Some(p) => contains(line.as_str(), p),
            None => true,
        };
        if keep {
            let row = PodDisplay {
                name: parts[0].clone(),
                ready: parts[1].clone(),
                status: parts[2].clone(),
                restarts: parts[3].clone(),
                age: parts[4].clone(),
            };
            proof {
                assert(row@ =~= f(line@));
                assert(pod_views(rows@.push(row)) =~= pod_views(rows@).push(row@));
                assert(body.subrange(0, i - 1).filter(pred).push(line@).map_values(f)
                    =~= body.subrange(0, i - 1).filter(pred).map_values(f).push(f(line@)));
            }
            rows.push(row);
        }
        i = i + 1;
    }
    assert(body.subrange(0, i - 1) =~= body);
    rows
}

/// The marker of the current context in the contexts table.
pub open spec fn current_marker(c: Seq<char>, current: Option<Seq<char>>) -> Seq<char> {
    if current == Some(c) {
        "✓"@
    } else {
        ""@
    }
}

pub open spec fn context_views(rows: Seq<ContextDisplay>) -> Seq<(Seq<char>, Seq<char>)> {
    rows.map_values(|r: ContextDisplay| (r.context@, r.current@))
}

/// The contexts table for the output of `kubectl config get-contexts -o name`, the
/// current context marked.
pub fn list_contexts_with_current(output: &str, current: Option<&str>) -> (r: Vec<ContextDisplay>)
    ensures
        context_views(r@) == contexts_in(output@).map_values(
            |c: Seq<char>| (c, current_marker(c, opt_str(current))),
        ),
{
    let contexts = get_all_contexts(output);
    let ghost cs = views(contexts@);
    let ghost f = |c: Seq<char>| (c, current_marker(c, opt_str(current)));
    let mut rows: Vec<ContextDisplay> = Vec::new();
    let mut i: usize = 0;
    while i < contexts.len()
        invariant
            i <= contexts@.len(),
            cs == views(contexts@),
            f == (|c: Seq<char>| (c, current_marker(c, opt_str(current)))),
            context_views(rows@) == cs.subrange(0, i as int).map_values(f),
        decreases contexts@.len() - i,
    {
        let c = &contexts[i];
        let is_current = match current {
            Some(cur) => same_text(c.as_str(), cur),
            None => false,
        };
        let marker = if is_current {
            String::from_str("✓")
        } else {
            String::from_str("")
        };
        let row = ContextDisplay { context: c.clone(), current: marker };
        proof {
            assert(context_views(rows@.push(row)) =~= context_views(rows@).push(
                (row.context@, row.current@),
            ));
            assert(cs.subrange(0, i + 1).map_values(f) =~= cs.subrange(0, i as int).map_values(
                f,
            ).push(f(c@)));
        }
        rows.push(row);
        i = i + 1;
    }
    assert(cs.subrange(0, i as int) =~= cs);
    rows
}

pub open spec fn selection_views(rows: Seq<SelectionDisplay>) -> Seq<
    (Seq<char>, Seq<char>, Seq<char>),
> {
    rows.map_values(|r: SelectionDisplay| (r.number@, r.name@, r.details@))
}

/// The table of names to choose from: numbered from 1, with no details.
pub fn selection_rows(items: &Vec<String>) -> (r: Vec<SelectionDisplay>)
    ensures
        r@.len() == items@.len(),
        forall|i: int|
            0 <= i < r@.len() ==> (#[trigger] selection_views(r@)[i]) == (
                decimal_of((i + 1) as nat),
                items@[i]@,
                ""@,
            ),
{
    let mut rows: Vec<SelectionDisplay> = Vec::new();
    let mut i: usize = 0;
    while i < items.len()
        invariant
            i <= items@.len(),
            rows@.len() == i,
            forall|k: int|
                0 <= k < i ==> (#[trigger] selection_views(rows@)[k]) == (
                    decimal_of((k + 1) as nat),
                    items@[k]@,
                    ""@,
                ),
        decreases items@.len() - i,
    {
        let row = SelectionDisplay {
            number: decimal_string(i + 1),
            name: items[i].clone(),
            details: String::from_str(""),
        };
        proof {
            assert forall|k: int| 0 <= k < i + 1 implies (#[trigger] selection_views(
                rows@.push(row),
            )[k]) == (decimal_of((k + 1) as nat), items@[k]@, ""@) by {
                if k < i {
                    assert(selection_views(rows@.push(row))[k] == selection_views(rows@)[k]);
                }
            }
        }
        rows.push(row);
        i = i + 1;
    }
    rows
}

/// The colour of a pod status in the pods table.
#[derive(PartialEq, Eq, Structural, Debug, Clone, Copy)]
pub enum StatusColor {
    Green,
    Yellow,
    Red,
    Blue,
    White,
}

/// `s` in lower case, as `str::to_lowercase` gives it.
pub uninterp spec fn lower_of(s: Seq<char>) -> Seq<char>;

/// Relies on `str::to_lowercase`: the result depends on the characters alone.
#[verifier::external_body]
fn lowercase(s: &str) -> (r: String)
    ensures
        r@ == lower_of(s@),
{
    s.to_lowercase()
}

/// The colour of a status already in lower case.
pub open spec fn color_of_lowered(s: Seq<char>) -> StatusColor {
    if s == "running"@ {
        StatusColor::Green
    } else if s == "pending"@ {
        StatusColor::Yellow
    } else if s == "failed"@ || s == "error"@ || s == "crashloopbackoff"@ {
        StatusColor::Red
    } else if s == "succeeded"@ || s == "completed"@ {
        StatusColor::Blue
    } else {
        StatusColor::White
    }
}

/// The colour of a status already in lower case: running is green, pending yellow,
/// failures red, finished pods blue, anything else white.
pub fn color_of_lowered_status(lowered: &str) -> (r: StatusColor)
    ensures
        r == color_of_lowered(lowered@),
{
    if same_text(lowered, "running") {
        StatusColor::Green
    } else if same_text(lowered, "pending") {
        StatusColor::Yellow
    } else if same_text(lowered, "failed") || same_text(lowered, "error") || same_text(
        lowered,
        "crashloopbackoff",
    ) {
        StatusColor::Red
    } else if same_text(lowered, "succeeded") || same_text(lowered, "completed") {
        StatusColor::Blue
    } else {
        StatusColor::White
    }
}

/// The colour of a pod status, in any case.
pub fn colorize_status(status: &str) -> (r: StatusColor)
    ensures
        r == color_of_lowered(lower_of(status@)),
{
    let lowered = lowercase(status);
    color_of_lowered_status(lowered.as_str())
}

} // verus!
