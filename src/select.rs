//! The interactive resolver: the zero / one / many policy over a match set, and the
//! selection prompt's reading of one reply. The terminal itself is the caller's: it
//! shows the prompt, reads a line and hands it to [`Selection::answer`].

use vstd::prelude::*;
use vstd::string::*;
use crate::text::{
    all_digits, ascii_fold, ascii_fold_char, chars_of, decimal_value, is_unsigned, is_ws, trim,
    trim_bounds, trim_end, trim_start, unsigned_digits, unsigned_value, views, number_at_most,
};

verus! {

/// How a pattern was resolved.
#[derive(Debug, PartialEq, Eq)]
pub enum Resolution {
    /// Nothing matched.
    NoMatch,
    /// Exactly one name matched; it was taken without asking.
    ExactlyOne(String),
    /// The user quit the prompt, or input ended.
    Cancelled,
    /// The user picked this name from several.
    Selected(String),
}

/// The model of a [`Resolution`].
pub ghost enum Resolved {
    NoMatch,
    ExactlyOne(Seq<char>),
    Cancelled,
    Selected(Seq<char>),
}

impl View for Resolution {
    type V = Resolved;

    open spec fn view(&self) -> Resolved {
        match self {
            Resolution::NoMatch => Resolved::NoMatch,
            Resolution::ExactlyOne(s) => Resolved::ExactlyOne(s@),
            Resolution::Cancelled => Resolved::Cancelled,
            Resolution::Selected(s) => Resolved::Selected(s@),
        }
    }
}

impl Resolution {
    /// The resolved name, unless nothing was resolved.
    pub fn name(&self) -> (r: Option<&String>)
        ensures
            r matches Some(n) ==> (self@ == Resolved::ExactlyOne(n@) || self@ == Resolved::Selected(
                n@,
            )),
            r is None <==> (self is NoMatch || self is Cancelled),
    {
        match self {
            Resolution::ExactlyOne(s) => Some(s),
            Resolution::Selected(s) => Some(s),
            _ => None,
        }
    }
}

impl Resolution {
    /// The value an optional lookup goes on with: the resolved name; the pattern itself,
    /// taken literally, when nothing matched; nothing when the user cancelled, and then
    /// the command must not go on.
    pub fn name_or_literal(&self, pattern: &str) -> (r: Option<String>)
        ensures
            match self@ {
                Resolved::ExactlyOne(n) => r matches Some(v) && v@ == n,
                Resolved::Selected(n) => r matches Some(v) && v@ == n,
                Resolved::NoMatch => r matches Some(v) && v@ == pattern@,
                Resolved::Cancelled => r is None,
            },
    {
        match self {
            Resolution::ExactlyOne(n) => Some(n.clone()),
            Resolution::Selected(n) => Some(n.clone()),
            Resolution::NoMatch => Some(String::from_str(pattern)),
            Resolution::Cancelled => None,
        }
    }
}

pub open spec fn opt_view(r: Option<Resolution>) -> Option<Resolved> {
    match r {
        Some(o) => Some(o@),
        None => None,
    }
}

pub open spec fn input_view(i: Option<&str>) -> Option<Seq<char>> {
    match i {
        Some(l) => Some(l@),
        None => None,
    }
}

/// What one reply to the selection prompt asks for.
#[derive(PartialEq, Eq, Structural, Debug, Clone, Copy)]
pub enum Choice {
    /// The quit sentinel.
    Quit,
    /// The zero-based index of a listed name.
    Pick(usize),
    /// Anything else: the prompt is asked again.
    Invalid,
}

/// The quit sentinel, `q` or `quit` in any ASCII case.
pub open spec fn is_quit(t: Seq<char>) -> bool {
    (t.len() == 1 && ascii_fold(t[0]) == 113) || (t.len() == 4 && ascii_fold(t[0]) == 113
        && ascii_fold(t[1]) == 117 && ascii_fold(t[2]) == 105 && ascii_fold(t[3]) == 116)
}

/// The reply `input` to a prompt over `max` names: it is read after trimming; a number
/// from 1 to `max` picks that entry.
pub open spec fn choice_for(input: Seq<char>, max: nat) -> Choice {
    let t = trim(input);
    if is_quit(t) {
        Choice::Quit
    } else if is_unsigned(t) && 1 <= unsigned_value(t) <= max {
        Choice::Pick((unsigned_value(t) - 1) as usize)
    } else {
        Choice::Invalid
    }
}

fn is_quit_chars(t: &Vec<char>, a: usize, b: usize) -> (r: bool)
    requires
        a <= b <= t@.len(),
    ensures
        r == is_quit(t@.subrange(a as int, b as int)),
{
    if b - a == 1 {
        ascii_fold_char(t[a]) == 113
    } else if b - a == 4 {
        ascii_fold_char(t[a]) == 113 && ascii_fold_char(t[a + 1]) == 117 && ascii_fold_char(
            t[a + 2],
        ) == 105 && ascii_fold_char(t[a + 3]) == 116
    } else {
        false
    }
}

/// Reads one reply to a prompt that lists `max_options` names.
pub fn prompt_user_choice(max_options: usize, input: &str) -> (r: Choice)
    ensures
        r == choice_for(input@, max_options as nat),
{
    let cs = chars_of(input);
    let (a, b) = trim_bounds(&cs, 0, cs.len());
    assert(cs@.subrange(0, cs@.len() as int) =~= input@);
    if is_quit_chars(&cs, a, b) {
        return Choice::Quit;
    }
    let mut t: Vec<char> = Vec::new();
    let mut k: usize = a;
    while k < b
        invariant
            a <= k <= b <= cs@.len(),
            t@ == cs@.subrange(a as int, k as int),
        decreases b - k,
    {
        t.push(cs[k]);
        k = k + 1;
    }
    match number_at_most(&t, max_options) {
        Some(v) => {
            if v >= 1 {
                Choice::Pick(v - 1)
            } else {
                Choice::Invalid
            }
        },
        None => Choice::Invalid,
    }
}

/// A yes to a confirmation prompt: `y` or `yes`, in any case.
pub open spec fn is_yes(t: Seq<char>) -> bool {
    (t.len() == 1 && ascii_fold(t[0]) == 121) || (t.len() == 3 && ascii_fold(t[0]) == 121
        && ascii_fold(t[1]) == 101 && ascii_fold(t[2]) == 115)
}

/// Reads a reply to a yes/no confirmation prompt; anything but a yes is a no.
pub fn is_confirmation(input: &str) -> (r: bool)
    ensures
        r == is_yes(trim(input@)),
{
    let cs = chars_of(input);
    let (a, b) = trim_bounds(&cs, 0, cs.len());
    assert(cs@.subrange(0, cs@.len() as int) =~= input@);
    if b - a == 1 {
        ascii_fold_char(cs[a]) == 121
    } else if b - a == 3 {
        ascii_fold_char(cs[a]) == 121 && ascii_fold_char(cs[a + 1]) == 101 && ascii_fold_char(
            cs[a + 2],
        ) == 115
    } else {
        false
    }
}

/// What the resolver does with a match set that holds several names: it asks.
#[derive(Debug)]
pub struct Selection {
    /// The names offered, numbered from 1 in this order.
    pub matches: Vec<String>,
    /// The pattern that produced them.
    pub pattern: String,
    /// The kind of resource, for labels ("context", "namespace", "pod").
    pub kind: String,
}

/// The first step of a resolution.
#[derive(Debug)]
pub enum Step {
    /// Resolved without asking.
    Done(Resolution),
    /// Several names matched: the user must pick one.
    Ask(Selection),
}

/// The resolver's answer to one prompt reply; `None` for end of input. `None` as the
/// result means: ask again.
pub open spec fn answer_for(matches: Seq<Seq<char>>, input: Option<Seq<char>>) -> Option<
    Resolved,
> {
    match input {
        None => Some(Resolved::Cancelled),
        Some(line) => match choice_for(line, matches.len()) {
            Choice::Quit => Some(Resolved::Cancelled),
            Choice::Pick(k) => Some(Resolved::Selected(matches[k as int])),
            Choice::Invalid => None,
        },
    }
}

/// The outcome once the replies `inputs` have been given in turn, each invalid one
/// answered by asking again; `None` if they run out first.
pub open spec fn run_answers(matches: Seq<Seq<char>>, inputs: Seq<Option<Seq<char>>>) -> Option<
    Resolved,
>
    decreases inputs.len(),
{
    if inputs.len() == 0 {
        None
    } else {
        match answer_for(matches, inputs[0]) {
            Some(o) => Some(o),
            None => run_answers(matches, inputs.drop_first()),
        }
    }
}

pub open spec fn input_views(inputs: Seq<Option<String>>) -> Seq<Option<Seq<char>>> {
    inputs.map_values(
        |i: Option<String>|
            match i {
                Some(s) => Some(s@),
                None => None,
            },
    )
}

/// `r` is the zero / one / many policy applied to `matches`: no match and a single
/// match are settled without asking; several are handed to the prompt, in order.
pub open spec fn resolves(r: Step, matches: Seq<Seq<char>>, pattern: Seq<char>, kind: Seq<char>) -> bool {
    if matches.len() == 0 {
        r matches Step::Done(o) && o@ == Resolved::NoMatch
    } else if matches.len() == 1 {
        r matches Step::Done(o) && o@ == Resolved::ExactlyOne(matches[0])
    } else {
        r matches Step::Ask(s) && views(s.matches@) == matches && s.pattern@ == pattern
            && s.kind@ == kind
    }
}

/// Applies the zero / one / many policy to a match set.
pub fn select_from_matches(matches: Vec<String>, pattern: &str, resource_type: &str) -> (r: Step)
    ensures
        resolves(r, views(matches@), pattern@, resource_type@),
{
    if matches.len() == 0 {
        Step::Done(Resolution::NoMatch)
    } else if matches.len() == 1 {
        Step::Done(Resolution::ExactlyOne(matches[0].clone()))
    } else {
        Step::Ask(
            Selection {
                matches,
                pattern: String::from_str(pattern),
                kind: String::from_str(resource_type),
            },
        )
    }
}

impl Selection {
    /// The resolver's answer to one reply, `None` standing for end of input or a
    /// failed read. A `None` result means the reply was invalid: ask again.
    pub fn answer(&self, input: Option<&str>) -> (r: Option<Resolution>)
        ensures
            opt_view(r) == answer_for(views(self.matches@), input_view(input)),
    {
        match input {
            None => Some(Resolution::Cancelled),
            Some(line) => match prompt_user_choice(self.matches.len(), line) {
                Choice::Quit => Some(Resolution::Cancelled),
                Choice::Pick(k) => Some(Resolution::Selected(self.matches[k].clone())),
                Choice::Invalid => None,
            },
        }
    }

    /// Gives the replies `inputs` in turn until one settles the selection.
    pub fn answer_all(&self, inputs: &Vec<Option<String>>) -> (r: Option<Resolution>)
        ensures
            opt_view(r) == run_answers(views(self.matches@), input_views(inputs@)),
    {
        let ghost m = views(self.matches@);
        let ghost all = input_views(inputs@);
        let mut i: usize = 0;
        assert(all.subrange(0, all.len() as int) =~= all);
        while i < inputs.len()
            invariant
                i <= inputs@.len(),
                m == views(self.matches@),
                all == input_views(inputs@),
                run_answers(m, all.subrange(i as int, all.len() as int)) == run_answers(m, all),
            decreases inputs@.len() - i,
        {
            let reply: Option<&str> = match &inputs[i] {
                Some(s) => Some(s.as_str()),
                None => None,
            };
            let ghost rest = all.subrange(i as int, all.len() as int);
            assert(rest[0] == input_view(reply));
            assert(rest.drop_first() =~= all.subrange(i + 1, all.len() as int));
            let a = self.answer(reply);
            if a.is_some() {
                return a;
            }
            i = i + 1;
        }
        None
    }
}

proof fn lemma_digits_untrimmed(t: Seq<char>)
    requires
        all_digits(t),
    ensures
        trim(t) == t,
{
    assert(!is_ws(t[0]));
    assert(trim_start(t) == t);
    assert(!is_ws(t.last()));
}

/// A reply that spells the number `k + 1` in decimal picks the `k`-th name.
pub proof fn lemma_number_selects(matches: Seq<Seq<char>>, k: int, line: Seq<char>)
    requires
        0 <= k < matches.len() <= usize::MAX,
        all_digits(line),
        decimal_value(line) == k + 1,
    ensures
        answer_for(matches, Some(line)) == Some(Resolved::Selected(matches[k])),
{
    lemma_digits_untrimmed(line);
    assert(crate::text::is_digit(line[0]));
    assert(!is_quit(line));
    assert(unsigned_digits(line) == line);
}

/// A quit sentinel, `q` or `quit` in any case and with any surrounding blanks, cancels.
pub proof fn lemma_quit_cancels(matches: Seq<Seq<char>>, line: Seq<char>)
    requires
        is_quit(trim(line)),
    ensures
        answer_for(matches, Some(line)) == Some(Resolved::Cancelled),
{
}

/// Invalid replies are answered by asking again, however many there are: after them,
/// the first valid reply settles the selection.
pub proof fn lemma_retries_until_valid(
    matches: Seq<Seq<char>>,
    invalid: Seq<Option<Seq<char>>>,
    valid: Option<Seq<char>>,
    rest: Seq<Option<Seq<char>>>,
)
    requires
        forall|i: int| 0 <= i < invalid.len() ==> answer_for(matches, #[trigger] invalid[i]) is None,
        answer_for(matches, valid) is Some,
    ensures
        run_answers(matches, invalid + seq![valid] + rest) == answer_for(matches, valid),
    decreases invalid.len(),
{
    let all = invalid + seq![valid] + rest;
    if invalid.len() == 0 {
        assert(all[0] == valid);
    } else {
        assert(all[0] == invalid[0]);
        assert(all.drop_first() =~= invalid.drop_first() + seq![valid] + rest);
        lemma_retries_until_valid(matches, invalid.drop_first(), valid, rest);
    }
}

/// End of input, or a quit sentinel, cancels at once: no later reply is read.
pub proof fn lemma_no_retry_after_cancel(
    matches: Seq<Seq<char>>,
    first: Option<Seq<char>>,
    rest: Seq<Option<Seq<char>>>,
)
    requires
        first is None || is_quit(trim(first->0)),
    ensures
        run_answers(matches, seq![first] + rest) == Some(Resolved::Cancelled),
{
    assert((seq![first] + rest)[0] == first);
}

/// The resolver never settles on a name outside the match set it was given.
pub proof fn lemma_selected_is_a_match(
    matches: Seq<Seq<char>>,
    input: Option<Seq<char>>,
    name: Seq<char>,
)
    requires
        matches.len() <= usize::MAX,
        answer_for(matches, input) == Some(Resolved::Selected(name)),
    ensures
        matches.contains(name),
{
    let k = choice_for(input->0, matches.len())->Pick_0;
    assert(matches[k as int] == name);
}

/// However many replies the prompt reads as invalid come first, a reply that spells
/// `k + 1` then selects the `k`-th name, and end of input then cancels.
pub proof fn lemma_prompt_retries(
    matches: Seq<Seq<char>>,
    bad: Seq<Seq<char>>,
    k: int,
    good: Seq<char>,
    rest: Seq<Option<Seq<char>>>,
)
    requires
        0 <= k < matches.len() <= usize::MAX,
        forall|i: int| 0 <= i < bad.len() ==> choice_for(#[trigger] bad[i], matches.len()) == Choice::Invalid,
        all_digits(good),
        decimal_value(good) == k + 1,
    ensures
        run_answers(matches, bad.map_values(|l: Seq<char>| Some(l)) + seq![Some(good)] + rest)
            == Some(Resolved::Selected(matches[k])),
        run_answers(matches, bad.map_values(|l: Seq<char>| Some(l)) + seq![None] + rest)
            == Some(Resolved::Cancelled),
{
    let invalid = bad.map_values(|l: Seq<char>| Some(l));
    assert forall|i: int| 0 <= i < invalid.len() implies answer_for(matches, #[trigger] invalid[i])
        is None by {
        assert(invalid[i] == Some(bad[i]));
    }
    lemma_number_selects(matches, k, good);
    lemma_retries_until_valid(matches, invalid, Some(good), rest);
    lemma_retries_until_valid(matches, invalid, None, rest);
}

} // verus!
