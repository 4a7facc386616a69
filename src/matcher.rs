//! The pattern matcher: narrows a candidate list to the names that contain a pattern.

use vstd::prelude::*;
use crate::text::{contains, contains_text, views};

verus! {

/// The test a candidate passes when it contains `pattern`.
pub open spec fn contains_pattern(pattern: Seq<char>) -> spec_fn(Seq<char>) -> bool {
    |c: Seq<char>| contains_text(c, pattern)
}

/// The candidates that contain `pattern`, in their original order.
pub open spec fn match_set(candidates: Seq<Seq<char>>, pattern: Seq<char>) -> Seq<Seq<char>> {
    candidates.filter(contains_pattern(pattern))
}

/// The candidates that contain `pattern` as a substring, in their original order.
pub fn filter_matches(candidates: &Vec<String>, pattern: &str) -> (r: Vec<String>)
    ensures
        views(r@) == match_set(views(candidates@), pattern@),
{
    let ghost pred = contains_pattern(pattern@);
    let mut r: Vec<String> = Vec::new();
    let mut i: usize = 0;
    assert(views(candidates@).subrange(0, 0) =~= Seq::<Seq<char>>::empty());
    reveal(Seq::filter);
    while i < candidates.len()
        invariant
            i <= candidates@.len(),
            pred == contains_pattern(pattern@),
            views(r@) == views(candidates@).subrange(0, i as int).filter(pred),
        decreases candidates@.len() - i,
    {
        let c = &candidates[i];
        proof {
            assert(views(candidates@).subrange(0, i + 1) =~= views(candidates@).subrange(
                0,
                i as int,
            ).push(c@));
            views(candidates@).subrange(0, i as int).lemma_filter_push(c@, pred);
        }
        if contains(c.as_str(), pattern) {
            let copy = c.clone();
            proof {
                assert(views(r@.push(copy)) =~= views(r@).push(c@));
            }
            r.push(copy);
        }
        i = i + 1;
    }
    assert(views(candidates@).subrange(0, i as int) =~= views(candidates@));
    r
}

/// The empty pattern matches every candidate: the match set is the whole list.
pub proof fn lemma_empty_pattern_keeps_all(candidates: Seq<Seq<char>>)
    ensures
        match_set(candidates, Seq::<char>::empty()) == candidates,
    decreases candidates.len(),
{
    reveal(Seq::filter);
    if candidates.len() > 0 {
        lemma_empty_pattern_keeps_all(candidates.drop_last());
        let c = candidates.last();
        assert(c.subrange(0, 0) =~= Seq::<char>::empty());
        assert(crate::text::occurs_at(c, Seq::<char>::empty(), 0));
        assert(candidates.drop_last().push(c) =~= candidates);
    }
}

/// Every name in the match set is a candidate that contains the pattern, and every
/// candidate that contains the pattern is in the match set.
pub proof fn lemma_match_set_members(candidates: Seq<Seq<char>>, pattern: Seq<char>, c: Seq<char>)
    ensures
        match_set(candidates, pattern).contains(c) <==> candidates.contains(c) && contains_text(
            c,
            pattern,
        ),
{
    broadcast use vstd::seq_lib::group_filter_ensures;

    let pred = contains_pattern(pattern);
    if candidates.contains(c) && contains_text(c, pattern) {
        let i = choose|i: int| 0 <= i < candidates.len() && candidates[i] == c;
        candidates.lemma_filter_contains(pred, i);
    }
    if match_set(candidates, pattern).contains(c) {
        candidates.lemma_filter_contains_rev(pred, c);
    }
}

} // verus!
