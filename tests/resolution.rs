use kubix::matcher::filter_matches;
use kubix::select::{prompt_user_choice, select_from_matches, Choice, Resolution, Selection, Step};

fn names(v: &[&str]) -> Vec<String> {
    v.iter().map(|s| s.to_string()).collect()
}

fn ask(step: Step) -> Selection {
    match step {
        Step::Ask(s) => s,
        Step::Done(r) => panic!("expected a prompt, got {:?}", r),
    }
}

fn done(step: Step) -> Resolution {
    match step {
        Step::Done(r) => r,
        Step::Ask(s) => panic!("expected no prompt, got {:?}", s),
    }
}

fn replies(v: &[Option<&str>]) -> Vec<Option<String>> {
    v.iter().map(|r| r.map(|s| s.to_string())).collect()
}

#[test]
fn web_pattern_prompts_and_first_is_selected() {
    let candidates = names(&["web-1", "web-2", "worker"]);
    let matches = filter_matches(&candidates, "web");
    assert_eq!(matches, names(&["web-1", "web-2"]));
    let sel = ask(select_from_matches(matches, "web", "pod"));
    assert_eq!(sel.kind, "pod");
    assert_eq!(sel.pattern, "web");
    assert_eq!(sel.answer(Some("1")), Some(Resolution::Selected("web-1".to_string())));
}

#[test]
fn single_match_is_taken_without_prompt() {
    let candidates = names(&["api-prod"]);
    let matches = filter_matches(&candidates, "api");
    assert_eq!(matches, names(&["api-prod"]));
    let r = done(select_from_matches(matches, "api", "context"));
    assert_eq!(r, Resolution::ExactlyOne("api-prod".to_string()));
}

#[test]
fn single_match_ignores_the_pattern() {
    let r = done(select_from_matches(names(&["x"]), "anything at all", "pod"));
    assert_eq!(r, Resolution::ExactlyOne("x".to_string()));
}

#[test]
fn no_match_resolves_to_nomatch() {
    let candidates = names(&["a", "b"]);
    let matches = filter_matches(&candidates, "zzz");
    assert!(matches.is_empty());
    assert_eq!(done(select_from_matches(matches, "zzz", "pod")), Resolution::NoMatch);
}

#[test]
fn invalid_then_quit_cancels() {
    assert_eq!(prompt_user_choice(3, "9"), Choice::Invalid);
    assert_eq!(prompt_user_choice(3, "q"), Choice::Quit);
    let sel = ask(select_from_matches(names(&["a", "b", "c"]), "", "pod"));
    assert_eq!(sel.answer(Some("9")), None);
    assert_eq!(sel.answer_all(&replies(&[Some("9"), Some("q")])), Some(Resolution::Cancelled));
}

#[test]
fn empty_pattern_keeps_every_candidate() {
    let candidates = names(&["b", "a", "b", "c"]);
    assert_eq!(filter_matches(&candidates, ""), candidates);
}

#[test]
fn matching_is_case_sensitive_and_keeps_order() {
    let candidates = names(&["Web", "my-web", "web", "w-e-b", "webweb"]);
    assert_eq!(filter_matches(&candidates, "web"), names(&["my-web", "web", "webweb"]));
    assert_eq!(filter_matches(&candidates, "eb"), names(&["Web", "my-web", "web", "webweb"]));
}

#[test]
fn every_number_in_range_selects_its_entry() {
    let list = names(&["n1", "n2", "n3", "n4"]);
    let sel = ask(select_from_matches(list.clone(), "n", "namespace"));
    for i in 0..list.len() {
        let input = format!("{}", i + 1);
        assert_eq!(sel.answer(Some(&input)), Some(Resolution::Selected(list[i].clone())));
    }
    assert_eq!(sel.answer(Some(" 2 \n")), Some(Resolution::Selected("n2".to_string())));
    assert_eq!(sel.answer(Some("+3")), Some(Resolution::Selected("n3".to_string())));
    assert_eq!(sel.answer(Some("04")), Some(Resolution::Selected("n4".to_string())));
}

#[test]
fn quit_sentinels_cancel() {
    let sel = ask(select_from_matches(names(&["a", "b"]), "", "pod"));
    for q in ["q", "Q", "quit", "QUIT", "QuIt", "  q  \n"] {
        assert_eq!(sel.answer(Some(q)), Some(Resolution::Cancelled), "input {:?}", q);
    }
    assert_eq!(sel.answer(Some("qu")), None);
    assert_eq!(sel.answer(Some("quits")), None);
}

#[test]
fn end_of_input_cancels() {
    let sel = ask(select_from_matches(names(&["a", "b"]), "", "pod"));
    assert_eq!(sel.answer(None), Some(Resolution::Cancelled));
    assert_eq!(sel.answer_all(&replies(&[None, Some("1")])), Some(Resolution::Cancelled));
}

#[test]
fn invalid_replies_are_retried_until_a_valid_one() {
    let sel = ask(select_from_matches(names(&["a", "b", "c"]), "", "pod"));
    for bad in ["0", "-1", "abc", "999", "", "1.5", "++1", "18446744073709551617"] {
        assert_eq!(sel.answer(Some(bad)), None, "input {:?}", bad);
    }
    let script = replies(&[Some("0"), Some("-1"), Some("abc"), Some("999"), Some("2")]);
    assert_eq!(sel.answer_all(&script), Some(Resolution::Selected("b".to_string())));
    let script = replies(&[Some("0"), Some("quit"), Some("2")]);
    assert_eq!(sel.answer_all(&script), Some(Resolution::Cancelled));
    let script = replies(&[Some("0"), Some("abc")]);
    assert_eq!(sel.answer_all(&script), None);
}

#[test]
fn prompt_reading_follows_the_range() {
    assert_eq!(prompt_user_choice(3, "1"), Choice::Pick(0));
    assert_eq!(prompt_user_choice(3, "3"), Choice::Pick(2));
    assert_eq!(prompt_user_choice(3, "4"), Choice::Invalid);
    assert_eq!(prompt_user_choice(3, "0"), Choice::Invalid);
    assert_eq!(prompt_user_choice(3, "-1"), Choice::Invalid);
    assert_eq!(prompt_user_choice(3, "abc"), Choice::Invalid);
    assert_eq!(prompt_user_choice(3, "999"), Choice::Invalid);
    assert_eq!(prompt_user_choice(3, "QUIT"), Choice::Quit);
}

#[test]
fn prompt_reading_at_the_largest_range() {
    assert_eq!(prompt_user_choice(usize::MAX, "18446744073709551615"), Choice::Pick(usize::MAX - 1));
    assert_eq!(prompt_user_choice(usize::MAX, "18446744073709551616"), Choice::Invalid);
    assert_eq!(prompt_user_choice(usize::MAX, "99999999999999999999999"), Choice::Invalid);
    assert_eq!(prompt_user_choice(0, "1"), Choice::Invalid);
    assert_eq!(prompt_user_choice(0, "q"), Choice::Quit);
}

#[test]
fn resolved_names_come_from_the_match_set() {
    let list = names(&["x-1", "x-2", "x-3"]);
    let sel = ask(select_from_matches(list.clone(), "x", "pod"));
    for reply in ["1", "2", "3", "4", "q", "", "-2"] {
        if let Some(r) = sel.answer(Some(reply)) {
            if let Some(n) = r.name() {
                assert!(list.contains(n));
            }
        }
    }
}

#[test]
fn optional_lookups_fall_back_to_the_pattern() {
    assert_eq!(Resolution::NoMatch.name_or_literal("prod"), Some("prod".to_string()));
    assert_eq!(Resolution::Cancelled.name_or_literal("prod"), None);
    assert_eq!(Resolution::ExactlyOne("prod-eu".to_string()).name_or_literal("prod"), Some("prod-eu".to_string()));
    assert_eq!(Resolution::Selected("prod-us".to_string()).name_or_literal("prod"), Some("prod-us".to_string()));
}
