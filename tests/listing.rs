use kubix::listing::{
    find_pods, get_all_contexts, get_all_pods, get_all_namespaces, get_current_context, resolve_context_pattern,
    resolve_namespace_pattern, select_pod,
};
use kubix::select::{Resolution, Step};

fn strings(v: &[&str]) -> Vec<String> {
    v.iter().map(|s| s.to_string()).collect()
}

#[test]
fn contexts_are_trimmed_lines_without_blanks() {
    let out = "dev\n  prod-eu \r\n\n   \nstaging\n";
    assert_eq!(get_all_contexts(out), strings(&["dev", "prod-eu", "staging"]));
    assert_eq!(get_all_contexts(""), Vec::<String>::new());
    assert_eq!(get_all_contexts("only"), strings(&["only"]));
}

#[test]
fn namespaces_lose_their_prefix() {
    let out = "namespace/default\nnamespace/kube-system\r\nnamespace/\nplain\n";
    assert_eq!(get_all_namespaces(out), strings(&["default", "kube-system", "plain"]));
    assert_eq!(get_all_namespaces("namespace/namespace/x\n"), strings(&["x"]));
}

#[test]
fn pods_lose_their_prefix_before_matching() {
    let out = "pod/web-1\npod/web-2\npod/worker\n";
    assert_eq!(get_all_pods(out), strings(&["web-1", "web-2", "worker"]));
    assert_eq!(find_pods(out, "web"), strings(&["web-1", "web-2"]));
    assert_eq!(find_pods(out, "pod/w"), Vec::<String>::new());
    assert_eq!(find_pods(out, "pod"), Vec::<String>::new());
    assert_eq!(find_pods(out, "zzz"), Vec::<String>::new());
    assert_eq!(find_pods(out, ""), strings(&["web-1", "web-2", "worker"]));
}

#[test]
fn pod_listing_drops_blank_lines() {
    assert_eq!(find_pods("\n", ""), Vec::<String>::new());
    assert_eq!(get_all_pods("pod/a \r\n\n  \npod/\npod/b"), strings(&["a", "b"]));
}

#[test]
fn current_context_is_trimmed_output_or_none() {
    assert_eq!(get_current_context(&Ok(" dev \n".to_string())), Some("dev".to_string()));
    assert_eq!(get_current_context(&Err("boom".to_string())), None);
}

#[test]
fn context_resolution_over_a_listing() {
    match resolve_context_pattern("prod", "dev\nprod-eu\nstaging\n") {
        Step::Done(r) => assert_eq!(r, Resolution::ExactlyOne("prod-eu".to_string())),
        Step::Ask(_) => panic!("one match must not prompt"),
    }
    match resolve_context_pattern("e", "dev\nprod-eu\nstaging\n") {
        Step::Ask(sel) => {
            assert_eq!(sel.matches, strings(&["dev", "prod-eu"]));
            assert_eq!(sel.kind, "context");
        }
        Step::Done(r) => panic!("two matches must prompt, got {:?}", r),
    }
    match resolve_context_pattern("qa", "dev\n") {
        Step::Done(r) => assert_eq!(r, Resolution::NoMatch),
        Step::Ask(_) => panic!("no match must not prompt"),
    }
}

#[test]
fn namespace_and_pod_resolution_over_listings() {
    match resolve_namespace_pattern("kube", "namespace/default\nnamespace/kube-system\n") {
        Step::Done(r) => assert_eq!(r, Resolution::ExactlyOne("kube-system".to_string())),
        Step::Ask(_) => panic!("one match must not prompt"),
    }
    match select_pod("web", "pod/web-1\npod/web-2\npod/worker\n") {
        Step::Ask(sel) => {
            assert_eq!(sel.kind, "pod");
            assert_eq!(sel.answer(Some("2")), Some(Resolution::Selected("web-2".to_string())));
        }
        Step::Done(r) => panic!("two matches must prompt, got {:?}", r),
    }
}
