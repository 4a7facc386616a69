use kubix::display::{
    color_of_lowered_status, colorize_status, list_contexts_with_current, list_pods, selection_rows,
    PodDisplay, StatusColor,
};
use kubix::logs::{line_shown, logs_args, should_show_line, LineFilter};
use kubix::select::is_confirmation;
use kubix::smart::{extract_context, extract_namespace, extract_pod_pattern, process_smart_command, SmartCommand};

fn strings(v: &[&str]) -> Vec<String> {
    v.iter().map(|s| s.to_string()).collect()
}

const PODS: &str = "NAME      READY   STATUS    RESTARTS   AGE\nweb-1     1/1     Running   0          2d\n\nweb-2     0/1     Pending   3          5m\nbroken line\nworker    1/1     Running   1          1h\n";

fn pod(name: &str, ready: &str, status: &str, restarts: &str, age: &str) -> PodDisplay {
    PodDisplay {
        name: name.to_string(),
        ready: ready.to_string(),
        status: status.to_string(),
        restarts: restarts.to_string(),
        age: age.to_string(),
    }
}

#[test]
fn pods_table_skips_header_and_short_lines() {
    let rows = list_pods(PODS, None);
    assert_eq!(
        rows,
        vec![
            pod("web-1", "1/1", "Running", "0", "2d"),
            pod("web-2", "0/1", "Pending", "3", "5m"),
            pod("worker", "1/1", "Running", "1", "1h"),
        ]
    );
    let rows = list_pods(PODS, Some("web"));
    assert_eq!(rows.len(), 2);
    assert_eq!(list_pods(PODS, Some("Pending")), vec![pod("web-2", "0/1", "Pending", "3", "5m")]);
    assert!(list_pods("", None).is_empty());
    assert!(list_pods("NAME READY STATUS RESTARTS AGE\n", None).is_empty());
}

#[test]
fn contexts_table_marks_the_current_one() {
    let rows = list_contexts_with_current("dev\n prod \n\n", Some("prod"));
    assert_eq!(rows.len(), 2);
    assert_eq!((rows[0].context.as_str(), rows[0].current.as_str()), ("dev", ""));
    assert_eq!((rows[1].context.as_str(), rows[1].current.as_str()), ("prod", "✓"));
    let rows = list_contexts_with_current("dev\n", None);
    assert_eq!(rows[0].current, "");
}

#[test]
fn selection_rows_are_numbered_from_one() {
    let names: Vec<String> = (0..12).map(|i| format!("n{}", i)).collect();
    let rows = selection_rows(&names);
    assert_eq!(rows.len(), 12);
    assert_eq!((rows[0].number.as_str(), rows[0].name.as_str(), rows[0].details.as_str()), ("1", "n0", ""));
    assert_eq!(rows[9].number, "10");
    assert_eq!(rows[11].number, "12");
}

#[test]
fn log_lines_under_filters() {
    let grep = LineFilter::new("ERR|WARN").unwrap();
    let exclude = LineFilter::new("^DEBUG").unwrap();
    assert_eq!(grep.as_str(), "ERR|WARN");
    assert!(should_show_line("ERR disk", Some(&grep), Some(&exclude)));
    assert!(!should_show_line("INFO ok", Some(&grep), Some(&exclude)));
    assert!(!should_show_line("DEBUG ERR", Some(&grep), Some(&exclude)));
    assert!(should_show_line("anything", None, None));
    assert!(!should_show_line("DEBUG x", None, Some(&exclude)));
    assert!(LineFilter::new("(unclosed").is_err());
    assert!(line_shown(None, None));
    assert!(line_shown(Some(true), Some(false)));
    assert!(!line_shown(Some(false), None));
    assert!(!line_shown(Some(true), Some(true)));
}

#[test]
fn kubectl_logs_arguments() {
    assert_eq!(logs_args("web", false, None, false, None, None, None), strings(&["logs", "web"]));
    assert_eq!(
        logs_args("web", true, Some(100), true, Some("app"), Some("dev"), Some("ns")),
        strings(&["--context", "dev", "-n", "ns", "logs", "web", "-f", "--tail", "100", "-p", "-c", "app"])
    );
    assert_eq!(logs_args("w", false, Some(0), false, None, None, None), strings(&["logs", "w", "--tail", "0"]));
    assert_eq!(
        logs_args("w", false, Some(4294967295), false, None, None, None),
        strings(&["logs", "w", "--tail", "4294967295"])
    );
}

#[test]
fn confirmation_replies() {
    for yes in ["y", "Y", "yes", "YES", " Yes \n"] {
        assert!(is_confirmation(yes), "{:?}", yes);
    }
    for no in ["", "n", "no", "yess", "ye", "y e s"] {
        assert!(!is_confirmation(no), "{:?}", no);
    }
}

#[test]
fn smart_phrases() {
    let c = "run command 'python manage.py shell' on pod that has web-internal in its name on testing context";
    assert_eq!(extract_pod_pattern(c), Some("web-internal".to_string()));
    // The first "on " is the one inside "python": the phrase runs from there.
    assert_eq!(
        extract_context(c),
        Some("manage.py shell' on pod that has web-internal in its name on testing".to_string())
    );
    assert_eq!(extract_context("deploy on staging context"), Some("staging".to_string()));
    assert_eq!(extract_namespace(c), None);
    assert_eq!(extract_pod_pattern("bash to pod web"), Some("web".to_string()));
    assert_eq!(extract_context("use context prod now"), Some("prod".to_string()));
    assert_eq!(extract_namespace("in apps namespace"), Some("apps".to_string()));
    assert_eq!(extract_namespace("namespace kube"), Some("kube".to_string()));
    assert_eq!(extract_pod_pattern("nothing here"), None);
}

#[test]
fn smart_commands() {
    let c = "run command 'ls -la' on pod web in production context";
    assert_eq!(
        process_smart_command(c),
        SmartCommand::Run {
            command: "ls -la".to_string(),
            pod_pattern: "web".to_string(),
            context: Some("pod web in production".to_string()),
            namespace: None,
        }
    );
    assert_eq!(
        process_smart_command("shell to pod that has api in its name"),
        SmartCommand::Shell { pod_pattern: "api".to_string(), context: None, namespace: None }
    );
    assert_eq!(
        process_smart_command("bash please"),
        SmartCommand::Shell { pod_pattern: "web".to_string(), context: None, namespace: None }
    );
    assert_eq!(
        process_smart_command("exec script './setup.py' on pod that has worker in its name"),
        SmartCommand::Script {
            script_path: "./setup.py".to_string(),
            pod_pattern: "worker".to_string(),
            context: None,
            namespace: None,
        }
    );
    assert_eq!(process_smart_command("run it on pod web"), SmartCommand::UnquotedCommand);
    assert_eq!(process_smart_command("run ' on pod web"), SmartCommand::UnquotedCommand);
    assert_eq!(process_smart_command("script x"), SmartCommand::UnquotedScript);
    assert_eq!(process_smart_command("hello"), SmartCommand::Unknown);
}

#[test]
fn pod_status_colours() {
    assert_eq!(colorize_status("Running"), StatusColor::Green);
    assert_eq!(colorize_status("PENDING"), StatusColor::Yellow);
    assert_eq!(colorize_status("CrashLoopBackOff"), StatusColor::Red);
    assert_eq!(colorize_status("Error"), StatusColor::Red);
    assert_eq!(colorize_status("Completed"), StatusColor::Blue);
    assert_eq!(colorize_status("Terminating"), StatusColor::White);
    assert_eq!(color_of_lowered_status("succeeded"), StatusColor::Blue);
    assert_eq!(color_of_lowered_status("Running"), StatusColor::White);
}
