use kubix::cli::ConfigCommands;
use kubix::config::{
    add_command, add_interpreter, add_script, default_commands, handle_config_command, remove_command,
    remove_interpreter, remove_script, ConfigAction, EditOutcome, KubixConfig, Nicknames,
};
use kubix::exec::{get_interpreter_for_script, handle_exec_command, interpreter_for_extension, ExecPlan};
use kubix::kubectl::{
    bash_to_pod, build_args, context_listing_args, exec_script_args, namespace_listing_args,
    pod_listing_args, run_command_on_pod, use_context_args,
};

fn strings(v: &[&str]) -> Vec<String> {
    v.iter().map(|s| s.to_string()).collect()
}

#[test]
fn build_args_puts_scope_flags_first() {
    assert_eq!(build_args(&["get", "pods"], None, None), strings(&["get", "pods"]));
    assert_eq!(
        build_args(&["get", "pods"], Some("prod"), Some("web")),
        strings(&["--context", "prod", "-n", "web", "get", "pods"])
    );
    assert_eq!(build_args(&["x"], None, Some("ns")), strings(&["-n", "ns", "x"]));
    assert_eq!(build_args(&[], Some("c"), None), strings(&["--context", "c"]));
}

#[test]
fn command_lines_for_pods() {
    assert_eq!(
        bash_to_pod("web-1", Some("dev"), None),
        strings(&["--context", "dev", "exec", "-it", "web-1", "--", "bash"])
    );
    assert_eq!(
        run_command_on_pod("web-1", "ls -la", None, Some("apps")),
        strings(&["-n", "apps", "exec", "-it", "web-1", "--", "sh", "-c", "ls -la"])
    );
    assert_eq!(
        exec_script_args("w", Some("python3"), None, None),
        strings(&["exec", "-i", "w", "--", "python3"])
    );
    assert_eq!(exec_script_args("w", None, None, None), strings(&["exec", "-i", "w", "--", "sh"]));
    assert_eq!(context_listing_args(), strings(&["config", "get-contexts", "-o", "name"]));
    assert_eq!(use_context_args("dev"), strings(&["config", "use-context", "dev"]));
    assert_eq!(
        namespace_listing_args(Some("dev")),
        strings(&["--context", "dev", "get", "namespaces", "-o", "name"])
    );
    assert_eq!(pod_listing_args(None, None), strings(&["get", "pods", "-o", "name"]));
}

#[test]
fn nicknames_resolve_or_pass_through() {
    let config = KubixConfig::default();
    assert_eq!(config.resolve_command("shell"), "$BIN_PATH/python manage.py shell");
    assert_eq!(config.resolve_command("ps"), "ps aux");
    assert_eq!(config.resolve_command("uptime"), "uptime");
    assert_eq!(config.resolve_script("setup"), "~/scripts/setup.py");
    assert_eq!(config.resolve_script("./x.sh"), "./x.sh");
    assert_eq!(config.resolve_interpreter("py"), Some("/opt/app/venv/bin/python".to_string()));
    assert_eq!(config.resolve_interpreter("rb"), None);
}

#[test]
fn adding_an_existing_nickname_needs_leave() {
    let mut config = KubixConfig::default();
    assert_eq!(
        add_command(&mut config, "ps", "ps -ef", false),
        EditOutcome::Exists("ps aux".to_string())
    );
    assert_eq!(config.resolve_command("ps"), "ps aux");
    assert_eq!(add_command(&mut config, "ps", "ps -ef", true), EditOutcome::Changed);
    assert_eq!(config.resolve_command("ps"), "ps -ef");
    assert_eq!(add_command(&mut config, "top", "top -b", false), EditOutcome::Changed);
    assert_eq!(config.resolve_command("top"), "top -b");
    assert_eq!(add_script(&mut config, "deploy", "./d.sh", false), EditOutcome::Exists("/Users/myuser/scripts/deploy.sh".to_string()));
    assert_eq!(add_interpreter(&mut config, "rb", "/usr/bin/ruby", false), EditOutcome::Changed);
    assert_eq!(config.resolve_interpreter("rb"), Some("/usr/bin/ruby".to_string()));
}

#[test]
fn removing_a_nickname() {
    let mut config = KubixConfig::default();
    assert_eq!(remove_command(&mut config, "ps"), EditOutcome::Changed);
    assert_eq!(config.resolve_command("ps"), "ps");
    assert_eq!(remove_command(&mut config, "ps"), EditOutcome::NotFound);
    assert_eq!(remove_script(&mut config, "nope"), EditOutcome::NotFound);
    assert_eq!(remove_interpreter(&mut config, "py"), EditOutcome::Changed);
    assert!(config.interpreters.is_empty());
}

#[test]
fn config_subcommands_dispatch() {
    let mut config = KubixConfig::default();
    assert!(matches!(handle_config_command(&mut config, None, false), ConfigAction::Show));
    assert!(matches!(handle_config_command(&mut config, Some(&ConfigCommands::List), false), ConfigAction::Show));
    let add = ConfigCommands::AddScript { nickname: "s".to_string(), script: "./s.sh".to_string() };
    assert!(matches!(handle_config_command(&mut config, Some(&add), false), ConfigAction::Edited(EditOutcome::Changed)));
    assert_eq!(config.resolve_script("s"), "./s.sh");
    let rm = ConfigCommands::RemoveInterpreter { extension: "js".to_string() };
    assert!(matches!(handle_config_command(&mut config, Some(&rm), false), ConfigAction::Edited(EditOutcome::NotFound)));
}

#[test]
fn sorted_pairs_ascend_by_key() {
    let mut t = Nicknames::new();
    for (k, v) in [("zeta", "1"), ("alpha", "2"), ("mid", "3"), ("Alpha", "4"), ("alp", "5")] {
        t.insert(k, v);
    }
    t.insert("mid", "6");
    let keys: Vec<String> = t.sorted_pairs().into_iter().map(|(k, _)| k).collect();
    assert_eq!(keys, strings(&["Alpha", "alp", "alpha", "mid", "zeta"]));
    assert_eq!(t.get("mid"), Some(&"6".to_string()));
    assert_eq!(t.pairs().len(), 5);
    let defaults: Vec<(String, String)> = default_commands().sorted_pairs();
    assert_eq!(defaults[0].0, "ps");
    assert_eq!(defaults[1].0, "shell");
}

#[test]
fn exec_plans() {
    let config = KubixConfig::default();
    assert!(matches!(handle_exec_command(&config, Some("ps"), None), ExecPlan::Run(c) if c == "ps aux"));
    assert!(matches!(handle_exec_command(&config, Some("date"), None), ExecPlan::Run(c) if c == "date"));
    assert!(matches!(handle_exec_command(&config, None, Some("setup")), ExecPlan::Script(p) if p == "~/scripts/setup.py"));
    assert!(matches!(handle_exec_command(&config, None, None), ExecPlan::Shell));
    assert!(matches!(handle_exec_command(&config, Some("a"), Some("b")), ExecPlan::Conflict));
}

#[test]
fn interpreters_by_extension() {
    let config = KubixConfig::default();
    assert_eq!(get_interpreter_for_script("./scripts/setup.py", &config), Some("/opt/app/venv/bin/python".to_string()));
    assert_eq!(get_interpreter_for_script("deploy.sh", &config), Some("bash".to_string()));
    assert_eq!(get_interpreter_for_script("a/b/run.rb", &config), Some("ruby".to_string()));
    assert_eq!(get_interpreter_for_script("job.groovy", &config), Some("groovy".to_string()));
    assert_eq!(get_interpreter_for_script("Makefile", &config), None);
    assert_eq!(get_interpreter_for_script(".bashrc", &config), None);
    assert_eq!(get_interpreter_for_script("notes.txt", &config), None);
    assert_eq!(interpreter_for_extension(&config, Some("js")), Some("node".to_string()));
    assert_eq!(interpreter_for_extension(&config, Some("r")), Some("Rscript".to_string()));
    assert_eq!(interpreter_for_extension(&config, None), None);
}
