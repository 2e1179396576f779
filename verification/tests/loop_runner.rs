use taarof_app::loop_runner::{
    dev_command_line, dev_result_toast, is_safe_issue_id, live_tab_argv, pr_command_line, pr_loop_name,
    pr_result_toast, result_file_path, split_command, substitute_placeholders,
    task_bound_live_tab_argv, LoopRunnerAction, LoopRunnerToast,
};
use taarof_app::mise::remote::shell_quote;

#[test]
fn loop_runner_dev_command_template_substitutes_repo_and_issue() {
    let cmd = dev_command_line(
        "loop-runner dev-loop --repo {repo} --issue {issue}",
        "/tmp/user/proj",
        "EXAMPLE-57",
        "dev",
    );
    // Substituted values are shell-quoted (the line is run under `bash -lc`).
    assert_eq!(
        cmd,
        "loop-runner dev-loop --repo '/tmp/user/proj' --issue 'EXAMPLE-57'"
    );
    // {loop} is available even when the default template omits it.
    let with_loop = dev_command_line(
        "runner build --repo {repo} --issue {issue} --loop {loop}",
        "/r",
        "T-1",
        "fast",
    );
    assert_eq!(
        with_loop,
        "runner build --repo '/r' --issue 'T-1' --loop 'fast'"
    );
}

#[test]
fn loop_runner_pr_command_template_substitutes_repo_and_pr() {
    let cmd = pr_command_line(
        "loop-runner pr-loop --repo {repo} --pr {pr} --loop {loop}",
        "/tmp/user/proj",
        "208",
        "pr-review",
    );
    assert_eq!(
        cmd,
        "loop-runner pr-loop --repo '/tmp/user/proj' --pr '208' --loop 'pr-review'"
    );
}

#[test]
fn pr_loop_review_only_selects_non_merging_loop() {
    let review = "pr-review-readonly";
    let merge = "pr-review";
    assert_eq!(
        pr_loop_name(LoopRunnerAction::ReviewOnly, review, merge),
        "pr-review-readonly"
    );
    assert_eq!(
        pr_loop_name(LoopRunnerAction::ReviewAndMerge, review, merge),
        "pr-review"
    );
    // And the full command uses the non-merging loop name.
    let cmd = pr_command_line(
        "loop-runner pr-loop --repo {repo} --pr {pr} --loop {loop}",
        "/r",
        "208",
        pr_loop_name(LoopRunnerAction::ReviewOnly, review, merge),
    );
    assert!(cmd.contains("--loop 'pr-review-readonly'"));
    assert!(!cmd.contains("--loop 'pr-review'"));
}

#[test]
fn dev_command_neutralizes_shell_metacharacters_in_issue_id() {
    // A hostile task id from .plan/tasks.json must not break out of its
    // argument when the line is embedded in `bash -lc`.
    let hostile = "EXAMPLE-57; touch /tmp/INJECTED";
    let cmd = dev_command_line(
        "loop-runner dev-loop --repo {repo} --issue {issue}",
        "/r",
        hostile,
        "dev",
    );
    // The whole id, semicolon and all, is one single-quoted literal.
    assert!(cmd.contains("--issue 'EXAMPLE-57; touch /tmp/INJECTED'"));
    // Embedding it in the live-tab script keeps it quoted (inert).
    let script = live_tab_argv(&cmd, "/run/r.json").pop().unwrap();
    assert!(script.contains("'EXAMPLE-57; touch /tmp/INJECTED'"));
    // An embedded single quote is escaped via the POSIX '\'' trick, so even
    // that cannot terminate the quoting early.
    let tricky = dev_command_line("r --issue {issue}", "/x", "a'b", "dev");
    assert_eq!(tricky, r#"r --issue 'a'\''b'"#);
    // And the dispatch-site allowlist rejects such ids outright.
    assert!(!is_safe_issue_id(hostile));
    assert!(!is_safe_issue_id("a'b"));
    assert!(is_safe_issue_id("EXAMPLE-57"));
    assert!(is_safe_issue_id("feat.2_x-1"));
}

#[test]
fn pr_loop_result_status_maps_to_expected_toast_message() {
    assert_eq!(
        pr_result_toast(r#"{"status":"merged","pr":"208"}"#),
        LoopRunnerToast::Success("PR merged".to_string())
    );
    assert_eq!(
        pr_result_toast(r#"{"status":"reviewed","pr":"208"}"#),
        LoopRunnerToast::Success("Review posted on the PR — not merged".to_string())
    );
    assert_eq!(
        pr_result_toast(r#"{"status":"changes_requested"}"#),
        LoopRunnerToast::Info("Changes requested — comment posted on the PR".to_string())
    );
    assert_eq!(
        pr_result_toast(r#"{"status":"checks_not_green"}"#),
        LoopRunnerToast::Error("Checks not green — PR was not merged".to_string())
    );
    // Garbage / empty output is an error toast, not a panic.
    assert!(matches!(
        pr_result_toast("not json"),
        LoopRunnerToast::Error(_)
    ));
}

#[test]
fn dev_result_status_maps_to_expected_toast_message() {
    assert_eq!(
        dev_result_toast(r#"{"status":"done","pr_url":"https://example/pr/1"}"#),
        LoopRunnerToast::Success("PR opened: https://example/pr/1".to_string())
    );
    assert!(matches!(
        dev_result_toast(r#"{"status":"error"}"#),
        LoopRunnerToast::Error(_)
    ));
    assert!(matches!(dev_result_toast(""), LoopRunnerToast::Error(_)));
}

#[test]
fn split_command_handles_quotes_and_escapes() {
    assert_eq!(
        split_command("loop-runner dev-loop --repo /r --issue EXAMPLE-57"),
        Some(vec![
            "loop-runner".into(),
            "dev-loop".into(),
            "--repo".into(),
            "/r".into(),
            "--issue".into(),
            "EXAMPLE-57".into(),
        ])
    );
    // A quoted path with spaces stays one argument.
    assert_eq!(
        split_command(r#"runner --repo "/tmp/user repo" --issue T-1"#),
        Some(vec![
            "runner".into(),
            "--repo".into(),
            "/tmp/user repo".into(),
            "--issue".into(),
            "T-1".into(),
        ])
    );
    assert_eq!(split_command("   "), None);
}

#[test]
fn live_tab_argv_tees_result_and_clears_stale_file() {
    let argv = live_tab_argv(
        "loop-runner dev-loop --repo /r --issue T-1",
        "/run/taarof-loop-task-T-1.json",
    );
    assert_eq!(argv[0], "bash");
    assert_eq!(argv[1], "-lc");
    let script = &argv[2];
    assert!(script.contains("rm -f '/run/taarof-loop-task-T-1.json'"));
    assert!(script.contains("set -o pipefail"));
    assert!(script.contains("loop-runner dev-loop --repo /r --issue T-1"));
    assert!(script.contains("tee '/run/taarof-loop-task-T-1.json'"));
}

#[test]
fn result_file_path_sanitizes_id() {
    let path = result_file_path("/run/user/1000", "task", "EXAMPLE-57");
    assert_eq!(
        path,
        "/run/user/1000/taarof-loop-task-EXAMPLE-57.json"
    );
    // A hostile id can't traverse out of the runtime dir.
    let traversal = result_file_path("/run/user/1000", "pr", "../../etc/passwd");
    assert_eq!(
        traversal,
        "/run/user/1000/taarof-loop-pr-______etc_passwd.json"
    );
}

#[test]
fn values_are_never_read_as_placeholders() {
    // Each value is substituted once, whatever it holds.
    let cmd = dev_command_line("run {issue} {loop}", "/r", "{loop}", "x; y");
    assert_eq!(cmd, "run '{loop}' 'x; y'");
    let one = vec![
        ("a".to_string(), "{b}".to_string()),
        ("b".to_string(), "{a}".to_string()),
    ];
    let other = vec![
        ("b".to_string(), "{a}".to_string()),
        ("a".to_string(), "{b}".to_string()),
    ];
    assert_eq!(substitute_placeholders("{a}-{b}-{c}", &one), "{b}-{a}-{c}");
    assert_eq!(
        substitute_placeholders("{a}-{b}-{c}", &one),
        substitute_placeholders("{a}-{b}-{c}", &other)
    );
}

#[test]
fn unknown_placeholders_and_braces_stay() {
    let values = vec![("repo".to_string(), "R".to_string())];
    assert_eq!(
        substitute_placeholders("{{repo}} {rep {other} {repo", &values),
        "{R} {rep {other} {repo"
    );
    assert_eq!(substitute_placeholders("", &values), "");
}

#[test]
fn splitting_a_quoted_text_gives_it_back() {
    for text in ["", "a", "a'b", "'", "''", "a b;c\"d\\e$`", "\n\t", "ü—'"] {
        assert_eq!(
            split_command(&shell_quote(text)),
            Some(vec![text.to_string()]),
            "{text:?}"
        );
    }
}

#[test]
fn split_command_keeps_backslashes_where_a_shell_does() {
    assert_eq!(
        split_command(r#"a\ b "c\"d" "e\f" "g\\" 'h\i' "" "#),
        Some(vec![
            "a b".to_string(),
            "c\"d".to_string(),
            "e\\f".to_string(),
            "g\\".to_string(),
            "h\\i".to_string(),
            String::new(),
        ])
    );
    // An open quote and a trailing backslash end with the line.
    assert_eq!(split_command("\"a\\"), Some(vec!["a\\".to_string()]));
    assert_eq!(split_command("'a b"), Some(vec!["a b".to_string()]));
    assert_eq!(split_command("a\\"), Some(vec!["a".to_string()]));
    assert_eq!(split_command("\u{2003}x\u{a0}y"), Some(vec!["x".to_string(), "y".to_string()]));
    assert_eq!(split_command(""), None);
}

#[test]
fn issue_ids_are_not_empty() {
    assert!(!is_safe_issue_id(""));
    assert!(!is_safe_issue_id("ä"));
    assert!(is_safe_issue_id("-"));
}

#[test]
fn result_file_path_joins_at_most_one_separator() {
    assert_eq!(result_file_path("", "pr", "1"), "taarof-loop-pr-1.json");
    assert_eq!(result_file_path("/run/", "pr", "1"), "/run/taarof-loop-pr-1.json");
    let std_path = std::path::PathBuf::from("/run/user/1000").join("taarof-loop-task-a_b.json");
    assert_eq!(result_file_path("/run/user/1000", "task", "a/b"), std_path.to_string_lossy());
}

#[test]
fn task_bound_wrapper_waits_for_the_context_and_captures_the_result() {
    let argv = task_bound_live_tab_argv("run it", "/run/r'1.json", "/run/c.env");
    assert_eq!(argv.len(), 3);
    assert_eq!(argv[0], "bash");
    assert_eq!(argv[1], "-lc");
    assert_eq!(
        argv[2],
        "_taarof_context='/run/c.env'; trap 'rm -f -- \"$_taarof_context\"' EXIT; for ((_taarof_wait=0; _taarof_wait<200; _taarof_wait++)); do [ -f \"$_taarof_context\" ] && break; sleep 0.05; done; if [ ! -f \"$_taarof_context\" ]; then echo 'taarof: task reporting context was not supplied' >&2; exit 70; fi; . \"$_taarof_context\"; rm -f -- \"$_taarof_context\"; rm -f '/run/r'\\''1.json' 2>/dev/null; set -o pipefail; run it | tee '/run/r'\\''1.json'"
    );
}

#[test]
fn toasts_cover_the_remaining_results() {
    assert_eq!(
        dev_result_toast(r#"{"status":"done"}"#),
        LoopRunnerToast::Success("Task built (no PR URL reported)".to_string())
    );
    assert_eq!(
        dev_result_toast(r#"{"status":"done","pr_url":""}"#),
        LoopRunnerToast::Success("Task built (no PR URL reported)".to_string())
    );
    assert_eq!(
        dev_result_toast(r#"{"status":"dry-run"}"#),
        LoopRunnerToast::Error("Loop runner finished with status: dry-run".to_string())
    );
    assert_eq!(
        dev_result_toast("[]"),
        LoopRunnerToast::Error("Loop runner finished with status: unknown".to_string())
    );
    assert_eq!(
        dev_result_toast(r#"{"status":7}"#),
        LoopRunnerToast::Error("Loop runner finished with status: unknown".to_string())
    );
    assert_eq!(
        dev_result_toast("{"),
        LoopRunnerToast::Error("Loop runner produced no readable result".to_string())
    );
    assert_eq!(
        pr_result_toast(r#"{"status":"dry-run"}"#),
        LoopRunnerToast::Info("Dry run complete — no review effects".to_string())
    );
    assert_eq!(
        pr_result_toast(r#"{"status":"x","status":"weird"}"#),
        LoopRunnerToast::Error("Loop runner finished with status: weird".to_string())
    );
}
