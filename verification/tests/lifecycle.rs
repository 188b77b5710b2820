use backend_manager::json::JsonValue;
use backend_manager::kind::{BackendKind, BackendStatus};
use backend_manager::runtime::{
    stream_failure_log_line, stream_log_line, BackendEvent, EventOutcome, ManagedBackend,
    ProcessExit,
};

fn backend(args: Option<Vec<&str>>, port: u16, health: &str, api_key: Option<&str>) -> ManagedBackend {
    ManagedBackend::new(
        "bk_1".to_string(),
        "Local".to_string(),
        BackendKind::OpenAICompatible,
        "run-server --fast".to_string(),
        args.map(|a| a.into_iter().map(|s| s.to_string()).collect()),
        Some("/srv".to_string()),
        "127.0.0.1".to_string(),
        port,
        health.to_string(),
        api_key.map(|k| k.to_string()),
        Some(JsonValue::Object(vec![
            ("MODE".to_string(), JsonValue::Str("fast".to_string())),
            ("LIMIT".to_string(), JsonValue::Number(serde_json::Number::from(3))),
            ("NAME".to_string(), JsonValue::Str("x".to_string())),
        ])),
        false,
        5000,
    )
}

#[test]
fn new_backend_is_stopped() {
    let b = backend(None, 0, "", None);
    assert_eq!(b.status(), BackendStatus::Stopped);
    assert_eq!(b.pid(), None);
    assert_eq!(b.last_error(), None);
    assert!(b.logs().is_empty());
    assert!(!b.is_running());
    assert_eq!(b.config().name, "Local");
}

#[test]
fn start_without_probe_runs_at_once() {
    let mut b = backend(None, 0, "/health", None);
    assert_eq!(b.begin_start(), Ok(()));
    assert_eq!(b.status(), BackendStatus::Starting);
    b.record_spawn(Some(4242), true);
    assert!(b.is_running());
    assert!(b.finish_start().is_none());
    assert_eq!(b.status(), BackendStatus::Running);
    assert_eq!(
        b.logs(),
        vec!["Starting backend Local...", "Backend Local started (pid: Some(4242))"]
    );
}

#[test]
fn start_is_refused_while_active() {
    let mut b = backend(None, 0, "", None);
    b.begin_start().unwrap();
    assert_eq!(b.begin_start(), Err("Backend Local is already starting".to_string()));
    b.record_spawn(None, true);
    b.finish_start();
    assert_eq!(b.begin_start(), Err("Backend Local is already running".to_string()));
    assert_eq!(b.logs().len(), 2);
}

#[test]
fn start_with_probe_waits_for_health() {
    let mut b = backend(None, 8080, "/health", None);
    b.begin_start().unwrap();
    b.record_spawn(None, true);
    let probe = b.finish_start().expect("a probe");
    assert_eq!(probe.url, "http://127.0.0.1:8080/health");
    assert_eq!(probe.timeout_ms, 5000);
    assert_eq!(b.status(), BackendStatus::Starting);
    assert_eq!(b.logs()[1], "Backend Local started (pid: None)");
    assert!(b.keeps_probing());
    b.finish_health_wait(false);
    assert_eq!(b.status(), BackendStatus::Error);
    assert_eq!(b.last_error(), Some("Health check failed or timeout".to_string()));
    b.finish_health_wait(true);
    assert_eq!(b.status(), BackendStatus::Running);
}

#[test]
fn blank_health_path_means_no_probe() {
    let mut b = backend(None, 8080, "   ", None);
    b.begin_start().unwrap();
    assert!(b.finish_start().is_none());
    assert_eq!(b.status(), BackendStatus::Running);
}

#[test]
fn stop_settles_the_backend() {
    let mut b = backend(None, 0, "", None);
    b.begin_start().unwrap();
    b.record_spawn(Some(7), true);
    b.finish_start();
    assert!(b.begin_stop());
    assert_eq!(b.status(), BackendStatus::Stopping);
    assert!(!b.is_running());
    assert_eq!(b.finish_stop(Some("no such process".to_string())), Ok(()));
    assert_eq!(b.status(), BackendStatus::Stopped);
    assert_eq!(b.pid(), None);
    let logs = b.logs();
    assert_eq!(
        logs[2..].to_vec(),
        vec!["Stopping backend Local...", "Error killing process: no such process", "Backend Local stopped"]
    );
    assert!(!b.begin_stop());
    assert_eq!(b.finish_stop(None), Ok(()));
    assert_eq!(b.begin_start(), Ok(()));
}

#[test]
fn process_exit_is_recorded() {
    let mut b = backend(None, 0, "", None);
    b.begin_start().unwrap();
    b.record_spawn(Some(9), true);
    b.finish_start();
    assert!(b.watch_continues());
    b.record_exit(ProcessExit::Exited { success: false, description: "exit status: 1".to_string() });
    assert_eq!(b.status(), BackendStatus::Error);
    assert_eq!(b.pid(), None);
    assert!(!b.watch_continues());
    assert_eq!(b.last_error(), Some("Process exited: exit status: 1".to_string()));
    assert_eq!(b.logs().last().unwrap(), "Process exited with error: exit status: 1");

    let mut c = backend(None, 0, "", None);
    c.begin_start().unwrap();
    c.record_spawn(Some(9), true);
    c.record_exit(ProcessExit::Exited { success: true, description: "exit status: 0".to_string() });
    assert_eq!(c.status(), BackendStatus::Stopped);
    assert_eq!(c.last_error(), None);
    assert_eq!(c.logs().last().unwrap(), "Process exited: exit status: 0");

    let mut d = backend(None, 0, "", None);
    d.record_spawn(Some(9), true);
    d.record_exit(ProcessExit::WatchFailed { description: "gone".to_string() });
    assert_eq!(d.status(), BackendStatus::Error);
    assert_eq!(d.last_error(), Some("Failed to watch process: gone".to_string()));
}

#[test]
fn health_results_update_status() {
    let mut b = backend(None, 0, "", None);
    b.set_health_result(false, Some("Health check failed: refused".to_string()));
    assert_eq!(b.status(), BackendStatus::Error);
    assert_eq!(b.last_error(), Some("Health check failed: refused".to_string()));
    b.set_health_result(true, None);
    assert_eq!(b.status(), BackendStatus::Error);
    assert_eq!(b.last_error(), None);
    b.record_spawn(Some(3), true);
    b.set_health_result(true, None);
    assert_eq!(b.status(), BackendStatus::Running);
    b.set_health_result(false, Some("bad".to_string()));
    assert_eq!(b.status(), BackendStatus::Running);
    assert_eq!(b.last_error(), Some("bad".to_string()));
}

#[test]
fn input_needs_a_running_process() {
    let mut b = backend(None, 0, "", None);
    assert_eq!(b.prepare_input("hi", false), Err("Backend Local is not running".to_string()));
    b.record_spawn(Some(1), false);
    assert_eq!(
        b.prepare_input("hi", false),
        Err("Backend Local does not accept input".to_string())
    );
    b.record_spawn(Some(1), true);
    assert_eq!(b.prepare_input("hi", false), Ok(Some("\n")));
    assert_eq!(b.prepare_input("hi", true), Ok(Some("\r\n")));
    assert_eq!(b.prepare_input("hi\n", false), Ok(None));
    assert_eq!(b.prepare_input("hi\r", true), Ok(None));
    assert_eq!(b.prepare_input("", false), Ok(Some("\n")));
    b.record_input("hello  \n");
    assert_eq!(b.logs(), vec!["[in] hello"]);
}

#[test]
fn launch_through_shell_without_arguments() {
    let b = backend(Some(vec![]), 0, "", None);
    let plan = b.launch_plan(false);
    assert_eq!(plan.program, "sh");
    assert_eq!(plan.args, vec!["-lc", "run-server --fast"]);
    assert!(!plan.hide_window);
    let plan = b.launch_plan(true);
    assert_eq!(plan.program, "cmd");
    assert_eq!(plan.args, vec!["/C", "run-server --fast"]);
    assert!(plan.hide_window);
    assert_eq!(plan.working_dir, Some("/srv".to_string()));
    assert!(plan.piped_stdio);
    assert!(plan.kill_on_drop);
}

#[test]
fn launch_directly_with_arguments() {
    let b = backend(Some(vec!["--port", "9000"]), 9000, "", Some("sk-1"));
    let plan = b.launch_plan(false);
    assert_eq!(plan.program, "run-server --fast");
    assert_eq!(plan.args, vec!["--port", "9000"]);
    let env: Vec<(String, String)> = plan.env;
    let expected: Vec<(String, String)> = vec![
        ("MODE", "fast"),
        ("NAME", "x"),
        ("PORT", "9000"),
        ("HOST", "127.0.0.1"),
        ("API_KEY", "sk-1"),
        ("OPENAI_API_KEY", "sk-1"),
        ("ANTHROPIC_API_KEY", "sk-1"),
    ]
    .into_iter()
    .map(|(a, b)| (a.to_string(), b.to_string()))
    .collect();
    assert_eq!(env, expected);
}

#[test]
fn launch_env_skips_unset_values() {
    let b = backend(None, 0, "", Some(""));
    let plan = b.launch_plan(false);
    let names: Vec<String> = plan.env.into_iter().map(|(n, _)| n).collect();
    assert_eq!(names, vec!["MODE", "NAME", "HOST"]);
}

#[test]
fn events_drive_the_same_steps() {
    let mut b = backend(None, 0, "", None);
    match b.handle_event(BackendEvent::BeginStart) {
        EventOutcome::Started(Ok(())) => {}
        _ => panic!("start refused"),
    }
    b.handle_event(BackendEvent::Spawned { pid: Some(5), accepts_input: true });
    match b.handle_event(BackendEvent::FinishStart) {
        EventOutcome::Probe(None) => {}
        _ => panic!("unexpected probe"),
    }
    assert_eq!(b.status(), BackendStatus::Running);
    match b.handle_event(BackendEvent::BeginStop) {
        EventOutcome::HadChild(true) => {}
        _ => panic!("no child"),
    }
    match b.handle_event(BackendEvent::FinishStop { kill_error: None }) {
        EventOutcome::Stopped(Ok(())) => {}
        _ => panic!("stop failed"),
    }
    assert_eq!(b.status(), BackendStatus::Stopped);
}

#[test]
fn stream_chunks_become_log_lines() {
    assert_eq!(stream_log_line("[out]", b"ready\r\nport 80\r"), Some("[out] ready\nport 80\n".to_string()));
    assert_eq!(stream_log_line("[err]", b""), None);
    assert_eq!(stream_log_line("[out]", b"\r"), Some("[out] \n".to_string()));
    assert_eq!(stream_log_line("[out]", b"\r\n"), Some("[out] \n".to_string()));
    assert_eq!(stream_log_line("[err]", b"\xff"), Some("[err] \u{fffd}".to_string()));
    assert_eq!(stream_failure_log_line("[out]", "broken pipe"), "[out] Failed to read stream: broken pipe");
}

#[test]
fn failed_spawn_message() {
    let b = backend(None, 0, "", None);
    assert_eq!(b.spawn_failure("not found"), "Failed to spawn process: not found");
}
