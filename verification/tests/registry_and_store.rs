use backend_manager::json::JsonValue;
use backend_manager::kind::{BackendKind, BackendStatus};
use backend_manager::registry::{backend_from_row, BackendRegistry};
use backend_manager::runtime::{BackendEvent, EventOutcome};
use backend_manager::store::{delete_statement, insert_values, new_backend_id, update_statement, ManagedBackend};

fn row(id: &str, kind: &str, args: Option<&str>) -> ManagedBackend {
    ManagedBackend {
        id: id.to_string(),
        name: "Local".to_string(),
        kind: kind.to_string(),
        enabled: true,
        managed: true,
        start_command: "serve".to_string(),
        start_args: args.map(|a| a.to_string()),
        working_dir: None,
        host: "127.0.0.1".to_string(),
        port: 8000,
        health_path: "/health".to_string(),
        api_key: Some("k".to_string()),
        env_json: Some("{}".to_string()),
        auto_restart: false,
        startup_timeout_ms: 10000,
        status: "stopped".to_string(),
        pid: None,
        last_error: None,
        created_at: 1,
        updated_at: 2,
    }
}

#[test]
fn row_becomes_runtime_record() {
    let b = backend_from_row(&row("bk_a", "anthropic", Some("[\"-v\",\"--x\"]"))).unwrap();
    assert_eq!(b.config().kind, BackendKind::Anthropic);
    assert_eq!(b.config().start_args, Some(vec!["-v".to_string(), "--x".to_string()]));
    assert_eq!(b.config().port, 8000);
    assert_eq!(b.status(), BackendStatus::Stopped);
    let c = backend_from_row(&row("bk_a", "custom", Some("not json"))).unwrap();
    assert_eq!(c.config().start_args, None);
    assert!(backend_from_row(&row("bk_a", "custom", Some("[1,2]"))).unwrap().config().start_args.is_none());
}

#[test]
fn row_with_unknown_kind_is_refused() {
    match backend_from_row(&row("bk_a", "local", None)) {
        Err(e) => assert_eq!(e, "Unknown backend kind: local"),
        Ok(_) => panic!("accepted"),
    }
}

#[test]
fn registry_keeps_one_backend_per_id() {
    let mut reg = BackendRegistry::new();
    assert!(!reg.contains("bk_a"));
    assert_eq!(reg.runtime_state("bk_a"), None);
    let s1 = reg.register("bk_a", &row("bk_a", "custom", None)).unwrap();
    let s2 = reg.register("bk_a", &row("bk_a", "anthropic", None)).unwrap();
    assert_eq!(s1, s2);
    assert_eq!(reg.get("bk_a").unwrap().config().kind, BackendKind::Custom);
    assert_eq!(reg.serial("bk_a"), Some(s1));
    assert_eq!(reg.runtime_state("bk_a"), Some((BackendStatus::Stopped, None, None)));
    reg.register("bk_b", &row("bk_b", "custom", None)).unwrap();
    let mut ids = reg.ids();
    ids.sort();
    assert_eq!(ids, vec!["bk_a", "bk_b"]);
    reg.forget("bk_a");
    assert!(!reg.contains("bk_a"));
    assert!(reg.contains("bk_b"));
    reg.forget("bk_a");
    assert_eq!(reg.ids(), vec!["bk_b"]);
}

#[test]
fn registry_refuses_unknown_kind() {
    let mut reg = BackendRegistry::new();
    assert_eq!(
        reg.register("bk_a", &row("bk_a", "weird", None)),
        Err("Unknown backend kind: weird".to_string())
    );
    assert!(!reg.contains("bk_a"));
}

#[test]
fn events_reach_only_the_current_backend() {
    let mut reg = BackendRegistry::new();
    let old = reg.register("bk_a", &row("bk_a", "custom", None)).unwrap();
    match reg.apply("bk_a", old, BackendEvent::BeginStart) {
        Some(EventOutcome::Started(Ok(()))) => {}
        _ => panic!("start not applied"),
    }
    assert_eq!(reg.runtime_state("bk_a").unwrap().0, BackendStatus::Starting);
    reg.forget("bk_a");
    assert!(reg.apply("bk_a", old, BackendEvent::FinishStart).is_none());
    let new = reg.register("bk_a", &row("bk_a", "custom", None)).unwrap();
    assert_ne!(old, new);
    assert!(reg.apply("bk_a", old, BackendEvent::HealthResult { ok: false, message: Some("x".to_string()) }).is_none());
    assert_eq!(reg.runtime_state("bk_a"), Some((BackendStatus::Stopped, None, None)));
    reg.apply("bk_a", new, BackendEvent::HealthResult { ok: false, message: Some("x".to_string()) });
    assert_eq!(
        reg.runtime_state("bk_a"),
        Some((BackendStatus::Error, None, Some("x".to_string())))
    );
    reg.apply("bk_a", new, BackendEvent::Log { line: "hello".to_string() });
    assert_eq!(reg.get("bk_a").unwrap().logs(), vec!["hello"]);
}

#[test]
fn registry_keeps_environment() {
    let mut reg = BackendRegistry::new();
    let mut r = row("bk_a", "custom", None);
    r.env_json = Some("{\"A\":\"1\",\"B\":false}".to_string());
    reg.register("bk_a", &r).unwrap();
    let plan = reg.get("bk_a").unwrap().launch_plan(false);
    assert_eq!(plan.env[0], ("A".to_string(), "1".to_string()));
}

#[test]
fn backend_ids_have_their_shape() {
    let a = new_backend_id();
    let b = new_backend_id();
    assert_eq!(a.len(), 35);
    assert!(a.starts_with("bk_"));
    assert!(a[3..].chars().all(|c| c.is_ascii_hexdigit() && !c.is_ascii_uppercase()));
    assert_eq!(&a[15..16], "4");
    assert!(matches!(&a[19..20], "8" | "9" | "a" | "b"));
    assert_ne!(a, b);
}

#[test]
fn insert_values_encode_arguments() {
    let args = vec!["--port".to_string(), "8000".to_string()];
    let env = JsonValue::Object(vec![("A".to_string(), JsonValue::Str("1".to_string()))]);
    let v = insert_values(
        "Local", "custom", "serve", Some(&args), Some("/srv"), "0.0.0.0", 8000, "/h",
        None, Some(&env), true, 2500,
    );
    assert_eq!(v.start_args, Some("[\"--port\",\"8000\"]".to_string()));
    assert_eq!(v.env_json, Some("{\"A\":\"1\"}".to_string()));
    assert_eq!(v.working_dir, Some("/srv".to_string()));
    assert_eq!(v.host, "0.0.0.0");
    assert!(v.id.starts_with("bk_"));
    assert!(v.auto_restart);
    assert_eq!(v.startup_timeout_ms, 2500);
    assert_eq!(v.api_key, None);
}

#[test]
fn update_statement_lists_given_fields() {
    let st = update_statement(
        "bk_1",
        Some("New"),
        None,
        None,
        None,
        None,
        Some(8080),
        None,
        Some("key"),
        None,
        Some(false),
        Some(1500),
        Some(true),
    );
    assert_eq!(
        st.sql,
        "UPDATE managed_backends SET name=?,port=?,api_key=?,auto_restart=?,startup_timeout_ms=?,enabled=?,updated_at=strftime('%s','now') WHERE id=?"
    );
    assert_eq!(st.params, vec!["New", "8080", "key", "false", "1500", "true", "bk_1"]);
    assert_eq!(st.sql.matches('?').count(), st.params.len());
}

#[test]
fn update_statement_with_no_fields_only_stamps_time() {
    let args = vec!["a".to_string()];
    let st = update_statement("bk_2", None, None, None, None, None, None, None, None, None, None, None, None);
    assert_eq!(
        st.sql,
        "UPDATE managed_backends SET updated_at=strftime('%s','now') WHERE id=?"
    );
    assert_eq!(st.params, vec!["bk_2"]);
    let empty = JsonValue::Object(vec![]);
    let st = update_statement("bk_2", None, None, Some(&args), None, None, None, None, None, Some(&empty), None, None, None);
    assert_eq!(st.params, vec!["[\"a\"]", "{}", "bk_2"]);
}

#[test]
fn stored_arguments_read_back() {
    let args = vec!["-m".to_string(), "x \"y\"".to_string(), "é".to_string()];
    let v = insert_values("n", "custom", "serve", Some(&args), None, "h", 1, "", None, None, false, 1);
    let b = backend_from_row(&row("bk_a", "custom", v.start_args.as_deref())).unwrap();
    assert_eq!(b.config().start_args, Some(args));
}

#[test]
fn delete_statement_names_the_backend() {
    let d = delete_statement("bk_9");
    assert_eq!(d.sql, "DELETE FROM managed_backends WHERE id=?");
    assert_eq!(d.params, vec!["bk_9"]);
}
