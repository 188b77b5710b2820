use backend_manager::commands::{
    backend_health_url, bearer_token, check_env_dir, clean_optional_string, create_values,
    display_cut_is_clean, env_file_dir, env_file_location, from_row, models_from_body, from_row_with_runtime, health_check_message,
    health_request_failure, is_success, models_failure_message, models_url, trim_for_display,
    update_values, CreateBackendRequest, UpdateBackendRequest,
};
use backend_manager::commands::{
    health_answered, health_result, health_unanswered, models_read_failure,
    models_request_failure, models_response, resets_before_update,
};
use backend_manager::commands::{env_file_from_read, env_write_failure, infos_with_runtime, EnvFileRead};
use backend_manager::json::JsonValue;
use backend_manager::kind::BackendStatus;
use backend_manager::store::ManagedBackend;

fn row(port: u16, health: &str) -> ManagedBackend {
    ManagedBackend {
        id: "bk_1".to_string(),
        name: "Local".to_string(),
        kind: "custom".to_string(),
        enabled: true,
        managed: false,
        start_command: "serve".to_string(),
        start_args: Some("[\"-a\"]".to_string()),
        working_dir: Some("/srv".to_string()),
        host: "localhost".to_string(),
        port,
        health_path: health.to_string(),
        api_key: None,
        env_json: None,
        auto_restart: true,
        startup_timeout_ms: 3000,
        status: "running".to_string(),
        pid: Some(12),
        last_error: Some("old failure".to_string()),
        created_at: 10,
        updated_at: 20,
    }
}

fn create_request(kind: &str) -> CreateBackendRequest {
    CreateBackendRequest {
        name: "Local".to_string(),
        kind: kind.to_string(),
        start_command: "serve".to_string(),
        start_args: None,
        working_dir: None,
        host: None,
        port: None,
        health_path: None,
        api_key: Some("  sk-9  ".to_string()),
        env_json: None,
        auto_restart: None,
        startup_timeout_ms: None,
    }
}

#[test]
fn health_url_needs_a_port() {
    assert_eq!(
        backend_health_url(&row(0, "/health")),
        Err("Port is required to run a health check".to_string())
    );
}

#[test]
fn health_url_paths() {
    assert_eq!(backend_health_url(&row(8000, "/health")), Ok("http://localhost:8000/health".to_string()));
    assert_eq!(backend_health_url(&row(8000, "health")), Ok("http://localhost:8000/health".to_string()));
    assert_eq!(backend_health_url(&row(8000, "")), Ok("http://localhost:8000/".to_string()));
    assert_eq!(backend_health_url(&row(8000, "  \t")), Ok("http://localhost:8000/".to_string()));
    assert_eq!(backend_health_url(&row(1, " x")), Ok("http://localhost:1/ x".to_string()));
}

#[test]
fn models_url_needs_a_port() {
    assert_eq!(models_url(&row(0, "")), Err("Port is required to list models".to_string()));
    assert_eq!(models_url(&row(11434, "")), Ok("http://localhost:11434/v1/models".to_string()));
}

#[test]
fn optional_strings_are_cleaned() {
    assert_eq!(clean_optional_string(Some("  key ")), Some("key".to_string()));
    assert_eq!(clean_optional_string(Some("   ")), None);
    assert_eq!(clean_optional_string(Some("")), None);
    assert_eq!(clean_optional_string(None), None);
}

#[test]
fn display_text_is_trimmed_and_cut() {
    assert_eq!(trim_for_display("  short  ", 10), "short");
    assert_eq!(trim_for_display("abcdefghij", 10), "abcdefghij");
    assert_eq!(trim_for_display(" abcdefghijk ", 10), "abcdefghij...");
    assert_eq!(trim_for_display("ééé", 4), "éé...");
    assert!(display_cut_is_clean("ééé", 4));
    assert!(!display_cut_is_clean("ééé", 3));
    assert!(display_cut_is_clean("ééé", 6));
}

#[test]
fn health_check_messages() {
    assert!(is_success(200));
    assert!(is_success(299));
    assert!(!is_success(300));
    assert!(!is_success(199));
    assert_eq!(health_check_message(200, "200 OK", ""), (true, "Health check OK (200 OK)".to_string()));
    assert_eq!(
        health_check_message(503, "503 Service Unavailable", "  \n"),
        (false, "Health check failed (503 Service Unavailable)".to_string())
    );
    assert_eq!(
        health_check_message(500, "500 Internal Server Error", " boom "),
        (false, "Health check failed (500 Internal Server Error): boom".to_string())
    );
    let long = "x".repeat(300);
    let (_, m) = health_check_message(404, "404 Not Found", &long);
    assert_eq!(m, format!("Health check failed (404 Not Found): {}...", "x".repeat(240)));
    assert_eq!(health_request_failure("connection refused"), "Health check failed: connection refused");
    assert_eq!(
        models_failure_message("401 Unauthorized", "denied"),
        "Models request failed (401 Unauthorized): denied"
    );
}

#[test]
fn bearer_token_only_for_keys() {
    assert_eq!(bearer_token(&Some("k".to_string())), Some("k".to_string()));
    assert_eq!(bearer_token(&Some(String::new())), None);
    assert_eq!(bearer_token(&None), None);
}

#[test]
fn info_without_runtime_is_stopped() {
    let info = from_row(row(8000, "/h"));
    assert!(info.env_json.is_none());
    assert_eq!(info.status, "stopped");
    assert_eq!(info.pid, None);
    assert_eq!(info.last_error, Some("old failure".to_string()));
    assert_eq!(info.start_args, Some(vec!["-a".to_string()]));
    assert_eq!(info.created_at, 10);
    assert_eq!(info.updated_at, 20);
    assert!(info.auto_restart);
    assert!(!info.managed);
}

#[test]
fn info_with_runtime_shows_it() {
    let mut r = row(8000, "/h");
    r.env_json = Some("{\"A\": \"1\", \"N\": 2}".to_string());
    let info = from_row_with_runtime(r, Some((BackendStatus::Running, Some(77), None)));
    assert_eq!(info.status, "running");
    assert_eq!(info.pid, Some(77));
    assert_eq!(info.last_error, None);
    match info.env_json {
        Some(JsonValue::Object(entries)) => {
            assert_eq!(entries.len(), 2);
            assert_eq!(entries[0].0, "A");
            assert!(matches!(&entries[0].1, JsonValue::Str(v) if v == "1"));
            assert!(matches!(&entries[1].1, JsonValue::Number(n) if n.as_u64() == Some(2)));
        }
        _ => panic!("environment not read"),
    }
    let mut bad = row(8000, "/h");
    bad.env_json = Some("{not json".to_string());
    assert!(from_row(bad).env_json.is_none());
}

#[test]
fn create_applies_defaults() {
    let v = create_values(&create_request("openai_compatible")).unwrap();
    assert_eq!(v.kind, "openai_compatible");
    assert_eq!(v.host, "127.0.0.1");
    assert_eq!(v.port, 0);
    assert_eq!(v.health_path, "");
    assert_eq!(v.api_key, Some("sk-9".to_string()));
    assert!(!v.auto_restart);
    assert_eq!(v.startup_timeout_ms, 10000);
    assert!(v.id.starts_with("bk_"));
}

#[test]
fn create_refuses_unknown_kind() {
    match create_values(&create_request("bogus")) {
        Err(e) => assert_eq!(e, "Invalid backend kind: Unknown backend kind: bogus"),
        Ok(_) => panic!("accepted"),
    }
}

#[test]
fn update_request_statement() {
    let req = UpdateBackendRequest {
        name: None,
        start_command: Some("run".to_string()),
        start_args: None,
        working_dir: Some("/w".to_string()),
        host: None,
        port: None,
        health_path: None,
        api_key: Some(" k ".to_string()),
        env_json: None,
        auto_restart: Some(true),
        startup_timeout_ms: None,
        enabled: None,
    };
    let st = update_values("bk_9", &req);
    assert_eq!(
        st.sql,
        "UPDATE managed_backends SET start_command=?,working_dir=?,api_key=?,auto_restart=?,updated_at=strftime('%s','now') WHERE id=?"
    );
    assert_eq!(st.params, vec!["run", "/w", " k ", "true", "bk_9"]);
}

#[test]
fn env_file_directory_checks() {
    assert_eq!(env_file_dir("  /srv/app \n"), Ok("/srv/app".to_string()));
    assert_eq!(env_file_dir("  "), Err("Working directory is required".to_string()));
    assert_eq!(check_env_dir("/srv/app", true, true), Ok(()));
    assert_eq!(
        check_env_dir("/srv/app", false, false),
        Err("Working directory does not exist: /srv/app".to_string())
    );
    assert_eq!(
        check_env_dir("/srv/app", true, false),
        Err("Working directory is not a folder: /srv/app".to_string())
    );
}

#[test]
fn models_are_read_from_the_body() {
    let r = models_from_body(
        "http://h:1/v1/models".to_string(),
        "{\"data\":[{\"id\":\"b\"},{\"id\":\"a\"},\"b\"]}",
    )
    .unwrap();
    assert_eq!(r.url, "http://h:1/v1/models");
    assert_eq!(r.models, vec!["a", "b"]);
    match models_from_body("u".to_string(), "not json") {
        Err(e) => assert!(e.starts_with("Invalid models JSON: "), "{e}"),
        Ok(_) => panic!("accepted"),
    }
    assert!(models_from_body("u".to_string(), "{}").unwrap().models.is_empty());
}

#[test]
fn env_file_is_joined_to_the_directory() {
    let sep = std::path::MAIN_SEPARATOR;
    assert_eq!(env_file_location("/srv/app"), format!("/srv/app{sep}.env"));
    assert_eq!(env_file_location("/srv/app/"), "/srv/app/.env");
}

#[test]
fn create_writes_environment_as_json() {
    let mut req = create_request("custom");
    req.env_json = Some(JsonValue::Object(vec![("K".to_string(), JsonValue::Str("v".to_string()))]));
    req.start_args = Some(vec!["a b".to_string()]);
    let v = create_values(&req).unwrap();
    assert_eq!(v.env_json, Some("{\"K\":\"v\"}".to_string()));
    assert_eq!(v.start_args, Some("[\"a b\"]".to_string()));
}

#[test]
fn health_outcomes_say_what_is_recorded() {
    let ok = health_answered(200, "200 OK", "");
    assert!(ok.ok);
    assert_eq!(ok.status, Some(200));
    assert_eq!(ok.message, "Health check OK (200 OK)");
    assert_eq!(ok.recorded_error(), None);

    let bad = health_answered(503, "503 Service Unavailable", "  down  ");
    assert!(!bad.ok);
    assert_eq!(bad.message, "Health check failed (503 Service Unavailable): down");
    assert_eq!(bad.recorded_error(), Some(bad.message.clone()));

    let lost = health_unanswered("connection refused");
    assert!(!lost.ok);
    assert_eq!(lost.status, None);
    assert_eq!(lost.message, "Health check failed: connection refused");
    assert_eq!(lost.recorded_error(), Some("Health check failed: connection refused".to_string()));
}

#[test]
fn health_result_carries_the_outcome() {
    let outcome = health_answered(500, "500 Internal Server Error", "");
    let r = health_result(outcome, "http://localhost:8/h".to_string(), 17, from_row(row(8, "/h")));
    assert!(!r.ok);
    assert_eq!(r.url, "http://localhost:8/h");
    assert_eq!(r.status, Some(500));
    assert_eq!(r.latency_ms, 17);
    assert_eq!(r.message, "Health check failed (500 Internal Server Error)");
    assert_eq!(r.backend.id, "bk_1");
}

#[test]
fn model_listing_failures_are_worded() {
    assert_eq!(models_request_failure("timed out"), "Failed to list models: timed out");
    assert_eq!(models_read_failure("eof"), "Failed to read models response: eof");
    match models_response("u".to_string(), 404, "404 Not Found", " nope ") {
        Err(e) => assert_eq!(e, "Models request failed (404 Not Found): nope"),
        Ok(_) => panic!("failure status accepted"),
    }
    match models_response("u".to_string(), 200, "200 OK", "{\"data\":[{\"id\":\"m\"}]}") {
        Ok(listed) => assert_eq!(listed.models, vec!["m"]),
        Err(e) => panic!("{e}"),
    }
    match models_response("u".to_string(), 200, "200 OK", "[") {
        Err(e) => assert!(e.starts_with("Invalid models JSON: "), "{e}"),
        Ok(_) => panic!("not JSON accepted"),
    }
}

#[test]
fn update_resets_only_known_backends() {
    assert!(!resets_before_update(&None));
    assert!(resets_before_update(&Some((BackendStatus::Stopped, None, None))));
}

#[test]
fn env_file_reads_are_reported() {
    let f = env_file_from_read("/w/.env".to_string(), EnvFileRead::Read("A=1\n".to_string())).unwrap();
    assert_eq!((f.path.as_str(), f.exists, f.content.as_str()), ("/w/.env", true, "A=1\n"));
    let f = env_file_from_read("/w/.env".to_string(), EnvFileRead::Missing).unwrap();
    assert_eq!((f.path.as_str(), f.exists, f.content.as_str()), ("/w/.env", false, ""));
    match env_file_from_read("/w/.env".to_string(), EnvFileRead::Failed("denied".to_string())) {
        Err(e) => assert_eq!(e, "Failed to read .env: denied"),
        Ok(_) => panic!("failed read accepted"),
    }
    assert_eq!(env_write_failure("disk full"), "Failed to write .env: disk full");
}

#[test]
fn env_file_location_inserts_a_separator() {
    let sep = std::path::MAIN_SEPARATOR;
    assert_eq!(env_file_location("w"), format!("w{sep}.env"));
    assert_ne!(env_file_location("/srv/w"), "/srv/w.env");
}

#[test]
fn listed_backends_keep_their_order_and_state() {
    let mut second = row(9, "/h");
    second.id = "bk_2".to_string();
    let infos = infos_with_runtime(
        vec![row(8, "/h"), second],
        vec![None, Some((BackendStatus::Running, Some(77), None))],
    );
    assert_eq!(infos.len(), 2);
    assert_eq!((infos[0].id.as_str(), infos[0].status.as_str(), infos[0].pid), ("bk_1", "stopped", None));
    assert_eq!((infos[1].id.as_str(), infos[1].status.as_str(), infos[1].pid), ("bk_2", "running", Some(77)));
    assert_eq!(infos[1].last_error, None);
}
