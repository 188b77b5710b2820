use backend_manager::commands::models_result;
use backend_manager::json::{extract_model_ids, get, JsonValue};
use backend_manager::logs::{LogBuffer, MAX_LOG_LINES};

fn s(x: &str) -> JsonValue {
    JsonValue::Str(x.to_string())
}

fn obj(entries: Vec<(&str, JsonValue)>) -> JsonValue {
    JsonValue::Object(entries.into_iter().map(|(k, v)| (k.to_string(), v)).collect())
}

#[test]
fn model_ids_from_data_array_are_sorted_and_unique() {
    let doc = obj(vec![(
        "data",
        JsonValue::Array(vec![
            obj(vec![("id", s("llama-b"))]),
            obj(vec![("id", s("llama-a"))]),
            s("mistral"),
            obj(vec![("id", s("llama-a"))]),
            obj(vec![("object", s("model"))]),
            obj(vec![("id", JsonValue::Number(serde_json::Number::from(3)))]),
            JsonValue::Null,
        ]),
    )]);
    assert_eq!(extract_model_ids(&doc), vec!["llama-a", "llama-b", "mistral"]);
}

#[test]
fn model_ids_from_top_level_array() {
    let doc = JsonValue::Array(vec![s("b"), s("a"), s("b"), obj(vec![("id", s("c"))])]);
    assert_eq!(extract_model_ids(&doc), vec!["a", "b", "c"]);
}

#[test]
fn model_ids_of_other_documents_are_empty() {
    assert!(extract_model_ids(&obj(vec![("data", s("x"))])).is_empty());
    assert!(extract_model_ids(&obj(vec![("models", JsonValue::Array(vec![s("a")]))])).is_empty());
    assert!(extract_model_ids(&JsonValue::Bool(true)).is_empty());
    assert!(extract_model_ids(&s("model")).is_empty());
}

#[test]
fn model_ids_order_by_code_point() {
    let doc = JsonValue::Array(vec![s("b"), s("B"), s("é"), s("a"), s("ab"), s("")]);
    assert_eq!(extract_model_ids(&doc), vec!["", "B", "a", "ab", "b", "é"]);
}

#[test]
fn models_result_keeps_url() {
    let doc = JsonValue::Array(vec![s("m2"), s("m1")]);
    let r = models_result("http://h:1/v1/models".to_string(), &doc);
    assert_eq!(r.url, "http://h:1/v1/models");
    assert_eq!(r.models, vec!["m1", "m2"]);
}

#[test]
fn member_lookup_takes_first_match() {
    let doc = obj(vec![("id", s("first")), ("id", s("second"))]);
    match get(&doc, "id") {
        Some(JsonValue::Str(v)) => assert_eq!(v, "first"),
        _ => panic!("member missing"),
    }
    assert!(get(&doc, "other").is_none());
    assert!(get(&JsonValue::Array(vec![]), "id").is_none());
}

#[test]
fn log_keeps_most_recent_lines() {
    let mut log = LogBuffer::new();
    for i in 0..(MAX_LOG_LINES + 5) {
        log.push(format!("line {i}"));
    }
    let lines = log.lines();
    assert_eq!(lines.len(), MAX_LOG_LINES);
    assert_eq!(log.len(), MAX_LOG_LINES);
    assert_eq!(lines[0], "line 5");
    assert_eq!(lines[MAX_LOG_LINES - 1], format!("line {}", MAX_LOG_LINES + 4));
}

#[test]
fn short_log_keeps_everything() {
    let mut log = LogBuffer::new();
    log.push("a".to_string());
    log.push("b".to_string());
    assert_eq!(log.lines(), vec!["a", "b"]);
}
