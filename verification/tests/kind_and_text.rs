use backend_manager::kind::{BackendKind, BackendStatus};
use backend_manager::runtime::normalize_line_breaks;
use backend_manager::text::{decimal_string, is_blank, str_eq, trim, trim_end};

#[test]
fn kind_names_round_trip() {
    for k in [BackendKind::Custom, BackendKind::OpenAICompatible, BackendKind::Anthropic] {
        assert_eq!(BackendKind::from_str(k.as_str()), Ok(k));
    }
    assert_eq!(BackendKind::Custom.as_str(), "custom");
    assert_eq!(BackendKind::OpenAICompatible.as_str(), "openai_compatible");
    assert_eq!(BackendKind::Anthropic.as_str(), "anthropic");
}

#[test]
fn unknown_kind_is_refused() {
    assert_eq!(
        BackendKind::from_str("ollama"),
        Err("Unknown backend kind: ollama".to_string())
    );
    assert_eq!(BackendKind::from_str("Custom"), Err("Unknown backend kind: Custom".to_string()));
    assert_eq!(BackendKind::from_str(""), Err("Unknown backend kind: ".to_string()));
}

#[test]
fn status_names_round_trip() {
    for st in [
        BackendStatus::Stopped,
        BackendStatus::Starting,
        BackendStatus::Running,
        BackendStatus::Stopping,
        BackendStatus::Error,
    ] {
        assert_eq!(BackendStatus::from_str(st.as_str()), st);
    }
    assert_eq!(BackendStatus::Stopping.as_str(), "stopping");
    assert_eq!(BackendStatus::Error.as_str(), "error");
}

#[test]
fn unknown_status_reads_as_stopped() {
    assert_eq!(BackendStatus::from_str("crashed"), BackendStatus::Stopped);
    assert_eq!(BackendStatus::from_str("RUNNING"), BackendStatus::Stopped);
}

#[test]
fn trim_removes_unicode_whitespace() {
    assert_eq!(trim("  a b \n\t"), "a b");
    assert_eq!(trim("\u{3000}x\u{a0}"), "x");
    assert_eq!(trim("   "), "");
    assert_eq!(trim_end("  a \r\n"), "  a");
    assert!(is_blank(" \t\n\u{2028}"));
    assert!(!is_blank(" . "));
    assert!(is_blank(""));
}

#[test]
fn decimal_text_of_numbers() {
    assert_eq!(decimal_string(0), "0");
    assert_eq!(decimal_string(7), "7");
    assert_eq!(decimal_string(8080), "8080");
    assert_eq!(decimal_string(u64::MAX), u64::MAX.to_string());
}

#[test]
fn string_equality() {
    assert!(str_eq("héllo", "héllo"));
    assert!(!str_eq("hello", "hell"));
    assert!(!str_eq("a", "b"));
}

#[test]
fn line_breaks_are_normalized() {
    assert_eq!(normalize_line_breaks("a\r\nb\rc\n"), "a\nb\nc\n");
    assert_eq!(normalize_line_breaks("\r\r\n"), "\n\n");
}
