use sentry_breadcrumbs::converter::DataValue;
use sentry_breadcrumbs::jsonline::{line_to_breadcrumb, SentryBreadcrumbWriter, SentryBreadcrumbWriterInner};
use sentry_breadcrumbs::layer as hooks;
use sentry_breadcrumbs::rfc3339::check_rfc3339;
use sentry_breadcrumbs::severity::Level;
use sentry_breadcrumbs::{layer, SentryBreadcrumbLayer};

fn raw_of(v: &DataValue, k: &str) -> Option<String> {
    match v {
        DataValue::RawObject(m) => m.get(k).cloned(),
        _ => None,
    }
}

#[test]
fn info_line_round_trips_to_a_breadcrumb() {
    let line = br#"{"timestamp":"2024-01-01T00:00:00Z","level":"INFO","target":"app","fields":{"message":"hi","x":1}}"#;
    let b = line_to_breadcrumb(line).expect("a well-formed line yields a breadcrumb");
    assert_eq!(b.ty, "log");
    assert_eq!(b.category, Some("app".to_string()));
    assert_eq!(b.level, Level::Info);
    assert_eq!(b.message, Some("hi".to_string()));
    assert_eq!(b.timestamp, "2024-01-01T00:00:00Z");
    let fields = b.data.get("fields").expect("the data payload keeps the other fields");
    assert_eq!(raw_of(fields, "x"), Some("1".to_string()));
    assert_eq!(raw_of(fields, "message"), None);
    assert!(b.data.get("x").is_none());
    assert!(b.data.get("timestamp").is_none());
    assert!(b.data.get("level").is_none());
    assert!(b.data.get("target").is_none());
}

#[test]
fn unknown_level_yields_no_breadcrumb() {
    let line = br#"{"timestamp":"2024-01-01T00:00:00Z","level":"BOGUS","target":"app","fields":{"message":"hi"}}"#;
    assert!(line_to_breadcrumb(line).is_none());
}

#[test]
fn trace_and_warn_spellings_are_outside_the_vocabulary() {
    let trace = br#"{"timestamp":"2024-01-01T00:00:00Z","level":"TRACE","target":"app","fields":{"message":"hi"}}"#;
    assert!(line_to_breadcrumb(trace).is_none());
    let warn = br#"{"timestamp":"2024-01-01T00:00:00Z","level":"WARN","target":"app","fields":{"message":"hi"}}"#;
    assert!(line_to_breadcrumb(warn).is_none());
    let warning = br#"{"timestamp":"2024-01-01T00:00:00Z","level":"warning","target":"app","fields":{"message":"hi"}}"#;
    assert_eq!(line_to_breadcrumb(warning).unwrap().level, Level::Warning);
}

#[test]
fn malformed_lines_are_dropped() {
    assert!(line_to_breadcrumb(b"not json at all").is_none());
    assert!(line_to_breadcrumb(b"[1,2,3]").is_none());
    assert!(line_to_breadcrumb(br#"{"level":"INFO","target":"app","fields":{"message":"hi"}}"#).is_none());
    assert!(line_to_breadcrumb(
        br#"{"timestamp":"2024-13-01T00:00:00Z","level":"INFO","target":"app","fields":{"message":"hi"}}"#
    ).is_none());
    assert!(line_to_breadcrumb(
        br#"{"timestamp":"2024-01-01T00:00:00Z","level":"INFO","target":7,"fields":{"message":"hi"}}"#
    ).is_none());
    assert!(line_to_breadcrumb(
        br#"{"timestamp":"2024-01-01T00:00:00Z","level":"INFO","target":"app","fields":{"x":1}}"#
    ).is_none());
    assert!(line_to_breadcrumb(
        br#"{"timestamp":"2024-01-01T00:00:00Z","level":"INFO","target":"app","fields":{"message":7}}"#
    ).is_none());
    assert!(line_to_breadcrumb(
        br#"{"timestamp":"2024-01-01T00:00:00Z","level":"INFO","target":"app","fields":"hi"}"#
    ).is_none());
}

#[test]
fn extra_top_level_keys_are_kept_verbatim() {
    let line = br#"{"timestamp":"2024-01-01T00:00:00Z","level":"INFO","target":"app","fields":{"message":"hi"},"span":{"name":"a"},"n":3}"#;
    let b = line_to_breadcrumb(line).expect("a well-formed line yields a breadcrumb");
    match b.data.get("span") {
        Some(DataValue::RawJson(s)) => assert_eq!(s, "{\"name\":\"a\"}"),
        _ => panic!("extra top-level key lost"),
    }
    match b.data.get("n") {
        Some(DataValue::RawJson(s)) => assert_eq!(s, "3"),
        _ => panic!("extra top-level key lost"),
    }
}

#[test]
fn writer_buffers_until_the_newline() {
    let writer = SentryBreadcrumbWriter;
    let mut sink: SentryBreadcrumbWriterInner = writer.make_writer();
    let line = br#"{"timestamp":"2024-01-01T00:00:00Z","level":"INFO","target":"app","fields":{"message":"hi","x":1}}"#;
    let (head, tail) = line.split_at(40);
    assert_eq!(sink.write(head).len(), 0);
    assert_eq!(sink.write(tail).len(), 0);
    let out = sink.write(b"\n");
    assert_eq!(out.len(), 1);
    assert_eq!(out[0].message, Some("hi".to_string()));
    assert_eq!(out[0].category, Some("app".to_string()));
    sink.flush();
    assert_eq!(sink.write(b"\n").len(), 0);
}

#[test]
fn writer_splits_a_chunk_of_many_lines() {
    let mut layer: SentryBreadcrumbLayer = layer();
    let good = br#"{"timestamp":"2024-01-01T00:00:00Z","level":"INFO","target":"app","fields":{"message":"one"}}"#;
    let bad = br#"{"timestamp":"2024-01-01T00:00:00Z","level":"BOGUS","target":"app","fields":{"message":"two"}}"#;
    let good2 = br#"{"timestamp":"2024-01-01T00:00:00Z","level":"error","target":"app","fields":{"message":"three"}}"#;
    let mut bytes = Vec::new();
    bytes.extend_from_slice(good);
    bytes.push(b'\n');
    bytes.extend_from_slice(bad);
    bytes.push(b'\n');
    bytes.extend_from_slice(good2);
    bytes.push(b'\n');
    let out = layer.write(&bytes);
    assert_eq!(out.len(), 2);
    assert_eq!(out[0].message, Some("one".to_string()));
    assert_eq!(out[0].level, Level::Info);
    assert_eq!(out[1].message, Some("three".to_string()));
    assert_eq!(out[1].level, Level::Error);
}

#[test]
fn default_layer_is_empty() {
    let mut layer = SentryBreadcrumbLayer::default();
    assert_eq!(layer.write(b"").len(), 0);
}

#[test]
fn timestamp_shapes() {
    assert!(check_rfc3339("2024-01-01T00:00:00Z"));
    assert!(check_rfc3339("2024-02-29T23:59:60z"));
    assert!(check_rfc3339("2024-06-30t12:34:56.789+05:30"));
    assert!(check_rfc3339("1999-12-31T00:00:00-23:59"));
    assert!(!check_rfc3339("2023-02-29T00:00:00Z"));
    assert!(!check_rfc3339("2024-00-10T00:00:00Z"));
    assert!(!check_rfc3339("2024-13-01T00:00:00Z"));
    assert!(!check_rfc3339("2024-04-31T00:00:00Z"));
    assert!(!check_rfc3339("2024-01-01 00:00:00Z"));
    assert!(!check_rfc3339("2024-01-01T24:00:00Z"));
    assert!(!check_rfc3339("2024-01-01T00:00:00"));
    assert!(!check_rfc3339("2024-01-01T00:00:00.Z"));
    assert!(!check_rfc3339("2024-01-01T00:00:00+24:00"));
    assert!(check_rfc3339("2100-02-28T00:00:00Z"));
    assert!(!check_rfc3339("2100-02-29T00:00:00Z"));
    assert!(check_rfc3339("2000-02-29T00:00:00Z"));
}

#[test]
fn both_backends_agree_on_the_shared_fields() {
    let line = br#"{"timestamp":"2024-01-01T00:00:00Z","level":"INFO","target":"app","fields":{"message":"hi"}}"#;
    let from_line = line_to_breadcrumb(line).expect("a well-formed line yields a breadcrumb");
    let mut fields = sentry_breadcrumbs::fields::FieldMap::new();
    fields.insert(
        "message".to_string(),
        sentry_breadcrumbs::fields::FieldValue::Text("hi".to_string()),
    );
    let hook_layer = hooks::SentryBreadcrumbLayer::new();
    let from_hooks = hook_layer.on_event(
        sentry_breadcrumbs::severity::TraceLevel::Info,
        "app",
        fields,
        &Vec::new(),
        "2024-01-01T00:00:00Z".to_string(),
    );
    assert_eq!(from_line.ty, from_hooks.ty);
    assert_eq!(from_line.category, from_hooks.category);
    assert_eq!(from_line.level, from_hooks.level);
    assert_eq!(from_line.message, from_hooks.message);
    assert_eq!(from_line.timestamp, from_hooks.timestamp);
}
