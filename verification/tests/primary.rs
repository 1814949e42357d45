use sentry_breadcrumbs::converter::{event_to_breadcrumb, Breadcrumb, DataValue};
use sentry_breadcrumbs::fields::{FieldMap, FieldValue};
use sentry_breadcrumbs::layer::SentryBreadcrumbLayer;
use sentry_breadcrumbs::severity::{level_name, level_to_level, parse_level, Level, TraceLevel};
use sentry_breadcrumbs::store::SpanFieldStore;

fn text(s: &str) -> FieldValue {
    FieldValue::Text(s.to_string())
}

fn get_text(m: &FieldMap, k: &str) -> Option<String> {
    match m.get(k) {
        Some(FieldValue::Text(s)) => Some(s.clone()),
        _ => None,
    }
}

fn get_int(m: &FieldMap, k: &str) -> Option<i64> {
    match m.get(k) {
        Some(FieldValue::Int(n)) => Some(*n),
        _ => None,
    }
}

#[test]
fn record_merges_later_call_wins() {
    let mut store = SpanFieldStore::new();
    let mut first = FieldMap::new();
    first.insert("user".to_string(), text("u1"));
    first.insert("attempt".to_string(), FieldValue::Int(1));
    store.record(7, first);
    let mut second = FieldMap::new();
    second.insert("attempt".to_string(), FieldValue::Int(2));
    second.insert("ok".to_string(), FieldValue::Bool(true));
    store.record(7, second);
    let snap = store.snapshot(7, "handler");
    assert_eq!(get_text(&snap, "user"), Some("u1".to_string()));
    assert_eq!(get_int(&snap, "attempt"), Some(2));
    assert!(matches!(snap.get("ok"), Some(FieldValue::Bool(true))));
    assert_eq!(get_text(&snap, "name"), Some("handler".to_string()));
    assert!(snap.contains("user"));
    assert!(!snap.contains("missing"));
    assert!(snap.get("missing").is_none());
}

#[test]
fn snapshot_of_unrecorded_span_is_name_only() {
    let store = SpanFieldStore::new();
    let snap = store.snapshot(1, "quiet");
    assert_eq!(get_text(&snap, "name"), Some("quiet".to_string()));
    assert!(snap.get("user").is_none());
}

#[test]
fn trail_is_root_first_and_depth_long() {
    let mut store = SpanFieldStore::new();
    let mut root = FieldMap::new();
    root.insert("user".to_string(), text("u1"));
    store.record(1, root);
    let mut leaf = FieldMap::new();
    leaf.insert("req_id".to_string(), FieldValue::Int(7));
    store.record(2, leaf);
    let stack = vec![(1u64, "B".to_string()), (2u64, "A".to_string())];
    let trail = store.span_trail(&stack);
    assert_eq!(trail.len(), 2);
    assert_eq!(get_text(&trail[0], "name"), Some("B".to_string()));
    assert_eq!(get_text(&trail[0], "user"), Some("u1".to_string()));
    assert_eq!(get_text(&trail[1], "name"), Some("A".to_string()));
    assert_eq!(get_int(&trail[1], "req_id"), Some(7));
}

#[test]
fn event_without_span_has_message_and_no_span_keys() {
    let mut fields = FieldMap::new();
    fields.insert("message".to_string(), text("boot ok"));
    fields.insert("port".to_string(), FieldValue::UInt(8080));
    let b: Breadcrumb = event_to_breadcrumb(
        TraceLevel::Info,
        "app::boot",
        fields,
        Vec::new(),
        "2024-01-01T00:00:00Z".to_string(),
    );
    assert_eq!(b.ty, "log");
    assert_eq!(b.category, Some("app::boot".to_string()));
    assert_eq!(b.level, Level::Info);
    assert_eq!(b.message, Some("boot ok".to_string()));
    assert_eq!(b.timestamp, "2024-01-01T00:00:00Z");
    assert!(b.data.get("span").is_none());
    assert!(b.data.get("spans").is_none());
    match b.data.get("fields") {
        Some(DataValue::Mapping(m)) => {
            assert_eq!(get_text(m, "message"), Some("boot ok".to_string()));
            assert!(matches!(m.get("port"), Some(FieldValue::UInt(8080))));
            assert!(m.get("user").is_none());
        },
        _ => panic!("event fields missing from the data payload"),
    }
}

#[test]
fn message_needs_string_kind() {
    let mut fields = FieldMap::new();
    fields.insert("message".to_string(), FieldValue::Int(5));
    let b = event_to_breadcrumb(
        TraceLevel::Warn,
        "app",
        fields,
        Vec::new(),
        "2024-01-01T00:00:00Z".to_string(),
    );
    assert_eq!(b.message, None);
    assert_eq!(b.level, Level::Warning);
}

#[test]
fn nested_spans_give_span_and_trail() {
    let mut layer = SentryBreadcrumbLayer::new();
    let mut outer = FieldMap::new();
    outer.insert("user".to_string(), text("u1"));
    layer.on_new_span(1, outer);
    let mut inner = FieldMap::new();
    inner.insert("req_id".to_string(), FieldValue::Int(7));
    layer.on_new_span(2, inner);
    let stack = vec![(1u64, "B".to_string()), (2u64, "A".to_string())];
    let mut fields = FieldMap::new();
    fields.insert("message".to_string(), text("handled"));
    let b = layer.on_event(
        TraceLevel::Error,
        "app::req",
        fields,
        &stack,
        "2024-01-01T00:00:00Z".to_string(),
    );
    assert_eq!(b.level, Level::Error);
    match b.data.get("span") {
        Some(DataValue::Mapping(m)) => {
            assert_eq!(get_text(m, "name"), Some("A".to_string()));
            assert_eq!(get_int(m, "req_id"), Some(7));
            assert!(m.get("user").is_none());
        },
        _ => panic!("enclosing span missing from the data payload"),
    }
    match b.data.get("spans") {
        Some(DataValue::Trail(ts)) => {
            assert_eq!(ts.len(), 2);
            assert_eq!(get_text(&ts[0], "name"), Some("B".to_string()));
            assert_eq!(get_text(&ts[0], "user"), Some("u1".to_string()));
            assert_eq!(get_text(&ts[1], "name"), Some("A".to_string()));
            assert_eq!(get_int(&ts[1], "req_id"), Some(7));
        },
        _ => panic!("span trail missing from the data payload"),
    }
}

#[test]
fn severity_mapping_matches_the_fixed_table() {
    assert_eq!(level_to_level(TraceLevel::Trace), Level::Debug);
    assert_eq!(level_to_level(TraceLevel::Debug), Level::Debug);
    assert_eq!(level_to_level(TraceLevel::Info), Level::Info);
    assert_eq!(level_to_level(TraceLevel::Warn), Level::Warning);
    assert_eq!(level_to_level(TraceLevel::Error), Level::Error);
}

#[test]
fn severity_parse_is_case_insensitive_and_total_on_the_vocabulary() {
    assert_eq!(parse_level("INFO"), Some(Level::Info));
    assert_eq!(parse_level("debug"), Some(Level::Debug));
    assert_eq!(parse_level("Warning"), Some(Level::Warning));
    assert_eq!(parse_level("error"), Some(Level::Error));
    assert_eq!(parse_level("FATAL"), Some(Level::Fatal));
    assert_eq!(parse_level("log"), Some(Level::Info));
    assert_eq!(parse_level("warn"), None);
    assert_eq!(parse_level("trace"), None);
    assert_eq!(parse_level("BOGUS"), None);
}

#[test]
fn canonical_level_names_parse_back_to_themselves() {
    for l in [Level::Debug, Level::Info, Level::Warning, Level::Error, Level::Fatal] {
        assert_eq!(parse_level(&level_name(l)), Some(l));
    }
}

#[test]
fn closing_a_span_is_not_retroactive() {
    let mut layer = SentryBreadcrumbLayer::new();
    let mut inner = FieldMap::new();
    inner.insert("req_id".to_string(), FieldValue::Int(7));
    layer.on_new_span(2, inner);
    let stack = vec![(2u64, "A".to_string())];
    let b = layer.on_event(
        TraceLevel::Info,
        "app",
        FieldMap::new(),
        &stack,
        "2024-01-01T00:00:00Z".to_string(),
    );
    layer.on_close(2);
    match b.data.get("span") {
        Some(DataValue::Mapping(m)) => {
            assert_eq!(get_int(m, "req_id"), Some(7));
            assert_eq!(get_text(m, "name"), Some("A".to_string()));
        },
        _ => panic!("enclosing span missing from the breadcrumb emitted before the close"),
    }
    let later = layer.span_snapshot(2, "A");
    assert!(later.get("req_id").is_none());
}

#[test]
fn later_record_does_not_alter_an_emitted_breadcrumb() {
    let mut layer = SentryBreadcrumbLayer::new();
    let mut first = FieldMap::new();
    first.insert("state".to_string(), text("early"));
    layer.on_new_span(3, first);
    let stack = vec![(3u64, "S".to_string())];
    let b = layer.on_event(
        TraceLevel::Info,
        "app",
        FieldMap::new(),
        &stack,
        "2024-01-01T00:00:00Z".to_string(),
    );
    let mut second = FieldMap::new();
    second.insert("state".to_string(), text("late"));
    layer.on_record(3, second);
    match b.data.get("span") {
        Some(DataValue::Mapping(m)) => {
            assert_eq!(get_text(m, "state"), Some("early".to_string()));
        },
        _ => panic!("enclosing span missing from the data payload"),
    }
}
