use egui_tracing_log::log::EventLog;
use egui_tracing_log::{CollectedEvent, EventCollector, Fields, Timestamp, TracerLevel};

fn event(level: TracerLevel, target: &str, message: &str) -> CollectedEvent {
    let mut fields = Fields::new();
    fields.insert("message".to_string(), message.to_string());
    CollectedEvent::new(target.to_string(), level, fields)
}

fn messages(events: &[CollectedEvent]) -> Vec<String> {
    events
        .iter()
        .map(|e| e.message().cloned().unwrap_or_default())
        .collect()
}

#[test]
fn level_threshold_keeps_at_least_as_severe() {
    let mut log = EventLog::with_level(TracerLevel::Warn, "app");
    log.collect(event(TracerLevel::Error, "app::a", "error"));
    log.collect(event(TracerLevel::Warn, "app::a", "warn"));
    log.collect(event(TracerLevel::Info, "app::a", "info"));
    log.collect(event(TracerLevel::Debug, "app::a", "debug"));
    log.collect(event(TracerLevel::Trace, "app::a", "trace"));
    assert_eq!(messages(&log.events()), vec!["error", "warn"]);
}

#[test]
fn trace_level_keeps_everything_from_the_namespace() {
    let mut log = EventLog::with_level(TracerLevel::Trace, "app");
    for level in [
        TracerLevel::Error,
        TracerLevel::Warn,
        TracerLevel::Info,
        TracerLevel::Debug,
        TracerLevel::Trace,
    ] {
        log.collect(event(level, "app", "m"));
    }
    assert_eq!(log.len(), 5);
}

#[test]
fn foreign_namespace_is_never_kept() {
    let mut log = EventLog::with_level(TracerLevel::Trace, "app");
    log.collect(event(TracerLevel::Error, "lib::io", "x"));
    log.collect(event(TracerLevel::Error, "ap", "y"));
    log.collect(event(TracerLevel::Error, "", "z"));
    assert_eq!(log.len(), 0);
}

#[test]
fn empty_prefix_accepts_any_namespace() {
    let mut log = EventLog::with_level(TracerLevel::Info, "");
    log.collect(event(TracerLevel::Info, "anything", "x"));
    assert_eq!(log.len(), 1);
}

#[test]
fn snapshot_twice_is_equal() {
    let mut log = EventLog::with_level(TracerLevel::Info, "app");
    log.collect(event(TracerLevel::Info, "app::a", "one"));
    log.collect(event(TracerLevel::Warn, "app::b", "two"));
    let a = log.events();
    let b = log.events();
    assert_eq!(messages(&a), messages(&b));
    assert_eq!(a.len(), 2);
    for (x, y) in a.iter().zip(b.iter()) {
        assert_eq!(x.target(), y.target());
        assert_eq!(x.level(), y.level());
        assert_eq!(x.time(), y.time());
    }
}

#[test]
fn clear_then_one_event() {
    let mut log = EventLog::with_level(TracerLevel::Info, "app");
    log.collect(event(TracerLevel::Info, "app::a", "old"));
    log.clear();
    assert!(log.events().is_empty());
    log.collect(event(TracerLevel::Error, "app::a", "new"));
    assert_eq!(messages(&log.events()), vec!["new"]);
    assert_eq!(log.level(), TracerLevel::Info);
    assert_eq!(log.prefix(), "app");
}

#[test]
fn warn_app_scenario() {
    let collector = EventCollector::with_level(TracerLevel::Warn, "app");
    collector.collect(event(TracerLevel::Error, "app::net", "a"));
    collector.collect(event(TracerLevel::Info, "app::net", "b"));
    collector.collect(event(TracerLevel::Warn, "lib::io", "c"));
    collector.collect(event(TracerLevel::Warn, "app::ui", "d"));
    let kept = collector.events();
    assert_eq!(messages(&kept), vec!["a", "d"]);
    assert_eq!(kept[0].level(), TracerLevel::Error);
    assert_eq!(kept[1].level(), TracerLevel::Warn);
    assert_eq!(kept[1].target(), "app::ui");
}

#[test]
fn clones_share_one_log() {
    let collector = EventCollector::with_level(TracerLevel::Info, "app");
    let handles: Vec<EventCollector> = (0..4).map(|_| collector.clone()).collect();
    for h in &handles {
        for i in 0..25 {
            h.collect(event(TracerLevel::Info, "app", &format!("{i}")));
        }
    }
    assert_eq!(collector.events().len(), 100);
    handles[2].clear();
    assert!(collector.events().is_empty());
    assert_eq!(handles[3].level(), TracerLevel::Info);
    assert_eq!(handles[3].prefix(), "app");
}

#[test]
fn on_event_builds_and_collects() {
    let collector = EventCollector::with_level(TracerLevel::Debug, "app");
    let mut fields = Fields::new();
    fields.insert("message".to_string(), "hello".to_string());
    fields.insert("user".to_string(), "7".to_string());
    collector.on_event("app::x".to_string(), TracerLevel::Debug, fields);
    let mut other = Fields::new();
    other.insert("message".to_string(), "dropped".to_string());
    collector.on_event("app::x".to_string(), TracerLevel::Trace, other);
    let kept = collector.events();
    assert_eq!(kept.len(), 1);
    assert_eq!(kept[0].message().unwrap(), "hello");
    assert_eq!(kept[0].fields().get("user").unwrap(), "7");
}

#[test]
fn record_without_message() {
    let e = CollectedEvent::new("app".to_string(), TracerLevel::Info, Fields::new());
    assert!(e.message().is_none());
}

#[test]
fn record_with_given_time() {
    let t = Timestamp { unix_nanos: 1_700_000_000_000_000_000, offset_seconds: 3600 };
    let e = CollectedEvent::with_time("app::t".to_string(), TracerLevel::Warn, Fields::new(), t);
    assert_eq!(e.time(), t);
    assert_eq!(e.target(), "app::t");
    assert_eq!(e.level(), TracerLevel::Warn);
    let copy = e.duplicate();
    assert_eq!(copy.time(), t);
    assert_eq!(copy.target(), "app::t");
}

#[test]
fn capture_time_is_near_now() {
    let a = egui_tracing_log::record::capture_time();
    let b = egui_tracing_log::record::capture_time();
    assert!(a.unix_nanos > 1_500_000_000_000_000_000);
    assert!(b.unix_nanos >= a.unix_nanos);
    assert!(a.offset_seconds.abs() < 26 * 3600);
}
