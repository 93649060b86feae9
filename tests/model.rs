use egui_tracing_log::filter::visible_events;
use egui_tracing_log::text::truncate_with_ellipsis;
use egui_tracing_log::{CollectedEvent, EventCollector, Fields, LogUi, LogsState, TracerLevel};

fn event(level: TracerLevel, message: &str) -> CollectedEvent {
    let mut fields = Fields::new();
    fields.insert("message".to_string(), message.to_string());
    CollectedEvent::new("app::m".to_string(), level, fields)
}

fn messages(events: &[CollectedEvent]) -> Vec<String> {
    events
        .iter()
        .map(|e| e.message().cloned().unwrap_or_default())
        .collect()
}

#[test]
fn filter_state_defaults() {
    let state = LogsState::default();
    assert!(state.is_visible(TracerLevel::Error));
    assert!(state.is_visible(TracerLevel::Warn));
    assert!(state.is_visible(TracerLevel::Info));
    assert!(!state.is_visible(TracerLevel::Debug));
    assert!(!state.is_visible(TracerLevel::Trace));
    assert_eq!(
        state.entries(),
        vec![
            (TracerLevel::Error, true),
            (TracerLevel::Warn, true),
            (TracerLevel::Info, true),
            (TracerLevel::Debug, false),
        ]
    );
}

#[test]
fn toggling_debug_changes_next_read() {
    let events = vec![
        event(TracerLevel::Info, "i"),
        event(TracerLevel::Debug, "d"),
        event(TracerLevel::Error, "e"),
    ];
    let mut state = LogsState::default();
    assert_eq!(messages(&visible_events(&events, &state)), vec!["i", "e"]);
    state.toggle(TracerLevel::Debug);
    assert!(state.is_visible(TracerLevel::Debug));
    assert_eq!(messages(&visible_events(&events, &state)), vec!["i", "d", "e"]);
    state.toggle(TracerLevel::Debug);
    assert_eq!(messages(&visible_events(&events, &state)), vec!["i", "e"]);
}

#[test]
fn toggling_trace_adds_an_entry() {
    let mut state = LogsState::default();
    state.toggle(TracerLevel::Trace);
    assert!(state.is_visible(TracerLevel::Trace));
    assert_eq!(state.entries().len(), 5);
    state.set_visible(TracerLevel::Error, false);
    assert!(!state.is_visible(TracerLevel::Error));
    assert!(!LogsState::empty().is_visible(TracerLevel::Error));
    assert!(LogsState::empty().entries().is_empty());
}

#[test]
fn log_ui_shows_filtered_records() {
    let collector = EventCollector::with_level(TracerLevel::Trace, "app");
    let ui = LogUi::new(collector.clone());
    collector.collect(event(TracerLevel::Debug, "d"));
    collector.collect(event(TracerLevel::Warn, "w"));
    let mut state = LogsState::default();
    assert_eq!(messages(&ui.visible(&state)), vec!["w"]);
    state.toggle(TracerLevel::Debug);
    assert_eq!(messages(&ui.visible(&state)), vec!["d", "w"]);
    ui.clear();
    assert!(ui.visible(&state).is_empty());
    assert_eq!(ui.collector().level(), TracerLevel::Trace);
}

#[test]
fn level_order_and_names() {
    assert_eq!(TracerLevel::Error.rank(), 0);
    assert_eq!(TracerLevel::Trace.rank(), 4);
    assert!(TracerLevel::Error.at_least_as_severe(&TracerLevel::Warn));
    assert!(TracerLevel::Warn.at_least_as_severe(&TracerLevel::Warn));
    assert!(!TracerLevel::Info.at_least_as_severe(&TracerLevel::Warn));
    assert_eq!(TracerLevel::Error.name(), "ERROR");
    assert_eq!(TracerLevel::Warn.name(), "WARN");
    assert_eq!(TracerLevel::Info.name(), "INFO");
    assert_eq!(TracerLevel::Debug.name(), "DEBUG");
    assert_eq!(TracerLevel::Trace.name(), "TRACE");
    assert_eq!(TracerLevel::default(), TracerLevel::Info);
    assert!(TracerLevel::Error < TracerLevel::Trace);
}

#[test]
fn level_from_name() {
    assert_eq!(TracerLevel::from_name("DEBUG"), Some(TracerLevel::Debug));
    assert_eq!(TracerLevel::from_name("debug"), None);
    assert_eq!(TracerLevel::from_name(""), None);
}

#[test]
fn level_from_native() {
    assert_eq!(TracerLevel::from_native(&tracing::Level::ERROR), TracerLevel::Error);
    assert_eq!(TracerLevel::from_native(&tracing::Level::WARN), TracerLevel::Warn);
    assert_eq!(TracerLevel::from_native(&tracing::Level::INFO), TracerLevel::Info);
    assert_eq!(TracerLevel::from_native(&tracing::Level::DEBUG), TracerLevel::Debug);
    assert_eq!(TracerLevel::from_native(&tracing::Level::TRACE), TracerLevel::Trace);
}

#[test]
fn fields_replace_and_lookup() {
    let mut f = Fields::new();
    assert!(f.get("a").is_none());
    f.insert("a".to_string(), "1".to_string());
    f.insert("b".to_string(), "2".to_string());
    f.insert("a".to_string(), "3".to_string());
    assert_eq!(f.get("a").unwrap(), "3");
    assert_eq!(f.get("b").unwrap(), "2");
    assert!(f.get("c").is_none());
    let g = f.duplicate();
    assert_eq!(g.get("a").unwrap(), "3");
}

#[test]
fn truncation_of_messages() {
    assert_eq!(truncate_with_ellipsis("short", 10), "short");
    assert_eq!(truncate_with_ellipsis("exactly", 7), "exactly");
    assert_eq!(truncate_with_ellipsis("abcdefgh", 3), "abc...");
    assert_eq!(truncate_with_ellipsis("", 0), "");
    assert_eq!(truncate_with_ellipsis("éé", 3), "éé...");
    assert_eq!(truncate_with_ellipsis("ééé", 2), "éé...");
}
