use chex::diagnostics::{Level, Record};
use chex::renderer::{display_class, DisplayClass, FrameLine, InputEvent, Renderer};

fn record(level: Level, summary: &str, details: &[&str], code: Option<&str>) -> Record {
    Record {
        level,
        summary: summary.to_string(),
        detail_lines: details.iter().map(|d| d.to_string()).collect(),
        code: code.map(|c| c.to_string()),
    }
}

fn three_records() -> Vec<Record> {
    vec![
        record(Level::Warning, "warning: w", &["wd1", "wd2"], None),
        record(Level::Error, "error[E0308]: e", &["ed1"], Some("E0308")),
        record(Level::Note, "note: n", &[], None),
    ]
}

#[test]
fn focus_next_visits_all_and_wraps() {
    let mut r = Renderer::new(three_records());
    assert_eq!(r.focused(), None);
    let mut seen = Vec::new();
    for _ in 0..3 {
        r.focus_next();
        seen.push(r.focused().unwrap());
    }
    assert_eq!(seen, vec![0, 1, 2]);
    r.focus_next();
    assert_eq!(r.focused(), Some(0));
}

#[test]
fn focus_prev_undoes_focus_next() {
    let mut r = Renderer::new(three_records());
    for start in 0..3usize {
        while r.focused() != Some(start) {
            r.focus_next();
        }
        r.focus_next();
        r.focus_prev();
        assert_eq!(r.focused(), Some(start));
    }
}

#[test]
fn focus_prev_wraps_to_last() {
    let mut r = Renderer::new(three_records());
    r.focus_prev();
    assert_eq!(r.focused(), Some(2));
    r.focus_prev();
    assert_eq!(r.focused(), Some(1));
}

#[test]
fn navigation_on_empty_collection_is_noop() {
    let mut r = Renderer::new(Vec::new());
    r.focus_next();
    assert_eq!(r.focused(), None);
    r.focus_prev();
    assert_eq!(r.focused(), None);
    r.expand_current();
    r.collapse_current();
    assert_eq!(r.len(), 0);
    assert_eq!(r.render_lines(), Vec::<FrameLine>::new());
}

#[test]
fn expand_without_focus_is_noop() {
    let mut r = Renderer::new(three_records());
    r.expand_current();
    for i in 0..3 {
        assert!(!r.is_expanded(i));
    }
}

#[test]
fn expand_touches_only_the_focused_record() {
    let mut r = Renderer::new(three_records());
    r.focus_next();
    r.focus_next();
    r.expand_current();
    assert!(!r.is_expanded(0));
    assert!(r.is_expanded(1));
    assert!(!r.is_expanded(2));
}

#[test]
fn collapse_restores_the_default_state() {
    let mut r = Renderer::new(three_records());
    for i in 0..3 {
        assert!(!r.is_expanded(i), "record {i} must start collapsed");
    }
    r.focus_next();
    r.expand_current();
    assert!(r.is_expanded(0));
    r.collapse_current();
    assert!(!r.is_expanded(0));
    assert!(!r.is_expanded(1));
    assert!(!r.is_expanded(2));
}

#[test]
fn display_class_maps_severities() {
    assert_eq!(display_class(Level::Error), DisplayClass::Alert);
    assert_eq!(display_class(Level::InternalCompilerError), DisplayClass::Alert);
    assert_eq!(display_class(Level::Warning), DisplayClass::Caution);
    assert_eq!(display_class(Level::Note), DisplayClass::Neutral);
    assert_eq!(display_class(Level::Help), DisplayClass::Neutral);
    assert_eq!(display_class(Level::Unknown), DisplayClass::Neutral);
}

#[test]
fn frame_has_separator_and_styled_summaries() {
    let r = Renderer::new(three_records());
    let lines = r.render_lines();
    assert_eq!(
        lines,
        vec![
            FrameLine::Separator,
            FrameLine::Summary {
                text: "warning: w".to_string(),
                class: DisplayClass::Caution,
                focused: false,
            },
            FrameLine::Separator,
            FrameLine::Summary {
                text: "error[E0308]: e".to_string(),
                class: DisplayClass::Alert,
                focused: false,
            },
            FrameLine::Separator,
            FrameLine::Summary {
                text: "note: n".to_string(),
                class: DisplayClass::Neutral,
                focused: false,
            },
        ]
    );
}

#[test]
fn frame_shows_details_of_the_expanded_focused_record() {
    let mut r = Renderer::new(three_records());
    r.focus_next();
    r.expand_current();
    let lines = r.render_lines();
    assert_eq!(
        lines,
        vec![
            FrameLine::Separator,
            FrameLine::Summary {
                text: "warning: w".to_string(),
                class: DisplayClass::Caution,
                focused: true,
            },
            FrameLine::Detail { text: "wd1".to_string() },
            FrameLine::Detail { text: "wd2".to_string() },
            FrameLine::Separator,
            FrameLine::Summary {
                text: "error[E0308]: e".to_string(),
                class: DisplayClass::Alert,
                focused: false,
            },
            FrameLine::Separator,
            FrameLine::Summary {
                text: "note: n".to_string(),
                class: DisplayClass::Neutral,
                focused: false,
            },
        ]
    );
}

#[test]
fn handle_event_drives_the_state_machine() {
    let mut r = Renderer::new(three_records());
    assert!(!r.handle_event(InputEvent::Down));
    assert_eq!(r.focused(), Some(0));
    assert!(!r.handle_event(InputEvent::Right));
    assert!(r.is_expanded(0));
    assert!(!r.handle_event(InputEvent::Left));
    assert!(!r.is_expanded(0));
    assert!(!r.handle_event(InputEvent::Up));
    assert_eq!(r.focused(), Some(2));
    assert!(!r.handle_event(InputEvent::Other));
    assert_eq!(r.focused(), Some(2));
    assert!(r.handle_event(InputEvent::Quit));
    assert_eq!(r.focused(), Some(2));
}

#[test]
fn records_are_readable_by_index() {
    let r = Renderer::new(three_records());
    assert_eq!(r.len(), 3);
    assert_eq!(r.get(1).summary, "error[E0308]: e");
    assert_eq!(r.get(1).code.as_deref(), Some("E0308"));
    assert_eq!(r.get(2).detail_lines.len(), 0);
}
