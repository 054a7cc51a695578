use chex::diagnostics::{
    build_collection, build_record, diagnostics_from_output, is_actionable, Level, RawDiagnostic,
    SourceError,
};

fn raw(level: Level, rendered: Option<&str>, code: Option<&str>) -> RawDiagnostic {
    RawDiagnostic {
        level,
        rendered: rendered.map(|r| r.to_string()),
        code: code.map(|c| c.to_string()),
    }
}

fn message_line(level: &str, code: Option<&str>, rendered: &str) -> String {
    let code_json = match code {
        Some(c) => format!("{{\"code\":\"{c}\",\"explanation\":null}}"),
        None => "null".to_string(),
    };
    let mut line = String::new();
    line.push_str("{\"reason\":\"compiler-message\",");
    line.push_str("\"package_id\":\"demo 0.1.0 (path+file:///demo)\",");
    line.push_str(
        "\"target\":{\"name\":\"demo\",\"kind\":[\"bin\"],\"src_path\":\"/demo/src/main.rs\"},",
    );
    line.push_str(&format!(
        "\"message\":{{\"message\":\"m\",\"code\":{code_json},\"level\":\"{level}\","
    ));
    line.push_str(&format!(
        "\"spans\":[],\"children\":[],\"rendered\":\"{rendered}\"}}}}"
    ));
    line
}

#[test]
fn structured_stream_keeps_only_coded_errors() {
    let mut input = String::new();
    input.push_str(&message_line(
        "error",
        Some("E0308"),
        "error[E0308]: mismatched types\\n --> src/main.rs:1:1\\n",
    ));
    input.push('\n');
    input.push_str(&message_line("error", None, "error: aborting due to 1 previous error\\n"));
    input.push('\n');
    input.push_str("{\"reason\":\"build-finished\",\"success\":false}\n");

    let records = diagnostics_from_output(input.as_bytes()).unwrap();
    assert_eq!(records.len(), 1);
    assert_eq!(records[0].level, Level::Error);
    assert_eq!(records[0].code.as_deref(), Some("E0308"));
    assert_eq!(records[0].summary, "error[E0308]: mismatched types");
    assert_eq!(records[0].detail_lines, vec![" --> src/main.rs:1:1".to_string()]);
}

#[test]
fn structured_stream_rejects_invalid_text() {
    let bytes: Vec<u8> = vec![0xff, 0xfe, 0x0a];
    assert_eq!(diagnostics_from_output(&bytes), Err(SourceError::Encoding));
}

#[test]
fn structured_stream_rejects_unstructured_lines() {
    let bytes = b"this is not a structured message\n";
    assert_eq!(diagnostics_from_output(bytes), Err(SourceError::Parse));
}

#[test]
fn deeply_nested_stream_is_rejected() {
    let mut line = String::new();
    for _ in 0..50000 {
        line.push('[');
    }
    line.push('\n');
    assert_eq!(diagnostics_from_output(line.as_bytes()), Err(SourceError::Parse));
}

#[test]
fn brackets_inside_strings_do_not_count_as_nesting() {
    let mut rendered = String::new();
    for _ in 0..3000 {
        rendered.push('[');
    }
    let line = message_line("error", Some("E0001"), &rendered);
    let records = diagnostics_from_output(line.as_bytes()).unwrap();
    assert_eq!(records.len(), 1);
    assert_eq!(records[0].summary, rendered);
}

#[test]
fn empty_stream_yields_empty_collection() {
    let records = diagnostics_from_output(b"").unwrap();
    assert!(records.is_empty());
}

#[test]
fn collection_filters_trailers_and_keeps_order() {
    let raws = vec![
        raw(Level::Warning, Some("warning: unused\nnote\n"), Some("unused_variables")),
        raw(Level::Error, Some("error: aborting due to 1 previous error\n"), None),
        raw(Level::Warning, Some("warning: 1 warning emitted\n"), None),
        raw(Level::Note, Some("note: something\n"), None),
        raw(Level::Unknown, Some("?\n"), Some("X")),
        raw(Level::Error, Some("error[E0001]: bad\n"), Some("E0001")),
    ];
    let records = build_collection(&raws);
    assert_eq!(records.len(), 3);
    assert_eq!(records[0].summary, "warning: unused");
    assert_eq!(records[1].summary, "note: something");
    assert_eq!(records[2].summary, "error[E0001]: bad");
}

#[test]
fn actionability_follows_level_and_code() {
    assert!(!is_actionable(&raw(Level::Error, None, None)));
    assert!(!is_actionable(&raw(Level::Warning, None, None)));
    assert!(is_actionable(&raw(Level::Error, None, Some("E0001"))));
    assert!(is_actionable(&raw(Level::Warning, None, Some("w"))));
    assert!(is_actionable(&raw(Level::Note, None, None)));
    assert!(is_actionable(&raw(Level::Help, None, None)));
    assert!(is_actionable(&raw(Level::InternalCompilerError, None, None)));
    assert!(!is_actionable(&raw(Level::Unknown, None, Some("X"))));
}

#[test]
fn free_text_groups_map_into_the_model() {
    let input = "warning: w1\nw2\nw3\n\nerror[E0308]: e1\ne2\ne3\ne4\n";
    let groups = chex::group::parse(input);
    let records = chex::diagnostics::records_from_groups(&groups);
    assert_eq!(records.len(), 2);
    assert_eq!(records[0].level, Level::Warning);
    assert_eq!(records[0].summary, "warning: w1");
    assert_eq!(records[0].detail_lines, vec!["w2".to_string(), "w3".to_string()]);
    assert_eq!(records[0].code, None);
    assert_eq!(records[1].level, Level::Error);
    assert_eq!(records[1].summary, "error[E0308]: e1");
    assert_eq!(
        records[1].detail_lines,
        vec!["e2".to_string(), "e3".to_string(), "e4".to_string()]
    );
}

#[test]
fn record_splits_rendered_text_into_summary_and_details() {
    let rec = build_record(&raw(
        Level::Warning,
        Some("warning: w\nline one\nline two\n"),
        Some("w"),
    ));
    assert_eq!(rec.summary, "warning: w");
    assert_eq!(
        rec.detail_lines,
        vec!["line one".to_string(), "line two".to_string()]
    );
    assert_eq!(rec.code.as_deref(), Some("w"));

    let empty = build_record(&raw(Level::Note, None, None));
    assert_eq!(empty.summary, "");
    assert!(empty.detail_lines.is_empty());
}
