use buffr_core::edit::{
    build_event, build_inject_script, console_payload, drain_edit_events, event_shape,
    new_edit_event_sink, EditConsoleEvent, EditFieldKind, EditShape, ParseError, RawEdit,
    EDIT_CONSOLE_SENTINEL, EDIT_DOM_OVERLAY_CLASS,
};
use serde_json::Value;

fn text(v: &Value, key: &str) -> Option<String> {
    v[key].as_str().map(str::to_string)
}

fn raw(v: &Value) -> RawEdit {
    RawEdit {
        field_id: text(v, "field_id"),
        kind: match v["kind"].as_str() {
            Some("input") => Some(EditFieldKind::Input),
            Some("textarea") => Some(EditFieldKind::Textarea),
            Some("contentEditable") => Some(EditFieldKind::ContentEditable),
            _ => None,
        },
        value: text(v, "value"),
        selection_start: v["selection_start"].as_u64().map(|n| n as u32),
        selection_end: v["selection_end"].as_u64().map(|n| n as u32),
    }
}

fn decode(payload: &str) -> Result<EditConsoleEvent, ParseError> {
    let v: Value =
        serde_json::from_str(payload).map_err(|e| ParseError::Json(e.to_string()))?;
    let tag = text(&v, "type").ok_or(ParseError::Json("missing field `type`".into()))?;
    let shape = event_shape(&tag)?;
    build_event(shape, raw(&v)).ok_or(ParseError::Json("missing field".into()))
}

fn parse_console_event(line: &str) -> Option<Result<EditConsoleEvent, ParseError>> {
    console_payload(line).map(|p| decode(&p))
}

// ---- parse_console_event --------------------------------------------

#[test]
fn parse_non_sentinel() {
    // Lines that don't start with the sentinel return None.
    assert!(parse_console_event("hello world").is_none());
    assert!(parse_console_event("__buffr_hint__:{\"kind\":\"ready\"}").is_none());
    assert!(parse_console_event("").is_none());
}

#[test]
fn parse_focus_event() {
    let line = r#"__buffr_edit__:{"type":"focus","field_id":"f1","kind":"input","value":"hello","selection_start":5,"selection_end":5}"#;
    let ev = parse_console_event(line)
        .expect("should return Some")
        .expect("should parse ok");
    match ev {
        EditConsoleEvent::Focus {
            field_id,
            kind,
            value,
            selection_start,
            selection_end,
        } => {
            assert_eq!(field_id, "f1");
            assert_eq!(kind, EditFieldKind::Input);
            assert_eq!(value, "hello");
            assert_eq!(selection_start, Some(5));
            assert_eq!(selection_end, Some(5));
        }
        other => panic!("expected Focus, got {other:?}"),
    }
}

#[test]
fn parse_focus_event_null_selection() {
    // contentEditable fields emit null for selection positions.
    let line = r#"__buffr_edit__:{"type":"focus","field_id":"f2","kind":"contentEditable","value":"world","selection_start":null,"selection_end":null}"#;
    let ev = parse_console_event(line).expect("Some").expect("ok");
    match ev {
        EditConsoleEvent::Focus {
            selection_start,
            selection_end,
            ..
        } => {
            assert_eq!(selection_start, None);
            assert_eq!(selection_end, None);
        }
        other => panic!("expected Focus, got {other:?}"),
    }
}

#[test]
fn parse_blur_event() {
    let line = r#"__buffr_edit__:{"type":"blur","field_id":"f3"}"#;
    let ev = parse_console_event(line).expect("Some").expect("ok");
    match ev {
        EditConsoleEvent::Blur { field_id } => assert_eq!(field_id, "f3"),
        other => panic!("expected Blur, got {other:?}"),
    }
}

#[test]
fn parse_mutate_event() {
    let line = r#"__buffr_edit__:{"type":"mutate","field_id":"f4","value":"new text"}"#;
    let ev = parse_console_event(line).expect("Some").expect("ok");
    match ev {
        EditConsoleEvent::Mutate { field_id, value } => {
            assert_eq!(field_id, "f4");
            assert_eq!(value, "new text");
        }
        other => panic!("expected Mutate, got {other:?}"),
    }
}

#[test]
fn parse_unknown_type() {
    // A payload with a valid sentinel but unrecognised `type` must
    // return `Some(Err(_))`, not `None` or `Some(Ok(_))`.
    let line = r#"__buffr_edit__:{"type":"weird","field_id":"f5"}"#;
    let result = parse_console_event(line).expect("Some");
    assert!(result.is_err(), "expected Err for unknown type, got Ok");
    match result.unwrap_err() {
        ParseError::UnknownType(t) => assert_eq!(t, "weird"),
        other => panic!("expected UnknownType, got {other:?}"),
    }
}

#[test]
fn parse_malformed_json() {
    let line = "__buffr_edit__:not json at all";
    let result = parse_console_event(line).expect("Some");
    assert!(result.is_err(), "expected Err for malformed JSON");
}

// ---- build_inject_script --------------------------------------------

#[test]
fn build_inject_script_substitutes_placeholders() {
    let script = build_inject_script();
    // No raw placeholder markers should remain.
    assert!(
        !script.contains("%%SENTINEL%%"),
        "%%SENTINEL%% not substituted"
    );
    assert!(
        !script.contains("%%OVERLAY_CLASS%%"),
        "%%OVERLAY_CLASS%% not substituted"
    );
    // The actual values must appear.
    assert!(
        script.contains(EDIT_CONSOLE_SENTINEL),
        "sentinel not in script"
    );
    assert!(
        script.contains(EDIT_DOM_OVERLAY_CLASS),
        "overlay class not in script"
    );
    // No `%%` sequences should remain at all.
    assert!(!script.contains("%%"), "stray %% in script:\n{script}");
}

// ---- sink helpers ---------------------------------------------------

#[test]
fn drain_returns_in_order() {
    let mut sink = new_edit_event_sink();
    sink.push_back(EditConsoleEvent::Blur {
        field_id: "a".to_string(),
    });
    sink.push_back(EditConsoleEvent::Blur {
        field_id: "b".to_string(),
    });
    sink.push_back(EditConsoleEvent::Blur {
        field_id: "c".to_string(),
    });
    let drained = drain_edit_events(&mut sink);
    assert_eq!(drained.len(), 3);
    // Order must be preserved.
    assert!(matches!(&drained[0], EditConsoleEvent::Blur { field_id } if field_id == "a"));
    assert!(matches!(&drained[1], EditConsoleEvent::Blur { field_id } if field_id == "b"));
    assert!(matches!(&drained[2], EditConsoleEvent::Blur { field_id } if field_id == "c"));
    // Sink is now empty.
    assert!(drain_edit_events(&mut sink).is_empty());
}

#[test]
fn new_sink_is_empty() {
    let mut sink = new_edit_event_sink();
    assert!(drain_edit_events(&mut sink).is_empty());
}

#[test]
fn edit_sentinel_stands_at_the_start_of_the_line() {
    let line = r#"__buffr_edit__:{"type":"selection","value":"x"}"#;
    assert_eq!(
        parse_console_event(line).unwrap(),
        Ok(EditConsoleEvent::Selection { value: "x".into() })
    );
    let styled = r#"%cINFO __buffr_edit__:{"type":"blur","field_id":"f3"}"#;
    assert!(parse_console_event(styled).is_none());
    assert_eq!(console_payload("__buffr_edit__:"), Some(String::new()));
    assert_eq!(console_payload("__buffr_edit__"), None);
    assert_eq!(
        console_payload("__buffr_edit__:a__buffr_edit__:b"),
        Some("a__buffr_edit__:b".to_string())
    );
}

#[test]
fn event_shapes_by_type() {
    assert_eq!(event_shape("focus"), Ok(EditShape::Focus));
    assert_eq!(event_shape("blur"), Ok(EditShape::Blur));
    assert_eq!(event_shape("mutate"), Ok(EditShape::Mutate));
    assert_eq!(event_shape("selection"), Ok(EditShape::Selection));
    assert_eq!(event_shape("Focus"), Err(ParseError::UnknownType("Focus".into())));
}

#[test]
fn events_need_all_their_fields() {
    let none = RawEdit {
        field_id: None,
        kind: None,
        value: None,
        selection_start: Some(1),
        selection_end: Some(2),
    };
    for shape in [EditShape::Focus, EditShape::Blur, EditShape::Mutate, EditShape::Selection] {
        assert_eq!(build_event(shape, none.clone()), None);
    }
    let some = RawEdit { field_id: Some("f".into()), ..none };
    assert_eq!(
        build_event(EditShape::Blur, some.clone()),
        Some(EditConsoleEvent::Blur { field_id: "f".into() })
    );
    assert_eq!(build_event(EditShape::Mutate, some), None);
}
