use cairos::debounce::{CurrentFile, EditorEvent, DEBOUNCE_WINDOW_MS};

fn read(uri: &str) -> EditorEvent {
    EditorEvent::Changed { uri: uri.to_string(), position: None }
}

#[test]
fn reads_within_window_forward_once() {
    let mut cur = CurrentFile::new(0);
    let mut sent = 0;
    for t in [1_000i64, 2_000, 30_000, 60_000, 1_000 + DEBOUNCE_WINDOW_MS - 1] {
        if cur.send(read("file:///a.rs"), t).is_some() {
            sent += 1;
        }
    }
    assert_eq!(sent, 1);
}

#[test]
fn reads_across_elapsed_window_forward_twice() {
    let mut cur = CurrentFile::new(0);
    let mut sent = 0;
    for t in [1_000i64, 5_000, 1_000 + DEBOUNCE_WINDOW_MS, 1_000 + DEBOUNCE_WINDOW_MS + 10] {
        if cur.send(read("file:///a.rs"), t).is_some() {
            sent += 1;
        }
    }
    assert_eq!(sent, 2);
}

#[test]
fn writes_are_always_forwarded() {
    let mut cur = CurrentFile::new(0);
    assert!(cur.send(read("file:///a.rs"), 10).is_some());
    for t in [11i64, 12, 13] {
        let p = cur.send(EditorEvent::Saved { uri: "file:///a.rs".to_string() }, t).unwrap();
        assert!(p.is_write);
    }
    assert!(cur.send(read("file:///a.rs"), 14).is_none());
}

#[test]
fn another_file_is_forwarded() {
    let mut cur = CurrentFile::new(0);
    assert!(cur.send(read("file:///a.rs"), 10).is_some());
    assert!(cur.send(read("file:///b.rs"), 11).is_some());
    assert!(cur.send(read("file:///a.rs"), 12).is_some());
    assert_eq!(cur.uri, "file:///a.rs");
    assert_eq!(cur.timestamp, 12);
}

#[test]
fn fresh_session_forwards_first_read() {
    let mut cur = CurrentFile::new(500);
    assert!(cur.observe(&"file:///x.rs".to_string(), false, 500));
    assert!(!cur.observe(&"file:///x.rs".to_string(), false, 501));
}

#[test]
fn notifications_become_capture_calls() {
    let opened = EditorEvent::Opened { uri: "u".to_string(), language: "rust".to_string() }.into_params();
    assert_eq!(opened.language, Some("rust".to_string()));
    assert!(!opened.is_write);
    let changed = EditorEvent::Changed { uri: "u".to_string(), position: Some((4, 9)) }.into_params();
    assert_eq!(changed.line_number, Some(4));
    assert_eq!(changed.cursor_pos, Some(9));
    let huge = EditorEvent::Changed { uri: "u".to_string(), position: Some((u32::MAX, 2_147_483_647)) }.into_params();
    assert_eq!(huge.line_number, Some(0));
    assert_eq!(huge.cursor_pos, Some(i32::MAX));
    let saved = EditorEvent::Saved { uri: "u".to_string() }.into_params();
    assert!(saved.is_write);
    assert_eq!(saved.line_number, None);
}
