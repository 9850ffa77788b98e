use termspy::capture::{InputCapture, OutputCapture};
use termspy::event::{InputEvent, PtyUpdate};

#[test]
fn output_capture_publishes_bytes_then_one_exited() {
    let mut cap = OutputCapture::new();
    let mut published: Vec<PtyUpdate> = Vec::new();
    for b in [b'o', b'k'] {
        published.push(cap.on_read(Some(b)));
        assert!(!cap.is_stopped());
    }
    // End-of-file: the child side closed entirely.
    published.push(cap.on_read(None));
    assert!(cap.is_stopped());
    assert_eq!(
        published,
        vec![
            PtyUpdate::Byte(b'o'),
            PtyUpdate::Byte(b'k'),
            PtyUpdate::Exited,
        ]
    );
}

#[test]
fn input_capture_publishes_events_unchanged() {
    let mut cap = InputCapture::new();
    let ev = InputEvent { raw: b"q".to_vec() };
    let published = cap.on_event(Some(ev));
    assert_eq!(published, Some(InputEvent { raw: b"q".to_vec() }));
    assert!(!cap.is_stopped());
}

#[test]
fn input_capture_stops_silently_with_no_marker() {
    let mut cap = InputCapture::new();
    cap.on_event(Some(InputEvent { raw: b"a".to_vec() }));
    let published = cap.on_event(None);
    assert_eq!(published, None);
    assert!(cap.is_stopped());
}
