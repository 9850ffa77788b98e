use termspy::event::{InputEvent, PtyUpdate, RelayAction, RelayEvent};
use termspy::relay::Relay;

fn byte_event(b: u8) -> RelayEvent {
    RelayEvent::Pty(PtyUpdate::Byte(b))
}

fn input_event(bytes: &[u8]) -> RelayEvent {
    RelayEvent::Input(InputEvent { raw: bytes.to_vec() })
}

#[test]
fn output_bytes_forwarded_in_order() {
    let mut relay = Relay::new();
    let mut seen: Vec<u8> = Vec::new();
    for b in [b'h', b'e', b'l', b'l', b'o'] {
        match relay.step(byte_event(b)) {
            RelayAction::WriteTty(out) => seen.push(out),
            other => panic!("unexpected action {:?}", other),
        }
    }
    assert_eq!(seen, vec![b'h', b'e', b'l', b'l', b'o']);
    assert!(relay.is_running());
}

#[test]
fn output_order_survives_interleaved_input() {
    let mut relay = Relay::new();
    let events = vec![
        byte_event(1),
        input_event(b"x"),
        byte_event(2),
        input_event(b"y"),
        byte_event(3),
    ];
    let mut tty: Vec<u8> = Vec::new();
    for ev in events {
        if let RelayAction::WriteTty(b) = relay.step(ev) {
            tty.push(b);
        }
    }
    assert_eq!(tty, vec![1, 2, 3]);
}

#[test]
fn input_passes_through_unmodified() {
    let mut relay = Relay::new();
    let action = relay.step(input_event(b"echo hi\n"));
    assert_eq!(action, RelayAction::WritePty(b"echo hi\n".to_vec()));
}

#[test]
fn input_events_keep_their_order() {
    let mut relay = Relay::new();
    let mut pty: Vec<u8> = Vec::new();
    for chunk in [&b"ec"[..], &b"ho "[..], &b"hi\n"[..]] {
        match relay.step(input_event(chunk)) {
            RelayAction::WritePty(bytes) => pty.extend_from_slice(&bytes),
            other => panic!("unexpected action {:?}", other),
        }
    }
    assert_eq!(pty, b"echo hi\n".to_vec());
}

#[test]
fn empty_input_event_forwards_nothing() {
    let mut relay = Relay::new();
    let action = relay.step(input_event(b""));
    assert_eq!(action, RelayAction::WritePty(Vec::new()));
    assert!(relay.is_running());
}

#[test]
fn exited_ends_the_loop() {
    let mut relay = Relay::new();
    let action = relay.step(RelayEvent::Pty(PtyUpdate::Exited));
    assert_eq!(action, RelayAction::Exit);
    assert!(!relay.is_running());
}

#[test]
fn relay_all_stops_at_exited_and_discards_the_rest() {
    let mut relay = Relay::new();
    let events = vec![
        byte_event(10),
        input_event(b"ls\n"),
        byte_event(11),
        RelayEvent::Pty(PtyUpdate::Exited),
        byte_event(12),
        input_event(b"never\n"),
    ];
    let actions = relay.relay_all(events);
    assert_eq!(
        actions,
        vec![
            RelayAction::WriteTty(10),
            RelayAction::WritePty(b"ls\n".to_vec()),
            RelayAction::WriteTty(11),
            RelayAction::Exit,
        ]
    );
    assert!(!relay.is_running());
}

#[test]
fn relay_all_without_exited_consumes_everything() {
    let mut relay = Relay::new();
    let events = vec![byte_event(1), byte_event(2), input_event(b"a")];
    let actions = relay.relay_all(events);
    assert_eq!(actions.len(), 3);
    assert!(relay.is_running());
}

#[test]
fn relay_all_on_no_events_does_nothing() {
    let mut relay = Relay::new();
    let actions = relay.relay_all(Vec::new());
    assert!(actions.is_empty());
    assert!(relay.is_running());
}

#[test]
fn failed_write_is_fatal() {
    let mut relay = Relay::new();
    match relay.step(byte_event(42)) {
        RelayAction::WriteTty(_) => {
            // The real-terminal descriptor is closed: the write fails.
            let fatal = relay.write_result(false);
            assert!(fatal);
            assert!(!relay.is_running());
        }
        other => panic!("unexpected action {:?}", other),
    }
}

#[test]
fn successful_write_continues() {
    let mut relay = Relay::new();
    relay.step(byte_event(42));
    let fatal = relay.write_result(true);
    assert!(!fatal);
    assert!(relay.is_running());
}
