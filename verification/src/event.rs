use vstd::prelude::*;

verus! {

/// An update from a PTY.
#[derive(Debug, PartialEq, Eq, Structural)]
pub enum PtyUpdate {
    /// The PTY has closed the file.
    Exited,
    /// PTY sends byte.
    Byte(u8),
}

/// One unit of terminal input: the raw bytes that encode a single decoded
/// key or event. The relay forwards only the raw bytes, so the decoded
/// form is not carried here.
#[derive(Debug, PartialEq, Eq)]
pub struct InputEvent {
    pub raw: Vec<u8>,
}

/// One item dequeued at the relay's single wait point: either an input
/// event from the keyboard side or an update from the pty side, whichever
/// queue delivered first.
#[derive(Debug, PartialEq, Eq)]
pub enum RelayEvent {
    Input(InputEvent),
    Pty(PtyUpdate),
}

/// What the relay does with one dequeued event.
#[derive(Debug, PartialEq, Eq)]
pub enum RelayAction {
    /// Write these raw bytes to the pty master descriptor, then flush.
    WritePty(Vec<u8>),
    /// Write this byte to the real terminal's output descriptor, then flush.
    WriteTty(u8),
    /// The child side closed: leave the loop; the process then exits cleanly.
    Exit,
}

/// The raw bytes an event contributes to the input direction (towards the
/// pty master).
pub open spec fn input_bytes_of(ev: RelayEvent) -> Seq<u8> {
    match ev {
        RelayEvent::Input(e) => e.raw@,
        _ => Seq::<u8>::empty(),
    }
}

/// The byte an event contributes to the output direction (towards the real
/// terminal).
pub open spec fn output_bytes_of(ev: RelayEvent) -> Seq<u8> {
    match ev {
        RelayEvent::Pty(PtyUpdate::Byte(b)) => seq![b],
        _ => Seq::<u8>::empty(),
    }
}

/// Whether an event is the terminal marker that ends the relay.
pub open spec fn is_exit_event(ev: RelayEvent) -> bool {
    ev matches RelayEvent::Pty(PtyUpdate::Exited)
}

} // verus!
