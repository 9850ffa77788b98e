use vstd::prelude::*;
use crate::event::{InputEvent, PtyUpdate};

verus! {

/// The stream output capture publishes for a child that writes the given
/// bytes to the pty and then closes its side: one `Byte` per byte, in the
/// order written, followed by exactly one `Exited`.
pub open spec fn published_updates(child_bytes: Seq<u8>) -> Seq<PtyUpdate>
    decreases child_bytes.len(),
{
    if child_bytes.len() == 0 {
        seq![PtyUpdate::Exited]
    } else {
        seq![PtyUpdate::Byte(child_bytes[0])] + published_updates(child_bytes.drop_first())
    }
}

/// The producer that reads child output one byte at a time from the pty
/// master. Each blocking read either yields a byte, published as
/// `Byte(b)`, or hits end-of-file (the child side closed), upon which the
/// producer publishes a single `Exited` and stops for good: once stopped it
/// publishes nothing further, so `Exited` is always the last update and
/// appears at most once.
pub struct OutputCapture {
    stopped: bool,
    log: Ghost<Seq<PtyUpdate>>,
}

impl OutputCapture {
    /// Every update published so far, in publication order.
    pub closed spec fn published(self) -> Seq<PtyUpdate> {
        self.log@
    }

    /// Whether the producer has published `Exited` and stopped.
    pub closed spec fn stopped(self) -> bool {
        self.stopped
    }

    /// `Exited` occurs in the log only as the final entry of a stopped
    /// producer.
    pub open spec fn inv(self) -> bool {
        forall|i: int|
            (0 <= i < self.published().len() && (#[trigger] self.published()[i] matches
                PtyUpdate::Exited)) ==> self.stopped() && i == self.published().len() - 1
    }

    /// A fresh producer: nothing published, not stopped.
    pub fn new() -> (c: Self)
        ensures
            c.inv(),
            !c.stopped(),
            c.published() == Seq::<PtyUpdate>::empty(),
    {
        OutputCapture { stopped: false, log: Ghost(Seq::empty()) }
    }

    /// Whether the producer has stopped.
    pub fn is_stopped(&self) -> (r: bool)
        ensures
            r == self.stopped(),
    {
        self.stopped
    }

    /// Decides what one blocking read publishes: `Some(b)` (a byte read
    /// from the pty master) publishes `Byte(b)`; `None` (end-of-file, the
    /// child side closed entirely) publishes the terminal `Exited` marker
    /// and stops the producer permanently.
    pub fn on_read(&mut self, read: Option<u8>) -> (u: PtyUpdate)
        requires
            old(self).inv(),
            !old(self).stopped(),
        ensures
            final(self).inv(),
            final(self).published() == old(self).published().push(u),
            match read {
                Some(b) => u == PtyUpdate::Byte(b) && !final(self).stopped(),
                None => u == PtyUpdate::Exited && final(self).stopped(),
            },
    {
        match read {
            Some(b) => {
                let u = PtyUpdate::Byte(b);
                proof {
                    self.log@ = self.log@.push(u);
                }
                u
            }
            None => {
                let u = PtyUpdate::Exited;
                self.stopped = true;
                proof {
                    self.log@ = self.log@.push(u);
                }
                u
            }
        }
    }
}

/// The output capture publishes at most one `Exited`, and only as its very
/// last update: two `Exited` entries in a published log are the same entry.
pub proof fn lemma_single_exited(c: OutputCapture, i: int, j: int)
    requires
        c.inv(),
        0 <= i < c.published().len(),
        0 <= j < c.published().len(),
        c.published()[i] matches PtyUpdate::Exited,
        c.published()[j] matches PtyUpdate::Exited,
    ensures
        i == j,
{
}

/// The producer that decodes terminal input into events. Each blocking
/// read-and-decode either yields an event, which is published unchanged, or
/// ends (end-of-stream on the terminal descriptor, or an unrecoverable
/// decode error), upon which the producer stops silently: unlike output
/// capture it publishes no terminal marker, so the relay cannot tell a
/// closed input stream from a stalled one.
pub struct InputCapture {
    stopped: bool,
    log: Ghost<Seq<InputEvent>>,
}

impl InputCapture {
    /// Every event published so far, in publication order.
    pub closed spec fn published(self) -> Seq<InputEvent> {
        self.log@
    }

    /// Whether the producer has stopped.
    pub closed spec fn stopped(self) -> bool {
        self.stopped
    }

    /// A fresh producer: nothing published, not stopped.
    pub fn new() -> (c: Self)
        ensures
            !c.stopped(),
            c.published() == Seq::<InputEvent>::empty(),
    {
        InputCapture { stopped: false, log: Ghost(Seq::empty()) }
    }

    /// Whether the producer has stopped.
    pub fn is_stopped(&self) -> (r: bool)
        ensures
            r == self.stopped(),
    {
        self.stopped
    }

    /// Decides what one blocking read-and-decode publishes: a decoded event
    /// is published exactly as read, raw bytes untouched; `None` stops the
    /// producer with no marker published.
    pub fn on_event(&mut self, read: Option<InputEvent>) -> (published: Option<InputEvent>)
        requires
            !old(self).stopped(),
        ensures
            match published {
                Some(e) => {
                    &&& read == Some(e)
                    &&& !final(self).stopped()
                    &&& final(self).published() == old(self).published().push(e)
                },
                None => {
                    &&& read is None
                    &&& final(self).stopped()
                    &&& final(self).published() == old(self).published()
                },
            },
    {
        match read {
            Some(e) => {
                proof {
                    self.log@ = self.log@.push(e);
                }
                Some(e)
            }
            None => {
                self.stopped = true;
                None
            }
        }
    }
}

} // verus!
