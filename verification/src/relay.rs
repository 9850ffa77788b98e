use vstd::prelude::*;
use crate::event::{PtyUpdate, RelayEvent, RelayAction, input_bytes_of, output_bytes_of,
    is_exit_event};
use crate::capture::published_updates;

verus! {

/// The raw input bytes the relay forwards to the pty master while
/// processing the given events in order, stopping at the first `Exited`.
pub open spec fn forwarded_input(evs: Seq<RelayEvent>) -> Seq<u8>
    decreases evs.len(),
{
    if evs.len() == 0 {
        Seq::<u8>::empty()
    } else if is_exit_event(evs[0]) {
        Seq::<u8>::empty()
    } else {
        input_bytes_of(evs[0]) + forwarded_input(evs.drop_first())
    }
}

/// The child-output bytes the relay forwards to the real terminal while
/// processing the given events in order, stopping at the first `Exited`.
pub open spec fn forwarded_output(evs: Seq<RelayEvent>) -> Seq<u8>
    decreases evs.len(),
{
    if evs.len() == 0 {
        Seq::<u8>::empty()
    } else if is_exit_event(evs[0]) {
        Seq::<u8>::empty()
    } else {
        output_bytes_of(evs[0]) + forwarded_output(evs.drop_first())
    }
}

/// How many of the given events the relay consumes: all of them, or, when
/// an `Exited` is among them, exactly those up to and including the first
/// `Exited`.
pub open spec fn events_consumed(evs: Seq<RelayEvent>) -> nat
    decreases evs.len(),
{
    if evs.len() == 0 {
        0
    } else if is_exit_event(evs[0]) {
        1
    } else {
        1 + events_consumed(evs.drop_first())
    }
}

/// Whether an `Exited` marker is among the events.
pub open spec fn has_exit(evs: Seq<RelayEvent>) -> bool
    decreases evs.len(),
{
    if evs.len() == 0 {
        false
    } else {
        is_exit_event(evs[0]) || has_exit(evs.drop_first())
    }
}

/// The events before the first `Exited` marker (all of them if none).
pub open spec fn until_exit(evs: Seq<RelayEvent>) -> Seq<RelayEvent>
    decreases evs.len(),
{
    if evs.len() == 0 {
        Seq::<RelayEvent>::empty()
    } else if is_exit_event(evs[0]) {
        Seq::<RelayEvent>::empty()
    } else {
        seq![evs[0]] + until_exit(evs.drop_first())
    }
}

/// The raw bytes carried by the input events among `evs`, concatenated in
/// arrival order.
pub open spec fn input_payloads(evs: Seq<RelayEvent>) -> Seq<u8>
    decreases evs.len(),
{
    if evs.len() == 0 {
        Seq::<u8>::empty()
    } else {
        input_bytes_of(evs[0]) + input_payloads(evs.drop_first())
    }
}

/// The bytes carried by the pty updates among `evs`, concatenated in
/// arrival order.
pub open spec fn output_payloads(evs: Seq<RelayEvent>) -> Seq<u8>
    decreases evs.len(),
{
    if evs.len() == 0 {
        Seq::<u8>::empty()
    } else {
        output_bytes_of(evs[0]) + output_payloads(evs.drop_first())
    }
}

/// The events the relay dequeues when the pty updates `us` arrive with no
/// input events interleaved.
pub open spec fn pty_events(us: Seq<PtyUpdate>) -> Seq<RelayEvent>
    decreases us.len(),
{
    if us.len() == 0 {
        Seq::<RelayEvent>::empty()
    } else {
        seq![RelayEvent::Pty(us[0])] + pty_events(us.drop_first())
    }
}

/// Where the relay stands.
#[derive(Debug, Clone, Copy, PartialEq, Eq, Structural)]
pub enum RelayPhase {
    /// Forwarding in both directions.
    Running,
    /// The child side closed; the relay left its loop cleanly.
    Exited,
    /// A forward-write failed; the relay aborted the session.
    Aborted,
}

/// The relay loop's state: a single running phase with two symmetric
/// forwarding transitions and one terminal transition, plus the record of
/// every byte handed to each output descriptor so far.
pub struct Relay {
    phase: RelayPhase,
    input_fwd: Ghost<Seq<u8>>,
    output_fwd: Ghost<Seq<u8>>,
}

impl Relay {
    /// The phase the relay is in.
    pub closed spec fn phase_of(self) -> RelayPhase {
        self.phase
    }

    /// Every raw input byte handed to the pty master so far, in order.
    pub closed spec fn input_forwarded(self) -> Seq<u8> {
        self.input_fwd@
    }

    /// Every child-output byte handed to the real terminal so far, in
    /// order.
    pub closed spec fn output_forwarded(self) -> Seq<u8> {
        self.output_fwd@
    }

    /// Whether the relay is still in its loop.
    pub open spec fn running(self) -> bool {
        self.phase_of() == RelayPhase::Running
    }

    /// What the relay does with one dequeued event: input events have
    /// their raw bytes forwarded to the pty master unchanged; a pty byte
    /// is forwarded to the real terminal; the `Exited` marker ends the
    /// loop.
    pub open spec fn decision(ev: RelayEvent) -> RelayAction {
        match ev {
            RelayEvent::Input(e) => RelayAction::WritePty(e.raw),
            RelayEvent::Pty(PtyUpdate::Byte(b)) => RelayAction::WriteTty(b),
            RelayEvent::Pty(PtyUpdate::Exited) => RelayAction::Exit,
        }
    }

    /// A fresh relay: running, nothing forwarded yet.
    pub fn new() -> (r: Relay)
        ensures
            r.running(),
            r.input_forwarded() == Seq::<u8>::empty(),
            r.output_forwarded() == Seq::<u8>::empty(),
    {
        Relay { phase: RelayPhase::Running, input_fwd: Ghost(Seq::empty()), output_fwd: Ghost(
            Seq::empty()) }
    }

    /// Whether the relay is still in its loop.
    pub fn is_running(&self) -> (r: bool)
        ensures
            r == self.running(),
    {
        self.phase == RelayPhase::Running
    }

    /// Processes one dequeued event: returns exactly the action
    /// `decision(ev)` prescribes, extends the forwarding record by the
    /// bytes that action writes, and leaves the loop exactly on the
    /// `Exited` marker.
    pub fn step(&mut self, ev: RelayEvent) -> (a: RelayAction)
        requires
            old(self).running(),
        ensures
            a == Self::decision(ev),
            final(self).input_forwarded() == old(self).input_forwarded() + input_bytes_of(ev),
            final(self).output_forwarded() == old(self).output_forwarded() + output_bytes_of(ev),
            final(self).running() == !is_exit_event(ev),
            is_exit_event(ev) ==> final(self).phase_of() == RelayPhase::Exited,
    {
        proof {
            assert(self.input_fwd@ + Seq::<u8>::empty() =~= self.input_fwd@);
            assert(self.output_fwd@ + Seq::<u8>::empty() =~= self.output_fwd@);
        }
        match ev {
            RelayEvent::Input(e) => {
                proof {
                    self.input_fwd@ = self.input_fwd@ + e.raw@;
                }
                RelayAction::WritePty(e.raw)
            }
            RelayEvent::Pty(PtyUpdate::Byte(b)) => {
                proof {
                    self.output_fwd@ = self.output_fwd@ + seq![b];
                }
                RelayAction::WriteTty(b)
            }
            RelayEvent::Pty(PtyUpdate::Exited) => {
                self.phase = RelayPhase::Exited;
                RelayAction::Exit
            }
        }
    }

    /// The relay's policy on the outcome of a forward-write: a failed
    /// write or flush on either descriptor is fatal — the relay aborts at
    /// once, with no retry and no further forwarding — while a successful
    /// one changes nothing.
    pub fn write_result(&mut self, ok: bool) -> (fatal: bool)
        requires
            old(self).running(),
        ensures
            fatal == !ok,
            ok ==> *final(self) == *old(self),
            !ok ==> final(self).phase_of() == RelayPhase::Aborted,
            final(self).input_forwarded() == old(self).input_forwarded(),
            final(self).output_forwarded() == old(self).output_forwarded(),
    {
        if ok {
            false
        } else {
            self.phase = RelayPhase::Aborted;
            true
        }
    }

    /// Processes a whole sequence of dequeued events in arrival order,
    /// stopping at the first `Exited`: the actions returned are exactly
    /// the per-event decisions for the consumed prefix, and the forwarding
    /// records grow by exactly the bytes those events carry.
    pub fn relay_all(&mut self, events: Vec<RelayEvent>) -> (acts: Vec<RelayAction>)
        requires
            old(self).running(),
        ensures
            final(self).input_forwarded() == old(self).input_forwarded() + forwarded_input(
                events@),
            final(self).output_forwarded() == old(self).output_forwarded() + forwarded_output(
                events@),
            final(self).running() == !has_exit(events@),
            has_exit(events@) ==> final(self).phase_of() == RelayPhase::Exited,
            acts@.len() == events_consumed(events@),
            forall|i: int| 0 <= i < acts@.len() ==> acts@[i] == Self::decision(events@[i]),
    {
        let ghost orig: Seq<RelayEvent> = events@;
        let ghost initial: Relay = *self;
        let mut evs = events;
        let mut acts: Vec<RelayAction> = Vec::new();
        let ghost mut k: int = 0;
        proof {
            assert(evs@ =~= orig.skip(0));
            assert(orig.take(0) =~= Seq::<RelayEvent>::empty());
            assert(initial.input_forwarded() + Seq::<u8>::empty() =~= initial.input_forwarded());
            assert(initial.output_forwarded() + Seq::<u8>::empty() =~= initial.output_forwarded());
        }
        while evs.len() > 0 && self.is_running()
            invariant
                0 <= k <= orig.len(),
                evs@ == orig.skip(k),
                acts@.len() == k,
                forall|i: int| 0 <= i < k ==> acts@[i] == Self::decision(orig[i]),
                self.running() ==> {
                    &&& !has_exit(orig.take(k))
                    &&& self.input_forwarded() == initial.input_forwarded() + forwarded_input(
                        orig.take(k))
                    &&& self.output_forwarded() == initial.output_forwarded() + forwarded_output(
                        orig.take(k))
                },
                !self.running() ==> {
                    &&& self.phase_of() == RelayPhase::Exited
                    &&& k >= 1
                    &&& is_exit_event(orig[k - 1])
                    &&& !has_exit(orig.take(k - 1))
                    &&& self.input_forwarded() == initial.input_forwarded() + forwarded_input(
                        orig.take(k - 1))
                    &&& self.output_forwarded() == initial.output_forwarded() + forwarded_output(
                        orig.take(k - 1))
                },
            decreases evs@.len(),
        {
            let ev = evs.remove(0);
            proof {
                assert(ev == orig[k]);
                assert(evs@ =~= orig.skip(k + 1));
            }
            let a = self.step(ev);
            acts.push(a);
            proof {
                let prefix = orig.take(k);
                let e = orig[k];
                assert(orig.take(k + 1) =~= prefix + seq![e]);
                lemma_relay_concat(prefix, seq![e]);
                assert(seq![e].drop_first() =~= Seq::<RelayEvent>::empty());
                if !is_exit_event(e) {
                    assert(forwarded_input(seq![e].drop_first()) == Seq::<u8>::empty());
                    assert(forwarded_output(seq![e].drop_first()) == Seq::<u8>::empty());
                    assert(!has_exit(seq![e].drop_first()));
                    assert(seq![e][0] == e);
                    assert(!has_exit(seq![e]));
                    assert(!has_exit(orig.take(k + 1)));
                    assert(forwarded_input(seq![e]) =~= input_bytes_of(e));
                    assert(forwarded_output(seq![e]) =~= output_bytes_of(e));
                    assert(self.input_forwarded() =~= initial.input_forwarded()
                        + forwarded_input(orig.take(k + 1)));
                    assert(self.output_forwarded() =~= initial.output_forwarded()
                        + forwarded_output(orig.take(k + 1)));
                } else {
                    assert(input_bytes_of(e) =~= Seq::<u8>::empty());
                    assert(output_bytes_of(e) =~= Seq::<u8>::empty());
                    assert(self.input_forwarded() =~= initial.input_forwarded()
                        + forwarded_input(orig.take(k)));
                    assert(self.output_forwarded() =~= initial.output_forwarded()
                        + forwarded_output(orig.take(k)));
                }
                k = k + 1;
            }
        }
        proof {
            if self.running() {
                assert(orig.skip(k).len() == orig.len() - k);
                assert(k == orig.len());
                assert(orig.take(k) =~= orig);
                lemma_no_exit_consumes_all(orig);
            } else {
                let prefix = orig.take(k - 1);
                let rest = seq![orig[k - 1]] + orig.skip(k);
                assert(orig =~= prefix + rest);
                lemma_relay_concat(prefix, rest);
                assert(rest[0] == orig[k - 1]);
                assert(is_exit_event(rest[0]));
                assert(forwarded_input(rest) =~= Seq::<u8>::empty());
                assert(forwarded_output(rest) =~= Seq::<u8>::empty());
                assert(events_consumed(rest) == 1);
                assert(has_exit(rest));
                assert(forwarded_input(prefix) + Seq::<u8>::empty() =~= forwarded_input(prefix));
                assert(forwarded_output(prefix) + Seq::<u8>::empty() =~= forwarded_output(prefix));
            }
        }
        acts
    }
}

/// Splitting an event sequence at any point with no `Exited` in the first
/// part splits what the relay forwards and consumes accordingly.
pub proof fn lemma_relay_concat(p: Seq<RelayEvent>, s: Seq<RelayEvent>)
    requires
        !has_exit(p),
    ensures
        forwarded_input(p + s) == forwarded_input(p) + forwarded_input(s),
        forwarded_output(p + s) == forwarded_output(p) + forwarded_output(s),
        events_consumed(p + s) == p.len() + events_consumed(s),
        has_exit(p + s) == has_exit(s),
    decreases p.len(),
{
    if p.len() == 0 {
        assert(p + s =~= s);
        assert(forwarded_input(p) =~= Seq::<u8>::empty());
        assert(forwarded_output(p) =~= Seq::<u8>::empty());
        assert(forwarded_input(p) + forwarded_input(s) =~= forwarded_input(s));
        assert(forwarded_output(p) + forwarded_output(s) =~= forwarded_output(s));
    } else {
        assert(!is_exit_event(p[0]));
        assert((p + s).drop_first() =~= p.drop_first() + s);
        lemma_relay_concat(p.drop_first(), s);
        assert((p + s)[0] == p[0]);
        assert(forwarded_input(p + s) == input_bytes_of(p[0]) + (forwarded_input(p.drop_first())
            + forwarded_input(s)));
        assert(input_bytes_of(p[0]) + (forwarded_input(p.drop_first()) + forwarded_input(s))
            =~= (input_bytes_of(p[0]) + forwarded_input(p.drop_first())) + forwarded_input(s));
        assert(forwarded_output(p + s) == output_bytes_of(p[0]) + (forwarded_output(p.drop_first())
            + forwarded_output(s)));
        assert(output_bytes_of(p[0]) + (forwarded_output(p.drop_first()) + forwarded_output(s))
            =~= (output_bytes_of(p[0]) + forwarded_output(p.drop_first())) + forwarded_output(s));
    }
}

/// A relay that never sees an `Exited` marker consumes every event.
pub proof fn lemma_no_exit_consumes_all(evs: Seq<RelayEvent>)
    requires
        !has_exit(evs),
    ensures
        events_consumed(evs) == evs.len(),
    decreases evs.len(),
{
    if evs.len() > 0 {
        lemma_no_exit_consumes_all(evs.drop_first());
    }
}

/// Byte-order preservation: the bytes the relay forwards to the real
/// terminal are exactly the bytes carried by the pty updates that arrived
/// before the first `Exited`, in arrival order — input events interleaved
/// among them neither reorder nor drop any of them.
pub proof fn lemma_output_order_preserved(evs: Seq<RelayEvent>)
    ensures
        forwarded_output(evs) == output_payloads(until_exit(evs)),
    decreases evs.len(),
{
    if evs.len() == 0 {
    } else if is_exit_event(evs[0]) {
        assert(output_payloads(until_exit(evs)) =~= Seq::<u8>::empty());
    } else {
        lemma_output_order_preserved(evs.drop_first());
        assert(until_exit(evs) == seq![evs[0]] + until_exit(evs.drop_first()));
        assert((seq![evs[0]] + until_exit(evs.drop_first())).drop_first() =~= until_exit(
            evs.drop_first()));
        assert((seq![evs[0]] + until_exit(evs.drop_first()))[0] == evs[0]);
    }
}

/// Input pass-through identity: the bytes the relay hands to the pty
/// master are exactly the raw bytes of the input events that arrived
/// before the first `Exited`, unmodified, concatenated in arrival order.
pub proof fn lemma_input_passthrough(evs: Seq<RelayEvent>)
    ensures
        forwarded_input(evs) == input_payloads(until_exit(evs)),
    decreases evs.len(),
{
    if evs.len() == 0 {
    } else if is_exit_event(evs[0]) {
        assert(input_payloads(until_exit(evs)) =~= Seq::<u8>::empty());
    } else {
        lemma_input_passthrough(evs.drop_first());
        assert(until_exit(evs) == seq![evs[0]] + until_exit(evs.drop_first()));
        assert((seq![evs[0]] + until_exit(evs.drop_first())).drop_first() =~= until_exit(
            evs.drop_first()));
        assert((seq![evs[0]] + until_exit(evs.drop_first()))[0] == evs[0]);
    }
}

/// Exit convergence: once an `Exited` marker is among the arriving events,
/// the relay consumes exactly the events up to and including the first
/// `Exited` — a bounded number of steps — and the events after it add
/// nothing to either forwarding record.
pub proof fn lemma_exit_convergence(evs: Seq<RelayEvent>)
    requires
        has_exit(evs),
    ensures
        1 <= events_consumed(evs) <= evs.len(),
        is_exit_event(evs[events_consumed(evs) - 1]),
        !has_exit(evs.take(events_consumed(evs) - 1)),
        forwarded_input(evs) == forwarded_input(evs.take(events_consumed(evs) as int)),
        forwarded_output(evs) == forwarded_output(evs.take(events_consumed(evs) as int)),
    decreases evs.len(),
{
    if is_exit_event(evs[0]) {
        assert(events_consumed(evs) == 1);
        assert(evs.take(0) =~= Seq::<RelayEvent>::empty());
        assert(evs.take(1)[0] == evs[0]);
        assert(forwarded_input(evs) =~= Seq::<u8>::empty());
        assert(forwarded_output(evs) =~= Seq::<u8>::empty());
        assert(forwarded_input(evs.take(1)) =~= Seq::<u8>::empty());
        assert(forwarded_output(evs.take(1)) =~= Seq::<u8>::empty());
    } else {
        lemma_exit_convergence(evs.drop_first());
        let n = events_consumed(evs.drop_first());
        assert(events_consumed(evs) == 1 + n);
        assert(evs[events_consumed(evs) - 1] == evs.drop_first()[n - 1]);
        assert(evs.take(events_consumed(evs) - 1).drop_first() =~= evs.drop_first().take(n - 1));
        assert(evs.take(events_consumed(evs) as int).drop_first() =~= evs.drop_first().take(
            n as int));
        assert(evs.take(events_consumed(evs) as int)[0] == evs[0]);
        assert(evs.take(events_consumed(evs) - 1).len() > 0 ==> evs.take(events_consumed(evs)
            - 1)[0] == evs[0]);
    }
}

/// End-to-end round trip: for a child that writes any byte sequence to the
/// pty and then closes its side, output capture publishes one `Byte` per
/// byte then a single `Exited`, and the relay forwards exactly the child's
/// bytes, in the child's order, before leaving its loop.
pub proof fn lemma_child_bytes_round_trip(child_bytes: Seq<u8>)
    ensures
        forwarded_output(pty_events(published_updates(child_bytes))) == child_bytes,
        has_exit(pty_events(published_updates(child_bytes))),
        events_consumed(pty_events(published_updates(child_bytes))) == child_bytes.len() + 1,
    decreases child_bytes.len(),
{
    if child_bytes.len() == 0 {
        assert(published_updates(child_bytes) == seq![PtyUpdate::Exited]);
        let evs = pty_events(seq![PtyUpdate::Exited]);
        assert(evs[0] == RelayEvent::Pty(PtyUpdate::Exited));
        assert(forwarded_output(evs) =~= Seq::<u8>::empty());
        assert(forwarded_output(evs) =~= child_bytes);
    } else {
        lemma_child_bytes_round_trip(child_bytes.drop_first());
        let b = child_bytes[0];
        let us = published_updates(child_bytes);
        assert(us == seq![PtyUpdate::Byte(b)] + published_updates(child_bytes.drop_first()));
        assert(us[0] == PtyUpdate::Byte(b));
        assert(us.drop_first() =~= published_updates(child_bytes.drop_first()));
        let evs = pty_events(us);
        assert(evs[0] == RelayEvent::Pty(PtyUpdate::Byte(b)));
        assert(evs.drop_first() =~= pty_events(us.drop_first()));
        assert(!is_exit_event(evs[0]));
        assert(forwarded_output(evs) == seq![b] + forwarded_output(pty_events(published_updates(
            child_bytes.drop_first()))));
        assert(seq![b] + child_bytes.drop_first() =~= child_bytes);
    }
}

} // verus!
