//! The accept loop's per-iteration decision, the request queue, and the
//! processor.
//!
//! The accept loop owns the listening socket and suspends on two events: a
//! shutdown signal, and a client connection read to completion. The socket
//! work happens outside this crate; what each observed event does — stop the
//! loop, enqueue a parsed request, or drop a bad connection and carry on —
//! is decided here. The processor drains the queue one request at a time,
//! has the external handler invoked exactly once per request, and reacts to
//! the shutdown sentinel by signalling the accept loop and stopping.

use vstd::prelude::*;
use crate::request::DaemonRequest;
use crate::request::Response;
use crate::wire::WireError;
use crate::wire::decode_doc;
use crate::wire::decode_request;

verus! {

/// One observed accept-loop event: the shutdown signal, or one connection's
/// fate. Accept and read failures are per-connection errors; the bytes of a
/// completed read still await parsing.
#[derive(Debug, Clone, PartialEq, Eq)]
pub enum AcceptEvent {
    /// The processor signalled shutdown.
    ShutdownSignal,
    /// Accepting a connection failed.
    AcceptFailed,
    /// Reading a connection to completion failed.
    ReadFailed,
    /// A connection's full bytes, read until the client closed its write
    /// side.
    Payload(Vec<u8>),
}

/// What the accept loop does with one event.
#[derive(Debug, Clone, PartialEq, Eq)]
pub enum AcceptAction {
    /// Break the loop: shutdown was observed.
    Stop,
    /// Log and abandon the connection; keep serving other clients.
    Discard(WireError),
    /// Hand the parsed daemon-origin request to the queue.
    Enqueue(DaemonRequest),
}

/// Decides one accept-loop iteration: stop on the shutdown signal, enqueue a
/// well-formed request, and discard — never crash on — every per-connection
/// failure, so a malformed or hostile client costs only its own connection.
pub fn accept_step(ev: AcceptEvent) -> (r: AcceptAction)
    ensures
        r is Stop <==> ev is ShutdownSignal,
        (ev is AcceptFailed || ev is ReadFailed) ==> r == AcceptAction::Discard(
            WireError::Malformed,
        ),
        ev matches AcceptEvent::Payload(bytes) ==> match decode_doc(bytes@) {
            Some(p) => r matches AcceptAction::Enqueue(req) && req.payload@ == p,
            None => r == AcceptAction::Discard(WireError::Malformed),
        },
{
    match ev {
        AcceptEvent::ShutdownSignal => AcceptAction::Stop,
        AcceptEvent::AcceptFailed => AcceptAction::Discard(WireError::Malformed),
        AcceptEvent::ReadFailed => AcceptAction::Discard(WireError::Malformed),
        AcceptEvent::Payload(bytes) => match decode_request(&bytes) {
            Ok(req) => AcceptAction::Enqueue(req),
            Err(e) => AcceptAction::Discard(e),
        },
    }
}

/// The hand-off from the accept loop to the processor: unbounded,
/// single-producer, single-consumer, arrival order preserved.
#[derive(Debug)]
pub struct RequestQueue {
    items: Vec<DaemonRequest>,
}

impl View for RequestQueue {
    type V = Seq<DaemonRequest>;

    closed spec fn view(&self) -> Seq<DaemonRequest> {
        self.items@
    }
}

impl RequestQueue {
    /// An empty queue.
    pub fn new() -> (r: Self)
        ensures
            r@ == Seq::<DaemonRequest>::empty(),
    {
        RequestQueue { items: Vec::new() }
    }

    /// How many requests await processing.
    pub fn len(&self) -> (r: usize)
        ensures
            r == self@.len(),
    {
        self.items.len()
    }

    /// The producer side: appends one request behind all earlier ones.
    pub fn enqueue(&mut self, req: DaemonRequest)
        ensures
            final(self)@ == old(self)@.push(req),
    {
        self.items.push(req);
    }

    /// The consumer side: takes the oldest request, or nothing when the
    /// queue is empty; later requests keep their order.
    pub fn dequeue(&mut self) -> (r: Option<DaemonRequest>)
        ensures
            old(self)@.len() == 0 ==> r is None && final(self)@ == old(self)@,
            old(self)@.len() > 0 ==> r == Some(old(self)@[0]) && final(self)@ == old(self)@.skip(1),
    {
        if self.items.len() == 0 {
            None
        } else {
            let first = self.items.remove(0);
            proof {
                assert(self.items@ =~= old(self)@.skip(1));
            }
            Some(first)
        }
    }
}

/// What the external handler produced for one request.
#[derive(Debug, Clone, PartialEq, Eq)]
pub enum HandlerOutcome {
    /// The handler returned nothing: no reply is expected.
    NoReply,
    /// The handler handed back a session and a response to deliver through
    /// it.
    Reply(Response),
}

/// What the processor does after one handler invocation.
#[derive(Debug, Clone, PartialEq, Eq)]
pub enum ProcessAction {
    /// Take the next request.
    Continue,
    /// Deliver the response through the handler's session, then take the
    /// next request.
    Send(Response),
    /// Signal the shutdown coordinator exactly once and stop draining;
    /// requests still queued are discarded, not processed.
    SignalShutdownAndStop,
}

/// Whether a handler outcome is the shutdown sentinel.
pub open spec fn outcome_is_shutdown(o: HandlerOutcome) -> bool {
    o matches HandlerOutcome::Reply(Response::Shutdown)
}

/// The action one handler outcome demands.
pub open spec fn process_action(o: HandlerOutcome) -> ProcessAction {
    match o {
        HandlerOutcome::NoReply => ProcessAction::Continue,
        HandlerOutcome::Reply(Response::Shutdown) => ProcessAction::SignalShutdownAndStop,
        HandlerOutcome::Reply(resp) => ProcessAction::Send(resp),
    }
}

/// The sequential consumer: drains the queue one request at a time and
/// stops for good once a handler outcome was the shutdown sentinel.
#[derive(Debug, Clone, PartialEq, Eq, Structural)]
pub struct Processor {
    /// Whether a shutdown outcome has been observed; once set, no further
    /// request is processed.
    pub stopped: bool,
}

impl Processor {
    /// A processor that has processed nothing yet.
    pub fn new() -> (r: Self)
        ensures
            !r.stopped,
    {
        Processor { stopped: false }
    }

    /// Reacts to one handler invocation's outcome. The handler was invoked
    /// exactly once for the dequeued request before this call; the processor
    /// decides what follows and whether it stops.
    pub fn step(&mut self, outcome: HandlerOutcome) -> (r: ProcessAction)
        requires
            !old(self).stopped,
        ensures
            r == process_action(outcome),
            final(self).stopped == outcome_is_shutdown(outcome),
    {
        match outcome {
            HandlerOutcome::NoReply => ProcessAction::Continue,
            HandlerOutcome::Reply(resp) => {
                if resp.is_shutdown() {
                    self.stopped = true;
                    ProcessAction::SignalShutdownAndStop
                } else {
                    ProcessAction::Send(resp)
                }
            },
        }
    }
}

/// How many of the outcomes a drain consumes: everything up to and including
/// the first shutdown sentinel, or all of them when none occurs.
pub open spec fn handled_count(outs: Seq<HandlerOutcome>) -> int
    decreases outs.len(),
{
    if outs.len() == 0 {
        0
    } else if outcome_is_shutdown(outs[0]) {
        1
    } else {
        1 + handled_count(outs.skip(1))
    }
}

/// The requests a drain hands to the handler, in order, when handling the
/// i-th dequeued request produces the i-th outcome.
pub open spec fn drained(reqs: Seq<DaemonRequest>, outs: Seq<HandlerOutcome>) -> Seq<
    DaemonRequest,
>
    decreases reqs.len(),
{
    if reqs.len() == 0 || outs.len() == 0 {
        Seq::empty()
    } else if outcome_is_shutdown(outs[0]) {
        seq![reqs[0]]
    } else {
        seq![reqs[0]] + drained(reqs.skip(1), outs.skip(1))
    }
}

/// Every request dequeued before the first shutdown outcome — and the one
/// whose handling produced it — is handled exactly once, in dequeue order;
/// every request queued behind the shutdown-producing one is discarded, and
/// with no shutdown outcome the whole queue is handled.
pub proof fn lemma_drain_in_order(reqs: Seq<DaemonRequest>, outs: Seq<HandlerOutcome>)
    requires
        reqs.len() == outs.len(),
    ensures
        0 <= handled_count(outs) <= reqs.len(),
        drained(reqs, outs) =~= reqs.take(handled_count(outs)),
        forall|i: int|
            0 <= i < handled_count(outs) - 1 ==> !outcome_is_shutdown(#[trigger] outs[i]),
        handled_count(outs) < outs.len() ==> outcome_is_shutdown(outs[handled_count(outs) - 1]),
        (forall|i: int| 0 <= i < outs.len() ==> !outcome_is_shutdown(#[trigger] outs[i]))
            ==> drained(reqs, outs) =~= reqs,
    decreases reqs.len(),
{
    if reqs.len() == 0 {
    } else if outcome_is_shutdown(outs[0]) {
        assert(drained(reqs, outs) =~= reqs.take(1));
    } else {
        lemma_drain_in_order(reqs.skip(1), outs.skip(1));
        let c = handled_count(outs.skip(1));
        assert(handled_count(outs) == 1 + c);
        assert(drained(reqs, outs) == seq![reqs[0]] + drained(reqs.skip(1), outs.skip(1)));
        assert(seq![reqs[0]] + reqs.skip(1).take(c) =~= reqs.take(1 + c));
        assert forall|i: int|
            0 <= i < handled_count(outs) - 1 implies !outcome_is_shutdown(#[trigger] outs[i]) by {
            if i >= 1 {
                assert(outs.skip(1)[i - 1] == outs[i]);
            }
        }
        if handled_count(outs) < outs.len() {
            assert(outs.skip(1)[c - 1] == outs[c]);
        }
        if forall|i: int| 0 <= i < outs.len() ==> !outcome_is_shutdown(#[trigger] outs[i]) {
            assert forall|i: int|
                0 <= i < outs.skip(1).len() implies !outcome_is_shutdown(
                #[trigger] outs.skip(1)[i],
            ) by {
                assert(outs.skip(1)[i] == outs[i + 1]);
            }
        }
    }
}

/// The payloads that reach the queue when the accept loop completes the
/// given connections, in completion order: each well-formed document's
/// payload, with malformed and failed connections dropped.
pub open spec fn parsed_payloads(conns: Seq<Seq<u8>>) -> Seq<Seq<u8>>
    decreases conns.len(),
{
    if conns.len() == 0 {
        Seq::empty()
    } else {
        match decode_doc(conns[0]) {
            Some(p) => seq![p] + parsed_payloads(conns.skip(1)),
            None => parsed_payloads(conns.skip(1)),
        }
    }
}

/// End to end: of the connections the accept loop read to completion, in
/// completion order, exactly the well-formed ones become queued requests —a
/// bad connection costs no handler invocation — and the handler is invoked
/// exactly once per queued request, in that same order, up to and including
/// the first shutdown outcome.
pub proof fn lemma_service_order(
    conns: Seq<Seq<u8>>,
    reqs: Seq<DaemonRequest>,
    outs: Seq<HandlerOutcome>,
)
    requires
        reqs.len() == outs.len(),
        reqs.map_values(|r: DaemonRequest| r.payload@) =~= parsed_payloads(conns),
    ensures
        drained(reqs, outs).map_values(|r: DaemonRequest| r.payload@) =~= parsed_payloads(
            conns,
        ).take(handled_count(outs)),
{
    lemma_drain_in_order(reqs, outs);
    let f = |r: DaemonRequest| r.payload@;
    let c = handled_count(outs);
    assert(drained(reqs, outs).map_values(f) =~= reqs.map_values(f).take(c)) by {
        assert(drained(reqs, outs) =~= reqs.take(c));
        assert(forall|i: int|
            0 <= i < c ==> #[trigger] reqs.take(c).map_values(f)[i] == reqs.map_values(f)[i]);
    }
}

/// A shutdown-producing response stops the service promptly: the processor's
/// own step signals shutdown and stops the drain with the producing request
/// the last one handled, and the accept loop stops the first time it
/// observes the signal — within one iteration.
pub proof fn lemma_shutdown_stops_service(
    reqs: Seq<DaemonRequest>,
    outs: Seq<HandlerOutcome>,
    i: int,
)
    requires
        reqs.len() == outs.len(),
        0 <= i < outs.len(),
        outcome_is_shutdown(outs[i]),
        forall|j: int| 0 <= j < i ==> !outcome_is_shutdown(#[trigger] outs[j]),
    ensures
        handled_count(outs) == i + 1,
        drained(reqs, outs) =~= reqs.take(i + 1),
        process_action(outs[i]) == ProcessAction::SignalShutdownAndStop,
    decreases i,
{
    lemma_drain_in_order(reqs, outs);
    if i == 0 {
    } else {
        assert(forall|j: int| 0 <= j < i - 1 ==> outs.skip(1)[j] == #[trigger] outs[j + 1]);
        lemma_shutdown_stops_service(reqs.skip(1), outs.skip(1), i - 1);
    }
}

} // verus!
