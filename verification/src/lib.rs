//! Core of a long-lived per-user background service: single-instance
//! bootstrap, socket accept-loop dispatch, sequential request processing,
//! and shutdown coordination.
//!
//! The process edges (socket reads and writes, filesystem calls, detaching
//! from the terminal) live outside this crate; the crate holds the decisions
//! those edges act on: which origin a request carries, how a request is
//! framed on the wire, in which order bootstrap actions run, and when the
//! accept loop and the processor stop.

use vstd::prelude::*;

pub mod boot;
pub mod dispatch;
pub mod paths;
pub mod request;
pub mod wire;

use crate::dispatch::AcceptEvent;
use crate::dispatch::HandlerOutcome;
use crate::dispatch::ProcessAction;
use crate::dispatch::Processor;
use crate::dispatch::RequestQueue;
use crate::dispatch::accept_step;
use crate::dispatch::outcome_is_shutdown;
use crate::dispatch::process_action;
use crate::request::DaemonRequest;
use crate::wire::decode_doc;

verus! {

/// What one accept-loop iteration did to the daemon.
#[derive(Debug, Clone, Copy, PartialEq, Eq, Structural)]
pub enum LoopStep {
    /// The shutdown signal was observed: the loop accepts nothing further.
    Stopped,
    /// A per-connection failure was logged and the connection abandoned.
    Discarded,
    /// A well-formed request joined the queue.
    Enqueued,
}

/// The running daemon: it owns its runtime directory and listening socket
/// for its whole lifetime, accepts until the shutdown signal is observed,
/// and processes requests one at a time.
#[derive(Debug)]
pub struct Daemon {
    /// The runtime directory this instance exclusively owns; removing it is
    /// the daemon's last act.
    pub runtime_dir: String,
    /// Whether the accept loop still accepts connections.
    pub accepting: bool,
    /// The hand-off from the accept loop to the processor.
    pub queue: RequestQueue,
    /// The sequential consumer.
    pub processor: Processor,
}

impl Daemon {
    /// A daemon that has just bound its socket inside `runtime_dir`:
    /// accepting, with an empty queue and an idle processor.
    pub fn new(runtime_dir: String) -> (r: Self)
        ensures
            r.runtime_dir@ == runtime_dir@,
            r.accepting,
            r.queue@ == Seq::<DaemonRequest>::empty(),
            !r.processor.stopped,
    {
        Daemon {
            runtime_dir,
            accepting: true,
            queue: RequestQueue::new(),
            processor: Processor::new(),
        }
    }

    /// One accept-loop iteration: stops on the shutdown signal, enqueues the
    /// request a well-formed connection carried, and drops — never escalates
    /// — every per-connection failure.
    pub fn on_accept_event(&mut self, ev: AcceptEvent) -> (r: LoopStep)
        requires
            old(self).accepting,
        ensures
            final(self).runtime_dir@ == old(self).runtime_dir@,
            final(self).processor == old(self).processor,
            r == LoopStep::Stopped <==> ev is ShutdownSignal,
            ev is ShutdownSignal ==> !final(self).accepting,
            ev is ShutdownSignal ==> final(self).queue@ == old(self).queue@,
            !(ev is ShutdownSignal) ==> final(self).accepting,
            (ev is AcceptFailed || ev is ReadFailed) ==> r == LoopStep::Discarded,
            (ev is AcceptFailed || ev is ReadFailed) ==> final(self).queue@ == old(self).queue@,
            ev matches AcceptEvent::Payload(bytes) ==> match decode_doc(bytes@) {
                Some(p) => {
                    &&& r == LoopStep::Enqueued
                    &&& final(self).queue@.len() == old(self).queue@.len() + 1
                    &&& final(self).queue@ == old(self).queue@.push(final(self).queue@.last())
                    &&& final(self).queue@.last().payload@ == p
                },
                None => r == LoopStep::Discarded && final(self).queue@ == old(self).queue@,
            },
    {
        match accept_step(ev) {
            dispatch::AcceptAction::Stop => {
                self.accepting = false;
                LoopStep::Stopped
            },
            dispatch::AcceptAction::Discard(_) => LoopStep::Discarded,
            dispatch::AcceptAction::Enqueue(req) => {
                self.queue.enqueue(req);
                LoopStep::Enqueued
            },
        }
    }

    /// The consumer side of the queue: the oldest undrained request, or
    /// nothing when the queue is empty. Later requests keep their order.
    pub fn next_request(&mut self) -> (r: Option<DaemonRequest>)
        ensures
            final(self).runtime_dir@ == old(self).runtime_dir@,
            final(self).accepting == old(self).accepting,
            final(self).processor == old(self).processor,
            old(self).queue@.len() == 0 ==> r is None && final(self).queue@ == old(self).queue@,
            old(self).queue@.len() > 0 ==> r == Some(old(self).queue@[0]) && final(self).queue@
                == old(self).queue@.skip(1),
    {
        self.queue.dequeue()
    }

    /// Reacts to one handler invocation's outcome: orders the response
    /// delivered, or — on the shutdown sentinel — orders the coordinator
    /// signalled exactly once and stops the processor for good.
    pub fn on_handler_outcome(&mut self, outcome: HandlerOutcome) -> (r: ProcessAction)
        requires
            !old(self).processor.stopped,
        ensures
            final(self).runtime_dir@ == old(self).runtime_dir@,
            final(self).accepting == old(self).accepting,
            final(self).queue@ == old(self).queue@,
            r == process_action(outcome),
            final(self).processor.stopped == outcome_is_shutdown(outcome),
    {
        self.processor.step(outcome)
    }

    /// Ends the daemon's life and yields the one directory its driver must
    /// remove: teardown deletes the runtime directory (socket and PID file
    /// with it), so a following bootstrap at the same location starts from
    /// empty and succeeds.
    pub fn teardown(self) -> (dir: String)
        ensures
            dir@ == self.runtime_dir@,
    {
        self.runtime_dir
    }
}

} // verus!
