use kak_tree_sitter::Daemon;
use kak_tree_sitter::LoopStep;
use kak_tree_sitter::dispatch::AcceptAction;
use kak_tree_sitter::dispatch::AcceptEvent;
use kak_tree_sitter::dispatch::HandlerOutcome;
use kak_tree_sitter::dispatch::ProcessAction;
use kak_tree_sitter::dispatch::Processor;
use kak_tree_sitter::dispatch::RequestQueue;
use kak_tree_sitter::dispatch::accept_step;
use kak_tree_sitter::request::ClientRequest;
use kak_tree_sitter::request::DaemonRequest;
use kak_tree_sitter::request::Response;
use kak_tree_sitter::wire::encode_request;

#[test]
fn queue_preserves_arrival_order() {
    let mut q = RequestQueue::new();
    assert_eq!(q.len(), 0);
    assert_eq!(q.dequeue(), None);
    q.enqueue(DaemonRequest { payload: b"first".to_vec() });
    q.enqueue(DaemonRequest { payload: b"second".to_vec() });
    q.enqueue(DaemonRequest { payload: b"third".to_vec() });
    assert_eq!(q.len(), 3);
    assert_eq!(q.dequeue().unwrap().payload, b"first".to_vec());
    assert_eq!(q.dequeue().unwrap().payload, b"second".to_vec());
    assert_eq!(q.dequeue().unwrap().payload, b"third".to_vec());
    assert_eq!(q.dequeue(), None);
}

#[test]
fn accept_step_stops_only_on_the_shutdown_signal() {
    assert_eq!(accept_step(AcceptEvent::ShutdownSignal), AcceptAction::Stop);
    assert!(!matches!(accept_step(AcceptEvent::AcceptFailed), AcceptAction::Stop));
    assert!(!matches!(accept_step(AcceptEvent::ReadFailed), AcceptAction::Stop));
    assert!(!matches!(
        accept_step(AcceptEvent::Payload(b"\"ok\"".to_vec())),
        AcceptAction::Stop
    ));
}

#[test]
fn accept_step_discards_failed_connections() {
    assert!(matches!(accept_step(AcceptEvent::AcceptFailed), AcceptAction::Discard(_)));
    assert!(matches!(accept_step(AcceptEvent::ReadFailed), AcceptAction::Discard(_)));
}

#[test]
fn accept_step_discards_malformed_payload_and_keeps_serving() {
    assert!(matches!(
        accept_step(AcceptEvent::Payload(b"not json".to_vec())),
        AcceptAction::Discard(_)
    ));
}

#[test]
fn accept_step_enqueues_a_well_formed_request() {
    let action = accept_step(AcceptEvent::Payload(b"\"highlight\"".to_vec()));
    match action {
        AcceptAction::Enqueue(req) => assert_eq!(req.payload, b"highlight".to_vec()),
        other => panic!("expected an enqueue, got {other:?}"),
    }
}

#[test]
fn processor_continues_when_no_reply_is_owed() {
    let mut p = Processor::new();
    assert_eq!(p.step(HandlerOutcome::NoReply), ProcessAction::Continue);
    assert!(!p.stopped);
}

#[test]
fn processor_orders_ordinary_responses_sent() {
    let mut p = Processor::new();
    let resp = Response::Other(b"ranges".to_vec());
    assert_eq!(p.step(HandlerOutcome::Reply(resp.clone())), ProcessAction::Send(resp));
    assert!(!p.stopped);
}

#[test]
fn processor_stops_on_the_shutdown_sentinel() {
    let mut p = Processor::new();
    let action = p.step(HandlerOutcome::Reply(Response::Shutdown));
    assert_eq!(action, ProcessAction::SignalShutdownAndStop);
    assert!(p.stopped);
}

#[test]
fn daemon_lifecycle_scenario_shutdown_request_ends_the_service() {
    // A bound daemon; a client sends a shutdown-triggering payload through
    // the sender path (tag reinterpreted, payload framed for the wire).
    let mut daemon = Daemon::new("/run/user/1000/app".to_string());
    let client_req = ClientRequest { payload: b"shutdown".to_vec() };
    let wire = encode_request(&client_req.reinterpret());

    // The accept loop reads the connection to completion and parses it.
    assert_eq!(daemon.on_accept_event(AcceptEvent::Payload(wire)), LoopStep::Enqueued);

    // A hostile connection in between costs only itself.
    assert_eq!(
        daemon.on_accept_event(AcceptEvent::Payload(b"\x07garbage".to_vec())),
        LoopStep::Discarded
    );

    // The processor drains: the handler is invoked once on the request and
    // yields the shutdown sentinel; the coordinator is signalled.
    let req = daemon.next_request().expect("one request was queued");
    assert_eq!(req.payload, b"shutdown".to_vec());
    let action = daemon.on_handler_outcome(HandlerOutcome::Reply(Response::Shutdown));
    assert_eq!(action, ProcessAction::SignalShutdownAndStop);

    // The accept loop observes the signal within one iteration and stops.
    assert_eq!(daemon.on_accept_event(AcceptEvent::ShutdownSignal), LoopStep::Stopped);
    assert!(!daemon.accepting);

    // Teardown removes the runtime directory the daemon owned.
    assert_eq!(daemon.teardown(), "/run/user/1000/app".to_string());
}

#[test]
fn daemon_discards_requests_queued_behind_the_shutdown_one() {
    let mut daemon = Daemon::new("/run/user/1000/app".to_string());
    let first = encode_request(&DaemonRequest { payload: b"shutdown".to_vec() });
    let second = encode_request(&DaemonRequest { payload: b"late".to_vec() });
    assert_eq!(daemon.on_accept_event(AcceptEvent::Payload(first)), LoopStep::Enqueued);
    assert_eq!(daemon.on_accept_event(AcceptEvent::Payload(second)), LoopStep::Enqueued);

    let req = daemon.next_request().expect("first request");
    assert_eq!(req.payload, b"shutdown".to_vec());
    let action = daemon.on_handler_outcome(HandlerOutcome::Reply(Response::Shutdown));
    assert_eq!(action, ProcessAction::SignalShutdownAndStop);
    // The drain stops here: the second request is still queued and is
    // discarded with the daemon, never handled.
    assert_eq!(daemon.on_accept_event(AcceptEvent::ShutdownSignal), LoopStep::Stopped);
    let _ = daemon.teardown();
}

#[test]
fn daemon_processes_in_accept_completion_order() {
    let mut daemon = Daemon::new("/tmp/kak-tree-sitter".to_string());
    for payload in [b"one".to_vec(), b"two".to_vec(), b"three".to_vec()] {
        let wire = encode_request(&DaemonRequest { payload });
        assert_eq!(daemon.on_accept_event(AcceptEvent::Payload(wire)), LoopStep::Enqueued);
    }
    assert_eq!(daemon.next_request().unwrap().payload, b"one".to_vec());
    assert_eq!(daemon.on_handler_outcome(HandlerOutcome::NoReply), ProcessAction::Continue);
    assert_eq!(daemon.next_request().unwrap().payload, b"two".to_vec());
    assert_eq!(
        daemon.on_handler_outcome(HandlerOutcome::Reply(Response::Other(b"r".to_vec()))),
        ProcessAction::Send(Response::Other(b"r".to_vec()))
    );
    assert_eq!(daemon.next_request().unwrap().payload, b"three".to_vec());
    assert_eq!(daemon.on_handler_outcome(HandlerOutcome::NoReply), ProcessAction::Continue);
    assert_eq!(daemon.next_request(), None);
}

#[test]
fn response_shutdown_is_the_only_sentinel() {
    assert!(Response::Shutdown.is_shutdown());
    assert!(!Response::Other(Vec::new()).is_shutdown());
}
