use node_test_kit::frames::BroadcastTrigger;
use node_test_kit::frames::MessageBody;
use node_test_kit::server::resolve_termination;
use node_test_kit::server::Action;
use node_test_kit::server::BroadcastError;
use node_test_kit::server::IncomingFrame;
use node_test_kit::server::MockWebSocketsServer;
use node_test_kit::server::ServerCore;
use node_test_kit::MessagePath;
use node_test_kit::QueuedFrame;
use node_test_kit::EMPTY_QUEUE_SENTINEL;

fn conv_text(opcode: &str, context_id: u64) -> String {
    format!(
        "{{\"opcode\": \"{}\", \"contextId\": {}, \"payload\": {{}}}}",
        opcode, context_id
    )
}

fn fnf_text(opcode: &str) -> String {
    format!("{{\"opcode\": \"{}\", \"payload\": {{}}}}", opcode)
}

fn core_with_strings(texts: &[&str]) -> ServerCore {
    let mut queue: Vec<QueuedFrame> = Vec::new();
    for t in texts {
        queue.push(QueuedFrame::Text(t.to_string()));
    }
    ServerCore::new(queue, None)
}

fn conv_request(opcode: &str, context_id: u64) -> IncomingFrame {
    IncomingFrame::Text(conv_text(opcode, context_id))
}

#[test]
fn conversational_requests_drain_queue_in_fifo_order() {
    let c1 = conv_text("one", 1);
    let c2 = conv_text("two", 2);
    let mut core = core_with_strings(&[&c1, &c2]);

    let first = core.handle_tick(Some(conv_request("one", 1)), None).unwrap();
    let second = core.handle_tick(Some(conv_request("two", 2)), None).unwrap();

    assert_eq!(first.actions, vec![Action::SendText(c1)]);
    assert!(!first.terminate);
    assert_eq!(second.actions, vec![Action::SendText(c2)]);
    let log = core.into_requests();
    assert_eq!(log.len(), 2);
    let b0 = log[0].clone().unwrap();
    assert_eq!(b0.opcode, "one");
    assert_eq!(b0.path, MessagePath::Conversation(1));
    let b1 = log[1].clone().unwrap();
    assert_eq!(b1.opcode, "two");
    assert_eq!(b1.path, MessagePath::Conversation(2));
}

#[test]
fn empty_queue_yields_sentinel_byte() {
    let mut core = core_with_strings(&[]);
    let out = core.handle_tick(Some(conv_request("anything", 7)), None).unwrap();
    assert_eq!(out.actions, vec![Action::SendBinary(vec![EMPTY_QUEUE_SENTINEL])]);
    assert!(!out.terminate);
}

#[test]
fn fire_and_forget_is_never_answered() {
    let c1 = conv_text("one", 1);
    let mut core = core_with_strings(&[&c1]);
    let out = core
        .handle_tick(Some(IncomingFrame::Text(fnf_text("somethingElse"))), None)
        .unwrap();
    assert!(out.actions.is_empty());
    assert!(!out.terminate);
    let log = core.into_requests();
    assert_eq!(log.len(), 1);
    assert_eq!(log[0].clone().unwrap().path, MessagePath::FireAndForget);
}

#[test]
fn broadcast_trigger_corner_cases() {
    let c1 = conv_text("c1", 1);
    let c2 = conv_text("c2", 2);
    let b1 = fnf_text("b1");
    let b2 = fnf_text("b2");
    let b3 = fnf_text("b3");
    let c3 = conv_text("c3", 3);
    let b4 = fnf_text("b4");
    let mut core = core_with_strings(&[&c1, &c2, &b1, &b2, &b3, &c3, &b4]);

    let first = core.handle_tick(Some(conv_request("c1", 1)), None).unwrap();
    assert_eq!(first.actions, vec![Action::SendText(c1)]);
    let second = core.handle_tick(Some(conv_request("c2", 2)), None).unwrap();
    assert_eq!(second.actions, vec![Action::SendText(c2)]);

    let trigger_two = IncomingFrame::Text(
        "{\"opcode\": \"broadcastTrigger\", \"batchSize\": 2}".to_string(),
    );
    let third = core.handle_tick(Some(trigger_two), None).unwrap();
    assert_eq!(
        third.actions,
        vec![Action::SendText(b1.clone()), Action::SendText(b2.clone())]
    );

    let trigger_all = IncomingFrame::Text("{\"opcode\": \"broadcastTrigger\"}".to_string());
    let fourth = core.handle_tick(Some(trigger_all), None).unwrap();
    assert_eq!(fourth.actions, vec![Action::SendText(b3.clone())]);

    let fifth = core.handle_tick(Some(conv_request("c3", 3)), None).unwrap();
    assert_eq!(fifth.actions, vec![Action::SendText(c3)]);

    let trigger_rest = IncomingFrame::Text("{\"opcode\": \"broadcastTrigger\"}".to_string());
    let sixth = core.handle_tick(Some(trigger_rest), None).unwrap();
    assert_eq!(sixth.actions, vec![Action::SendText(b4)]);

    let empty = core.handle_tick(Some(conv_request("late", 9)), None).unwrap();
    assert_eq!(empty.actions, vec![Action::SendBinary(vec![EMPTY_QUEUE_SENTINEL])]);
}

#[test]
fn trigger_with_signal_fires_channel_exactly_once() {
    let b1 = fnf_text("b1");
    let b2 = fnf_text("b2");
    let (tx, rx) = crossbeam_channel::unbounded::<()>();
    let mut queue: Vec<QueuedFrame> = Vec::new();
    queue.push(QueuedFrame::Text(b1.clone()));
    queue.push(QueuedFrame::Text(b2.clone()));
    let mut core = ServerCore::new(queue, Some(tx));

    let trigger = IncomingFrame::Text(
        "{\"opcode\": \"broadcastTrigger\", \"signalPosition\": 1}".to_string(),
    );
    let out = core.handle_tick(Some(trigger), None).unwrap();
    assert_eq!(
        out.actions,
        vec![
            Action::SendText(b1),
            Action::FireSignal,
            Action::SendText(b2),
        ]
    );
    let signals: Vec<&Action> = out
        .actions
        .iter()
        .filter(|a| matches!(a, Action::FireSignal))
        .collect();
    assert_eq!(signals.len(), 1);
    let sender = out.taken_signal.expect("the registered channel is handed back");
    sender.send(()).unwrap();
    assert!(rx.try_recv().is_ok());
}

#[test]
fn signal_position_without_channel_is_fatal() {
    let mut core = core_with_strings(&[]);
    let trigger = IncomingFrame::Text(
        "{\"opcode\": \"broadcastTrigger\", \"signalPosition\": 0}".to_string(),
    );
    let r = core.handle_tick(Some(trigger), None);
    assert_eq!(r.unwrap_err(), BroadcastError::SignalWithoutSender);
}

#[test]
fn channel_without_signal_position_is_fatal() {
    let (tx, _rx) = crossbeam_channel::unbounded::<()>();
    let mut core = ServerCore::new(Vec::new(), Some(tx));
    let trigger = IncomingFrame::Text("{\"opcode\": \"broadcastTrigger\"}".to_string());
    let r = core.handle_tick(Some(trigger), None);
    assert_eq!(r.unwrap_err(), BroadcastError::SenderWithoutPosition);
}

#[test]
fn malformed_trigger_is_fatal() {
    let mut core = core_with_strings(&[]);
    let trigger = IncomingFrame::Text(
        "{\"opcode\": \"broadcastTrigger\", \"batchSize\": oops}".to_string(),
    );
    let r = core.handle_tick(Some(trigger), None);
    assert_eq!(r.unwrap_err(), BroadcastError::MalformedTrigger);
}

#[test]
fn stop_order_sends_close_and_kill_does_not() {
    let mut core = core_with_strings(&[]);
    let stopped = core.handle_tick(None, Some(false)).unwrap();
    assert_eq!(stopped.actions, vec![Action::SendClose]);
    assert!(stopped.terminate);

    let mut core2 = core_with_strings(&[]);
    let killed = core2.handle_tick(None, Some(true)).unwrap();
    assert!(killed.actions.is_empty());
    assert!(killed.terminate);
}

#[test]
fn message_in_same_tick_as_stop_order_is_answered_first() {
    let c1 = conv_text("one", 1);
    let mut core = core_with_strings(&[&c1]);
    let out = core.handle_tick(Some(conv_request("one", 1)), Some(false)).unwrap();
    assert_eq!(
        out.actions,
        vec![Action::SendText(c1), Action::SendClose]
    );
    assert!(out.terminate);
    assert_eq!(core.into_requests().len(), 1);
}

#[test]
fn raw_binary_frame_round_trips_bit_for_bit() {
    let bytes: Vec<u8> = vec![0, 255, 1, 2, 3, 101, 42];
    let mut queue: Vec<QueuedFrame> = Vec::new();
    queue.push(QueuedFrame::Binary(bytes.clone()));
    let mut core = ServerCore::new(queue, None);
    let out = core.handle_tick(Some(conv_request("x", 1)), None).unwrap();
    assert_eq!(out.actions, vec![Action::SendBinary(bytes)]);
}

#[test]
fn disconnect_directive_terminates_without_reply() {
    let mut core = core_with_strings(&["disconnect"]);
    let out = core.handle_tick(Some(conv_request("x", 1)), None).unwrap();
    assert!(out.actions.is_empty());
    assert!(out.terminate);
}

#[test]
fn close_directive_sends_close_and_keeps_looping() {
    let mut core = core_with_strings(&["close"]);
    let out = core.handle_tick(Some(conv_request("x", 1)), None).unwrap();
    assert_eq!(out.actions, vec![Action::SendClose]);
    assert!(!out.terminate);
}

#[test]
fn broadcast_shaped_entry_answers_conversational_request_with_error_envelope() {
    let b1 = fnf_text("b1");
    let mut core = core_with_strings(&[&b1]);
    let out = core.handle_tick(Some(conv_request("descriptor", 10000)), None).unwrap();
    let expected = "{\"opcode\": \"descriptor\", \"contextId\": 10000, \"error\": {\"code\": 0, \
                    \"message\": \"You tried to call up a fire-and-forget message from the queue \
                    by sending a conversational request; try adjust the queue or similar\"}}";
    assert_eq!(out.actions, vec![Action::SendText(expected.to_string())]);
    // the entry stays in place, so a trigger can still release it
    let trigger = IncomingFrame::Text("{\"opcode\": \"broadcastTrigger\"}".to_string());
    let second = core.handle_tick(Some(trigger), None).unwrap();
    assert_eq!(second.actions, vec![Action::SendText(b1)]);
}

#[test]
fn undecodable_text_gets_unmarshal_error_reply_and_is_logged_raw() {
    let mut core = core_with_strings(&[]);
    let out = core
        .handle_tick(Some(IncomingFrame::Text("}: Bad request :{".to_string())), None)
        .unwrap();
    let expected = "{\"opcode\": \"unmarshalError\", \"payload\": {\"message\": \
                    \"}: Bad request :{\", \"badData\": \"Could not decode the message \
                    envelope\"}}";
    assert_eq!(out.actions, vec![Action::SendText(expected.to_string())]);
    let log = core.into_requests();
    assert_eq!(log[0], Err("}: Bad request :{".to_string()));
}

#[test]
fn garbage_queued_text_is_sent_verbatim() {
    let mut core = core_with_strings(&["complete junk"]);
    let out = core.handle_tick(Some(conv_request("x", 1)), None).unwrap();
    assert_eq!(out.actions, vec![Action::SendText("complete junk".to_string())]);
}

#[test]
fn broadcast_walk_does_not_jump_over_conversational_entry() {
    let c1 = conv_text("c1", 1);
    let b1 = fnf_text("b1");
    let mut core = core_with_strings(&[&c1, &b1]);
    let trigger = IncomingFrame::Text("{\"opcode\": \"broadcastTrigger\"}".to_string());
    let out = core.handle_tick(Some(trigger), None).unwrap();
    assert!(out.actions.is_empty());
}

#[test]
fn termination_before_any_connection_is_abandoned_with_empty_log() {
    let plan_stop = resolve_termination(false, false);
    assert!(!plan_stop.join_worker);
    assert!(plan_stop.abandon_with_empty_log);
    assert!(!plan_stop.expect_close);

    let plan_kill = resolve_termination(false, true);
    assert!(!plan_kill.join_worker);
    assert!(plan_kill.abandon_with_empty_log);
}

#[test]
fn termination_after_loop_start_joins_and_owes_close_only_on_stop() {
    let stop = resolve_termination(true, false);
    assert!(stop.join_worker);
    assert!(stop.expect_close);
    assert!(!stop.abandon_with_empty_log);

    let kill = resolve_termination(true, true);
    assert!(kill.join_worker);
    assert!(!kill.expect_close);
}

#[test]
fn builder_accumulates_configuration_in_order() {
    let reply = MessageBody {
        opcode: "checkPassword".to_string(),
        path: MessagePath::Conversation(1),
    };
    let server = MockWebSocketsServer::new(1234)
        .queue_response(reply)
        .queue_string("{\"opcode\": \"b1\", \"payload\": {}}")
        .queue_owned_message(QueuedFrame::Close)
        .write_logs();
    assert_eq!(server.port(), 1234);
    assert_eq!(server.protocol, "MASQNode-UIv2");
    assert!(server.log);
    let (core, port, protocol, log) = server.into_worker();
    assert_eq!(port, 1234);
    assert_eq!(protocol, "MASQNode-UIv2");
    assert!(log);
    assert_eq!(core.responses().len(), 3);
    assert_eq!(
        core.responses()[0],
        QueuedFrame::Text(
            "{\"opcode\": \"checkPassword\", \"contextId\": 1, \"payload\": {}}".to_string()
        )
    );
    assert_eq!(core.responses()[2], QueuedFrame::Close);
}

#[test]
fn fire_signal_reports_false_without_channel_and_delivers_with_one() {
    let core = ServerCore::new(Vec::new(), None);
    assert!(!core.fire_signal());

    let (tx, rx) = crossbeam_channel::unbounded::<()>();
    let core2 = ServerCore::new(Vec::new(), Some(tx));
    assert!(core2.fire_signal());
    assert!(rx.try_recv().is_ok());
}

#[test]
fn batch_size_zero_releases_every_leading_broadcast() {
    let b1 = fnf_text("b1");
    let b2 = fnf_text("b2");
    let mut core = core_with_strings(&[&b1, &b2]);
    let trigger = IncomingFrame::Text(
        "{\"opcode\": \"broadcastTrigger\", \"batchSize\": 0}".to_string(),
    );
    let out = core.handle_tick(Some(trigger), None).unwrap();
    assert_eq!(out.actions, vec![Action::SendText(b1), Action::SendText(b2)]);
}

#[test]
fn trigger_consumes_registered_channel_even_when_position_is_never_reached() {
    let c1 = conv_text("c1", 1);
    let (tx, _rx) = crossbeam_channel::unbounded::<()>();
    let mut queue: Vec<QueuedFrame> = Vec::new();
    queue.push(QueuedFrame::Text(c1));
    let mut core = ServerCore::new(queue, Some(tx));
    let trigger = IncomingFrame::Text(
        "{\"opcode\": \"broadcastTrigger\", \"signalPosition\": 5}".to_string(),
    );
    let out = core.handle_tick(Some(trigger), None).unwrap();
    assert!(out.actions.is_empty());
    assert!(out.taken_signal.is_some());
    // the channel is gone now: a second positioned trigger is a misuse
    let trigger2 = IncomingFrame::Text(
        "{\"opcode\": \"broadcastTrigger\", \"signalPosition\": 0}".to_string(),
    );
    let r = core.handle_tick(Some(trigger2), None);
    assert_eq!(r.unwrap_err(), BroadcastError::SignalWithoutSender);
}

#[test]
fn unused_trigger_fields_resolve_batch_to_queue_length() {
    let t = "{\"opcode\": \"broadcastTrigger\"}";
    let chars: Vec<char> = t.chars().collect();
    let parsed = node_test_kit::codec::parse_broadcast_trigger(&chars).unwrap();
    assert_eq!(
        parsed,
        BroadcastTrigger { batch_size_opt: None, signal_position_opt: None }
    );
}
