use node_test_kit::codec::fnf_error_text;
use node_test_kit::codec::marshal;
use node_test_kit::codec::parse_broadcast_trigger;
use node_test_kit::codec::unmarshal_error_text;
use node_test_kit::codec::unmarshal_text;
use node_test_kit::frames::BroadcastTrigger;
use node_test_kit::MessageBody;
use node_test_kit::MessagePath;

#[test]
fn marshal_conversational_envelope_has_exact_form() {
    let body = MessageBody {
        opcode: "shutdown".to_string(),
        path: MessagePath::Conversation(42),
    };
    assert_eq!(
        marshal(&body),
        "{\"opcode\": \"shutdown\", \"contextId\": 42, \"payload\": {}}"
    );
}

#[test]
fn marshal_fire_and_forget_envelope_has_exact_form() {
    let body = MessageBody {
        opcode: "crashed".to_string(),
        path: MessagePath::FireAndForget,
    };
    assert_eq!(marshal(&body), "{\"opcode\": \"crashed\", \"payload\": {}}");
}

#[test]
fn unmarshal_reads_opcode_and_context_id() {
    let b = unmarshal_text("{\"opcode\": \"checkPassword\", \"contextId\": 1234, \"payload\": {}}")
        .unwrap();
    assert_eq!(b.opcode, "checkPassword");
    assert_eq!(b.path, MessagePath::Conversation(1234));
}

#[test]
fn unmarshal_without_context_id_is_fire_and_forget() {
    let b = unmarshal_text("{\"opcode\": \"configurationChanged\", \"payload\": {}}").unwrap();
    assert_eq!(b.opcode, "configurationChanged");
    assert_eq!(b.path, MessagePath::FireAndForget);
}

#[test]
fn unmarshal_round_trips_marshal() {
    let body = MessageBody {
        opcode: "descriptor".to_string(),
        path: MessagePath::Conversation(3),
    };
    let text = marshal(&body);
    let back = unmarshal_text(&text).unwrap();
    assert_eq!(back, body);
}

#[test]
fn unmarshal_tolerates_compact_spacing() {
    let b = unmarshal_text("{\"opcode\":\"setup\",\"contextId\":7}").unwrap();
    assert_eq!(b.opcode, "setup");
    assert_eq!(b.path, MessagePath::Conversation(7));
}

#[test]
fn unmarshal_rejects_non_envelopes() {
    assert!(unmarshal_text("}: Bad request :{").is_none());
    assert!(unmarshal_text("").is_none());
    assert!(unmarshal_text("no braces at all").is_none());
    assert!(unmarshal_text("{\"other\": 1}").is_none());
}

#[test]
fn unmarshal_rejects_malformed_context_id() {
    assert!(unmarshal_text("{\"opcode\": \"x\", \"contextId\": oops}").is_none());
    // a value beyond the reach of a u64 is malformed, not wrapped
    assert!(unmarshal_text("{\"opcode\": \"x\", \"contextId\": 99999999999999999999999}").is_none());
}

#[test]
fn fnf_error_text_has_exact_form() {
    assert_eq!(
        fnf_error_text("setup", 5),
        "{\"opcode\": \"setup\", \"contextId\": 5, \"error\": {\"code\": 0, \"message\": \"You \
         tried to call up a fire-and-forget message from the queue by sending a conversational \
         request; try adjust the queue or similar\"}}"
    );
}

#[test]
fn unmarshal_error_text_escapes_the_offending_message() {
    assert_eq!(
        unmarshal_error_text("say \"hi\"\\now"),
        "{\"opcode\": \"unmarshalError\", \"payload\": {\"message\": \"say \\\"hi\\\"\\\\now\", \
         \"badData\": \"Could not decode the message envelope\"}}"
    );
}

#[test]
fn trigger_fields_parse_in_any_combination() {
    let both: Vec<char> =
        "{\"opcode\": \"broadcastTrigger\", \"batchSize\": 2, \"signalPosition\": 1}"
            .chars()
            .collect();
    assert_eq!(
        parse_broadcast_trigger(&both).unwrap(),
        BroadcastTrigger { batch_size_opt: Some(2), signal_position_opt: Some(1) }
    );

    let neither: Vec<char> = "{\"opcode\": \"broadcastTrigger\"}".chars().collect();
    assert_eq!(
        parse_broadcast_trigger(&neither).unwrap(),
        BroadcastTrigger { batch_size_opt: None, signal_position_opt: None }
    );

    let malformed: Vec<char> = "{\"opcode\": \"broadcastTrigger\", \"batchSize\": x}"
        .chars()
        .collect();
    assert!(parse_broadcast_trigger(&malformed).is_none());
}
