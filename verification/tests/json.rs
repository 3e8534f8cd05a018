use vzctl::doctor::{health_probe_of, SupervisorProbe};
use vzctl::events::{event_read_of, subscribe_reply_of, StreamRead};
use vzctl::json::{json_text, parse_json, Json, JsonNumber};
use vzctl::progress::{vm_state_event_of, ProgressMessage};

#[test]
fn json_reads_and_writes_back_compactly() {
    let value = parse_json(r#"{"b": [1, -2, 2.5, "x\"y"], "a": null, "c": {"t": true}}"#).unwrap();
    assert_eq!(json_text(&value), r#"{"a":null,"b":[1,-2,2.5,"x\"y"],"c":{"t":true}}"#);
    match &value {
        Json::Object(members) => {
            assert_eq!(members[0].0, "a");
            match &members[1].1 {
                Json::Array(items) => {
                    assert!(matches!(items[0], Json::Number(JsonNumber::PosInt(1))));
                    assert!(matches!(items[1], Json::Number(JsonNumber::NegInt(-2))));
                }
                other => panic!("expected an array, got {other:?}"),
            }
        }
        other => panic!("expected an object, got {other:?}"),
    }
    assert!(parse_json("{").is_err());
}

#[test]
fn health_reply_is_read_from_the_answer() {
    let line = r#"{"jsonrpc":"2.0","id":1,"result":{"ok":true,"db_ok":true,"pid":42,"version":"1.2.3","dns_ok":false,"dns":{"last_error":"bind failed"},"network_orphans":2}}"#;
    match health_probe_of(line) {
        SupervisorProbe::Replied(reply) => {
            assert!(reply.ok && reply.db_ok);
            assert_eq!(reply.pid, "42");
            assert_eq!(reply.version.as_deref(), Some("1.2.3"));
            assert_eq!(reply.dns_ok, Some(false));
            assert_eq!(reply.dns_last_error.as_deref(), Some("bind failed"));
            assert_eq!(reply.network_orphans, Some(2));
            assert_eq!(reply.vz_net_ok, None);
            assert!(reply.text.starts_with(r#"{"id":1,"jsonrpc":"2.0","result":{"db_ok":true"#));
        }
        _ => panic!("expected a reply"),
    }
    match health_probe_of(r#"{"result":{"ok":"true","db_ok":1}}"#) {
        SupervisorProbe::Replied(reply) => {
            assert!(!reply.ok && !reply.db_ok);
            assert_eq!(reply.pid, "null");
        }
        _ => panic!("expected a reply"),
    }
    match health_probe_of("not json") {
        SupervisorProbe::Failed(message) => assert!(message.starts_with("invalid health JSON: ")),
        _ => panic!("expected a failure"),
    }
}

#[test]
fn event_lines_and_subscribe_replies() {
    match event_read_of(r#"{"v":1,"ts":"now","type":"vm.state","data":{}}"#) {
        StreamRead::Event(e) => assert!(e.version_one && e.ts_is_text && e.type_is_text && e.data_is_object),
        _ => panic!("expected an event"),
    }
    match event_read_of(r#"{"v":1.0,"ts":3,"data":[]}"#) {
        StreamRead::Event(e) => assert!(!e.version_one && !e.ts_is_text && !e.type_is_text && !e.data_is_object),
        _ => panic!("expected an event"),
    }
    assert!(matches!(event_read_of("{oops"), StreamRead::Garbled(_)));
    let reply = subscribe_reply_of(r#"{"result":{"ok":true,"v":1}}"#).unwrap();
    assert!(reply.ok && reply.version_one);
    assert_eq!(reply.text, r#"{"result":{"ok":true,"v":1}}"#);
    let refused = subscribe_reply_of(r#"{"error":{"code":-32601}}"#).unwrap();
    assert!(!refused.ok && !refused.version_one);
    match subscribe_reply_of("") {
        Err(message) => assert!(message.starts_with("invalid subscribe response: ")),
        Ok(_) => panic!("expected a refusal"),
    }
}

#[test]
fn vm_state_events_become_progress_messages() {
    match vm_state_event_of(r#"{"type":"vm.state","data":{"vm_id":"demo/web","state":"running"}}"#) {
        Some(ProgressMessage::VmState { vm_id, state }) => {
            assert_eq!(vm_id, "demo/web");
            assert_eq!(state, "running");
        }
        other => panic!("expected a VM state, got {other:?}"),
    }
    assert!(vm_state_event_of(r#"{"type":"vm.log","data":{"vm_id":"w","state":"x"}}"#).is_none());
    assert!(vm_state_event_of(r#"{"type":"vm.state","data":{"vm_id":"","state":"x"}}"#).is_none());
    assert!(vm_state_event_of("garbage").is_none());
}
