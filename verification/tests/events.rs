use vzctl::cli::{EXIT_INVALID_INPUT, EXIT_SUPERVISOR_UNHEALTHY};
use vzctl::events::{stream_step, subscription_refusal, Envelope, StreamRead, StreamStep, SubscribeReply};

fn good() -> Envelope {
    Envelope { version_one: true, ts_is_text: true, type_is_text: true, data_is_object: true }
}

fn finish(step: StreamStep) -> (u8, Option<String>) {
    match step {
        StreamStep::Finish(code, message) => (code, message),
        _ => panic!("expected the stream to finish"),
    }
}

#[test]
fn subscription_needs_ok_and_version_one() {
    let taken = SubscribeReply { ok: true, version_one: true, text: "{}".to_string() };
    assert!(subscription_refusal(&taken).is_none());
    let old = SubscribeReply { ok: true, version_one: false, text: "{\"result\":{\"ok\":true,\"v\":2}}".to_string() };
    assert_eq!(
        subscription_refusal(&old),
        Some((EXIT_INVALID_INPUT, "subscribe rejected: {\"result\":{\"ok\":true,\"v\":2}}".to_string()))
    );
}

#[test]
fn stream_steps() {
    assert!(matches!(stream_step(false, &StreamRead::Event(good()), false), StreamStep::Emit));
    assert!(matches!(stream_step(false, &StreamRead::Idle, false), StreamStep::Wait));
    assert_eq!(finish(stream_step(true, &StreamRead::Event(good()), false)), (0, None));
    assert_eq!(finish(stream_step(false, &StreamRead::Closed, true)), (0, None));
    assert_eq!(
        finish(stream_step(false, &StreamRead::Closed, false)),
        (EXIT_SUPERVISOR_UNHEALTHY, Some("supervisor closed the event stream".to_string()))
    );
    let mut bad = good();
    bad.data_is_object = false;
    assert_eq!(
        finish(stream_step(false, &StreamRead::Event(bad), false)),
        (EXIT_SUPERVISOR_UNHEALTHY, Some("invalid event envelope".to_string()))
    );
    assert_eq!(
        finish(stream_step(false, &StreamRead::Garbled("EOF while parsing".to_string()), false)),
        (EXIT_SUPERVISOR_UNHEALTHY, Some("invalid event JSON: EOF while parsing".to_string()))
    );
    assert_eq!(
        finish(stream_step(false, &StreamRead::Failed("reset".to_string()), false)),
        (EXIT_SUPERVISOR_UNHEALTHY, Some("event stream: reset".to_string()))
    );
}
