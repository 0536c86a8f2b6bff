use hyperliquid_ws::{
    collect_send_results, frame_step, request_from_value, ping_payload, ping_step, reader_failure, reader_step,
    send_subscription_data, subscribe, unsubscribe, FrameAction, Message, PingAction, ReadOutcome,
    ReaderAction,
    Subscription, WsError, RECONNECT_DELAY, SEND_PING_INTERVAL,
};

#[test]
fn ping_text() {
    assert_eq!(ping_payload(), r#"{"method":"ping"}"#);
    assert_eq!(SEND_PING_INTERVAL, 15);
    assert_eq!(RECONNECT_DELAY, 1);
}

#[test]
fn subscribe_request_rewrites_identifier_as_json_value() {
    let ident = Subscription::L2Book { coin: "BTC".to_string() }.identifier();
    assert_eq!(
        subscribe(&ident).unwrap(),
        r#"{"method":"subscribe","subscription":{"coin":"BTC","type":"l2Book"}}"#
    );
    assert_eq!(
        unsubscribe(&ident).unwrap(),
        r#"{"method":"unsubscribe","subscription":{"coin":"BTC","type":"l2Book"}}"#
    );
    assert_eq!(
        send_subscription_data("subscribe", r#"{ "type" : "allMids" }"#).unwrap(),
        r#"{"method":"subscribe","subscription":{"type":"allMids"}}"#
    );
}

#[test]
fn subscribe_request_on_non_json_fails() {
    let serde_text = serde_json::from_str::<serde_json::Value>("not json")
        .unwrap_err()
        .to_string();
    assert_eq!(subscribe("not json"), Err(WsError::JsonParse(serde_text.clone())));
    assert_eq!(unsubscribe("not json"), send_subscription_data("unsubscribe", "not json"));
}

#[test]
fn json_object_frames() {
    assert_eq!(frame_step("{\"channel\":\"pong\"}"), FrameAction::Parse);
    assert_eq!(frame_step("Websocket connection established."), FrameAction::Skip);
    assert_eq!(frame_step(""), FrameAction::Skip);
    assert_eq!(frame_step(" {"), FrameAction::Skip);
}

#[test]
fn ping_decisions() {
    assert_eq!(ping_step(true), PingAction::Continue);
    assert_eq!(ping_step(false), PingAction::Stop);
}

#[test]
fn reader_decisions() {
    assert_eq!(reader_step(ReadOutcome::Frame, false), ReaderAction::Dispatch);
    assert_eq!(reader_step(ReadOutcome::Frame, true), ReaderAction::Dispatch);
    assert_eq!(reader_step(ReadOutcome::Failed, true), ReaderAction::Reconnect);
    assert_eq!(reader_step(ReadOutcome::Failed, false), ReaderAction::Stop);
    assert_eq!(reader_step(ReadOutcome::Closed, true), ReaderAction::Stop);
}

#[test]
fn reader_failure_messages() {
    assert_eq!(
        reader_failure(&WsError::GenericReader("reset".to_string())),
        Message::HyperliquidError("Reader error: \"reset\"".to_string())
    );
    assert_eq!(
        reader_failure(&WsError::ReaderTextConversion("utf8".to_string())),
        Message::HyperliquidError("Reader text conversion error: \"utf8\"".to_string())
    );
}

#[test]
fn error_texts() {
    assert_eq!(WsError::SubscriptionNotFound.message(), "Subscription not found");
    assert_eq!(WsError::UserEvents.message(), "Cannot subscribe to multiple user events");
    assert_eq!(WsError::JsonParse("x".to_string()).message(), "Json parse error: \"x\"");
    assert_eq!(WsError::Websocket("y".to_string()).message(), "Websocket error: \"y\"");
    assert_eq!(WsError::WsSend("z".to_string()).message(), "WS send error: \"z\"");
}

#[test]
fn send_results_report_last_failure() {
    assert_eq!(collect_send_results(&vec![None, None]), Ok(()));
    assert_eq!(collect_send_results(&vec![]), Ok(()));
    assert_eq!(
        collect_send_results(&vec![Some("a".to_string()), None, Some("b".to_string()), None]),
        Err(WsError::WsSend("b".to_string()))
    );
}

#[test]
fn request_text_from_value() {
    assert_eq!(
        request_from_value("subscribe", r#"{"coin":"BTC","type":"l2Book"}"#),
        r#"{"method":"subscribe","subscription":{"coin":"BTC","type":"l2Book"}}"#
    );
    assert_eq!(request_from_value("un\"sub", "1"), r#"{"method":"un\"sub","subscription":1}"#);
}
