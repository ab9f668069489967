use kucoin_core::stream::{
    subscribe_frame, subscription_frames, subscription_requests, subscription_topic,
    FrameDecision, Inbound, KucoinWebSocketClient, StreamAction, StreamEvent, StreamSession,
    StreamState, WebSocketKlineData, WebSocketKlineMessage, WebSocketSubscribe,
    OUTPUT_QUEUE_CAPACITY, SUBSCRIPTION_DELAY_MS,
};

fn symbols() -> Vec<String> {
    vec!["BTC-USDT".to_string(), "ETH-USDT".to_string()]
}

fn data(symbol: &str) -> WebSocketKlineData {
    WebSocketKlineData {
        symbol: symbol.to_string(),
        candles: vec![
            "1700000000".to_string(),
            "1".to_string(),
            "2".to_string(),
            "3".to_string(),
            "0.5".to_string(),
            "10".to_string(),
            "20".to_string(),
        ],
        time: 1700000000123,
    }
}

fn message(topic: &str) -> WebSocketKlineMessage {
    WebSocketKlineMessage {
        data: data("BTC-USDT"),
        subject: "trade.candles.update".to_string(),
        topic: topic.to_string(),
        message_type: "message".to_string(),
    }
}

fn session() -> StreamSession {
    KucoinWebSocketClient::new("wss://stream.example.com".to_string())
        .connect_and_subscribe(symbols(), "1hour".to_string())
}

const BTC_FRAME: &str = "{\"id\":1,\"type\":\"subscribe\",\"topic\":\"/market/candles:BTC-USDT_1hour\",\"privateChannel\":false,\"response\":true}";
const ETH_FRAME: &str = "{\"id\":1,\"type\":\"subscribe\",\"topic\":\"/market/candles:ETH-USDT_1hour\",\"privateChannel\":false,\"response\":true}";

#[test]
fn topic_of_a_symbol_and_interval() {
    assert_eq!(subscription_topic("BTC-USDT", "1hour"), "/market/candles:BTC-USDT_1hour");
    assert_eq!(subscription_topic("", ""), "/market/candles:_");
}

#[test]
fn subscriptions_follow_the_order_of_the_symbols() {
    let requests = subscription_requests(&symbols(), "1hour");
    assert_eq!(requests.len(), 2);
    assert_eq!(requests[0].topic, "/market/candles:BTC-USDT_1hour");
    assert_eq!(requests[1].topic, "/market/candles:ETH-USDT_1hour");
    for r in &requests {
        assert_eq!(r.id, 1);
        assert_eq!(r.message_type, "subscribe");
        assert!(!r.private_channel);
        assert!(r.response);
    }
    assert!(subscription_requests(&Vec::new(), "1hour").is_empty());
}

#[test]
fn subscription_as_json_text() {
    let request = WebSocketSubscribe::new("BTC-USDT", "1hour");
    assert_eq!(request.to_json().as_deref(), Some(BTC_FRAME));
    let frames = subscription_frames(&symbols(), "1hour");
    assert_eq!(frames, vec![Some(BTC_FRAME.to_string()), Some(ETH_FRAME.to_string())]);
}

#[test]
fn subscription_text_is_valid_json() {
    let text = WebSocketSubscribe::new("ETH-USDT", "1min").to_json().unwrap();
    let value: serde_json::Value = serde_json::from_str(&text).unwrap();
    assert_eq!(value["id"].as_u64(), Some(1));
    assert_eq!(value["type"].as_str(), Some("subscribe"));
    assert_eq!(value["topic"].as_str(), Some("/market/candles:ETH-USDT_1min"));
    assert_eq!(value["privateChannel"].as_bool(), Some(false));
    assert_eq!(value["response"].as_bool(), Some(true));
    assert_eq!(value.as_object().map(|o| o.len()), Some(5));
}

#[test]
fn strings_of_a_subscription_are_escaped() {
    let request = WebSocketSubscribe {
        id: 42,
        message_type: "sub\"scribe".to_string(),
        topic: "a\\b\nc".to_string(),
        private_channel: true,
        response: false,
    };
    let text = request.to_json().unwrap();
    assert_eq!(
        text,
        "{\"id\":42,\"type\":\"sub\\\"scribe\",\"topic\":\"a\\\\b\\nc\",\"privateChannel\":true,\"response\":false}"
    );
    let value: serde_json::Value = serde_json::from_str(&text).unwrap();
    assert_eq!(value["type"].as_str(), Some("sub\"scribe"));
    assert_eq!(value["topic"].as_str(), Some("a\\b\nc"));
}

#[test]
fn frame_from_literals() {
    assert_eq!(
        subscribe_frame(7, "\"t\"", "\"x\"", false, true),
        "{\"id\":7,\"type\":\"t\",\"topic\":\"x\",\"privateChannel\":false,\"response\":true}"
    );
    assert_eq!(
        subscribe_frame(u64::MAX, "", "", true, false),
        "{\"id\":18446744073709551615,\"type\":,\"topic\":,\"privateChannel\":true,\"response\":false}"
    );
}

#[test]
fn candle_frame_is_delivered_as_it_came() {
    let decision = KucoinWebSocketClient::handle_websocket_messages(Inbound::Text(Some(message(
        "/market/candles:BTC-USDT_1hour",
    ))));
    assert_eq!(decision, FrameDecision::Deliver(data("BTC-USDT")));
}

#[test]
fn ticker_frame_is_not_delivered() {
    let decision =
        KucoinWebSocketClient::handle_websocket_messages(Inbound::Text(Some(message("/market/ticker"))));
    assert_eq!(decision, FrameDecision::Ignore);
}

#[test]
fn other_frames() {
    let h = KucoinWebSocketClient::handle_websocket_messages;
    assert_eq!(h(Inbound::Text(None)), FrameDecision::Ignore);
    assert_eq!(h(Inbound::Ping), FrameDecision::Ignore);
    assert_eq!(h(Inbound::Other), FrameDecision::Ignore);
    assert_eq!(h(Inbound::Close), FrameDecision::Shutdown);
    assert_eq!(h(Inbound::Failure("reset".to_string())), FrameDecision::Shutdown);
}

#[test]
fn connection_url_carries_the_token() {
    let client = KucoinWebSocketClient::new("wss://stream.example.com".to_string());
    assert_eq!(client.connection_url("tok"), "wss://stream.example.com/?token=tok");
}

#[test]
fn new_session_is_idle() {
    let s = session();
    assert_eq!(s.state, StreamState::Idle);
    assert_eq!(s.base_url, "wss://stream.example.com");
    assert_eq!(s.next, 0);
    assert_eq!(s.frames.len(), 2);
}

#[test]
fn session_runs_from_idle_to_streaming() {
    let mut s = session();
    assert_eq!(s.step(StreamEvent::Start), StreamAction::FetchToken);
    assert_eq!(s.state, StreamState::Idle);
    assert_eq!(
        s.step(StreamEvent::Token(Ok("tok".to_string()))),
        StreamAction::Connect { url: "wss://stream.example.com/?token=tok".to_string() }
    );
    assert_eq!(s.state, StreamState::TokenFetched);
    assert_eq!(
        s.step(StreamEvent::ConnectionOpened),
        StreamAction::OpenQueue { capacity: 100 }
    );
    assert_eq!(OUTPUT_QUEUE_CAPACITY, 100);
    assert_eq!(s.state, StreamState::Connected);
    assert_eq!(s.step(StreamEvent::QueueOpened), StreamAction::Send { text: BTC_FRAME.to_string() });
    assert_eq!(s.state, StreamState::Subscribing);
    assert_eq!(s.step(StreamEvent::SubscriptionSent(true)), StreamAction::Pause { millis: 100 });
    assert_eq!(SUBSCRIPTION_DELAY_MS, 100);
    assert_eq!(s.step(StreamEvent::PauseElapsed), StreamAction::Send { text: ETH_FRAME.to_string() });
    assert_eq!(s.state, StreamState::Subscribing);
    assert_eq!(s.step(StreamEvent::SubscriptionSent(true)), StreamAction::Pause { millis: 100 });
    assert_eq!(s.step(StreamEvent::PauseElapsed), StreamAction::Receive);
    assert_eq!(s.state, StreamState::Streaming);

    let frame = Inbound::Text(Some(message("/market/candles:BTC-USDT_1hour")));
    assert_eq!(s.step(StreamEvent::Frame(frame)), StreamAction::Deliver(data("BTC-USDT")));
    assert_eq!(s.step(StreamEvent::Delivered(true)), StreamAction::Receive);
    let frame = Inbound::Text(Some(message("/market/ticker")));
    assert_eq!(s.step(StreamEvent::Frame(frame)), StreamAction::Receive);
    assert_eq!(s.step(StreamEvent::Frame(Inbound::Ping)), StreamAction::Receive);
    assert_eq!(s.state, StreamState::Streaming);
    assert_eq!(s.step(StreamEvent::Frame(Inbound::Close)), StreamAction::Close);
    assert_eq!(s.state, StreamState::Closed);
}

#[test]
fn failed_send_skips_the_pause() {
    let mut s = session();
    s.step(StreamEvent::Start);
    s.step(StreamEvent::Token(Ok("t".to_string())));
    s.step(StreamEvent::ConnectionOpened);
    s.step(StreamEvent::QueueOpened);
    assert_eq!(
        s.step(StreamEvent::SubscriptionSent(false)),
        StreamAction::Send { text: ETH_FRAME.to_string() }
    );
    assert_eq!(s.step(StreamEvent::SubscriptionSent(false)), StreamAction::Receive);
    assert_eq!(s.state, StreamState::Streaming);
}

#[test]
fn frames_that_could_not_be_rendered_are_passed_over() {
    let mut s = StreamSession {
        state: StreamState::Connected,
        base_url: "b".to_string(),
        frames: vec![None, Some("one".to_string()), None, None, Some("two".to_string()), None],
        next: 0,
    };
    assert_eq!(s.step(StreamEvent::QueueOpened), StreamAction::Send { text: "one".to_string() });
    assert_eq!(s.next, 2);
    assert_eq!(s.step(StreamEvent::PauseElapsed), StreamAction::Send { text: "two".to_string() });
    assert_eq!(s.next, 5);
    assert_eq!(s.step(StreamEvent::PauseElapsed), StreamAction::Receive);
    assert_eq!(s.next, 6);
    assert_eq!(s.state, StreamState::Streaming);
}

#[test]
fn session_without_symbols_goes_straight_to_reading() {
    let mut s = KucoinWebSocketClient::new("b".to_string())
        .connect_and_subscribe(Vec::new(), "1hour".to_string());
    s.step(StreamEvent::Start);
    s.step(StreamEvent::Token(Ok("t".to_string())));
    s.step(StreamEvent::ConnectionOpened);
    assert_eq!(s.step(StreamEvent::QueueOpened), StreamAction::Receive);
    assert_eq!(s.state, StreamState::Streaming);
}

#[test]
fn token_failure_ends_the_attempt() {
    let mut s = session();
    s.step(StreamEvent::Start);
    assert_eq!(
        s.step(StreamEvent::Token(Err("denied".to_string()))),
        StreamAction::Fail { cause: "denied".to_string() }
    );
    assert_eq!(s.state, StreamState::Closed);
}

#[test]
fn connection_failure_ends_the_attempt() {
    let mut s = session();
    s.step(StreamEvent::Start);
    s.step(StreamEvent::Token(Ok("t".to_string())));
    assert_eq!(
        s.step(StreamEvent::ConnectionFailed("refused".to_string())),
        StreamAction::Fail { cause: "refused".to_string() }
    );
    assert_eq!(s.state, StreamState::Closed);
}

fn streaming_session() -> StreamSession {
    let mut s = session();
    s.step(StreamEvent::Start);
    s.step(StreamEvent::Token(Ok("t".to_string())));
    s.step(StreamEvent::ConnectionOpened);
    s.step(StreamEvent::QueueOpened);
    s.step(StreamEvent::SubscriptionSent(true));
    s.step(StreamEvent::PauseElapsed);
    s.step(StreamEvent::SubscriptionSent(true));
    s.step(StreamEvent::PauseElapsed);
    assert_eq!(s.state, StreamState::Streaming);
    s
}

#[test]
fn consumer_gone_closes_the_session() {
    let mut s = streaming_session();
    let frame = Inbound::Text(Some(message("/market/candles:BTC-USDT_1hour")));
    assert_eq!(s.step(StreamEvent::Frame(frame)), StreamAction::Deliver(data("BTC-USDT")));
    assert_eq!(s.step(StreamEvent::Delivered(false)), StreamAction::Close);
    assert_eq!(s.state, StreamState::Closed);
}

#[test]
fn socket_failure_and_end_of_stream_close_the_session() {
    let mut s = streaming_session();
    assert_eq!(
        s.step(StreamEvent::Frame(Inbound::Failure("reset".to_string()))),
        StreamAction::Close
    );
    assert_eq!(s.state, StreamState::Closed);
    let mut s = streaming_session();
    assert_eq!(s.step(StreamEvent::StreamEnded), StreamAction::Close);
    assert_eq!(s.state, StreamState::Closed);
}

#[test]
fn closed_session_stays_closed() {
    let mut s = streaming_session();
    s.step(StreamEvent::Frame(Inbound::Close));
    assert_eq!(s.step(StreamEvent::Start), StreamAction::Close);
    assert_eq!(s.step(StreamEvent::Frame(Inbound::Ping)), StreamAction::Close);
    assert_eq!(s.step(StreamEvent::Delivered(true)), StreamAction::Close);
    assert_eq!(s.state, StreamState::Closed);
}

#[test]
fn unexpected_event_closes_the_session() {
    let mut s = session();
    assert_eq!(s.step(StreamEvent::ConnectionOpened), StreamAction::Close);
    assert_eq!(s.state, StreamState::Closed);
    let mut s = streaming_session();
    assert_eq!(s.step(StreamEvent::Token(Ok("t".to_string()))), StreamAction::Close);
    assert_eq!(s.state, StreamState::Closed);
}

#[test]
fn frame_needs_both_literals() {
    let request = WebSocketSubscribe::new("BTC-USDT", "1hour");
    assert_eq!(request.frame_of_literals(None, Some("\"x\"".to_string())), None);
    assert_eq!(request.frame_of_literals(Some("\"t\"".to_string()), None), None);
    assert_eq!(request.frame_of_literals(None, None), None);
    assert_eq!(
        request.frame_of_literals(Some("\"t\"".to_string()), Some("\"x\"".to_string())),
        Some(
            "{\"id\":1,\"type\":\"t\",\"topic\":\"x\",\"privateChannel\":false,\"response\":true}"
                .to_string()
        )
    );
}

fn message_with_fields(n: usize) -> WebSocketKlineMessage {
    let mut m = message("/market/candles:BTC-USDT_1hour");
    m.data.candles = (0..n).map(|i| format!("f{}", i)).collect();
    m
}

#[test]
fn candle_of_six_or_eight_fields_is_not_delivered() {
    for n in [0usize, 6, 8] {
        let decision =
            KucoinWebSocketClient::handle_websocket_messages(Inbound::Text(Some(message_with_fields(n))));
        assert_eq!(decision, FrameDecision::Ignore);
    }
    let decision =
        KucoinWebSocketClient::handle_websocket_messages(Inbound::Text(Some(message_with_fields(7))));
    assert_eq!(decision, FrameDecision::Deliver(message_with_fields(7).data));
}

#[test]
fn session_passes_over_a_candle_of_the_wrong_length() {
    let mut s = streaming_session();
    let frame = Inbound::Text(Some(message_with_fields(6)));
    assert_eq!(s.step(StreamEvent::Frame(frame)), StreamAction::Receive);
    let frame = Inbound::Text(Some(message_with_fields(8)));
    assert_eq!(s.step(StreamEvent::Frame(frame)), StreamAction::Receive);
    assert_eq!(s.state, StreamState::Streaming);
}

#[test]
fn every_subscription_is_rendered() {
    let many: Vec<String> = (0..20).map(|i| format!("S{}-USDT", i)).collect();
    let frames = subscription_frames(&many, "1min");
    assert_eq!(frames.len(), 20);
    for (i, frame) in frames.iter().enumerate() {
        assert_eq!(
            frame.as_deref(),
            Some(
                format!(
                    "{{\"id\":1,\"type\":\"subscribe\",\"topic\":\"/market/candles:S{}-USDT_1min\",\"privateChannel\":false,\"response\":true}}",
                    i
                )
                .as_str()
            )
        );
    }
}

#[test]
fn control_characters_are_escaped_by_name_or_number() {
    let request = WebSocketSubscribe {
        id: 1,
        message_type: "\u{8}\t\n\u{c}\r".to_string(),
        topic: "\u{0}\u{b}\u{1f}\u{7f} /\u{e9}".to_string(),
        private_channel: false,
        response: true,
    };
    assert_eq!(
        request.to_json().unwrap(),
        "{\"id\":1,\"type\":\"\\b\\t\\n\\f\\r\",\"topic\":\"\\u0000\\u000b\\u001f\u{7f} /\u{e9}\",\"privateChannel\":false,\"response\":true}"
    );
}
