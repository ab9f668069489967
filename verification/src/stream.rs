//! The market-data streaming client: subscription messages, the meaning of
//! inbound frames and the session's state machine. The transport itself is
//! the caller's: it performs each action and hands back what happened.

use crate::text::{contains_text, decimal, text_contains, u64_to_decimal};
use vstd::prelude::*;
use vstd::string::*;

verus! {

/// One candle update as it arrives on the stream.
#[derive(Debug, PartialEq, Eq)]
pub struct WebSocketKlineData {
    pub symbol: String,
    /// Seven strings: timestamp, open, close, high, low, volume, turnover.
    pub candles: Vec<String>,
    pub time: u64,
}

/// An inbound message that carries a candle update.
#[derive(Debug, PartialEq, Eq)]
pub struct WebSocketKlineMessage {
    pub data: WebSocketKlineData,
    pub subject: String,
    pub topic: String,
    /// The message's `type` field.
    pub message_type: String,
}

/// A subscription control message.
#[derive(Debug, PartialEq, Eq)]
pub struct WebSocketSubscribe {
    pub id: u64,
    /// The message's `type` field.
    pub message_type: String,
    pub topic: String,
    pub private_channel: bool,
    pub response: bool,
}

/// Number of fields in the candle of an event.
pub const KLINE_FIELDS: usize = 7;

/// Capacity of the queue through which events reach the consumer.
pub const OUTPUT_QUEUE_CAPACITY: usize = 100;

/// Pause after a subscription that was sent, in milliseconds.
pub const SUBSCRIPTION_DELAY_MS: u64 = 100;

/// The topic of the candles of `symbol` at `interval`.
pub open spec fn topic_of(symbol: Seq<char>, interval: Seq<char>) -> Seq<char> {
    "/market/candles:"@ + symbol + "_"@ + interval
}

/// Builds the topic of the candles of `symbol` at `interval`.
pub fn subscription_topic(symbol: &str, interval: &str) -> (r: String)
    ensures
        r@ == topic_of(symbol@, interval@),
{
    let mut topic = String::from_str("/market/candles:");
    topic.append(symbol);
    topic.append("_");
    topic.append(interval);
    topic
}

/// The lower-case hexadecimal digit of a value below sixteen.
pub open spec fn hex_digit(d: int) -> char {
    if d < 10 {
        (48 + d) as char
    } else {
        (87 + d) as char
    }
}

/// How one character stands inside a JSON string literal: the quote and the
/// backslash behind a backslash; backspace, tab, line feed, form feed and
/// carriage return by their letters; every other character below U+0020 as
/// `\u00` and two hexadecimal digits; every other character as it is.
pub open spec fn json_escape(c: char) -> Seq<char> {
    let code = c as int;
    if code == 34 {
        seq!['\\', '"']
    } else if code == 92 {
        seq!['\\', '\\']
    } else if code == 8 {
        seq!['\\', 'b']
    } else if code == 9 {
        seq!['\\', 't']
    } else if code == 10 {
        seq!['\\', 'n']
    } else if code == 12 {
        seq!['\\', 'f']
    } else if code == 13 {
        seq!['\\', 'r']
    } else if code < 32 {
        seq!['\\', 'u', '0', '0', hex_digit(code / 16), hex_digit(code % 16)]
    } else {
        seq![c]
    }
}

/// The characters of a text, each as it stands inside a JSON string literal.
pub open spec fn json_escaped(text: Seq<char>) -> Seq<char>
    decreases text.len(),
{
    if text.len() == 0 {
        Seq::empty()
    } else {
        json_escaped(text.drop_last()) + json_escape(text.last())
    }
}

/// The JSON string literal of a text: the escaped characters between quotes.
pub open spec fn json_literal(text: Seq<char>) -> Seq<char> {
    seq!['"'] + json_escaped(text) + seq!['"']
}

/// Renders a text as a JSON string literal with `serde_json::to_string`. For
/// a string the call cannot fail: its only error is one of the writer, and
/// it writes into a byte vector. The literal is the text between quotes with
/// seven characters escaped by name and the other control characters below
/// U+0020 by number.
#[verifier::external_body]
fn json_string(text: &str) -> (r: Option<String>)
    ensures
        r is Some,
        r->0@ == json_literal(text@),
{
    serde_json::to_string(text).ok()
}

/// The JSON text of a boolean.
pub open spec fn bool_text(b: bool) -> Seq<char> {
    if b {
        "true"@
    } else {
        "false"@
    }
}

/// The text of a subscription message, given the JSON literals of its two
/// strings: the five fields in their fixed order, without white space.
pub open spec fn subscribe_text(
    id: u64,
    type_literal: Seq<char>,
    topic_literal: Seq<char>,
    private_channel: bool,
    response: bool,
) -> Seq<char> {
    "{\"id\":"@ + decimal(id as nat) + ",\"type\":"@ + type_literal + ",\"topic\":"@ + topic_literal
        + ",\"privateChannel\":"@ + bool_text(private_channel) + ",\"response\":"@ + bool_text(
        response,
    ) + "}"@
}

/// Frames a subscription message from the JSON literals of its two strings.
pub fn subscribe_frame(
    id: u64,
    type_literal: &str,
    topic_literal: &str,
    private_channel: bool,
    response: bool,
) -> (r: String)
    ensures
        r@ == subscribe_text(id, type_literal@, topic_literal@, private_channel, response),
{
    let mut text = String::from_str("{\"id\":");
    let number = u64_to_decimal(id);
    text.append(number.as_str());
    text.append(",\"type\":");
    text.append(type_literal);
    text.append(",\"topic\":");
    text.append(topic_literal);
    text.append(",\"privateChannel\":");
    text.append(if private_channel { "true" } else { "false" });
    text.append(",\"response\":");
    text.append(if response { "true" } else { "false" });
    text.append("}");
    text
}

impl WebSocketSubscribe {
    /// The subscription to the candles of `symbol` at `interval`.
    pub open spec fn candles_of(symbol: Seq<char>, interval: Seq<char>, request: Self) -> bool {
        &&& request.id == 1
        &&& request.message_type@ == "subscribe"@
        &&& request.topic@ == topic_of(symbol, interval)
        &&& !request.private_channel
        &&& request.response
    }

    /// The text frame of this message: `subscribe_text` over the JSON
    /// literals of its two strings.
    pub open spec fn json_text(&self) -> Seq<char> {
        subscribe_text(
            self.id,
            json_literal(self.message_type@),
            json_literal(self.topic@),
            self.private_channel,
            self.response,
        )
    }

    /// Builds the subscription to the candles of `symbol` at `interval`.
    pub fn new(symbol: &str, interval: &str) -> (r: Self)
        ensures
            Self::candles_of(symbol@, interval@, r),
    {
        WebSocketSubscribe {
            id: 1,
            message_type: String::from_str("subscribe"),
            topic: subscription_topic(symbol, interval),
            private_channel: false,
            response: true,
        }
    }

    /// The message as a text frame, given what became of rendering its two
    /// strings as JSON literals: the frame where both were rendered, `None`
    /// where one was not.
    pub fn frame_of_literals(
        &self,
        type_literal: Option<String>,
        topic_literal: Option<String>,
    ) -> (r: Option<String>)
        ensures
            r is Some <==> type_literal is Some && topic_literal is Some,
            r matches Some(text) ==> text@ == subscribe_text(
                self.id,
                type_literal->0@,
                topic_literal->0@,
                self.private_channel,
                self.response,
            ),
    {
        match (type_literal, topic_literal) {
            (Some(type_text), Some(topic_text)) => Some(
                subscribe_frame(
                    self.id,
                    type_text.as_str(),
                    topic_text.as_str(),
                    self.private_channel,
                    self.response,
                ),
            ),
            _ => None,
        }
    }

    /// The message as the text frame to send: the five fields framed round
    /// the JSON literals of the two strings. It is always there.
    pub fn to_json(&self) -> (r: Option<String>)
        ensures
            r matches Some(text) && text@ == self.json_text(),
    {
        let type_literal = json_string(self.message_type.as_str());
        let topic_literal = json_string(self.topic.as_str());
        self.frame_of_literals(type_literal, topic_literal)
    }
}

/// One subscription per symbol, in the order of the symbols.
pub fn subscription_requests(symbols: &Vec<String>, interval: &str) -> (r: Vec<WebSocketSubscribe>)
    ensures
        r@.len() == symbols@.len(),
        forall|i: int|
            0 <= i < r@.len() ==> WebSocketSubscribe::candles_of(
                symbols@[i]@,
                interval@,
                #[trigger] r@[i],
            ),
{
    let mut requests: Vec<WebSocketSubscribe> = Vec::new();
    let mut i: usize = 0;
    while i < symbols.len()
        invariant
            i <= symbols@.len(),
            requests@.len() == i,
            forall|k: int|
                0 <= k < i ==> WebSocketSubscribe::candles_of(
                    symbols@[k]@,
                    interval@,
                    #[trigger] requests@[k],
                ),
        decreases symbols@.len() - i,
    {
        requests.push(WebSocketSubscribe::new(symbols[i].as_str(), interval));
        i = i + 1;
    }
    requests
}

/// The text frame of the subscription to `symbol` at `interval`.
pub open spec fn subscription_frame_text(symbol: Seq<char>, interval: Seq<char>) -> Seq<char> {
    subscribe_text(
        1,
        json_literal("subscribe"@),
        json_literal(topic_of(symbol, interval)),
        false,
        true,
    )
}

/// The text frames of the subscriptions, one per symbol and in the order of
/// the symbols; every one is there.
pub fn subscription_frames(symbols: &Vec<String>, interval: &str) -> (r: Vec<Option<String>>)
    ensures
        r@.len() == symbols@.len(),
        forall|i: int|
            0 <= i < r@.len() ==> ((#[trigger] r@[i]) matches Some(text) && text@
                == subscription_frame_text(symbols@[i]@, interval@)),
{
    let requests = subscription_requests(symbols, interval);
    let mut frames: Vec<Option<String>> = Vec::new();
    let mut i: usize = 0;
    while i < requests.len()
        invariant
            i <= requests@.len(),
            requests@.len() == symbols@.len(),
            frames@.len() == i,
            forall|k: int|
                0 <= k < requests@.len() ==> WebSocketSubscribe::candles_of(
                    symbols@[k]@,
                    interval@,
                    #[trigger] requests@[k],
                ),
            forall|k: int|
                0 <= k < i ==> ((#[trigger] frames@[k]) matches Some(text) && text@
                    == subscription_frame_text(symbols@[k]@, interval@)),
        decreases requests@.len() - i,
    {
        let frame = requests[i].to_json();
        frames.push(frame);
        i = i + 1;
    }
    frames
}

/// What arrived on the stream.
#[derive(Debug, PartialEq, Eq)]
pub enum Inbound {
    /// A text frame: the candle message decoded from it, or `None` where it
    /// is not one.
    Text(Option<WebSocketKlineMessage>),
    /// A ping; the transport answers it.
    Ping,
    /// The close frame.
    Close,
    /// The socket failed.
    Failure(String),
    /// Any other frame.
    Other,
}

/// What to do with an inbound frame.
#[derive(Debug, PartialEq, Eq)]
pub enum FrameDecision {
    /// Hand the event to the consumer.
    Deliver(WebSocketKlineData),
    /// Go on reading.
    Ignore,
    /// Stop reading and close.
    Shutdown,
}

/// A message carries an event for the consumer: its topic names candles and
/// its candle has exactly seven fields.
pub open spec fn is_kline_event(message: WebSocketKlineMessage) -> bool {
    contains_text(message.topic@, "candles"@) && message.data.candles@.len() == KLINE_FIELDS
}

/// What an inbound frame means: a message that carries an event is delivered
/// as it came; a close frame or a socket failure ends the session; every
/// other frame is passed over.
pub open spec fn frame_decision(frame: Inbound) -> FrameDecision {
    match frame {
        Inbound::Text(Some(message)) => if is_kline_event(message) {
            FrameDecision::Deliver(message.data)
        } else {
            FrameDecision::Ignore
        },
        Inbound::Text(None) => FrameDecision::Ignore,
        Inbound::Ping => FrameDecision::Ignore,
        Inbound::Close => FrameDecision::Shutdown,
        Inbound::Failure(_) => FrameDecision::Shutdown,
        Inbound::Other => FrameDecision::Ignore,
    }
}

/// Position of the first frame at or after `from` that could be rendered, or
/// the number of frames where there is none.
pub open spec fn next_frame(frames: Seq<Option<String>>, from: int) -> int
    decreases frames.len() - from,
{
    if from >= frames.len() {
        frames.len() as int
    } else if frames[from] is Some {
        from
    } else {
        next_frame(frames, from + 1)
    }
}

/// The states of a streaming session.
#[derive(Debug, Clone, Copy, PartialEq, Eq, Structural)]
pub enum StreamState {
    Idle,
    TokenFetched,
    Connected,
    Subscribing,
    Streaming,
    Closed,
}

/// What the transport reports back to the session.
#[derive(Debug, PartialEq, Eq)]
pub enum StreamEvent {
    /// The caller starts the session.
    Start,
    /// The session token, or why it could not be fetched.
    Token(Result<String, String>),
    /// The connection is open.
    ConnectionOpened,
    /// The connection could not be opened.
    ConnectionFailed(String),
    /// The output queue exists and its receiving end is with the consumer.
    QueueOpened,
    /// A subscription was sent, or failed to be.
    SubscriptionSent(bool),
    /// The pause after a subscription is over.
    PauseElapsed,
    /// A frame arrived.
    Frame(Inbound),
    /// The stream has no more frames.
    StreamEnded,
    /// The consumer took the event, or its end of the queue is gone.
    Delivered(bool),
}

/// What the transport is to do next.
#[derive(Debug, PartialEq, Eq)]
pub enum StreamAction {
    /// Obtain a session token.
    FetchToken,
    /// Open the connection to `url`.
    Connect { url: String },
    /// Create the bounded output queue.
    OpenQueue { capacity: usize },
    /// Send `text` as a text frame.
    Send { text: String },
    /// Wait before the next subscription.
    Pause { millis: u64 },
    /// Wait for the next frame.
    Receive,
    /// Put the event on the output queue.
    Deliver(WebSocketKlineData),
    /// Close the connection; the session is over.
    Close,
    /// Report to the caller that the connection attempt failed; the session
    /// is over.
    Fail { cause: String },
}

/// The streaming client: where to connect.
#[derive(Debug)]
pub struct KucoinWebSocketClient {
    base_url: String,
}

impl View for KucoinWebSocketClient {
    type V = Seq<char>;

    closed spec fn view(&self) -> Seq<char> {
        self.base_url@
    }
}

/// One streaming session, as the state machine sees it.
#[derive(Debug)]
pub struct StreamSession {
    pub state: StreamState,
    /// Where to connect.
    pub base_url: String,
    /// The subscription frames, in the order in which they go out.
    pub frames: Vec<Option<String>>,
    /// Position of the first frame that has not been handled.
    pub next: usize,
}

/// The URL of the connection for a session token.
pub open spec fn connection_url_text(base_url: Seq<char>, token: Seq<char>) -> Seq<char> {
    base_url + "/?token="@ + token
}

/// `after` is `before` in another state.
pub open spec fn moved(before: StreamSession, after: StreamSession, state: StreamState) -> bool {
    &&& after.state == state
    &&& after.base_url == before.base_url
    &&& after.frames == before.frames
    &&& after.next == before.next
}

/// The session goes on to its next subscription, or to reading once all
/// subscriptions have been handled. Frames that could not be rendered are
/// passed over.
pub open spec fn resumes(before: StreamSession, after: StreamSession, action: StreamAction) -> bool {
    let k = next_frame(before.frames@, before.next as int);
    &&& after.base_url == before.base_url
    &&& after.frames == before.frames
    &&& if k < before.frames@.len() {
        &&& after.state == StreamState::Subscribing
        &&& after.next == k + 1
        &&& action matches StreamAction::Send { text }
        &&& before.frames@[k] == Some(text)
    } else {
        &&& after.state == StreamState::Streaming
        &&& after.next == before.frames@.len()
        &&& action == StreamAction::Receive
    }
}

/// The session ends: the connection is to be closed.
pub open spec fn stops(before: StreamSession, after: StreamSession, action: StreamAction) -> bool {
    moved(before, after, StreamState::Closed) && action == StreamAction::Close
}

/// The session's transition relation: from the state `before` and the event
/// to the state `after` and the action that the transport is to perform.
pub open spec fn transition(
    before: StreamSession,
    event: StreamEvent,
    after: StreamSession,
    action: StreamAction,
) -> bool {
    match (before.state, event) {
        (StreamState::Idle, StreamEvent::Start) => {
            after == before && action == StreamAction::FetchToken
        },
        (StreamState::Idle, StreamEvent::Token(Ok(token))) => {
            &&& moved(before, after, StreamState::TokenFetched)
            &&& action matches StreamAction::Connect { url }
            &&& url@ == connection_url_text(before.base_url@, token@)
        },
        (StreamState::Idle, StreamEvent::Token(Err(cause))) => {
            moved(before, after, StreamState::Closed) && action == (StreamAction::Fail { cause })
        },
        (StreamState::TokenFetched, StreamEvent::ConnectionOpened) => {
            moved(before, after, StreamState::Connected) && action == (StreamAction::OpenQueue {
                capacity: OUTPUT_QUEUE_CAPACITY,
            })
        },
        (StreamState::TokenFetched, StreamEvent::ConnectionFailed(cause)) => {
            moved(before, after, StreamState::Closed) && action == (StreamAction::Fail { cause })
        },
        (StreamState::Connected, StreamEvent::QueueOpened) => resumes(before, after, action),
        (StreamState::Subscribing, StreamEvent::SubscriptionSent(sent)) => if sent {
            after == before && action == (StreamAction::Pause { millis: SUBSCRIPTION_DELAY_MS })
        } else {
            resumes(before, after, action)
        },
        (StreamState::Subscribing, StreamEvent::PauseElapsed) => resumes(before, after, action),
        (StreamState::Streaming, StreamEvent::Frame(frame)) => match frame_decision(frame) {
            FrameDecision::Deliver(data) => after == before && action == StreamAction::Deliver(
                data,
            ),
            FrameDecision::Ignore => after == before && action == StreamAction::Receive,
            FrameDecision::Shutdown => stops(before, after, action),
        },
        (StreamState::Streaming, StreamEvent::Delivered(taken)) => if taken {
            after == before && action == StreamAction::Receive
        } else {
            stops(before, after, action)
        },
        _ => stops(before, after, action),
    }
}

impl KucoinWebSocketClient {
    /// A client that connects to `base_url`.
    pub fn new(base_url: String) -> (r: Self)
        ensures
            r@ == base_url@,
    {
        Self { base_url }
    }

    /// The URL of the connection for a session token.
    pub fn connection_url(&self, token: &str) -> (r: String)
        ensures
            r@ == connection_url_text(self@, token@),
    {
        let mut url = self.base_url.clone();
        url.append("/?token=");
        url.append(token);
        url
    }

    /// Sets up the session that subscribes to the candles of `symbols` at
    /// `interval`: one frame per symbol, in that order. The session is idle:
    /// nothing has been sent.
    pub fn connect_and_subscribe(&self, symbols: Vec<String>, interval: String) -> (r:
        StreamSession)
        ensures
            r.wf(),
            r.state == StreamState::Idle,
            r.base_url@ == self@,
            r.next == 0,
            r.frames@.len() == symbols@.len(),
            forall|i: int|
                0 <= i < symbols@.len() ==> ((#[trigger] r.frames@[i]) matches Some(text) && text@
                    == subscription_frame_text(symbols@[i]@, interval@)),
    {
        let frames = subscription_frames(&symbols, interval.as_str());
        StreamSession { state: StreamState::Idle, base_url: self.base_url.clone(), frames, next: 0 }
    }

    /// Decides what to do with one inbound frame.
    pub fn handle_websocket_messages(frame: Inbound) -> (r: FrameDecision)
        ensures
            r == frame_decision(frame),
    {
        match frame {
            Inbound::Text(Some(message)) => if message.data.candles.len() == KLINE_FIELDS
                && text_contains(message.topic.as_str(), "candles") {
                FrameDecision::Deliver(message.data)
            } else {
                FrameDecision::Ignore
            },
            Inbound::Text(None) => FrameDecision::Ignore,
            Inbound::Ping => FrameDecision::Ignore,
            Inbound::Close => FrameDecision::Shutdown,
            Inbound::Failure(_) => FrameDecision::Shutdown,
            Inbound::Other => FrameDecision::Ignore,
        }
    }
}

impl StreamSession {
    /// The position from which subscriptions are still to be handled lies
    /// within the frames.
    pub open spec fn wf(&self) -> bool {
        self.next <= self.frames@.len()
    }

    fn resume(&mut self) -> (action: StreamAction)
        requires
            old(self).wf(),
        ensures
            final(self).wf(),
            resumes(*old(self), *final(self), action),
    {
        let mut k: usize = self.next;
        while k < self.frames.len()
            invariant
                self.next <= k <= self.frames@.len(),
                *self == *old(self),
                next_frame(self.frames@, self.next as int) == next_frame(self.frames@, k as int),
            decreases self.frames@.len() - k,
        {
            match &self.frames[k] {
                Some(text) => {
                    let text = text.clone();
                    self.next = k + 1;
                    self.state = StreamState::Subscribing;
                    return StreamAction::Send { text };
                },
                None => {},
            }
            k = k + 1;
        }
        self.next = self.frames.len();
        self.state = StreamState::Streaming;
        StreamAction::Receive
    }

    fn stop(&mut self) -> (action: StreamAction)
        ensures
            stops(*old(self), *final(self), action),
    {
        self.state = StreamState::Closed;
        StreamAction::Close
    }

    /// Takes one event and says what the transport is to do next. Whatever
    /// the event, a closed session stays closed, and an event that the state
    /// does not expect closes the session.
    pub fn step(&mut self, event: StreamEvent) -> (action: StreamAction)
        requires
            old(self).wf(),
        ensures
            final(self).wf(),
            transition(*old(self), event, *final(self), action),
    {
        match self.state {
            StreamState::Idle => match event {
                StreamEvent::Start => StreamAction::FetchToken,
                StreamEvent::Token(Ok(token)) => {
                    let mut url = self.base_url.clone();
                    url.append("/?token=");
                    url.append(token.as_str());
                    self.state = StreamState::TokenFetched;
                    StreamAction::Connect { url }
                },
                StreamEvent::Token(Err(cause)) => {
                    self.state = StreamState::Closed;
                    StreamAction::Fail { cause }
                },
                _ => self.stop(),
            },
            StreamState::TokenFetched => match event {
                StreamEvent::ConnectionOpened => {
                    self.state = StreamState::Connected;
                    StreamAction::OpenQueue { capacity: OUTPUT_QUEUE_CAPACITY }
                },
                StreamEvent::ConnectionFailed(cause) => {
                    self.state = StreamState::Closed;
                    StreamAction::Fail { cause }
                },
                _ => self.stop(),
            },
            StreamState::Connected => match event {
                StreamEvent::QueueOpened => self.resume(),
                _ => self.stop(),
            },
            StreamState::Subscribing => match event {
                StreamEvent::SubscriptionSent(sent) => if sent {
                    StreamAction::Pause { millis: SUBSCRIPTION_DELAY_MS }
                } else {
                    self.resume()
                },
                StreamEvent::PauseElapsed => self.resume(),
                _ => self.stop(),
            },
            StreamState::Streaming => match event {
                StreamEvent::Frame(frame) => match KucoinWebSocketClient::handle_websocket_messages(
                    frame,
                ) {
                    FrameDecision::Deliver(data) => StreamAction::Deliver(data),
                    FrameDecision::Ignore => StreamAction::Receive,
                    FrameDecision::Shutdown => self.stop(),
                },
                StreamEvent::Delivered(taken) => if taken {
                    StreamAction::Receive
                } else {
                    self.stop()
                },
                _ => self.stop(),
            },
            StreamState::Closed => self.stop(),
        }
    }
}

/// Subscriptions go out in the order of the frames: the frame that is sent
/// is the first one, from the session's position on, that could be rendered,
/// and the position moves past it.
pub proof fn lemma_subscriptions_go_out_in_order(
    before: StreamSession,
    after: StreamSession,
    action: StreamAction,
)
    requires
        before.wf(),
        resumes(before, after, action),
    ensures
        after.wf(),
        before.next <= after.next,
        action matches StreamAction::Send { text } ==> {
            &&& before.next < after.next
            &&& before.frames@[after.next - 1] == Some(text)
            &&& forall|i: int| before.next <= i < after.next - 1 ==> before.frames@[i] is None
        },
        action == StreamAction::Receive ==> forall|i: int|
            before.next <= i < before.frames@.len() ==> before.frames@[i] is None,
{
    lemma_next_frame(before.frames@, before.next as int);
}

/// `next_frame` finds the first frame that could be rendered.
pub proof fn lemma_next_frame(frames: Seq<Option<String>>, from: int)
    requires
        0 <= from <= frames.len(),
    ensures
        from <= next_frame(frames, from) <= frames.len(),
        next_frame(frames, from) < frames.len() ==> frames[next_frame(frames, from)] is Some,
        forall|i: int| from <= i < next_frame(frames, from) ==> frames[i] is None,
    decreases frames.len() - from,
{
    if from < frames.len() && frames[from] is None {
        lemma_next_frame(frames, from + 1);
    }
}

/// A closed session stays closed: whatever the event, the state remains
/// `Closed` and the only action is to close.
pub proof fn lemma_closed_is_terminal(
    before: StreamSession,
    event: StreamEvent,
    after: StreamSession,
    action: StreamAction,
)
    requires
        before.state == StreamState::Closed,
        transition(before, event, after, action),
    ensures
        after.state == StreamState::Closed,
        action == StreamAction::Close,
{
}

/// Once the consumer's end of the queue is gone, the session delivers
/// nothing more: the next step closes the connection and ends the session.
pub proof fn lemma_consumer_gone_closes(
    before: StreamSession,
    after: StreamSession,
    action: StreamAction,
)
    requires
        before.state == StreamState::Streaming,
        transition(before, StreamEvent::Delivered(false), after, action),
    ensures
        after.state == StreamState::Closed,
        action == StreamAction::Close,
{
}

/// While streaming, an event reaches the consumer exactly when a message
/// arrived whose topic names candles and whose candle has seven fields, and
/// then it is that message's data as it came: every event that is delivered
/// has a candle of seven fields.
pub proof fn lemma_delivery(
    before: StreamSession,
    frame: Inbound,
    after: StreamSession,
    action: StreamAction,
)
    requires
        before.state == StreamState::Streaming,
        transition(before, StreamEvent::Frame(frame), after, action),
    ensures
        action is Deliver <==> (frame matches Inbound::Text(Some(message)) && contains_text(
            message.topic@,
            "candles"@,
        ) && message.data.candles@.len() == 7),
        action matches StreamAction::Deliver(data) ==> frame matches Inbound::Text(Some(message))
            && data == message.data && data.candles@.len() == 7,
{
}

/// Whatever the state and the event, an event that is handed to the consumer
/// has a candle of exactly seven fields and came under a topic that names
/// candles.
pub proof fn lemma_delivered_events_are_kline_events(
    before: StreamSession,
    event: StreamEvent,
    after: StreamSession,
    action: StreamAction,
)
    requires
        transition(before, event, after, action),
    ensures
        action matches StreamAction::Deliver(data) ==> {
            &&& data.candles@.len() == 7
            &&& before.state == StreamState::Streaming
            &&& event matches StreamEvent::Frame(Inbound::Text(Some(message)))
            &&& is_kline_event(message)
            &&& data == message.data
        },
{
}

} // verus!
