use vstd::prelude::*;
use crate::error::{WsError, error_text};
use crate::json::{json_string, push_json_string};
use crate::message::Message;
use crate::subscription::json_member;
use crate::text::push_char;

verus! {

/// Seconds between two pings on an open socket.
pub const SEND_PING_INTERVAL: u64 = 15;

/// Seconds the reader waits after a failed read before it reconnects.
pub const RECONNECT_DELAY: u64 = 1;

/// What serde_json gives for a text: `None` where the text is not a JSON
/// document, else the compact JSON text of the value it holds, written back
/// by serde_json (object members then stand in ascending key order).
pub uninterp spec fn json_value_text(text: Seq<char>) -> Option<Seq<char>>;

/// The message (`Display`) of the error that serde_json reports for a text
/// that is not a JSON document.
pub uninterp spec fn json_parse_error_text(text: Seq<char>) -> Seq<char>;

/// Parses a text into a `serde_json::Value` (`serde_json::from_str`) and
/// writes that value back (`serde_json::to_string`); a parse error comes back
/// as its message (`to_string` of the `serde_json::Error`). The contract
/// claims that these together are functions of the text alone: an error
/// exactly where `json_value_text` is `None`, with the message
/// `json_parse_error_text`, and else the text `json_value_text`.
#[verifier::external_body]
fn reencode_json(text: &str) -> (r: Result<String, String>)
    ensures
        r is Err <==> json_value_text(text@) is None,
        r matches Ok(s) ==> json_value_text(text@) == Some(s@),
        r matches Err(e) ==> e@ == json_parse_error_text(text@),
{
    match serde_json::from_str::<serde_json::Value>(text) {
        Ok(v) => match serde_json::to_string(&v) {
            Ok(s) => Ok(s),
            Err(e) => Err(e.to_string()),
        },
        Err(e) => Err(e.to_string()),
    }
}

/// The text of a subscribe or unsubscribe request: an object with the
/// method and the subscription, given as the JSON text of its value.
pub open spec fn request_text(method: Seq<char>, subscription: Seq<char>) -> Seq<char> {
    seq!['{'] + json_string("method"@) + seq![':'] + json_string(method) + json_member(
        "subscription"@,
        subscription,
    ) + seq!['}']
}

/// The text of a ping.
pub open spec fn ping_text() -> Seq<char> {
    seq!['{'] + json_string("method"@) + seq![':'] + json_string("ping"@) + seq!['}']
}

/// The request text for a method and a subscription given as the JSON text
/// of its value: `{"method":<method>,"subscription":<value>}`.
pub fn request_from_value(method: &str, value: &str) -> (s: String)
    ensures
        s@ == request_text(method@, value@),
{
    let mut out = String::new();
    push_char(&mut out, '{');
    push_json_string(&mut out, "method");
    push_char(&mut out, ':');
    push_json_string(&mut out, method);
    push_char(&mut out, ',');
    push_json_string(&mut out, "subscription");
    push_char(&mut out, ':');
    out.append(value);
    push_char(&mut out, '}');
    assert(out@ =~= request_text(method@, value@));
    out
}

/// The request that asks the server to start or stop a feed: the identifier
/// is read as JSON and sent back inside the request. Fails with a JSON-parse
/// error where the identifier is not JSON.
pub fn send_subscription_data(method: &str, identifier: &str) -> (r: Result<String, WsError>)
    ensures
        match json_value_text(identifier@) {
            None => r matches Err(WsError::JsonParse(e)) && e@ == json_parse_error_text(identifier@),
            Some(t) => r matches Ok(s) && s@ == request_text(method@, t),
        },
{
    let value = match reencode_json(identifier) {
        Ok(v) => v,
        Err(e) => {
            return Err(WsError::JsonParse(e));
        },
    };
    Ok(request_from_value(method, value.as_str()))
}

/// The request that starts a feed.
pub fn subscribe(identifier: &str) -> (r: Result<String, WsError>)
    ensures
        match json_value_text(identifier@) {
            None => r matches Err(WsError::JsonParse(e)) && e@ == json_parse_error_text(identifier@),
            Some(t) => r matches Ok(s) && s@ == request_text("subscribe"@, t),
        },
{
    send_subscription_data("subscribe", identifier)
}

/// The request that stops a feed.
pub fn unsubscribe(identifier: &str) -> (r: Result<String, WsError>)
    ensures
        match json_value_text(identifier@) {
            None => r matches Err(WsError::JsonParse(e)) && e@ == json_parse_error_text(identifier@),
            Some(t) => r matches Ok(s) && s@ == request_text("unsubscribe"@, t),
        },
{
    send_subscription_data("unsubscribe", identifier)
}

/// The ping that keeps the socket open.
pub fn ping_payload() -> (s: String)
    ensures
        s@ == ping_text(),
{
    let mut out = String::new();
    push_char(&mut out, '{');
    push_json_string(&mut out, "method");
    push_char(&mut out, ':');
    push_json_string(&mut out, "ping");
    push_char(&mut out, '}');
    assert(out@ =~= ping_text());
    out
}

/// What the reader does with a text frame.
#[derive(Clone, Copy, Debug, PartialEq, Eq, Structural)]
pub enum FrameAction {
    /// Parse it as a message and route it.
    Parse,
    /// Skip it without an error.
    Skip,
}

/// A text frame may hold a message only where it begins with `{`; other
/// frames are skipped.
pub fn frame_step(text: &str) -> (a: FrameAction)
    ensures
        a == (if text@.len() > 0 && text@[0] == '{' {
            FrameAction::Parse
        } else {
            FrameAction::Skip
        }),
{
    if text.is_empty() {
        FrameAction::Skip
    } else if text.get_char(0) == '{' {
        FrameAction::Parse
    } else {
        FrameAction::Skip
    }
}

/// What the ping task does after a ping.
#[derive(Clone, Copy, Debug, PartialEq, Eq, Structural)]
pub enum PingAction {
    /// Wait the ping interval and ping again.
    Continue,
    /// Stop pinging.
    Stop,
}

/// The ping task goes on after a ping that was sent and stops after the
/// first one that could not be sent.
pub fn ping_step(sent: bool) -> (a: PingAction)
    ensures
        a == (if sent {
            PingAction::Continue
        } else {
            PingAction::Stop
        }),
{
    if sent {
        PingAction::Continue
    } else {
        PingAction::Stop
    }
}

/// The error message handed to every subscriber when reading fails.
pub fn reader_failure(error: &WsError) -> (m: Message)
    ensures
        m matches Message::HyperliquidError(s) && s@ == error_text(*error),
{
    Message::HyperliquidError(error.message())
}

/// What the reader got from the socket.
#[derive(Clone, Copy, Debug, PartialEq, Eq, Structural)]
pub enum ReadOutcome {
    /// A frame arrived.
    Frame,
    /// Reading failed.
    Failed,
    /// The socket closed.
    Closed,
}

/// What the reader does next.
#[derive(Clone, Copy, Debug, PartialEq, Eq, Structural)]
pub enum ReaderAction {
    /// Hand the frame on to the subscribers.
    Dispatch,
    /// Wait a second and open a new socket, then read on.
    Reconnect,
    /// Stop reading.
    Stop,
}

/// The reader's decision after one read: frames are dispatched, a closed
/// socket stops the reader, and a failed read reconnects where reconnecting
/// was asked for and stops otherwise.
pub fn reader_step(outcome: ReadOutcome, reconnect: bool) -> (a: ReaderAction)
    ensures
        outcome == ReadOutcome::Frame ==> a == ReaderAction::Dispatch,
        outcome == ReadOutcome::Closed ==> a == ReaderAction::Stop,
        outcome == ReadOutcome::Failed ==> a == (if reconnect {
            ReaderAction::Reconnect
        } else {
            ReaderAction::Stop
        }),
{
    match outcome {
        ReadOutcome::Frame => ReaderAction::Dispatch,
        ReadOutcome::Failed => if reconnect {
            ReaderAction::Reconnect
        } else {
            ReaderAction::Stop
        },
        ReadOutcome::Closed => ReaderAction::Stop,
    }
}

/// The outcome of handing a message to its targets, given for each target in
/// turn `None` where the hand-over worked and the channel's error text where
/// it failed: success where every hand-over worked, else a send error with
/// the text of the last failure.
pub fn collect_send_results(failures: &Vec<Option<String>>) -> (r: Result<(), WsError>)
    ensures
        (forall|k: int| 0 <= k < failures@.len() ==> #[trigger] failures@[k] is None) ==> r is Ok,
        !(forall|k: int| 0 <= k < failures@.len() ==> #[trigger] failures@[k] is None) ==> exists|k: int|
            {
                &&& 0 <= k < failures@.len()
                &&& #[trigger] failures@[k] is Some
                &&& forall|t: int| k < t < failures@.len() ==> #[trigger] failures@[t] is None
                &&& r == Err::<(), WsError>(WsError::WsSend(failures@[k]->Some_0))
            },
{
    let mut last: Option<usize> = None;
    let mut i: usize = 0;
    while i < failures.len()
        invariant
            i <= failures@.len(),
            last matches Some(k) ==> k < i && failures@[k as int] is Some && (forall|t: int|
                k < t < i ==> #[trigger] failures@[t] is None),
            last is None ==> forall|t: int| 0 <= t < i ==> #[trigger] failures@[t] is None,
        decreases failures@.len() - i,
    {
        if failures[i].is_some() {
            last = Some(i);
        }
        i = i + 1;
    }
    match last {
        None => Ok(()),
        Some(k) => {
            let e = match &failures[k] {
                Some(e) => e.clone(),
                None => String::new(),
            };
            assert(failures@[k as int] matches Some(x) && x == e);
            Err(WsError::WsSend(e))
        },
    }
}

} // verus!
