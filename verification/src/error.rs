use vstd::prelude::*;
use crate::text::{debug_text, rust_debug_text};

verus! {

/// The errors of the websocket subscription manager.
#[derive(Clone, Debug, PartialEq, Eq)]
pub enum WsError {
    /// A JSON text could not be parsed; carries the parser's message.
    JsonParse(String),
    /// The websocket connection failed; carries the transport's message.
    Websocket(String),
    /// No subscription is registered under the given id.
    SubscriptionNotFound,
    /// Handing a message to a subscriber's channel failed.
    WsSend(String),
    /// Reading from the websocket failed.
    GenericReader(String),
    /// A frame read from the websocket could not be turned into text.
    ReaderTextConversion(String),
    /// A second user-events subscription was requested.
    UserEvents,
}

/// The human-readable text of an error.
pub open spec fn error_text(e: WsError) -> Seq<char> {
    match e {
        WsError::JsonParse(s) => "Json parse error: "@ + rust_debug_text(s@),
        WsError::Websocket(s) => "Websocket error: "@ + rust_debug_text(s@),
        WsError::SubscriptionNotFound => "Subscription not found"@,
        WsError::WsSend(s) => "WS send error: "@ + rust_debug_text(s@),
        WsError::GenericReader(s) => "Reader error: "@ + rust_debug_text(s@),
        WsError::ReaderTextConversion(s) => "Reader text conversion error: "@ + rust_debug_text(s@),
        WsError::UserEvents => "Cannot subscribe to multiple user events"@,
    }
}

fn prefixed_debug(prefix: &str, s: &String) -> (r: String)
    ensures
        r@ == prefix@ + rust_debug_text(s@),
{
    let mut out = String::from_str(prefix);
    let d = debug_text(s.as_str());
    out.append(d.as_str());
    out
}

impl WsError {
    /// The human-readable text of this error.
    pub fn message(&self) -> (r: String)
        ensures
            r@ == error_text(*self),
    {
        match self {
            WsError::JsonParse(s) => prefixed_debug("Json parse error: ", s),
            WsError::Websocket(s) => prefixed_debug("Websocket error: ", s),
            WsError::SubscriptionNotFound => String::from_str("Subscription not found"),
            WsError::WsSend(s) => prefixed_debug("WS send error: ", s),
            WsError::GenericReader(s) => prefixed_debug("Reader error: ", s),
            WsError::ReaderTextConversion(s) => prefixed_debug("Reader text conversion error: ", s),
            WsError::UserEvents => String::from_str("Cannot subscribe to multiple user events"),
        }
    }
}

} // verus!
