use vstd::prelude::*;
use crate::address::Address;
use crate::error::WsError;
use crate::subscription::{Subscription, subscription_json};
use crate::text::{debug_text, rust_debug_text};

verus! {

/// A mid-price snapshot of all coins.
#[derive(Clone, Debug, PartialEq, Eq)]
pub struct AllMids {
    /// The JSON text of the message's `data` member: all that it carries.
    pub payload: String,
}

/// One trade on the public tape.
#[derive(Clone, Debug, PartialEq, Eq)]
pub struct Trade {
    pub coin: String,
}

/// A batch of trades; all of a batch belong to one coin.
#[derive(Clone, Debug, PartialEq, Eq)]
pub struct Trades {
    pub data: Vec<Trade>,
    /// The JSON text of the message's `data` member: all that it carries.
    pub payload: String,
}

/// An order-book snapshot of one coin.
#[derive(Clone, Debug, PartialEq, Eq)]
pub struct L2Book {
    pub coin: String,
    /// The JSON text of the message's `data` member: all that it carries.
    pub payload: String,
}

/// A user-events update for the one user-events subscriber.
#[derive(Clone, Debug, PartialEq, Eq)]
pub struct User {
    /// The JSON text of the message's `data` member: all that it carries.
    pub payload: String,
}

/// Fills of one user.
#[derive(Clone, Debug, PartialEq, Eq)]
pub struct UserFills {
    pub user: Address,
    /// The JSON text of the message's `data` member: all that it carries.
    pub payload: String,
}

/// One candle of a coin at an interval.
#[derive(Clone, Debug, PartialEq, Eq)]
pub struct Candle {
    pub coin: String,
    pub interval: String,
    /// The JSON text of the message's `data` member: all that it carries.
    pub payload: String,
}

/// Order status updates.
#[derive(Clone, Debug, PartialEq, Eq)]
pub struct OrderUpdates {
    /// The JSON text of the message's `data` member: all that it carries.
    pub payload: String,
}

/// Funding payments of one user.
#[derive(Clone, Debug, PartialEq, Eq)]
pub struct UserFundings {
    pub user: Address,
    /// The JSON text of the message's `data` member: all that it carries.
    pub payload: String,
}

/// Ledger updates other than funding of one user.
#[derive(Clone, Debug, PartialEq, Eq)]
pub struct UserNonFundingLedgerUpdates {
    pub user: Address,
    /// The JSON text of the message's `data` member: all that it carries.
    pub payload: String,
}

/// A notification to a user.
#[derive(Clone, Debug, PartialEq, Eq)]
pub struct Notification {
    /// The JSON text of the message's `data` member: all that it carries.
    pub payload: String,
}

/// The aggregate web data of one user.
#[derive(Clone, Debug, PartialEq, Eq)]
pub struct WebData2 {
    pub user: Address,
    /// The JSON text of the message's `data` member: all that it carries.
    pub payload: String,
}

/// The context of one asset.
#[derive(Clone, Debug, PartialEq, Eq)]
pub struct ActiveAssetCtx {
    pub coin: String,
    /// The JSON text of the message's `data` member: all that it carries.
    pub payload: String,
}

/// A message received on the websocket, by channel.
#[derive(Clone, Debug, PartialEq, Eq)]
pub enum Message {
    NoData,
    HyperliquidError(String),
    AllMids(AllMids),
    Trades(Trades),
    L2Book(L2Book),
    User(User),
    UserFills(UserFills),
    Candle(Candle),
    SubscriptionResponse,
    OrderUpdates(OrderUpdates),
    UserFundings(UserFundings),
    UserNonFundingLedgerUpdates(UserNonFundingLedgerUpdates),
    Notification(Notification),
    WebData2(WebData2),
    ActiveAssetCtx(ActiveAssetCtx),
    Pong,
}

/// The identifier under which a message is delivered: the JSON text of the
/// subscription that the message answers, a fixed key for the user-events,
/// order-updates and notification channels, a text built from the error for
/// an error message, and the empty text (nothing to deliver) for responses,
/// pongs, messages without data and trade batches without trades.
pub open spec fn message_identifier(m: Message) -> Seq<char> {
    match m {
        Message::AllMids(_) => subscription_json(Subscription::AllMids),
        Message::User(_) => "userEvents"@,
        Message::UserFills(f) => subscription_json(Subscription::UserFills { user: f.user }),
        Message::Trades(t) => if t.data@.len() == 0 {
            Seq::empty()
        } else {
            subscription_json(Subscription::Trades { coin: t.data@[0].coin })
        },
        Message::L2Book(b) => subscription_json(Subscription::L2Book { coin: b.coin }),
        Message::Candle(c) => subscription_json(
            Subscription::Candle { coin: c.coin, interval: c.interval },
        ),
        Message::OrderUpdates(_) => "orderUpdates"@,
        Message::UserFundings(f) => subscription_json(Subscription::UserFundings { user: f.user }),
        Message::UserNonFundingLedgerUpdates(u) => subscription_json(
            Subscription::UserNonFundingLedgerUpdates { user: u.user },
        ),
        Message::Notification(_) => "notification"@,
        Message::WebData2(w) => subscription_json(Subscription::WebData2 { user: w.user }),
        Message::ActiveAssetCtx(a) => subscription_json(Subscription::ActiveAssetCtx { coin: a.coin }),
        Message::SubscriptionResponse | Message::Pong | Message::NoData => Seq::empty(),
        Message::HyperliquidError(e) => "hyperliquid error: "@ + rust_debug_text(e@),
    }
}

/// The identifier under which a message is delivered to subscribers; see
/// `message_identifier`. Writing the identifier cannot fail.
pub fn get_identifier(message: &Message) -> (r: Result<String, WsError>)
    ensures
        r is Ok,
        r matches Ok(s) ==> s@ == message_identifier(*message),
{
    let s = match message {
        Message::AllMids(_) => Subscription::AllMids.identifier(),
        Message::User(_) => String::from_str("userEvents"),
        Message::UserFills(f) => Subscription::UserFills { user: f.user }.identifier(),
        Message::Trades(t) => {
            if t.data.len() == 0 {
                String::new()
            } else {
                Subscription::Trades { coin: t.data[0].coin.clone() }.identifier()
            }
        },
        Message::L2Book(b) => Subscription::L2Book { coin: b.coin.clone() }.identifier(),
        Message::Candle(c) => Subscription::Candle {
            coin: c.coin.clone(),
            interval: c.interval.clone(),
        }.identifier(),
        Message::OrderUpdates(_) => String::from_str("orderUpdates"),
        Message::UserFundings(f) => Subscription::UserFundings { user: f.user }.identifier(),
        Message::UserNonFundingLedgerUpdates(u) => Subscription::UserNonFundingLedgerUpdates {
            user: u.user,
        }.identifier(),
        Message::Notification(_) => String::from_str("notification"),
        Message::WebData2(w) => Subscription::WebData2 { user: w.user }.identifier(),
        Message::ActiveAssetCtx(a) => Subscription::ActiveAssetCtx {
            coin: a.coin.clone(),
        }.identifier(),
        Message::SubscriptionResponse | Message::Pong => String::new(),
        Message::NoData => String::new(),
        Message::HyperliquidError(e) => {
            let mut out = String::from_str("hyperliquid error: ");
            let d = debug_text(e.as_str());
            out.append(d.as_str());
            out
        },
    };
    Ok(s)
}

} // verus!
