//! Verified core of a Hyperliquid websocket subscription manager: the text
//! of subscription identifiers and requests, the routing key of every
//! incoming message, and the table of subscribers that decides who receives
//! what and when a feed must be started or stopped on the socket.
pub mod address;
pub mod assoc;
pub mod error;
pub mod json;
pub mod laws;
pub mod message;
pub mod protocol;
pub mod subscription;
pub mod table;
pub mod text;

pub use address::Address;
pub use error::WsError;
pub use message::{
    get_identifier, ActiveAssetCtx, AllMids, Candle, L2Book, Message, Notification, OrderUpdates,
    Trade, Trades, User, UserFills, UserFundings, UserNonFundingLedgerUpdates, WebData2,
};
pub use protocol::{
    collect_send_results, frame_step, ping_payload, ping_step, reader_failure, reader_step,
    request_from_value, send_subscription_data, subscribe, unsubscribe, FrameAction, PingAction, ReadOutcome, ReaderAction,
    RECONNECT_DELAY, SEND_PING_INTERVAL,
};
pub use subscription::{identifier_entry, Subscription};
pub use table::{AddPlan, Delivery, RemovePlan, SubscriptionTable};
