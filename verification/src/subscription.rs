use vstd::prelude::*;
use crate::address::{Address, address_hex};
use crate::json::{json_string, push_json_string};
use crate::text::push_char;

verus! {

/// A feed that a client can subscribe to on the exchange's websocket.
#[derive(Clone, Debug, PartialEq, Eq)]
pub enum Subscription {
    AllMids,
    Notification { user: Address },
    WebData2 { user: Address },
    Candle { coin: String, interval: String },
    L2Book { coin: String },
    Trades { coin: String },
    OrderUpdates { user: Address },
    UserEvents { user: Address },
    UserFills { user: Address },
    UserFundings { user: Address },
    UserNonFundingLedgerUpdates { user: Address },
    ActiveAssetCtx { coin: String },
}

/// The `type` tag of a subscription: the variant's name in camelCase.
pub open spec fn subscription_tag(s: Subscription) -> Seq<char> {
    match s {
        Subscription::AllMids => "allMids"@,
        Subscription::Notification { .. } => "notification"@,
        Subscription::WebData2 { .. } => "webData2"@,
        Subscription::Candle { .. } => "candle"@,
        Subscription::L2Book { .. } => "l2Book"@,
        Subscription::Trades { .. } => "trades"@,
        Subscription::OrderUpdates { .. } => "orderUpdates"@,
        Subscription::UserEvents { .. } => "userEvents"@,
        Subscription::UserFills { .. } => "userFills"@,
        Subscription::UserFundings { .. } => "userFundings"@,
        Subscription::UserNonFundingLedgerUpdates { .. } => "userNonFundingLedgerUpdates"@,
        Subscription::ActiveAssetCtx { .. } => "activeAssetCtx"@,
    }
}

/// One `,"key":value` member of a JSON object, the value already in JSON.
pub open spec fn json_member(key: Seq<char>, value: Seq<char>) -> Seq<char> {
    seq![','] + json_string(key) + seq![':'] + value
}

/// The members that follow the `type` tag, in declaration order.
pub open spec fn subscription_members(s: Subscription) -> Seq<char> {
    match s {
        Subscription::AllMids => Seq::empty(),
        Subscription::Candle { coin, interval } => json_member("coin"@, json_string(coin@))
            + json_member("interval"@, json_string(interval@)),
        Subscription::L2Book { coin } => json_member("coin"@, json_string(coin@)),
        Subscription::Trades { coin } => json_member("coin"@, json_string(coin@)),
        Subscription::ActiveAssetCtx { coin } => json_member("coin"@, json_string(coin@)),
        Subscription::Notification { user } => json_member("user"@, json_string(address_hex(user.bytes@))),
        Subscription::WebData2 { user } => json_member("user"@, json_string(address_hex(user.bytes@))),
        Subscription::OrderUpdates { user } => json_member("user"@, json_string(address_hex(user.bytes@))),
        Subscription::UserEvents { user } => json_member("user"@, json_string(address_hex(user.bytes@))),
        Subscription::UserFills { user } => json_member("user"@, json_string(address_hex(user.bytes@))),
        Subscription::UserFundings { user } => json_member("user"@, json_string(address_hex(user.bytes@))),
        Subscription::UserNonFundingLedgerUpdates { user } => json_member(
            "user"@,
            json_string(address_hex(user.bytes@)),
        ),
    }
}

/// The compact JSON text of a subscription, as serde_json writes it: an
/// object whose first member is the `type` tag, followed by the variant's
/// fields; a user is written as its `0x`-prefixed lowercase hex.
pub open spec fn subscription_json(s: Subscription) -> Seq<char> {
    seq!['{'] + json_string("type"@) + seq![':'] + json_string(subscription_tag(s))
        + subscription_members(s) + seq!['}']
}

/// The key under which subscribers of an identifier are grouped: every
/// user-events subscription shares the key `userEvents`, every order-updates
/// subscription shares `orderUpdates`, and any other subscription is keyed by
/// its identifier text.
pub open spec fn entry_key(identifier: Seq<char>, parsed: Subscription) -> Seq<char> {
    match parsed {
        Subscription::UserEvents { .. } => "userEvents"@,
        Subscription::OrderUpdates { .. } => "orderUpdates"@,
        _ => identifier,
    }
}

fn push_member(out: &mut String, key: &str)
    ensures
        final(out)@ == old(out)@ + seq![','] + json_string(key@) + seq![':'],
{
    push_char(out, ',');
    push_json_string(out, key);
    push_char(out, ':');
}

fn push_user_member(out: &mut String, user: &Address)
    ensures
        final(out)@ == old(out)@ + json_member("user"@, json_string(address_hex(user.bytes@))),
{
    let ghost start = out@;
    push_member(out, "user");
    let hex = user.to_hex();
    push_json_string(out, hex.as_str());
    assert(out@ =~= start + json_member("user"@, json_string(address_hex(user.bytes@))));
}

fn push_coin_member(out: &mut String, coin: &String)
    ensures
        final(out)@ == old(out)@ + json_member("coin"@, json_string(coin@)),
{
    let ghost start = out@;
    push_member(out, "coin");
    push_json_string(out, coin.as_str());
    assert(out@ =~= start + json_member("coin"@, json_string(coin@)));
}

impl Subscription {
    /// The `type` tag of this subscription.
    pub fn tag(&self) -> (t: &'static str)
        ensures
            t@ == subscription_tag(*self),
    {
        match self {
            Subscription::AllMids => "allMids",
            Subscription::Notification { .. } => "notification",
            Subscription::WebData2 { .. } => "webData2",
            Subscription::Candle { .. } => "candle",
            Subscription::L2Book { .. } => "l2Book",
            Subscription::Trades { .. } => "trades",
            Subscription::OrderUpdates { .. } => "orderUpdates",
            Subscription::UserEvents { .. } => "userEvents",
            Subscription::UserFills { .. } => "userFills",
            Subscription::UserFundings { .. } => "userFundings",
            Subscription::UserNonFundingLedgerUpdates { .. } => "userNonFundingLedgerUpdates",
            Subscription::ActiveAssetCtx { .. } => "activeAssetCtx",
        }
    }

    /// The identifier of this subscription: its compact JSON text.
    pub fn identifier(&self) -> (s: String)
        ensures
            s@ == subscription_json(*self),
    {
        let mut out = String::new();
        push_char(&mut out, '{');
        push_json_string(&mut out, "type");
        push_char(&mut out, ':');
        push_json_string(&mut out, self.tag());
        let ghost head = out@;
        match self {
            Subscription::AllMids => {},
            Subscription::Candle { coin, interval } => {
                push_coin_member(&mut out, coin);
                let ghost mid = out@;
                push_member(&mut out, "interval");
                push_json_string(&mut out, interval.as_str());
                assert(out@ =~= mid + json_member("interval"@, json_string(interval@)));
            },
            Subscription::L2Book { coin } => push_coin_member(&mut out, coin),
            Subscription::Trades { coin } => push_coin_member(&mut out, coin),
            Subscription::ActiveAssetCtx { coin } => push_coin_member(&mut out, coin),
            Subscription::Notification { user } => push_user_member(&mut out, user),
            Subscription::WebData2 { user } => push_user_member(&mut out, user),
            Subscription::OrderUpdates { user } => push_user_member(&mut out, user),
            Subscription::UserEvents { user } => push_user_member(&mut out, user),
            Subscription::UserFills { user } => push_user_member(&mut out, user),
            Subscription::UserFundings { user } => push_user_member(&mut out, user),
            Subscription::UserNonFundingLedgerUpdates { user } => push_user_member(&mut out, user),
        }
        assert(out@ =~= head + subscription_members(*self));
        push_char(&mut out, '}');
        assert(out@ =~= subscription_json(*self));
        out
    }
}

/// The grouping key for a subscription identifier, given what the identifier
/// parses to.
pub fn identifier_entry(identifier: &String, parsed: &Subscription) -> (key: String)
    ensures
        key@ == entry_key(identifier@, *parsed),
{
    match parsed {
        Subscription::UserEvents { .. } => String::from_str("userEvents"),
        Subscription::OrderUpdates { .. } => String::from_str("orderUpdates"),
        _ => identifier.clone(),
    }
}

} // verus!
