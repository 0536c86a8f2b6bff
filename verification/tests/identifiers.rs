use hyperliquid_ws::{
    get_identifier, identifier_entry, Address, AllMids, Candle, L2Book, Message, Notification,
    OrderUpdates, Subscription, Trade, Trades, User, UserFills, WebData2,
};

fn addr(first: u8) -> Address {
    let mut bytes = [0u8; 20];
    bytes[0] = first;
    bytes[19] = 0xab;
    Address::new(bytes)
}

#[test]
fn all_mids_identifier() {
    assert_eq!(Subscription::AllMids.identifier(), r#"{"type":"allMids"}"#);
}

#[test]
fn l2_book_identifier() {
    let s = Subscription::L2Book { coin: "BTC".to_string() };
    assert_eq!(s.identifier(), r#"{"type":"l2Book","coin":"BTC"}"#);
}

#[test]
fn candle_identifier_keeps_field_order() {
    let s = Subscription::Candle { coin: "ETH".to_string(), interval: "1m".to_string() };
    assert_eq!(s.identifier(), r#"{"type":"candle","coin":"ETH","interval":"1m"}"#);
}

#[test]
fn user_identifiers_write_full_lowercase_hex() {
    let s = Subscription::UserFills { user: addr(0x0f) };
    assert_eq!(
        s.identifier(),
        r#"{"type":"userFills","user":"0x0f000000000000000000000000000000000000ab"}"#
    );
    let w = Subscription::WebData2 { user: addr(0xA0) };
    assert_eq!(
        w.identifier(),
        r#"{"type":"webData2","user":"0xa0000000000000000000000000000000000000ab"}"#
    );
    let n = Subscription::UserNonFundingLedgerUpdates { user: addr(1) };
    assert!(n
        .identifier()
        .starts_with(r#"{"type":"userNonFundingLedgerUpdates","user":"0x01"#));
}

#[test]
fn address_hex_matches_ethers_serialization() {
    let a = addr(0x7c);
    let h = ethers::types::H160(a.bytes);
    let via_serde = serde_json::to_string(&h).unwrap();
    assert_eq!(via_serde, format!("\"{}\"", a.to_hex()));
}

#[test]
fn coin_escaping_matches_serde_json() {
    let coin = "a\"b\\c\nd\u{1}e\u{7f}é\t\u{8}\u{c}\r/".to_string();
    let s = Subscription::Trades { coin: coin.clone() };
    let expected = format!(
        "{{\"type\":\"trades\",\"coin\":{}}}",
        serde_json::to_string(&coin).unwrap()
    );
    assert_eq!(s.identifier(), expected);
}

#[test]
fn identifier_entry_groups_user_events_and_order_updates() {
    let ident = Subscription::UserEvents { user: addr(2) }.identifier();
    assert_eq!(identifier_entry(&ident, &Subscription::UserEvents { user: addr(2) }), "userEvents");
    let ident2 = Subscription::OrderUpdates { user: addr(3) }.identifier();
    assert_eq!(
        identifier_entry(&ident2, &Subscription::OrderUpdates { user: addr(3) }),
        "orderUpdates"
    );
    let ident3 = Subscription::L2Book { coin: "SOL".to_string() }.identifier();
    assert_eq!(
        identifier_entry(&ident3, &Subscription::L2Book { coin: "SOL".to_string() }),
        ident3
    );
}

#[test]
fn message_identifiers() {
    assert_eq!(get_identifier(&Message::AllMids(AllMids { payload: "{}".to_string() })).unwrap(), r#"{"type":"allMids"}"#);
    assert_eq!(get_identifier(&Message::User(User { payload: "{}".to_string() })).unwrap(), "userEvents");
    assert_eq!(get_identifier(&Message::OrderUpdates(OrderUpdates { payload: "{}".to_string() })).unwrap(), "orderUpdates");
    assert_eq!(get_identifier(&Message::Notification(Notification { payload: "{}".to_string() })).unwrap(), "notification");
    assert_eq!(get_identifier(&Message::Pong).unwrap(), "");
    assert_eq!(get_identifier(&Message::SubscriptionResponse).unwrap(), "");
    assert_eq!(get_identifier(&Message::NoData).unwrap(), "");
    assert_eq!(
        get_identifier(&Message::HyperliquidError("bad \"x\"".to_string())).unwrap(),
        "hyperliquid error: \"bad \\\"x\\\"\""
    );
}

#[test]
fn trades_identifier_uses_first_trade() {
    let empty = Message::Trades(Trades { data: vec![], payload: "[]".to_string() });
    assert_eq!(get_identifier(&empty).unwrap(), "");
    let t = Message::Trades(Trades {
        data: vec![Trade { coin: "BTC".to_string() }, Trade { coin: "ETH".to_string() }],
        payload: r#"[{"coin":"BTC","px":"1"},{"coin":"ETH","px":"2"}]"#.to_string(),
    });
    assert_eq!(get_identifier(&t).unwrap(), r#"{"type":"trades","coin":"BTC"}"#);
}

#[test]
fn data_messages_match_their_subscription_identifier() {
    let b = Message::L2Book(L2Book { coin: "BTC".to_string(), payload: r#"{"levels":[[],[]]}"#.to_string() });
    assert_eq!(
        get_identifier(&b).unwrap(),
        Subscription::L2Book { coin: "BTC".to_string() }.identifier()
    );
    let c = Message::Candle(Candle { coin: "BTC".to_string(), interval: "15m".to_string(), payload: "{}".to_string() });
    assert_eq!(
        get_identifier(&c).unwrap(),
        Subscription::Candle { coin: "BTC".to_string(), interval: "15m".to_string() }.identifier()
    );
    let f = Message::UserFills(UserFills { user: addr(9), payload: "{}".to_string() });
    assert_eq!(get_identifier(&f).unwrap(), Subscription::UserFills { user: addr(9) }.identifier());
    let w = Message::WebData2(WebData2 { user: addr(8), payload: "{}".to_string() });
    assert_eq!(get_identifier(&w).unwrap(), Subscription::WebData2 { user: addr(8) }.identifier());
}
