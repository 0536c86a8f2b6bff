use hyperliquid_ws::{
    Address, L2Book, Message, Subscription, SubscriptionTable, Trade, Trades, User, WsError,
};

fn user(n: u8) -> Address {
    Address::new([n; 20])
}

fn book(coin: &str) -> Subscription {
    Subscription::L2Book { coin: coin.to_string() }
}

fn add(t: &mut SubscriptionTable, s: Subscription) -> Result<(u32, bool), WsError> {
    let ident = s.identifier();
    let plan = t.plan_add(&ident, Ok(s))?;
    let subscribe = plan.subscribe;
    let id = t.commit_add(&plan, ident);
    Ok((id, subscribe))
}

fn remove(t: &mut SubscriptionTable, id: u32, _s: Subscription) -> Result<bool, WsError> {
    let plan = t.remove_subscription(id)?;
    Ok(plan.unsubscribe)
}

#[test]
fn ids_count_up_from_zero() {
    let mut t = SubscriptionTable::new();
    assert_eq!(t.next_subscription_id(), 0);
    assert_eq!(add(&mut t, book("BTC")).unwrap(), (0, true));
    assert_eq!(add(&mut t, book("BTC")).unwrap(), (1, false));
    assert_eq!(add(&mut t, book("ETH")).unwrap(), (2, true));
    assert_eq!(t.next_subscription_id(), 3);
}

#[test]
fn messages_go_to_subscribers_of_their_identifier_in_order() {
    let mut t = SubscriptionTable::new();
    add(&mut t, book("BTC")).unwrap();
    add(&mut t, book("ETH")).unwrap();
    add(&mut t, book("BTC")).unwrap();
    let d = t.parse_and_send_data(Ok(Message::L2Book(L2Book { coin: "BTC".to_string(), payload: r#"{"levels":[[],[]]}"#.to_string() }))).unwrap();
    assert_eq!(d.targets, vec![0, 2]);
    assert_eq!(d.message, Message::L2Book(L2Book { coin: "BTC".to_string(), payload: r#"{"levels":[[],[]]}"#.to_string() }));
    let d = t.parse_and_send_data(Ok(Message::L2Book(L2Book { coin: "SOL".to_string(), payload: r#"{"levels":[[],[]]}"#.to_string() }))).unwrap();
    assert!(d.targets.is_empty());
    let d = t.parse_and_send_data(Ok(Message::Pong)).unwrap();
    assert!(d.targets.is_empty());
    let d = t.parse_and_send_data(Ok(Message::Trades(Trades { data: vec![], payload: "[]".to_string() }))).unwrap();
    assert!(d.targets.is_empty());
}

#[test]
fn unparsed_message_is_a_json_error() {
    let t = SubscriptionTable::new();
    let r = t.parse_and_send_data(Err("expected value".to_string()));
    assert_eq!(r.err(), Some(WsError::JsonParse("expected value".to_string())));
}

#[test]
fn trades_route_by_first_coin() {
    let mut t = SubscriptionTable::new();
    add(&mut t, Subscription::Trades { coin: "ETH".to_string() }).unwrap();
    let m = Message::Trades(Trades {
        data: vec![Trade { coin: "ETH".to_string() }, Trade { coin: "BTC".to_string() }],
        payload: r#"[{"coin":"ETH","px":"1"},{"coin":"BTC","px":"2"}]"#.to_string(),
    });
    assert_eq!(t.parse_and_send_data(Ok(m)).unwrap().targets, vec![0]);
}

#[test]
fn user_events_share_one_key_and_allow_one_subscriber() {
    let mut t = SubscriptionTable::new();
    assert_eq!(add(&mut t, Subscription::UserEvents { user: user(1) }).unwrap(), (0, true));
    let second = add(&mut t, Subscription::UserEvents { user: user(2) });
    assert_eq!(second, Err(WsError::UserEvents));
    assert_eq!(t.next_subscription_id(), 1);
    let d = t.parse_and_send_data(Ok(Message::User(User { payload: "{}".to_string() }))).unwrap();
    assert_eq!(d.targets, vec![0]);
}

#[test]
fn order_updates_of_different_users_share_one_group() {
    let mut t = SubscriptionTable::new();
    assert_eq!(add(&mut t, Subscription::OrderUpdates { user: user(1) }).unwrap(), (0, true));
    assert_eq!(add(&mut t, Subscription::OrderUpdates { user: user(2) }).unwrap(), (1, false));
    let d = t
        .parse_and_send_data(Ok(Message::OrderUpdates(hyperliquid_ws::OrderUpdates { payload: "{}".to_string() })))
        .unwrap();
    assert_eq!(d.targets, vec![0, 1]);
}

#[test]
fn unparsed_identifier_is_refused_without_change() {
    let mut t = SubscriptionTable::new();
    let r = t.plan_add(&"not json".to_string(), Err("bad".to_string()));
    assert_eq!(r.err(), Some(WsError::JsonParse("bad".to_string())));
    assert_eq!(t.next_subscription_id(), 0);
}

#[test]
fn last_subscriber_leaving_stops_the_feed() {
    let mut t = SubscriptionTable::new();
    add(&mut t, book("BTC")).unwrap();
    add(&mut t, book("BTC")).unwrap();
    assert_eq!(remove(&mut t, 0, book("BTC")), Ok(false));
    assert_eq!(remove(&mut t, 1, book("BTC")), Ok(true));
    let d = t.parse_and_send_data(Ok(Message::L2Book(L2Book { coin: "BTC".to_string(), payload: r#"{"levels":[[],[]]}"#.to_string() }))).unwrap();
    assert!(d.targets.is_empty());
    // the feed can be subscribed to again, and then must be started again
    assert_eq!(add(&mut t, book("BTC")).unwrap(), (2, true));
}

#[test]
fn removing_unknown_id_fails() {
    let mut t = SubscriptionTable::new();
    assert_eq!(remove(&mut t, 7, book("BTC")), Err(WsError::SubscriptionNotFound));
    add(&mut t, book("BTC")).unwrap();
    assert_eq!(remove(&mut t, 0, book("BTC")), Ok(true));
    assert_eq!(remove(&mut t, 0, book("BTC")), Err(WsError::SubscriptionNotFound));
}

#[test]
fn identifier_of_subscription() {
    let mut t = SubscriptionTable::new();
    add(&mut t, book("BTC")).unwrap();
    assert_eq!(t.subscription_identifier(0).unwrap(), book("BTC").identifier());
    assert_eq!(t.subscription_identifier(1), Err(WsError::SubscriptionNotFound));
}

#[test]
fn send_to_all_reaches_every_subscriber_once() {
    let mut t = SubscriptionTable::new();
    add(&mut t, book("BTC")).unwrap();
    add(&mut t, book("ETH")).unwrap();
    add(&mut t, book("BTC")).unwrap();
    add(&mut t, Subscription::AllMids).unwrap();
    remove(&mut t, 1, book("ETH")).unwrap();
    let d = t.send_to_all_subscriptions(Message::Pong);
    let mut ids = d.targets.clone();
    ids.sort();
    assert_eq!(ids, vec![0, 2, 3]);
}

#[test]
fn remove_undoes_add_scenario() {
    let mut t = SubscriptionTable::new();
    add(&mut t, book("BTC")).unwrap();
    let (id, _) = add(&mut t, Subscription::Candle { coin: "BTC".into(), interval: "1h".into() })
        .unwrap();
    assert_eq!(
        remove(&mut t, id, Subscription::Candle { coin: "BTC".into(), interval: "1h".into() }),
        Ok(true)
    );
    assert_eq!(t.subscription_identifier(id), Err(WsError::SubscriptionNotFound));
    let d = t.send_to_all_subscriptions(Message::Pong);
    assert_eq!(d.targets, vec![0]);
}

#[test]
fn removal_uses_the_key_recorded_at_subscribe() {
    let mut t = SubscriptionTable::new();
    add(&mut t, Subscription::UserEvents { user: user(4) }).unwrap();
    let plan = t.remove_subscription(0).unwrap();
    assert!(plan.unsubscribe);
    assert_eq!(plan.identifier, Subscription::UserEvents { user: user(4) }.identifier());
    // the user-events slot is free again
    assert_eq!(add(&mut t, Subscription::UserEvents { user: user(5) }).unwrap(), (1, true));
}

#[test]
fn removed_id_stays_removed() {
    let mut t = SubscriptionTable::new();
    add(&mut t, book("BTC")).unwrap();
    t.remove_subscription(0).unwrap();
    add(&mut t, book("BTC")).unwrap();
    add(&mut t, book("ETH")).unwrap();
    assert_eq!(t.remove_subscription(0).err(), Some(WsError::SubscriptionNotFound));
    let d = t.send_to_all_subscriptions(Message::Pong);
    let mut ids = d.targets.clone();
    ids.sort();
    assert_eq!(ids, vec![1, 2]);
}

#[test]
fn book_messages_reach_only_their_coin() {
    let mut t = SubscriptionTable::new();
    add(&mut t, book("BTC")).unwrap();
    // an identifier with other spacing is kept as it is and matches nothing
    let spaced = "{ \"type\": \"l2Book\", \"coin\": \"BTC\" }".to_string();
    let plan = t.plan_add(&spaced, Ok(book("BTC"))).unwrap();
    let id = t.commit_add(&plan, spaced);
    assert_eq!(id, 1);
    let d = t.parse_and_send_data(Ok(Message::L2Book(L2Book { coin: "BTC".to_string(), payload: r#"{"levels":[[],[]]}"#.to_string() }))).unwrap();
    assert_eq!(d.targets, vec![0]);
    let d = t.parse_and_send_data(Ok(Message::L2Book(L2Book { coin: "BTCX".to_string(), payload: r#"{"levels":[[],[]]}"#.to_string() }))).unwrap();
    assert!(d.targets.is_empty());
}

#[test]
fn routed_message_keeps_its_payload() {
    let mut t = SubscriptionTable::new();
    add(&mut t, book("BTC")).unwrap();
    let m = Message::L2Book(L2Book {
        coin: "BTC".to_string(),
        payload: r#"{"coin":"BTC","levels":[[{"px":"1","sz":"2","n":1}],[]],"time":5}"#.to_string(),
    });
    let d = t.parse_and_send_data(Ok(m.clone())).unwrap();
    assert_eq!(d.message, m);
    let d = t.send_to_all_subscriptions(m.clone());
    assert_eq!(d.message, m);
}

#[test]
fn send_to_all_keeps_subscription_order_within_a_feed() {
    let mut t = SubscriptionTable::new();
    add(&mut t, book("BTC")).unwrap();
    add(&mut t, book("ETH")).unwrap();
    add(&mut t, book("BTC")).unwrap();
    add(&mut t, book("ETH")).unwrap();
    let d = t.send_to_all_subscriptions(Message::Pong);
    let pos = |id: u32| d.targets.iter().position(|x| *x == id).unwrap();
    assert!(pos(0) < pos(2));
    assert!(pos(1) < pos(3));
    assert_eq!(d.targets.len(), 4);
}
