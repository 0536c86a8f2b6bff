use vstd::prelude::*;
use crate::address::{address_hex, lemma_address_hex_injective};
use crate::json::{json_string, lemma_json_string_injective, lemma_json_string_prefix_free};
use crate::message::{Message, message_identifier};
use crate::subscription::{Subscription, entry_key, json_member, subscription_json, subscription_members, subscription_tag};
use crate::table::{TableView, group_has, position, lemma_with_entry_wf, lemma_commit_wf, lemma_remove_wf};

verus! {

/// Whether a message carries data of the feed that a subscription asks for.
pub open spec fn answers(m: Message, s: Subscription) -> bool {
    match (m, s) {
        (Message::AllMids(_), Subscription::AllMids) => true,
        (Message::User(_), Subscription::UserEvents { .. }) => true,
        (Message::OrderUpdates(_), Subscription::OrderUpdates { .. }) => true,
        (Message::Notification(_), Subscription::Notification { .. }) => true,
        (Message::UserFills(f), Subscription::UserFills { user }) => f.user.bytes@ == user.bytes@,
        (Message::UserFundings(f), Subscription::UserFundings { user }) => f.user.bytes@ == user.bytes@,
        (
            Message::UserNonFundingLedgerUpdates(u),
            Subscription::UserNonFundingLedgerUpdates { user },
        ) => u.user.bytes@ == user.bytes@,
        (Message::WebData2(w), Subscription::WebData2 { user }) => w.user.bytes@ == user.bytes@,
        (Message::Trades(t), Subscription::Trades { coin }) => t.data@.len() > 0 && t.data@[0].coin@
            == coin@,
        (Message::L2Book(b), Subscription::L2Book { coin }) => b.coin@ == coin@,
        (Message::ActiveAssetCtx(a), Subscription::ActiveAssetCtx { coin }) => a.coin@ == coin@,
        (Message::Candle(c), Subscription::Candle { coin, interval }) => c.coin@ == coin@
            && c.interval@ == interval@,
        _ => false,
    }
}

/// A message that answers a subscription is routed under the very key that
/// the subscription's subscribers are grouped under, for every kind of
/// subscription but notifications.
pub proof fn lemma_messages_reach_their_group(m: Message, s: Subscription)
    requires
        answers(m, s),
        !(s is Notification),
    ensures
        message_identifier(m) == entry_key(subscription_json(s), s),
{
    match (m, s) {
        (Message::Trades(t), Subscription::Trades { coin }) => {
            assert(subscription_json(Subscription::Trades { coin: t.data@[0].coin }) == subscription_json(
                Subscription::Trades { coin },
            ));
        },
        (Message::L2Book(b), Subscription::L2Book { coin }) => {
            assert(subscription_json(Subscription::L2Book { coin: b.coin }) == subscription_json(
                Subscription::L2Book { coin },
            ));
        },
        (Message::ActiveAssetCtx(a), Subscription::ActiveAssetCtx { coin }) => {
            assert(subscription_json(Subscription::ActiveAssetCtx { coin: a.coin })
                == subscription_json(Subscription::ActiveAssetCtx { coin }));
        },
        (Message::Candle(c), Subscription::Candle { coin, interval }) => {
            assert(subscription_json(Subscription::Candle { coin: c.coin, interval: c.interval })
                == subscription_json(Subscription::Candle { coin, interval }));
        },
        _ => {},
    }
}

/// A subscription id held by some group is a live id recorded under that
/// group's key.
pub proof fn lemma_subscribed_is_live(v: TableView, id: u32)
    requires
        v.wf(),
        v.subscribed(id),
    ensures
        v.identifiers.contains_key(id),
        v.groups.contains_key(v.keys[id]),
        group_has(v.groups[v.keys[id]], id),
{
    let k = choose|k: Seq<char>| v.groups.contains_key(k) && #[trigger] group_has(v.groups[k], id);
    let i = choose|i: int| 0 <= i < v.groups[k].len() && v.groups[k][i].0 == id;
    assert(v.identifiers.contains_key(v.groups[k][i].0));
}

/// The id that the next subscription gets is held by no one and names no
/// record.
pub proof fn lemma_next_id_is_fresh(v: TableView)
    requires
        v.wf(),
    ensures
        !v.subscribed(v.next_id),
        !v.identifiers.contains_key(v.next_id),
        !v.keys.contains_key(v.next_id),
{
    if v.subscribed(v.next_id) {
        lemma_subscribed_is_live(v, v.next_id);
    }
}

/// One call on the table, as it changes the table's state: `Plan` is the
/// first half of a subscribe (`plan_add` on an identifier that parsed, with
/// its grouping key), `Commit` the second half (`commit_add`), `Remove` an
/// unsubscribe (`remove_subscription`). A commit where it is not allowed
/// cannot be made and changes nothing.
pub enum TableStep {
    Plan { key: Seq<char> },
    Commit { key: Seq<char>, identifier: Seq<char> },
    Remove { id: u32 },
}

/// The state after one step.
pub open spec fn step(v: TableView, s: TableStep) -> TableView {
    match s {
        TableStep::Plan { key } => v.with_entry(key),
        TableStep::Commit { key, identifier } => if v.commit_allowed(key) {
            v.after_commit(key, identifier)
        } else {
            v
        },
        TableStep::Remove { id } => if v.identifiers.contains_key(id) {
            v.after_remove(id)
        } else {
            v
        },
    }
}

/// The state after a sequence of steps.
pub open spec fn run(v: TableView, steps: Seq<TableStep>) -> TableView
    decreases steps.len(),
{
    if steps.len() == 0 {
        v
    } else {
        step(run(v, steps.drop_last()), steps.last())
    }
}

/// Whether a step is a commit that is allowed in the state it is made in.
pub open spec fn is_commit_in(v: TableView, s: TableStep) -> bool {
    match s {
        TableStep::Commit { key, .. } => v.commit_allowed(key),
        _ => false,
    }
}

/// How many of the steps are commits that registered a subscriber.
pub open spec fn commits(v: TableView, steps: Seq<TableStep>) -> nat
    decreases steps.len(),
{
    if steps.len() == 0 {
        0
    } else {
        commits(v, steps.drop_last()) + if is_commit_in(run(v, steps.drop_last()), steps.last()) {
            1nat
        } else {
            0nat
        }
    }
}

/// Every step keeps the state valid.
pub proof fn lemma_step_wf(v: TableView, s: TableStep)
    requires
        v.wf(),
    ensures
        step(v, s).wf(),
{
    match s {
        TableStep::Plan { key } => lemma_with_entry_wf(v, key),
        TableStep::Commit { key, identifier } => if v.commit_allowed(key) {
            lemma_commit_wf(v, key, identifier);
        },
        TableStep::Remove { id } => if v.identifiers.contains_key(id) {
            lemma_remove_wf(v, id);
        },
    }
}

/// Every state reached from a valid state is valid: in particular the
/// records and the groups agree and the user-events group never holds more
/// than one subscriber.
pub proof fn lemma_run_wf(v: TableView, steps: Seq<TableStep>)
    requires
        v.wf(),
    ensures
        run(v, steps).wf(),
    decreases steps.len(),
{
    if steps.len() > 0 {
        lemma_run_wf(v, steps.drop_last());
        lemma_step_wf(run(v, steps.drop_last()), steps.last());
    }
}

/// The next id counts the subscribes that went through: only a commit moves
/// it, by one, and a commit hands out the id it had before. So from a new
/// table the i-th subscriber (from 0) gets id i, and no id is handed out twice.
pub proof fn lemma_run_next_id(v: TableView, steps: Seq<TableStep>)
    ensures
        run(v, steps).next_id == v.next_id + commits(v, steps),
    decreases steps.len(),
{
    if steps.len() > 0 {
        lemma_run_next_id(v, steps.drop_last());
    }
}

/// An id that was handed out and is no longer live stays so: no later step
/// records it again or puts it in a group.
pub proof fn lemma_retired_id_stays_retired(v: TableView, steps: Seq<TableStep>, id: u32)
    requires
        v.wf(),
        id < v.next_id,
        !v.identifiers.contains_key(id),
    ensures
        id < run(v, steps).next_id,
        !run(v, steps).identifiers.contains_key(id),
        !run(v, steps).subscribed(id),
    decreases steps.len(),
{
    lemma_run_wf(v, steps);
    if steps.len() > 0 {
        lemma_retired_id_stays_retired(v, steps.drop_last(), id);
        lemma_run_wf(v, steps.drop_last());
    }
    if run(v, steps).subscribed(id) {
        lemma_subscribed_is_live(run(v, steps), id);
    }
}

/// A message goes to a subscription id exactly when the id is live, the
/// message's identifier is not empty, and the id was registered under that
/// identifier as its key; and it goes to no id twice.
pub proof fn lemma_delivery_exact(v: TableView, key: Seq<char>, id: u32)
    requires
        v.wf(),
    ensures
        v.delivery(key).contains(id) <==> (v.identifiers.contains_key(id) && key.len() > 0 && v.keys[id]
            == key),
        v.delivery(key).no_duplicates(),
{
    let d = v.delivery(key);
    if d.contains(id) {
        let i = choose|i: int| 0 <= i < d.len() && d[i] == id;
        assert(v.groups[key][i].0 == id);
    }
    if v.identifiers.contains_key(id) && key.len() > 0 && v.keys[id] == key {
        let i = choose|i: int| 0 <= i < v.groups[key].len() && v.groups[key][i].0 == id;
        assert(d[i] == id);
    }
    assert forall|a: int, b: int| 0 <= a < d.len() && 0 <= b < d.len() && a != b implies d[a] != d[b] by {
        if d[a] == d[b] {
            assert(v.groups[key][a].0 == v.groups[key][b].0);
        }
    }
}

/// At most one live subscription is registered under the user-events key.
pub proof fn lemma_one_user_events_subscriber(v: TableView, a: u32, b: u32)
    requires
        v.wf(),
        v.identifiers.contains_key(a),
        v.identifiers.contains_key(b),
        v.keys[a] == "userEvents"@,
        v.keys[b] == "userEvents"@,
    ensures
        a == b,
{
    let g = v.groups["userEvents"@];
    let i = choose|i: int| 0 <= i < g.len() && g[i].0 == a;
    let j = choose|j: int| 0 <= j < g.len() && g[j].0 == b;
    assert(i == 0 && j == 0);
}

/// While a user-events subscription is live, every further user-events
/// subscribe is refused: its plan sees a non-empty user-events group.
pub proof fn lemma_live_user_events_blocks(v: TableView, id: u32)
    requires
        v.wf(),
        v.identifiers.contains_key(id),
        v.keys[id] == "userEvents"@,
    ensures
        v.with_entry("userEvents"@).groups["userEvents"@].len() > 0,
{
}

/// Unsubscribing the id that a subscribe just handed out undoes that
/// subscribe: records are as before, the groups are as after the plan (the
/// group under the key exists, possibly empty), and only the id counter has
/// moved on.
pub proof fn lemma_remove_undoes_add(v: TableView, key: Seq<char>, identifier: Seq<char>)
    requires
        v.wf(),
        v.with_entry(key).commit_allowed(key),
    ensures
        ({
            let w = v.with_entry(key);
            let a = w.after_commit(key, identifier);
            &&& a.identifiers.contains_key(v.next_id)
            &&& a.identifiers[v.next_id] == identifier
            &&& a.keys[v.next_id] == key
            &&& a.after_remove(v.next_id) == TableView {
                groups: w.groups,
                identifiers: v.identifiers,
                keys: v.keys,
                next_id: (v.next_id + 1) as u32,
            }
        }),
{
    let w = v.with_entry(key);
    let a = w.after_commit(key, identifier);
    let id = v.next_id;
    let g = w.groups[key];
    lemma_with_entry_wf(v, key);
    assert(a.groups[key] == g.push((id, identifier)));
    assert(a.groups[key][g.len() as int].0 == id);
    let p = position(a.groups[key], id);
    assert(0 <= p < a.groups[key].len() && a.groups[key][p].0 == id);
    if p != g.len() {
        assert(g[p].0 < w.next_id);
    }
    assert(a.groups[key].remove(p) =~= g);
    assert(a.groups.insert(key, g) =~= w.groups);
    lemma_next_id_is_fresh(v);
    assert(a.identifiers.remove(id) =~= v.identifiers);
    assert(a.keys.remove(id) =~= v.keys);
}

/// After subscribing with the identifier of `s` (other than a notification
/// subscription), a message that answers `s` is handed to the new
/// subscription id.
pub proof fn lemma_subscriber_receives_answers(v: TableView, s: Subscription, m: Message)
    requires
        v.wf(),
        v.with_entry(entry_key(subscription_json(s), s)).commit_allowed(entry_key(subscription_json(s), s)),
        answers(m, s),
        !(s is Notification),
    ensures
        ({
            let key = entry_key(subscription_json(s), s);
            let a = v.with_entry(key).after_commit(key, subscription_json(s));
            a.delivery(message_identifier(m)).contains(v.next_id)
        }),
{
    let key = entry_key(subscription_json(s), s);
    let w = v.with_entry(key);
    let a = w.after_commit(key, subscription_json(s));
    lemma_messages_reach_their_group(m, s);
    reveal_strlit("userEvents");
    reveal_strlit("orderUpdates");
    assert(subscription_json(s)[0] == '{');
    assert(key.len() > 0);
    lemma_with_entry_wf(v, key);
    lemma_commit_wf(w, key, subscription_json(s));
    lemma_next_id_is_fresh(v);
    lemma_delivery_exact(a, message_identifier(m), v.next_id);
}

/// Two order-book subscriptions have the same identifier text only when
/// their coins are the same text.
pub proof fn lemma_book_identifier_injective(b: String, c: String)
    requires
        subscription_json(Subscription::L2Book { coin: b }) == subscription_json(Subscription::L2Book { coin: c }),
    ensures
        b@ == c@,
{
    let head = seq!['{'] + json_string("type"@) + seq![':'] + json_string("l2Book"@) + seq![','] + json_string(
        "coin"@,
    ) + seq![':'];
    let jb = subscription_json(Subscription::L2Book { coin: b });
    let jc = subscription_json(Subscription::L2Book { coin: c });
    assert(jb =~= head + json_string(b@) + seq!['}']);
    assert(jc =~= head + json_string(c@) + seq!['}']);
    assert(json_string(b@) =~= jb.subrange(head.len() as int, jb.len() - 1));
    assert(json_string(c@) =~= jc.subrange(head.len() as int, jc.len() - 1));
    lemma_json_string_injective(b@, c@);
}

/// A subscriber registered under the identifier text of the order book of
/// coin `c` is handed an order-book message exactly when the message's coin is
/// `c`, and then once.
pub proof fn lemma_book_routing_exact(v: TableView, id: u32, m: Message, c: String)
    requires
        v.wf(),
        v.identifiers.contains_key(id),
        v.keys[id] == subscription_json(Subscription::L2Book { coin: c }),
        m is L2Book,
    ensures
        v.delivery(message_identifier(m)).contains(id) <==> m->L2Book_0.coin@ == c@,
        v.delivery(message_identifier(m)).no_duplicates(),
{
    let b = m->L2Book_0.coin;
    let key = message_identifier(m);
    assert(key == subscription_json(Subscription::L2Book { coin: b }));
    assert(key[0] == '{');
    lemma_delivery_exact(v, key, id);
    if b@ == c@ {
        assert(subscription_json(Subscription::L2Book { coin: b }) == subscription_json(
            Subscription::L2Book { coin: c },
        ));
    }
    if v.keys[id] == key {
        lemma_book_identifier_injective(b, c);
    }
}

/// Whether two subscriptions ask for the same feed: the same kind, with the
/// same coin text, interval text or user bytes.
pub open spec fn same_subscription(s1: Subscription, s2: Subscription) -> bool {
    match (s1, s2) {
        (Subscription::AllMids, Subscription::AllMids) => true,
        (Subscription::Notification { user: a }, Subscription::Notification { user: b }) => a.bytes@
            == b.bytes@,
        (Subscription::WebData2 { user: a }, Subscription::WebData2 { user: b }) => a.bytes@ == b.bytes@,
        (Subscription::OrderUpdates { user: a }, Subscription::OrderUpdates { user: b }) => a.bytes@
            == b.bytes@,
        (Subscription::UserEvents { user: a }, Subscription::UserEvents { user: b }) => a.bytes@
            == b.bytes@,
        (Subscription::UserFills { user: a }, Subscription::UserFills { user: b }) => a.bytes@
            == b.bytes@,
        (Subscription::UserFundings { user: a }, Subscription::UserFundings { user: b }) => a.bytes@
            == b.bytes@,
        (
            Subscription::UserNonFundingLedgerUpdates { user: a },
            Subscription::UserNonFundingLedgerUpdates { user: b },
        ) => a.bytes@ == b.bytes@,
        (Subscription::Candle { coin: c1, interval: i1 }, Subscription::Candle { coin: c2, interval: i2 }) => c1@
            == c2@ && i1@ == i2@,
        (Subscription::L2Book { coin: a }, Subscription::L2Book { coin: b }) => a@ == b@,
        (Subscription::Trades { coin: a }, Subscription::Trades { coin: b }) => a@ == b@,
        (Subscription::ActiveAssetCtx { coin: a }, Subscription::ActiveAssetCtx { coin: b }) => a@ == b@,
        _ => false,
    }
}

spec fn tag_len(s: Subscription) -> int {
    match s {
        Subscription::AllMids => 7,
        Subscription::Notification { .. } => 12,
        Subscription::WebData2 { .. } => 8,
        Subscription::Candle { .. } => 6,
        Subscription::L2Book { .. } => 6,
        Subscription::Trades { .. } => 6,
        Subscription::OrderUpdates { .. } => 12,
        Subscription::UserEvents { .. } => 10,
        Subscription::UserFills { .. } => 9,
        Subscription::UserFundings { .. } => 12,
        Subscription::UserNonFundingLedgerUpdates { .. } => 27,
        Subscription::ActiveAssetCtx { .. } => 14,
    }
}

spec fn tag_first(s: Subscription) -> char {
    match s {
        Subscription::AllMids => 'a',
        Subscription::Notification { .. } => 'n',
        Subscription::WebData2 { .. } => 'w',
        Subscription::Candle { .. } => 'c',
        Subscription::L2Book { .. } => 'l',
        Subscription::Trades { .. } => 't',
        Subscription::OrderUpdates { .. } => 'o',
        Subscription::UserEvents { .. } => 'u',
        Subscription::UserFills { .. } => 'u',
        Subscription::UserFundings { .. } => 'u',
        Subscription::UserNonFundingLedgerUpdates { .. } => 'u',
        Subscription::ActiveAssetCtx { .. } => 'a',
    }
}

proof fn lemma_tag_shape(s: Subscription)
    ensures
        subscription_tag(s).len() == tag_len(s),
        subscription_tag(s)[0] == tag_first(s),
{
    reveal_strlit("allMids");
    reveal_strlit("notification");
    reveal_strlit("webData2");
    reveal_strlit("candle");
    reveal_strlit("l2Book");
    reveal_strlit("trades");
    reveal_strlit("orderUpdates");
    reveal_strlit("userEvents");
    reveal_strlit("userFills");
    reveal_strlit("userFundings");
    reveal_strlit("userNonFundingLedgerUpdates");
    reveal_strlit("activeAssetCtx");
}

/// Two subscriptions have the same identifier text exactly when they ask for
/// the same feed: the identifier names the kind and carries every coin,
/// interval and user of the subscription.
pub proof fn lemma_identifier_injective(s1: Subscription, s2: Subscription)
    ensures
        subscription_json(s1) == subscription_json(s2) <==> same_subscription(s1, s2),
{
    if same_subscription(s1, s2) {
        assert(subscription_json(s1) =~= subscription_json(s2));
    }
    if subscription_json(s1) == subscription_json(s2) {
        let p = seq!['{'] + json_string("type"@) + seq![':'];
        let t1 = subscription_members(s1) + seq!['}'];
        let t2 = subscription_members(s2) + seq!['}'];
        let j = subscription_json(s1);
        assert(subscription_json(s1) =~= p + (json_string(subscription_tag(s1)) + t1));
        assert(subscription_json(s2) =~= p + (json_string(subscription_tag(s2)) + t2));
        assert(json_string(subscription_tag(s1)) + t1 =~= j.subrange(p.len() as int, j.len() as int));
        assert(json_string(subscription_tag(s2)) + t2 =~= j.subrange(p.len() as int, j.len() as int));
        lemma_json_string_prefix_free(subscription_tag(s1), subscription_tag(s2), t1, t2);
        lemma_tag_shape(s1);
        lemma_tag_shape(s2);
        lemma_same_kind_members(s1, s2);
    }
}

/// Within one kind, equal member texts mean the same coin, interval or user.
proof fn lemma_same_kind_members(s1: Subscription, s2: Subscription)
    requires
        tag_len(s1) == tag_len(s2),
        tag_first(s1) == tag_first(s2),
        subscription_members(s1) + seq!['}'] == subscription_members(s2) + seq!['}'],
    ensures
        same_subscription(s1, s2),
{
    let t = subscription_members(s1) + seq!['}'];
    match (s1, s2) {
        (Subscription::Candle { coin: c1, interval: i1 }, Subscription::Candle { coin: c2, interval: i2 }) => {
            let k = seq![','] + json_string("coin"@) + seq![':'];
            let r1 = json_member("interval"@, json_string(i1@)) + seq!['}'];
            let r2 = json_member("interval"@, json_string(i2@)) + seq!['}'];
            assert(t =~= k + (json_string(c1@) + r1));
            assert(subscription_members(s2) + seq!['}'] =~= k + (json_string(c2@) + r2));
            assert(json_string(c1@) + r1 =~= t.subrange(k.len() as int, t.len() as int));
            assert(json_string(c2@) + r2 =~= t.subrange(k.len() as int, t.len() as int));
            lemma_json_string_prefix_free(c1@, c2@, r1, r2);
            let k2 = seq![','] + json_string("interval"@) + seq![':'];
            assert(r1 =~= k2 + (json_string(i1@) + seq!['}']));
            assert(r2 =~= k2 + (json_string(i2@) + seq!['}']));
            assert(json_string(i1@) + seq!['}'] =~= r1.subrange(k2.len() as int, r1.len() as int));
            assert(json_string(i2@) + seq!['}'] =~= r1.subrange(k2.len() as int, r1.len() as int));
            lemma_json_string_prefix_free(i1@, i2@, seq!['}'], seq!['}']);
        },
        (Subscription::AllMids, Subscription::AllMids) => {},
        _ => {
            if let Some((key, v1, v2)) = single_member(s1, s2) {
                let k = seq![','] + json_string(key) + seq![':'];
                assert(t =~= k + (json_string(v1) + seq!['}']));
                assert(subscription_members(s2) + seq!['}'] =~= k + (json_string(v2) + seq!['}']));
                assert(json_string(v1) + seq!['}'] =~= t.subrange(k.len() as int, t.len() as int));
                assert(json_string(v2) + seq!['}'] =~= t.subrange(k.len() as int, t.len() as int));
                lemma_json_string_prefix_free(v1, v2, seq!['}'], seq!['}']);
                lemma_single_member_same(s1, s2, v1, v2);
            }
        },
    }
}

/// For two subscriptions of one kind with a single member: its key and the
/// two member values (the coin, or the user's hex text).
spec fn single_member(s1: Subscription, s2: Subscription) -> Option<(Seq<char>, Seq<char>, Seq<char>)> {
    match (s1, s2) {
        (Subscription::L2Book { coin: a }, Subscription::L2Book { coin: b }) => Some(("coin"@, a@, b@)),
        (Subscription::Trades { coin: a }, Subscription::Trades { coin: b }) => Some(("coin"@, a@, b@)),
        (Subscription::ActiveAssetCtx { coin: a }, Subscription::ActiveAssetCtx { coin: b }) => Some(
            ("coin"@, a@, b@),
        ),
        (Subscription::Notification { user: a }, Subscription::Notification { user: b })
        | (Subscription::WebData2 { user: a }, Subscription::WebData2 { user: b })
        | (Subscription::OrderUpdates { user: a }, Subscription::OrderUpdates { user: b })
        | (Subscription::UserEvents { user: a }, Subscription::UserEvents { user: b })
        | (Subscription::UserFills { user: a }, Subscription::UserFills { user: b })
        | (Subscription::UserFundings { user: a }, Subscription::UserFundings { user: b })
        | (
            Subscription::UserNonFundingLedgerUpdates { user: a },
            Subscription::UserNonFundingLedgerUpdates { user: b },
        ) => Some(("user"@, address_hex(a.bytes@), address_hex(b.bytes@))),
        _ => None,
    }
}

proof fn lemma_single_member_same(s1: Subscription, s2: Subscription, v1: Seq<char>, v2: Seq<char>)
    requires
        single_member(s1, s2) matches Some((_, x, y)) && x == v1 && y == v2,
        v1 == v2,
    ensures
        same_subscription(s1, s2),
{
    match (s1, s2) {
        (Subscription::Notification { user: a }, Subscription::Notification { user: b })
        | (Subscription::WebData2 { user: a }, Subscription::WebData2 { user: b })
        | (Subscription::OrderUpdates { user: a }, Subscription::OrderUpdates { user: b })
        | (Subscription::UserEvents { user: a }, Subscription::UserEvents { user: b })
        | (Subscription::UserFills { user: a }, Subscription::UserFills { user: b })
        | (Subscription::UserFundings { user: a }, Subscription::UserFundings { user: b })
        | (
            Subscription::UserNonFundingLedgerUpdates { user: a },
            Subscription::UserNonFundingLedgerUpdates { user: b },
        ) => {
            lemma_address_hex_injective(a.bytes@, b.bytes@);
        },
        _ => {},
    }
}

/// The feed whose data a message carries, for the messages that carry the
/// data of one feed named by a subscription's identifier.
pub open spec fn data_feed(m: Message) -> Option<Subscription> {
    match m {
        Message::AllMids(_) => Some(Subscription::AllMids),
        Message::UserFills(f) => Some(Subscription::UserFills { user: f.user }),
        Message::Trades(t) => if t.data@.len() > 0 {
            Some(Subscription::Trades { coin: t.data@[0].coin })
        } else {
            None
        },
        Message::L2Book(b) => Some(Subscription::L2Book { coin: b.coin }),
        Message::Candle(c) => Some(Subscription::Candle { coin: c.coin, interval: c.interval }),
        Message::UserFundings(f) => Some(Subscription::UserFundings { user: f.user }),
        Message::UserNonFundingLedgerUpdates(u) => Some(
            Subscription::UserNonFundingLedgerUpdates { user: u.user },
        ),
        Message::WebData2(w) => Some(Subscription::WebData2 { user: w.user }),
        Message::ActiveAssetCtx(a) => Some(Subscription::ActiveAssetCtx { coin: a.coin }),
        _ => None,
    }
}

/// The grouping keys of two subscriptions (each taken with its own
/// identifier text) are the same exactly when both are user-events
/// subscriptions, both are order-updates subscriptions, or both ask for the
/// same feed. So every other feed (every coin, user, interval; notifications
/// included) has a group of its own, and its first subscriber starts it on
/// the socket.
pub proof fn lemma_entry_keys_separate_feeds(s1: Subscription, s2: Subscription)
    ensures
        entry_key(subscription_json(s1), s1) == entry_key(subscription_json(s2), s2) <==> (same_subscription(s1, s2)
            || (s1 is UserEvents && s2 is UserEvents) || (s1 is OrderUpdates && s2 is OrderUpdates)),
{
    reveal_strlit("userEvents");
    reveal_strlit("orderUpdates");
    lemma_identifier_injective(s1, s2);
    lemma_identifier_starts_object(s1);
    lemma_identifier_starts_object(s2);
}

/// Every identifier text is a JSON object: it begins with `{`.
pub proof fn lemma_identifier_starts_object(s: Subscription)
    ensures
        subscription_json(s).len() > 0,
        subscription_json(s)[0] == '{',
{
}

/// The grouping key of every subscription other than user-events and
/// order-updates subscriptions is its identifier text.
pub proof fn lemma_entry_key_is_identifier(s: Subscription)
    requires
        !(s is UserEvents),
        !(s is OrderUpdates),
    ensures
        entry_key(subscription_json(s), s) == subscription_json(s),
{
}

/// A message is routed under the grouping key of a subscription (other than
/// a notification subscription) exactly when it carries data of the feed
/// that the subscription asks for: a message for one coin, user or interval
/// is never routed to the group of another.
pub proof fn lemma_message_key_matches(m: Message, s: Subscription)
    requires
        !(s is Notification),
    ensures
        (message_identifier(m).len() > 0 && message_identifier(m) == entry_key(subscription_json(s), s))
            <==> answers(m, s),
{
    reveal_strlit("userEvents");
    reveal_strlit("orderUpdates");
    reveal_strlit("notification");
    reveal_strlit("hyperliquid error: ");
    lemma_identifier_starts_object(s);
    if let Some(f) = data_feed(m) {
        lemma_identifier_injective(f, s);
        lemma_identifier_starts_object(f);
        assert(message_identifier(m) == subscription_json(f));
        if answers(m, s) {
            assert(same_subscription(f, s));
        }
    } else {
        let mi = message_identifier(m);
        if mi.len() > 0 && mi == entry_key(subscription_json(s), s) {
            assert(mi[0] == entry_key(subscription_json(s), s)[0]);
        }
    }
}

/// A live subscriber registered with the grouping key of a subscription
/// (other than a notification subscription) is handed a message exactly
/// when the message carries data of that subscription's feed, and then
/// once.
pub proof fn lemma_routing_exact(v: TableView, id: u32, s: Subscription, m: Message)
    requires
        v.wf(),
        v.identifiers.contains_key(id),
        v.keys[id] == entry_key(subscription_json(s), s),
        !(s is Notification),
    ensures
        v.delivery(message_identifier(m)).contains(id) <==> answers(m, s),
        v.delivery(message_identifier(m)).no_duplicates(),
{
    lemma_delivery_exact(v, message_identifier(m), id);
    lemma_message_key_matches(m, s);
}

/// No message is routed under the grouping key of a notification
/// subscription: notification messages go under the key `notification`,
/// which no subscription's identifier is.
pub proof fn lemma_notification_key_unused(m: Message, user: crate::address::Address)
    ensures
        message_identifier(m) != entry_key(
            subscription_json(Subscription::Notification { user }),
            Subscription::Notification { user },
        ),
{
    let s = Subscription::Notification { user };
    reveal_strlit("userEvents");
    reveal_strlit("orderUpdates");
    reveal_strlit("notification");
    reveal_strlit("hyperliquid error: ");
    lemma_identifier_starts_object(s);
    if let Some(f) = data_feed(m) {
        lemma_identifier_injective(f, s);
        assert(message_identifier(m) == subscription_json(f));
    } else {
        let mi = message_identifier(m);
        if mi == subscription_json(s) {
            assert(mi[0] == '{');
        }
    }
}

} // verus!
