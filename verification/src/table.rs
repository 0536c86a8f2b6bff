use vstd::prelude::*;
use std::collections::HashMap;
use crate::assoc::{assoc, keys_distinct, lemma_assoc_contains, lemma_assoc_lookup, lemma_assoc_update, lemma_assoc_push};
use crate::error::WsError;
use crate::laws::{TableStep, step};
use crate::message::{Message, get_identifier, message_identifier};
use crate::subscription::{Subscription, entry_key, identifier_entry};

verus! {

broadcast use vstd::std_specs::hash::group_hash_axioms;

/// One registered subscriber: its id and the identifier it subscribed with.
struct SubscriptionData {
    subscription_id: u32,
    id: String,
}

/// The abstract state of the subscription table.
pub struct TableView {
    /// Subscribers by grouping key, each as (id, identifier), in the order in
    /// which they subscribed.
    pub groups: Map<Seq<char>, Seq<(u32, Seq<char>)>>,
    /// The identifier that each live subscription id was registered with.
    pub identifiers: Map<u32, Seq<char>>,
    /// The grouping key that each live subscription id was registered under.
    pub keys: Map<u32, Seq<char>>,
    /// The id that the next subscription gets.
    pub next_id: u32,
}

/// Where in a group the subscriber with the given id stands.
pub open spec fn position(group: Seq<(u32, Seq<char>)>, id: u32) -> int {
    choose|i: int| 0 <= i < group.len() && group[i].0 == id
}

/// Whether a group holds a subscriber with the given id.
pub open spec fn group_has(group: Seq<(u32, Seq<char>)>, id: u32) -> bool {
    exists|i: int| 0 <= i < group.len() && group[i].0 == id
}

impl TableView {
    /// The state of a new table: no groups, no subscriptions, next id 0.
    pub open spec fn empty() -> TableView {
        TableView {
            groups: Map::empty(),
            identifiers: Map::empty(),
            keys: Map::empty(),
            next_id: 0,
        }
    }

    /// Whether some group holds the subscription id.
    pub open spec fn subscribed(self, id: u32) -> bool {
        exists|k: Seq<char>| self.groups.contains_key(k) && #[trigger] group_has(self.groups[k], id)
    }

    /// The records and the groups agree: every subscriber in a group is a
    /// live id, recorded with the identifier it holds and with that group's
    /// key, and below the next id; no id stands twice in the groups; every
    /// live id stands in the group of its recorded key; the user-events group
    /// holds at most one subscriber.
    pub open spec fn wf(self) -> bool {
        &&& forall|k: Seq<char>, i: int|
            #![trigger self.groups[k][i]]
            self.groups.contains_key(k) && 0 <= i < self.groups[k].len() ==> {
                &&& self.groups[k][i].0 < self.next_id
                &&& self.identifiers.contains_key(self.groups[k][i].0)
                &&& self.identifiers[self.groups[k][i].0] == self.groups[k][i].1
                &&& self.keys.contains_key(self.groups[k][i].0)
                &&& self.keys[self.groups[k][i].0] == k
            }
        &&& forall|k1: Seq<char>, i1: int, k2: Seq<char>, i2: int|
            #![trigger self.groups[k1][i1], self.groups[k2][i2]]
            self.groups.contains_key(k1) && 0 <= i1 < self.groups[k1].len() && self.groups.contains_key(k2)
                && 0 <= i2 < self.groups[k2].len() && self.groups[k1][i1].0 == self.groups[k2][i2].0
                ==> k1 == k2 && i1 == i2
        &&& forall|id: u32|
            #[trigger] self.identifiers.contains_key(id) ==> {
                &&& id < self.next_id
                &&& self.keys.contains_key(id)
                &&& self.groups.contains_key(self.keys[id])
                &&& group_has(self.groups[self.keys[id]], id)
            }
        &&& forall|id: u32| #[trigger] self.keys.contains_key(id) ==> self.identifiers.contains_key(id)
        &&& self.groups.contains_key("userEvents"@) ==> self.groups["userEvents"@].len() <= 1
    }

    /// The state with a (possibly empty) group under `key`.
    pub open spec fn with_entry(self, key: Seq<char>) -> TableView {
        if self.groups.contains_key(key) {
            self
        } else {
            TableView { groups: self.groups.insert(key, Seq::empty()), ..self }
        }
    }

    /// Whether a subscriber may join the group under `key` now: the group
    /// exists, the user-events group is still empty, and ids are left.
    pub open spec fn commit_allowed(self, key: Seq<char>) -> bool {
        &&& self.groups.contains_key(key)
        &&& key == "userEvents"@ ==> self.groups[key].len() == 0
        &&& self.next_id < u32::MAX
    }

    /// The state after registering `identifier` under `key` with the next id.
    pub open spec fn after_commit(self, key: Seq<char>, identifier: Seq<char>) -> TableView {
        TableView {
            groups: self.groups.insert(key, self.groups[key].push((self.next_id, identifier))),
            identifiers: self.identifiers.insert(self.next_id, identifier),
            keys: self.keys.insert(self.next_id, key),
            next_id: (self.next_id + 1) as u32,
        }
    }

    /// The state after taking subscriber `id` out of the group of its
    /// recorded key and forgetting its records.
    pub open spec fn after_remove(self, id: u32) -> TableView {
        let key = self.keys[id];
        TableView {
            groups: self.groups.insert(key, self.groups[key].remove(position(self.groups[key], id))),
            identifiers: self.identifiers.remove(id),
            keys: self.keys.remove(id),
            next_id: self.next_id,
        }
    }

    /// The ids of the groups under the keys `ks`, group after group, each
    /// group in the order in which its subscribers joined.
    pub open spec fn ids_in_order(self, ks: Seq<Seq<char>>) -> Seq<u32>
        decreases ks.len(),
    {
        if ks.len() == 0 {
            Seq::empty()
        } else {
            self.ids_in_order(ks.drop_last()) + self.groups[ks.last()].map_values(
                |p: (u32, Seq<char>)| p.0,
            )
        }
    }

    /// The subscription ids that a message with the given identifier goes
    /// to, in the order in which they subscribed.
    pub open spec fn delivery(self, key: Seq<char>) -> Seq<u32> {
        if key.len() == 0 || !self.groups.contains_key(key) {
            Seq::empty()
        } else {
            self.groups[key].map_values(|p: (u32, Seq<char>)| p.0)
        }
    }
}

/// Making sure a group exists keeps the state valid.
pub proof fn lemma_with_entry_wf(v: TableView, key: Seq<char>)
    requires
        v.wf(),
    ensures
        v.with_entry(key).wf(),
{
}

/// Registering a subscriber where it is allowed keeps the state valid.
pub proof fn lemma_commit_wf(v: TableView, key: Seq<char>, identifier: Seq<char>)
    requires
        v.wf(),
        v.commit_allowed(key),
    ensures
        v.after_commit(key, identifier).wf(),
{
    let a = v.after_commit(key, identifier);
    let id = v.next_id;
    let g = v.groups[key];
    assert forall|k: Seq<char>, i: int| a.groups.contains_key(k) && 0 <= i < a.groups[k].len()
        implies a.groups[k][i].0 < a.next_id && a.identifiers.contains_key(a.groups[k][i].0)
        && a.identifiers[a.groups[k][i].0] == a.groups[k][i].1 && a.keys.contains_key(a.groups[k][i].0)
        && a.keys[a.groups[k][i].0] == k by {
        if k == key && i == g.len() {
        } else if k == key {
            assert(a.groups[k][i] == g[i]);
        } else {
            assert(a.groups[k][i] == v.groups[k][i]);
        }
    }
    assert forall|id2: u32| #[trigger] a.identifiers.contains_key(id2) implies id2 < a.next_id
        && a.keys.contains_key(id2) && a.groups.contains_key(a.keys[id2]) && group_has(
        a.groups[a.keys[id2]],
        id2,
    ) by {
        if id2 == id {
            assert(a.groups[key][g.len() as int].0 == id);
        } else {
            let k2 = v.keys[id2];
            let j = choose|j: int| 0 <= j < v.groups[k2].len() && v.groups[k2][j].0 == id2;
            assert(a.groups[k2][j].0 == id2);
        }
    }
}

/// Taking out a live subscriber keeps the state valid.
pub proof fn lemma_remove_wf(v: TableView, id: u32)
    requires
        v.wf(),
        v.identifiers.contains_key(id),
    ensures
        v.after_remove(id).wf(),
{
    let a = v.after_remove(id);
    let key = v.keys[id];
    let g = v.groups[key];
    let p = position(g, id);
    assert(0 <= p < g.len() && g[p].0 == id);
    let h = g.remove(p);
    assert(a.groups[key] == h);
    assert forall|i: int| 0 <= i < h.len() implies h[i] == g[if i < p { i } else { i + 1 }] by {}
    assert forall|k: Seq<char>, i: int| a.groups.contains_key(k) && 0 <= i < a.groups[k].len()
        implies a.groups[k][i].0 < a.next_id && a.identifiers.contains_key(a.groups[k][i].0)
        && a.identifiers[a.groups[k][i].0] == a.groups[k][i].1 && a.keys.contains_key(a.groups[k][i].0)
        && a.keys[a.groups[k][i].0] == k by {
        if k == key {
            let j = if i < p { i } else { i + 1 };
            assert(a.groups[k][i] == g[j]);
            assert(g[j].0 != id);
        } else {
            assert(a.groups[k][i] == v.groups[k][i]);
            assert(v.groups[k][i].0 != g[p].0);
        }
    }
    assert forall|k1: Seq<char>, i1: int, k2: Seq<char>, i2: int|
        a.groups.contains_key(k1) && 0 <= i1 < a.groups[k1].len() && a.groups.contains_key(k2)
            && 0 <= i2 < a.groups[k2].len() && #[trigger] a.groups[k1][i1].0 == #[trigger] a.groups[k2][i2].0
        implies k1 == k2 && i1 == i2 by {
        let j1 = if k1 == key { if i1 < p { i1 } else { i1 + 1 } } else { i1 };
        let j2 = if k2 == key { if i2 < p { i2 } else { i2 + 1 } } else { i2 };
        assert(a.groups[k1][i1] == v.groups[k1][j1]);
        assert(a.groups[k2][i2] == v.groups[k2][j2]);
        assert(v.groups[k1][j1].0 == v.groups[k2][j2].0);
    }
    assert forall|id2: u32| #[trigger] a.identifiers.contains_key(id2) implies id2 < a.next_id
        && a.keys.contains_key(id2) && a.groups.contains_key(a.keys[id2]) && group_has(
        a.groups[a.keys[id2]],
        id2,
    ) by {
        let k2 = v.keys[id2];
        let j = choose|j: int| 0 <= j < v.groups[k2].len() && v.groups[k2][j].0 == id2;
        if k2 == key {
            assert(j != p);
            let i = if j < p { j } else { j - 1 };
            assert(h[i] == g[j]);
            assert(a.groups[k2][i].0 == id2);
        } else {
            assert(a.groups[k2][j].0 == id2);
        }
    }
}

/// The outcome of the first half of a subscribe: the grouping key, and
/// whether the feed must be subscribed to on the socket (no one holds it yet).
pub struct AddPlan {
    pub entry: String,
    pub subscribe: bool,
}

/// The outcome of an unsubscribe: the identifier that was subscribed, and
/// whether the feed must be unsubscribed on the socket (its last subscriber
/// left).
pub struct RemovePlan {
    pub identifier: String,
    pub unsubscribe: bool,
}

/// A message and the subscription ids that it is to be handed to, in order.
pub struct Delivery {
    pub message: Message,
    pub targets: Vec<u32>,
}

/// The subscribers of a feed, grouped by key, and the identifier of each
/// live subscription id.
pub struct SubscriptionTable {
    groups: Vec<(String, Vec<SubscriptionData>)>,
    subscription_id: u32,
    subscription_identifiers: HashMap<u32, String>,
    subscription_keys: HashMap<u32, String>,
}

spec fn data_view(d: SubscriptionData) -> (u32, Seq<char>) {
    (d.subscription_id, d.id@)
}

spec fn group_view(g: Vec<SubscriptionData>) -> Seq<(u32, Seq<char>)> {
    g@.map_values(|d: SubscriptionData| data_view(d))
}

spec fn pair_view(p: (String, Vec<SubscriptionData>)) -> (Seq<char>, Seq<(u32, Seq<char>)>) {
    (p.0@, group_view(p.1))
}

impl View for SubscriptionTable {
    type V = TableView;

    /// The abstract state of the table.
    closed spec fn view(&self) -> TableView {
        TableView {
            groups: assoc(self.group_seq()),
            identifiers: self.subscription_identifiers@.map_values(|s: String| s@),
            keys: self.subscription_keys@.map_values(|s: String| s@),
            next_id: self.subscription_id,
        }
    }
}

impl SubscriptionTable {
    spec fn group_seq(&self) -> Seq<(Seq<char>, Seq<(u32, Seq<char>)>)> {
        self.groups@.map_values(|p: (String, Vec<SubscriptionData>)| pair_view(p))
    }

    /// The table is well formed: its keys are distinct and its state is valid.
    pub closed spec fn wf(&self) -> bool {
        keys_distinct(self.group_seq()) && self@.wf()
    }

    /// A well-formed table is in a valid state.
    pub proof fn lemma_wf_view(&self)
        requires
            self.wf(),
        ensures
            self@.wf(),
    {
    }

    /// An empty table whose first subscription gets id 0.
    pub fn new() -> (t: SubscriptionTable)
        ensures
            t.wf(),
            t@ == TableView::empty(),
    {
        let t = SubscriptionTable {
            groups: Vec::new(),
            subscription_id: 0,
            subscription_identifiers: HashMap::new(),
            subscription_keys: HashMap::new(),
        };
        assert(t.group_seq() =~= Seq::empty());
        assert(t@.identifiers =~= Map::<u32, Seq<char>>::empty());
        assert(t@.keys =~= Map::<u32, Seq<char>>::empty());
        assert(t@.groups =~= Map::<Seq<char>, Seq<(u32, Seq<char>)>>::empty());
        t
    }

    /// The id that the next subscription gets.
    pub fn next_subscription_id(&self) -> (r: u32)
        ensures
            r == self@.next_id,
    {
        self.subscription_id
    }

    fn find_group(&self, key: &String) -> (r: Option<usize>)
        requires
            keys_distinct(self.group_seq()),
        ensures
            r matches Some(i) ==> i < self.groups@.len() && self.group_seq()[i as int].0 == key@
                && self@.groups.contains_key(key@)
                && self@.groups[key@] == self.group_seq()[i as int].1,
            r is None ==> !self@.groups.contains_key(key@),
    {
        let mut i: usize = 0;
        while i < self.groups.len()
            invariant
                i <= self.groups@.len(),
                keys_distinct(self.group_seq()),
                forall|j: int| 0 <= j < i ==> #[trigger] self.group_seq()[j].0 != key@,
            decreases self.groups@.len() - i,
        {
            if self.groups[i].0 == *key {
                proof {
                    lemma_assoc_lookup(self.group_seq(), i as int);
                }
                return Some(i);
            }
            i = i + 1;
        }
        proof {
            lemma_assoc_contains(self.group_seq(), key@);
        }
        None
    }

    /// First half of a subscribe. Fails with the parser's message where the
    /// identifier did not parse. Otherwise makes sure a group exists under the
    /// grouping key (an empty one where there was none), then refuses a second
    /// user-events subscriber; else returns the key and whether no one holds
    /// the feed yet, in which case it must be subscribed to on the socket.
    pub fn plan_add(&mut self, identifier: &String, parsed: Result<Subscription, String>) -> (r: Result<
        AddPlan,
        WsError,
    >)
        requires
            old(self).wf(),
        ensures
            final(self).wf(),
            match parsed {
                Err(e) => r == Err::<AddPlan, WsError>(WsError::JsonParse(e)) && final(self)@ == old(self)@,
                Ok(s) => {
                    let key = entry_key(identifier@, s);
                    let v = old(self)@.with_entry(key);
                    &&& final(self)@ == v
                    &&& final(self)@ == step(old(self)@, TableStep::Plan { key })
                    &&& if key == "userEvents"@ && v.groups[key].len() > 0 {
                        r == Err::<AddPlan, WsError>(WsError::UserEvents)
                    } else {
                        &&& r matches Ok(plan)
                        &&& plan.entry@ == key
                        &&& plan.subscribe == (v.groups[key].len() == 0)
                        &&& v.next_id < u32::MAX ==> v.commit_allowed(key)
                    }
                },
            },
    {
        let s = match parsed {
            Err(e) => {
                return Err(WsError::JsonParse(e));
            },
            Ok(s) => s,
        };
        let entry = identifier_entry(identifier, &s);
        proof {
            lemma_with_entry_wf(old(self)@, entry@);
        }
        let idx = match self.find_group(&entry) {
            Some(i) => i,
            None => {
                let ghost old_seq = self.group_seq();
                proof {
                    lemma_assoc_push(old_seq, entry@, Seq::<(u32, Seq<char>)>::empty());
                }
                let fresh: Vec<SubscriptionData> = Vec::new();
                assert(group_view(fresh) =~= Seq::<(u32, Seq<char>)>::empty());
                self.groups.push((entry.clone(), fresh));
                assert(self.group_seq() =~= old_seq.push((entry@, Seq::<(u32, Seq<char>)>::empty())));
                self.groups.len() - 1
            },
        };
        assert(self@ == old(self)@.with_entry(entry@));
        let empty = self.groups[idx].1.len() == 0;
        assert(empty == (self@.groups[entry@].len() == 0));
        if !empty && entry == String::from_str("userEvents") {
            return Err(WsError::UserEvents);
        }
        Ok(AddPlan { entry, subscribe: empty })
    }

    /// Second half of a subscribe: registers `identifier` under the plan's
    /// key with the next id and returns that id.
    pub fn commit_add(&mut self, plan: &AddPlan, identifier: String) -> (id: u32)
        requires
            old(self).wf(),
            old(self)@.commit_allowed(plan.entry@),
        ensures
            final(self).wf(),
            id == old(self)@.next_id,
            final(self)@ == old(self)@.after_commit(plan.entry@, identifier@),
            final(self)@ == step(old(self)@, TableStep::Commit { key: plan.entry@, identifier: identifier@ }),
    {
        let ghost v = self@;
        let ghost key = plan.entry@;
        proof {
            lemma_commit_wf(v, key, identifier@);
        }
        let id = self.subscription_id;
        self.subscription_identifiers.insert(id, identifier.clone());
        self.subscription_keys.insert(id, plan.entry.clone());
        assert(self@.identifiers =~= v.identifiers.insert(id, identifier@));
        assert(self@.keys =~= v.keys.insert(id, key));
        let i = match self.find_group(&plan.entry) {
            Some(i) => i,
            None => {
                assert(false);
                0
            },
        };
        let ghost old_seq = self.group_seq();
        let (k, mut g) = self.groups.remove(i);
        let ghost old_group = group_view(g);
        g.push(SubscriptionData { subscription_id: id, id: identifier });
        assert(group_view(g) =~= old_group.push((id, identifier@)));
        self.groups.insert(i, (k, g));
        proof {
            lemma_assoc_update(old_seq, i as int, old_group.push((id, identifier@)));
            assert(self.group_seq() =~= old_seq.update(i as int, (key, old_group.push((id, identifier@)))));
        }
        self.subscription_id = id + 1;
        assert(self@.groups =~= v.groups.insert(key, v.groups[key].push((id, identifier@))));
        assert(self@ == v.after_commit(key, identifier@));
        id
    }

    /// The identifier that subscription `id` was registered with.
    pub fn subscription_identifier(&self, subscription_id: u32) -> (r: Result<String, WsError>)
        ensures
            self@.identifiers.contains_key(subscription_id) ==> (r matches Ok(s) && s@
                == self@.identifiers[subscription_id]),
            !self@.identifiers.contains_key(subscription_id) ==> r == Err::<String, WsError>(
                WsError::SubscriptionNotFound,
            ),
    {
        match self.subscription_identifiers.get(&subscription_id) {
            Some(s) => Ok(s.clone()),
            None => Err(WsError::SubscriptionNotFound),
        }
    }

    /// Unsubscribes `id`. Fails, with nothing changed, where `id` is not a
    /// live subscription. Otherwise takes `id` out of the group of the key it
    /// was registered under, forgets its records, and returns its identifier
    /// and whether that group is now empty, in which case the feed must be
    /// unsubscribed on the socket.
    pub fn remove_subscription(&mut self, subscription_id: u32) -> (r: Result<RemovePlan, WsError>)
        requires
            old(self).wf(),
        ensures
            final(self).wf(),
            final(self)@ == step(old(self)@, TableStep::Remove { id: subscription_id }),
            ({
                let v = old(self)@;
                if !v.identifiers.contains_key(subscription_id) {
                    r == Err::<RemovePlan, WsError>(WsError::SubscriptionNotFound) && final(self)@ == v
                } else {
                    &&& final(self)@ == v.after_remove(subscription_id)
                    &&& r matches Ok(plan)
                    &&& plan.identifier@ == v.identifiers[subscription_id]
                    &&& plan.unsubscribe == (final(self)@.groups[v.keys[subscription_id]].len() == 0)
                }
            }),
    {
        let ghost v = self@;
        let identifier = match self.subscription_identifiers.get(&subscription_id) {
            Some(s) => s.clone(),
            None => {
                return Err(WsError::SubscriptionNotFound);
            },
        };
        assert(v.identifiers.contains_key(subscription_id));
        assert(v.keys.contains_key(subscription_id));
        assert(v.groups.contains_key(v.keys[subscription_id]));
        assert(self.subscription_keys@.contains_key(subscription_id));
        proof {
            lemma_remove_wf(v, subscription_id);
        }
        let entry = match self.subscription_keys.get(&subscription_id) {
            Some(k) => k.clone(),
            None => {
                assert(false);
                return Err(WsError::SubscriptionNotFound);
            },
        };
        assert(entry@ == v.keys[subscription_id]);
        self.subscription_identifiers.remove(&subscription_id);
        self.subscription_keys.remove(&subscription_id);
        assert(self@.identifiers =~= v.identifiers.remove(subscription_id));
        assert(self@.keys =~= v.keys.remove(subscription_id));
        let i = match self.find_group(&entry) {
            Some(i) => i,
            None => {
                assert(false);
                return Err(WsError::SubscriptionNotFound);
            },
        };
        let ghost group = v.groups[entry@];
        let mut j: usize = 0;
        let n = self.groups[i].1.len();
        while j < n
            invariant
                j <= n,
                n == group.len(),
                i < self.groups@.len(),
                group == group_view(self.groups@[i as int].1),
                forall|t: int| 0 <= t < j ==> #[trigger] group[t].0 != subscription_id,
            ensures
                j <= n,
                j < n ==> group[j as int].0 == subscription_id,
                forall|t: int| 0 <= t < j ==> #[trigger] group[t].0 != subscription_id,
            decreases n - j,
        {
            if self.groups[i].1[j].subscription_id == subscription_id {
                break;
            }
            j = j + 1;
        }
        if j == n {
            assert(group_has(group, subscription_id));
            let ghost t = choose|t: int| 0 <= t < group.len() && group[t].0 == subscription_id;
            assert(group[t].0 != subscription_id);
            return Err(WsError::SubscriptionNotFound);
        }
        proof {
            assert(group[j as int].0 == subscription_id);
            let p = position(group, subscription_id);
            assert(0 <= p < group.len() && group[p].0 == subscription_id);
            assert(p == j);
        }
        let ghost old_seq = self.group_seq();
        let (k, mut g) = self.groups.remove(i);
        g.remove(j);
        assert(group_view(g) =~= group.remove(j as int));
        let unsubscribe = g.len() == 0;
        self.groups.insert(i, (k, g));
        proof {
            lemma_assoc_update(old_seq, i as int, group.remove(j as int));
            assert(self.group_seq() =~= old_seq.update(i as int, (entry@, group.remove(j as int))));
        }
        assert(self@.groups =~= v.groups.insert(entry@, group.remove(j as int)));
        assert(self@ == v.after_remove(subscription_id));
        Ok(RemovePlan { identifier, unsubscribe })
    }

    fn group_ids(&self, i: usize) -> (ids: Vec<u32>)
        requires
            i < self.groups@.len(),
        ensures
            ids@ == self.group_seq()[i as int].1.map_values(|p: (u32, Seq<char>)| p.0),
    {
        let mut ids: Vec<u32> = Vec::new();
        let n = self.groups[i].1.len();
        let ghost group = self.group_seq()[i as int].1;
        let mut j: usize = 0;
        while j < n
            invariant
                j <= n,
                i < self.groups@.len(),
                n == group.len(),
                group == group_view(self.groups@[i as int].1),
                ids@ == group.take(j as int).map_values(|p: (u32, Seq<char>)| p.0),
            decreases n - j,
        {
            ids.push(self.groups[i].1[j].subscription_id);
            assert(group.take(j as int + 1) =~= group.take(j as int).push(group[j as int]));
            assert(ids@ =~= group.take(j as int + 1).map_values(|p: (u32, Seq<char>)| p.0));
            j = j + 1;
        }
        assert(group.take(n as int) =~= group);
        ids
    }

    /// Routes a parsed websocket message. Fails with the parser's message
    /// where the text did not parse. Otherwise the message goes to the
    /// subscribers grouped under its identifier, in the order in which they
    /// subscribed; to no one where the identifier is empty or nobody holds it.
    pub fn parse_and_send_data(&self, parsed: Result<Message, String>) -> (r: Result<Delivery, WsError>)
        requires
            self.wf(),
        ensures
            match parsed {
                Err(e) => r == Err::<Delivery, WsError>(WsError::JsonParse(e)),
                Ok(m) => r matches Ok(d) && d.message == m && d.targets@ == self@.delivery(
                    message_identifier(m),
                ),
            },
    {
        let message = match parsed {
            Err(e) => {
                return Err(WsError::JsonParse(e));
            },
            Ok(m) => m,
        };
        let identifier = match get_identifier(&message) {
            Ok(s) => s,
            Err(e) => {
                return Err(e);
            },
        };
        if identifier.as_str().is_empty() {
            return Ok(Delivery { message, targets: Vec::new() });
        }
        match self.find_group(&identifier) {
            None => Ok(Delivery { message, targets: Vec::new() }),
            Some(i) => {
                let targets = self.group_ids(i);
                Ok(Delivery { message, targets })
            },
        }
    }

    /// Hands a message to every subscriber: each live subscription id occurs
    /// exactly once among the targets.
    pub fn send_to_all_subscriptions(&self, message: Message) -> (d: Delivery)
        requires
            self.wf(),
        ensures
            d.message == message,
            d.targets@.no_duplicates(),
            forall|id: u32| d.targets@.contains(id) <==> self@.subscribed(id),
            exists|ks: Seq<Seq<char>>|
                {
                    &&& ks.no_duplicates()
                    &&& ks.to_set() == self@.groups.dom()
                    &&& d.targets@ == self@.ids_in_order(ks)
                },
    {
        let ghost gs = self.group_seq();
        let ghost ks = gs.map_values(|p: (Seq<char>, Seq<(u32, Seq<char>)>)| p.0);
        let ghost v = self@;
        let mut targets: Vec<u32> = Vec::new();
        let mut i: usize = 0;
        while i < self.groups.len()
            invariant
                i <= self.groups@.len(),
                gs == self.group_seq(),
                v == self@,
                keys_distinct(gs),
                v.wf(),
                v.groups == assoc(gs),
                ks == gs.map_values(|p: (Seq<char>, Seq<(u32, Seq<char>)>)| p.0),
                targets@ == v.ids_in_order(ks.take(i as int)),
                targets@.no_duplicates(),
                forall|id: u32| targets@.contains(id) <==> exists|a: int, b: int|
                    0 <= a < i && 0 <= b < gs[a].1.len() && #[trigger] gs[a].1[b].0 == id,
            decreases self.groups@.len() - i,
        {
            let ids = self.group_ids(i);
            proof {
                lemma_assoc_lookup(gs, i as int);
            }
            let mut j: usize = 0;
            while j < ids.len()
                invariant
                    i < gs.len(),
                    j <= ids@.len(),
                    ids@ == gs[i as int].1.map_values(|p: (u32, Seq<char>)| p.0),
                    keys_distinct(gs),
                    v.wf(),
                    v.groups == assoc(gs),
                    v.groups.contains_key(gs[i as int].0),
                    v.groups[gs[i as int].0] == gs[i as int].1,
                    ks == gs.map_values(|p: (Seq<char>, Seq<(u32, Seq<char>)>)| p.0),
                    targets@ == v.ids_in_order(ks.take(i as int)) + ids@.take(j as int),
                    targets@.no_duplicates(),
                    forall|id: u32| targets@.contains(id) <==> (exists|a: int, b: int|
                        0 <= a < i && 0 <= b < gs[a].1.len() && #[trigger] gs[a].1[b].0 == id) || (exists|b: int|
                        0 <= b < j && #[trigger] gs[i as int].1[b].0 == id),
                decreases ids@.len() - j,
            {
                let x = ids[j];
                proof {
                    assert(x == gs[i as int].1[j as int].0);
                    if targets@.contains(x) {
                        if exists|a: int, b: int| 0 <= a < i && 0 <= b < gs[a].1.len() && #[trigger] gs[a].1[b].0 == x {
                            let (a, b) = choose|a: int, b: int| 0 <= a < i && 0 <= b < gs[a].1.len() && #[trigger] gs[a].1[b].0 == x;
                            lemma_assoc_lookup(gs, a);
                            assert(gs[a].0 != gs[i as int].0);
                            assert(v.groups[gs[a].0][b].0 == v.groups[gs[i as int].0][j as int].0);
                        } else {
                            let b = choose|b: int| 0 <= b < j && #[trigger] gs[i as int].1[b].0 == x;
                            assert(v.groups[gs[i as int].0][b].0 == v.groups[gs[i as int].0][j as int].0);
                        }
                    }
                }
                let ghost old_t = targets@;
                targets.push(x);
                proof {
                    assert forall|id: u32| targets@.contains(id) <==> (old_t.contains(id) || id == x) by {
                        if targets@.contains(id) {
                            let p = choose|p: int| 0 <= p < targets@.len() && targets@[p] == id;
                            if p < old_t.len() {
                                assert(old_t[p] == id);
                            }
                        }
                        if old_t.contains(id) {
                            let p = choose|p: int| 0 <= p < old_t.len() && old_t[p] == id;
                            assert(targets@[p] == id);
                        }
                        if id == x {
                            assert(targets@[old_t.len() as int] == id);
                        }
                    }
                    assert forall|id: u32| targets@.contains(id) <==> (exists|a: int, b: int|
                        0 <= a < i && 0 <= b < gs[a].1.len() && #[trigger] gs[a].1[b].0 == id) || (exists|b: int|
                        0 <= b < j + 1 && #[trigger] gs[i as int].1[b].0 == id) by {
                        if exists|a: int, b: int| 0 <= a < i && 0 <= b < gs[a].1.len() && #[trigger] gs[a].1[b].0 == id {
                            assert(old_t.contains(id));
                        }
                        if exists|b: int| 0 <= b < j + 1 && #[trigger] gs[i as int].1[b].0 == id {
                            let b = choose|b: int| 0 <= b < j + 1 && #[trigger] gs[i as int].1[b].0 == id;
                            if b < j {
                                assert(old_t.contains(id));
                            }
                        }
                        if targets@.contains(id) {
                            if id == x {
                                assert(gs[i as int].1[j as int].0 == id);
                            } else {
                                assert(old_t.contains(id));
                            }
                        }
                    }
                }
                assert(ids@.take(j as int + 1) =~= ids@.take(j as int).push(x));
                j = j + 1;
            }
            assert(ids@.take(ids@.len() as int) =~= ids@);
            assert(ks.take(i as int + 1).drop_last() =~= ks.take(i as int));
            assert(ks[i as int] == gs[i as int].0);
            assert(targets@ =~= v.ids_in_order(ks.take(i as int + 1)));
            assert forall|id: u32| targets@.contains(id) <==> exists|a: int, b: int|
                0 <= a < i + 1 && 0 <= b < gs[a].1.len() && #[trigger] gs[a].1[b].0 == id by {
                if exists|a: int, b: int| 0 <= a < i + 1 && 0 <= b < gs[a].1.len() && #[trigger] gs[a].1[b].0 == id {
                    let (a, b) = choose|a: int, b: int| 0 <= a < i + 1 && 0 <= b < gs[a].1.len() && #[trigger] gs[a].1[b].0 == id;
                    if a == i {
                        assert(gs[i as int].1[b].0 == id);
                    }
                }
            }
            i = i + 1;
        }
        assert forall|id: u32| targets@.contains(id) <==> v.subscribed(id) by {
            if targets@.contains(id) {
                let (a, b) = choose|a: int, b: int| 0 <= a < gs.len() && 0 <= b < gs[a].1.len() && #[trigger] gs[a].1[b].0 == id;
                lemma_assoc_lookup(gs, a);
                assert(group_has(v.groups[gs[a].0], id));
            }
            if v.subscribed(id) {
                let k = choose|k: Seq<char>| v.groups.contains_key(k) && #[trigger] group_has(v.groups[k], id);
                lemma_assoc_contains(gs, k);
                let a = choose|a: int| 0 <= a < gs.len() && #[trigger] gs[a].0 == k;
                lemma_assoc_lookup(gs, a);
                let b = choose|b: int| 0 <= b < v.groups[k].len() && v.groups[k][b].0 == id;
                assert(gs[a].1[b].0 == id);
            }
        }
        assert(ks.take(gs.len() as int) =~= ks);
        assert(ks.no_duplicates()) by {
            assert forall|a: int, b: int| 0 <= a < ks.len() && 0 <= b < ks.len() && a != b implies ks[a] != ks[b] by {
                if a < b {
                    assert(gs[a].0 != gs[b].0);
                } else {
                    assert(gs[b].0 != gs[a].0);
                }
            }
        }
        assert(ks.to_set() =~= v.groups.dom()) by {
            assert forall|k: Seq<char>| ks.to_set().contains(k) <==> v.groups.dom().contains(k) by {
                lemma_assoc_contains(gs, k);
                if ks.to_set().contains(k) {
                    let a = choose|a: int| 0 <= a < ks.len() && ks[a] == k;
                    assert(gs[a].0 == k);
                }
                if v.groups.dom().contains(k) {
                    let a = choose|a: int| 0 <= a < gs.len() && #[trigger] gs[a].0 == k;
                    assert(ks[a] == k);
                }
            }
        }
        Delivery { message, targets }
    }
}

} // verus!
