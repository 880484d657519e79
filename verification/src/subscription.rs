//! Subscription bookkeeping: one row per local key, kept in first-subscribe
//! order for replay after a reconnect, plus the server-assigned ids that
//! unsubscribe frames refer to.

use crate::models::{build_sub_key, requests_view, SubscribeRequest, SubscribeRequestView};
use indexmap::IndexMap;
use vstd::prelude::*;

verus! {

/// The insertion-ordered map of the `indexmap` crate.
#[verifier::external_type_specification]
#[verifier::external_body]
#[verifier::reject_recursive_types(K)]
#[verifier::reject_recursive_types(V)]
#[verifier::reject_recursive_types(S)]
pub struct ExIndexMap<K, V, S>(IndexMap<K, V, S>);

/// The entries of a subscription map, as (key, request) pairs in the map's
/// order.
pub uninterp spec fn subscription_rows(m: IndexMap<String, SubscribeRequest>) -> Seq<
    (Seq<char>, SubscribeRequestView),
>;

/// A row sequence.
pub type Rows = Seq<(Seq<char>, SubscribeRequestView)>;

/// The position of the row keyed `key`, or -1.
pub open spec fn row_index(rows: Rows, key: Seq<char>) -> int
    decreases rows.len(),
{
    if rows.len() == 0 {
        -1
    } else if rows.last().0 == key {
        rows.len() - 1
    } else {
        row_index(rows.drop_last(), key)
    }
}

/// No key occurs twice.
pub open spec fn unique_keys(rows: Rows) -> bool {
    forall|i: int, j: int| 0 <= i < j < rows.len() ==> rows[i].0 != rows[j].0
}

/// Inserting: an existing key keeps its place and takes the new value; a
/// new key goes last.
pub open spec fn upsert(rows: Rows, key: Seq<char>, v: SubscribeRequestView) -> Rows {
    let i = row_index(rows, key);
    if i >= 0 {
        rows.update(i, (key, v))
    } else {
        rows.push((key, v))
    }
}

/// Removing a key, keeping the order of the others.
pub open spec fn remove_key(rows: Rows, key: Seq<char>) -> Rows {
    let i = row_index(rows, key);
    if i >= 0 {
        rows.remove(i)
    } else {
        rows
    }
}

/// The keys of the rows, in order.
pub open spec fn row_keys(rows: Rows) -> Seq<Seq<char>> {
    rows.map_values(|r: (Seq<char>, SubscribeRequestView)| r.0)
}

/// The requests of the rows, in order.
pub open spec fn row_values(rows: Rows) -> Seq<SubscribeRequestView> {
    rows.map_values(|r: (Seq<char>, SubscribeRequestView)| r.1)
}

/// `IndexMap::new`: an empty map.
#[verifier::external_body]
fn map_new() -> (m: IndexMap<String, SubscribeRequest>)
    ensures
        subscription_rows(m) == Seq::<(Seq<char>, SubscribeRequestView)>::empty(),
{
    IndexMap::new()
}

/// `IndexMap::len`: the number of entries.
#[verifier::external_body]
fn map_len(m: &IndexMap<String, SubscribeRequest>) -> (n: usize)
    ensures
        n == subscription_rows(*m).len(),
{
    m.len()
}

/// `IndexMap::get_index`: the entry at a position, if in range.
#[verifier::external_body]
fn map_get_index(m: &IndexMap<String, SubscribeRequest>, i: usize) -> (r: Option<
    (&String, &SubscribeRequest),
>)
    ensures
        i < subscription_rows(*m).len() ==> r is Some && r->Some_0.0@ == subscription_rows(
            *m,
        )[i as int].0 && r->Some_0.1@ == subscription_rows(*m)[i as int].1,
        i >= subscription_rows(*m).len() ==> r is None,
{
    m.get_index(i)
}

/// `IndexMap::insert`: an existing key keeps its position and takes the new
/// value (the old one is returned); a new key is appended.
#[verifier::external_body]
fn map_insert(m: &mut IndexMap<String, SubscribeRequest>, key: String, value: SubscribeRequest) -> (r: Option<
    SubscribeRequest,
>)
    ensures
        subscription_rows(*final(m)) == upsert(subscription_rows(*old(m)), key@, value@),
        (r is Some) == (row_index(subscription_rows(*old(m)), key@) >= 0),
{
    m.insert(key, value)
}

/// `IndexMap::shift_remove`: removes the entry for `key`, shifting the
/// later entries down so their order is kept; returns the removed value.
#[verifier::external_body]
fn map_shift_remove(m: &mut IndexMap<String, SubscribeRequest>, key: &str) -> (r: Option<
    SubscribeRequest,
>)
    ensures
        subscription_rows(*final(m)) == remove_key(subscription_rows(*old(m)), key@),
        (r is Some) == (row_index(subscription_rows(*old(m)), key@) >= 0),
{
    m.shift_remove(key)
}

/// `IndexMap::contains_key`.
#[verifier::external_body]
fn map_contains_key(m: &IndexMap<String, SubscribeRequest>, key: &str) -> (r: bool)
    ensures
        r == (row_index(subscription_rows(*m), key@) >= 0),
{
    m.contains_key(key)
}

/// Keeps subscription rows in insertion order and the server ids that
/// acknowledgements assigned to local keys.
pub struct SubscriptionManager {
    subscriptions: IndexMap<String, SubscribeRequest>,
    server_ids: Vec<(String, String)>,
}

/// The server-id table as a map from local key to id.
pub open spec fn id_table(ids: Seq<(String, String)>) -> Map<Seq<char>, Seq<char>>
    decreases ids.len(),
{
    if ids.len() == 0 {
        Map::empty()
    } else {
        id_table(ids.drop_last()).insert(ids.last().0@, ids.last().1@)
    }
}

/// No key occurs twice in the server-id table.
pub open spec fn unique_id_keys(ids: Seq<(String, String)>) -> bool {
    forall|i: int, j: int| 0 <= i < j < ids.len() ==> ids[i].0@ != ids[j].0@
}

impl SubscriptionManager {
    /// Keys are unique in both tables.
    #[verifier::type_invariant]
    spec fn inv(self) -> bool {
        &&& unique_keys(subscription_rows(self.subscriptions))
        &&& unique_id_keys(self.server_ids@)
    }

    /// The subscription rows, in insertion order.
    pub closed spec fn rows(self) -> Rows {
        subscription_rows(self.subscriptions)
    }

    /// The server ids recorded per local key.
    pub closed spec fn ids(self) -> Map<Seq<char>, Seq<char>> {
        id_table(self.server_ids@)
    }

    /// An empty manager.
    pub fn new() -> (m: Self)
        ensures
            m.rows() == Seq::<(Seq<char>, SubscribeRequestView)>::empty(),
            m.ids() == Map::<Seq<char>, Seq<char>>::empty(),
    {
        SubscriptionManager { subscriptions: map_new(), server_ids: Vec::new() }
    }

    /// Records a subscription under its key, even while disconnected. A key
    /// already present keeps its place and takes the new request.
    pub fn subscribe(&mut self, req: SubscribeRequest)
        ensures
            final(self).rows() == upsert(old(self).rows(), req@.key(), req@),
            final(self).ids() == old(self).ids(),
    {
        proof {
            use_type_invariant(&*self);
        }
        let key = req.key();
        let ghost v = req@;
        let mut subs = map_new();
        std::mem::swap(&mut subs, &mut self.subscriptions);
        let _ = map_insert(&mut subs, key, req);
        proof {
            lemma_upsert_unique(old(self).rows(), v.key(), v);
        }
        self.subscriptions = subs;
    }

    /// Removes the subscription keyed `key`, even while disconnected.
    pub fn unsubscribe(&mut self, key: &str)
        ensures
            final(self).rows() == remove_key(old(self).rows(), key@),
            final(self).ids() == old(self).ids(),
    {
        proof {
            use_type_invariant(&*self);
        }
        let mut subs = map_new();
        std::mem::swap(&mut subs, &mut self.subscriptions);
        let _ = map_shift_remove(&mut subs, key);
        proof {
            lemma_remove_unique(old(self).rows(), key@);
        }
        self.subscriptions = subs;
    }

    /// Removes the regular-session subscription `channel:symbol`.
    pub fn unsubscribe_by_channel_symbol(&mut self, channel: &str, symbol: &str)
        ensures
            final(self).rows() == remove_key(
                old(self).rows(),
                crate::models::sub_key(channel@, symbol@, false, false),
            ),
            final(self).ids() == old(self).ids(),
    {
        let key = build_sub_key(channel, symbol, false, false);
        self.unsubscribe(key.as_str());
    }

    /// Copies of every stored request, in insertion order.
    pub fn get_all(&self) -> (all: Vec<SubscribeRequest>)
        ensures
            requests_view(all@) == row_values(self.rows()),
            unique_keys(self.rows()),
    {
        proof {
            use_type_invariant(self);
        }
        let n = map_len(&self.subscriptions);
        let mut all: Vec<SubscribeRequest> = Vec::new();
        let mut i: usize = 0;
        while i < n
            invariant
                i <= n,
                n == self.rows().len(),
                requests_view(all@) == row_values(self.rows()).take(i as int),
            decreases n - i,
        {
            match map_get_index(&self.subscriptions, i) {
                Some((_, v)) => {
                    let c = v.duplicate();
                    let ghost before = all@;
                    all.push(c);
                    proof {
                        assert(all@ =~= before.push(c));
                        assert(requests_view(all@) =~= requests_view(before).push(c@));
                        assert(row_values(self.rows()).take(i + 1) =~= row_values(
                            self.rows(),
                        ).take(i as int).push(self.rows()[i as int].1));
                    }
                },
                None => {},
            }
            i = i + 1;
        }
        proof {
            assert(row_values(self.rows()).take(n as int) =~= row_values(self.rows()));
        }
        all
    }

    /// The keys of all stored subscriptions, in insertion order.
    pub fn keys(&self) -> (keys: Vec<String>)
        ensures
            crate::models::strings_view(keys@) == row_keys(self.rows()),
            unique_keys(self.rows()),
    {
        proof {
            use_type_invariant(self);
        }
        let n = map_len(&self.subscriptions);
        let mut keys: Vec<String> = Vec::new();
        let mut i: usize = 0;
        while i < n
            invariant
                i <= n,
                n == self.rows().len(),
                crate::models::strings_view(keys@) == row_keys(self.rows()).take(i as int),
            decreases n - i,
        {
            match map_get_index(&self.subscriptions, i) {
                Some((k, _)) => {
                    let c = k.clone();
                    let ghost before = keys@;
                    keys.push(c);
                    proof {
                        assert(keys@ =~= before.push(c));
                        assert(crate::models::strings_view(keys@) =~= crate::models::strings_view(
                            before,
                        ).push(c@));
                        assert(row_keys(self.rows()).take(i + 1) =~= row_keys(self.rows()).take(
                            i as int,
                        ).push(self.rows()[i as int].0));
                    }
                },
                None => {},
            }
            i = i + 1;
        }
        proof {
            assert(row_keys(self.rows()).take(n as int) =~= row_keys(self.rows()));
        }
        keys
    }

    /// Whether a subscription is stored under `key`.
    pub fn contains(&self, key: &str) -> (r: bool)
        ensures
            r == (row_index(self.rows(), key@) >= 0),
    {
        map_contains_key(&self.subscriptions, key)
    }

    /// The number of stored subscriptions.
    pub fn count(&self) -> (n: usize)
        ensures
            n == self.rows().len(),
            unique_keys(self.rows()),
    {
        proof {
            use_type_invariant(self);
        }
        map_len(&self.subscriptions)
    }

    /// Forgets every subscription.
    pub fn clear(&mut self)
        ensures
            final(self).rows() == Seq::<(Seq<char>, SubscribeRequestView)>::empty(),
            final(self).ids() == old(self).ids(),
    {
        proof {
            use_type_invariant(&*self);
        }
        self.subscriptions = map_new();
    }

    /// Records the id the server assigned to the subscription keyed `key`,
    /// replacing an earlier one.
    pub fn record_server_id(&mut self, key: String, id: String)
        ensures
            final(self).rows() == old(self).rows(),
            final(self).ids() == old(self).ids().insert(key@, id@),
    {
        proof {
            use_type_invariant(&*self);
        }
        let mut ids: Vec<(String, String)> = Vec::new();
        std::mem::swap(&mut ids, &mut self.server_ids);
        let ghost old_ids = ids@;
        let pos = find_id(&ids, key.as_str());
        match pos {
            Some(i) => {
                ids.remove(i);
                proof {
                    lemma_remove_id(old_ids, i as int);
                }
            },
            None => {
                proof {
                    lemma_absent_id(old_ids, key@);
                }
            },
        }
        let ghost mid = ids@;
        let ghost k = key@;
        ids.push((key, id));
        proof {
            assert(ids@.drop_last() =~= mid);
            assert(unique_id_keys(ids@)) by {
                lemma_unique_push(ids@, k);
            }
        }
        self.server_ids = ids;
    }

    /// Removes and returns the server id recorded for `key`.
    pub fn take_server_id(&mut self, key: &str) -> (id: Option<String>)
        ensures
            final(self).rows() == old(self).rows(),
            final(self).ids() == old(self).ids().remove(key@),
            match id {
                Some(s) => old(self).ids().contains_key(key@) && s@ == old(self).ids()[key@],
                None => !old(self).ids().contains_key(key@),
            },
    {
        proof {
            use_type_invariant(&*self);
        }
        let mut ids: Vec<(String, String)> = Vec::new();
        std::mem::swap(&mut ids, &mut self.server_ids);
        let ghost old_ids = ids@;
        let r = match find_id(&ids, key) {
            Some(i) => {
                let (_, id) = ids.remove(i);
                proof {
                    lemma_remove_id(old_ids, i as int);
                }
                Some(id)
            },
            None => {
                proof {
                    lemma_absent_id(old_ids, key@);
                }
                None
            },
        };
        self.server_ids = ids;
        r
    }

    /// Forgets every recorded server id (they refer to a dead connection
    /// after a reconnect).
    pub fn clear_server_ids(&mut self)
        ensures
            final(self).rows() == old(self).rows(),
            final(self).ids() == Map::<Seq<char>, Seq<char>>::empty(),
    {
        proof {
            use_type_invariant(&*self);
        }
        self.server_ids = Vec::new();
    }
}

impl Default for SubscriptionManager {
    fn default() -> (m: Self)
        ensures
            m.rows() == Seq::<(Seq<char>, SubscribeRequestView)>::empty(),
            m.ids() == Map::<Seq<char>, Seq<char>>::empty(),
    {
        Self::new()
    }
}

fn find_id(ids: &Vec<(String, String)>, key: &str) -> (r: Option<usize>)
    ensures
        match r {
            Some(i) => i < ids@.len() && ids@[i as int].0@ == key@,
            None => forall|j: int| 0 <= j < ids@.len() ==> ids@[j].0@ != key@,
        },
{
    let mut i: usize = 0;
    while i < ids.len()
        invariant
            i <= ids.len(),
            forall|j: int| 0 <= j < i ==> ids@[j].0@ != key@,
        decreases ids.len() - i,
    {
        if crate::text::str_eq(ids[i].0.as_str(), key) {
            return Some(i);
        }
        i = i + 1;
    }
    None
}

proof fn lemma_id_table_lookup(ids: Seq<(String, String)>, i: int)
    requires
        unique_id_keys(ids),
        0 <= i < ids.len(),
    ensures
        id_table(ids).contains_key(ids[i].0@),
        id_table(ids)[ids[i].0@] == ids[i].1@,
    decreases ids.len(),
{
    if i < ids.len() - 1 {
        lemma_id_table_lookup(ids.drop_last(), i);
    }
}

proof fn lemma_absent_id(ids: Seq<(String, String)>, key: Seq<char>)
    requires
        forall|j: int| 0 <= j < ids.len() ==> ids[j].0@ != key,
    ensures
        !id_table(ids).contains_key(key),
        id_table(ids).remove(key) == id_table(ids),
    decreases ids.len(),
{
    if ids.len() > 0 {
        lemma_absent_id(ids.drop_last(), key);
    }
    assert(id_table(ids).remove(key) =~= id_table(ids));
}

proof fn lemma_remove_id(ids: Seq<(String, String)>, i: int)
    requires
        unique_id_keys(ids),
        0 <= i < ids.len(),
    ensures
        unique_id_keys(ids.remove(i)),
        id_table(ids.remove(i)) == id_table(ids).remove(ids[i].0@),
        id_table(ids).contains_key(ids[i].0@),
        id_table(ids)[ids[i].0@] == ids[i].1@,
        forall|j: int| 0 <= j < ids.remove(i).len() ==> ids.remove(i)[j].0@ != ids[i].0@,
    decreases ids.len(),
{
    lemma_id_table_lookup(ids, i);
    let r = ids.remove(i);
    if i == ids.len() - 1 {
        assert(r =~= ids.drop_last());
        lemma_absent_id(r, ids[i].0@);
        assert(id_table(ids).remove(ids[i].0@) =~= id_table(r));
    } else {
        lemma_remove_id(ids.drop_last(), i);
        assert(r.drop_last() =~= ids.drop_last().remove(i));
        assert(r.last() == ids.last());
        assert(id_table(r) =~= id_table(ids).remove(ids[i].0@));
    }
}

proof fn lemma_unique_push(ids: Seq<(String, String)>, key: Seq<char>)
    requires
        unique_id_keys(ids.drop_last()),
        ids.len() > 0,
        ids.last().0@ == key,
        forall|j: int| 0 <= j < ids.len() - 1 ==> ids[j].0@ != key,
    ensures
        unique_id_keys(ids),
{
    assert forall|i: int, j: int| 0 <= i < j < ids.len() implies ids[i].0@ != ids[j].0@ by {
        if j < ids.len() - 1 {
            assert(ids[i] == ids.drop_last()[i]);
            assert(ids[j] == ids.drop_last()[j]);
        }
    }
}

/// Inserting keeps keys unique.
pub proof fn lemma_upsert_unique(rows: Rows, key: Seq<char>, v: SubscribeRequestView)
    requires
        unique_keys(rows),
    ensures
        unique_keys(upsert(rows, key, v)),
{
    lemma_row_index(rows, key);
}

/// Removing keeps keys unique.
pub proof fn lemma_remove_unique(rows: Rows, key: Seq<char>)
    requires
        unique_keys(rows),
    ensures
        unique_keys(remove_key(rows, key)),
{
    lemma_row_index(rows, key);
    let i = row_index(rows, key);
    if i >= 0 {
        let r = rows.remove(i);
        assert forall|a: int, b: int| 0 <= a < b < r.len() implies r[a].0 != r[b].0 by {
            let a2 = if a < i { a } else { a + 1 };
            let b2 = if b < i { b } else { b + 1 };
            assert(r[a] == rows[a2]);
            assert(r[b] == rows[b2]);
        }
    }
}

/// In a row sequence without repeated keys, `row_index` is the one position
/// that holds the key.
pub proof fn lemma_row_index_unique(rows: Rows, i: int)
    requires
        unique_keys(rows),
        0 <= i < rows.len(),
    ensures
        row_index(rows, rows[i].0) == i,
    decreases rows.len(),
{
    if i < rows.len() - 1 {
        let d = rows.drop_last();
        assert forall|a: int, b: int| 0 <= a < b < d.len() implies d[a].0 != d[b].0 by {
            assert(d[a] == rows[a]);
            assert(d[b] == rows[b]);
        }
        assert(d[i] == rows[i]);
        lemma_row_index_unique(d, i);
    }
}

/// Subscribing again under a key that is already stored replaces its
/// request in place: the number of rows and the order of keys stay the same.
pub proof fn law_resubscribe_updates_in_place(rows: Rows, key: Seq<char>, v: SubscribeRequestView)
    requires
        row_index(rows, key) >= 0,
    ensures
        upsert(rows, key, v).len() == rows.len(),
        row_keys(upsert(rows, key, v)) == row_keys(rows),
        upsert(rows, key, v)[row_index(rows, key)] == (key, v),
{
    lemma_row_index(rows, key);
    let i = row_index(rows, key);
    assert(row_keys(upsert(rows, key, v)) =~= row_keys(rows));
}

/// Subscribing under a new key appends the row after every stored one, so
/// replay after a reconnect follows first-subscribe order.
pub proof fn law_new_subscription_goes_last(rows: Rows, key: Seq<char>, v: SubscribeRequestView)
    requires
        row_index(rows, key) < 0,
    ensures
        upsert(rows, key, v) == rows.push((key, v)),
{
}

/// Unsubscribing a key right after subscribing it as a new key gives back
/// exactly the rows there were before.
pub proof fn law_unsubscribe_undoes_new_subscribe(rows: Rows, key: Seq<char>, v: SubscribeRequestView)
    requires
        row_index(rows, key) < 0,
    ensures
        remove_key(upsert(rows, key, v), key) == rows,
{
    let p = rows.push((key, v));
    assert(row_index(p, key) == rows.len());
    assert(p.remove(rows.len() as int) =~= rows);
}

/// After subscribing, the key is stored with the new request.
pub proof fn law_subscribed_key_is_stored(rows: Rows, key: Seq<char>, v: SubscribeRequestView)
    requires
        unique_keys(rows),
    ensures
        row_index(upsert(rows, key, v), key) >= 0,
        upsert(rows, key, v)[row_index(upsert(rows, key, v), key)] == (key, v),
{
    lemma_row_index(rows, key);
    lemma_upsert_unique(rows, key, v);
    let u = upsert(rows, key, v);
    let i = row_index(rows, key);
    if i >= 0 {
        assert(u[i] == (key, v));
        lemma_row_index_unique(u, i);
    } else {
        assert(u[rows.len() as int] == (key, v));
        lemma_row_index_unique(u, rows.len() as int);
    }
}

/// After unsubscribing, the key is no longer stored, and every other row
/// keeps its relative order.
pub proof fn law_unsubscribed_key_is_gone(rows: Rows, key: Seq<char>)
    requires
        unique_keys(rows),
    ensures
        row_index(remove_key(rows, key), key) < 0,
        row_index(rows, key) >= 0 ==> row_keys(remove_key(rows, key)) == row_keys(rows).remove(
            row_index(rows, key),
        ),
        row_index(rows, key) < 0 ==> remove_key(rows, key) == rows,
{
    lemma_row_index(rows, key);
    let i = row_index(rows, key);
    let r = remove_key(rows, key);
    lemma_row_index(r, key);
    if i >= 0 {
        if row_index(r, key) >= 0 {
            let j = row_index(r, key);
            let j2 = if j < i { j } else { j + 1 };
            assert(r[j] == rows[j2]);
            assert(false);
        }
        assert(row_keys(r) =~= row_keys(rows).remove(i));
    }
}

/// `row_index` finds the key exactly where it is, and reports -1 only
/// when it is absent.
pub proof fn lemma_row_index(rows: Rows, key: Seq<char>)
    ensures
        -1 <= row_index(rows, key) < rows.len(),
        row_index(rows, key) >= 0 ==> rows[row_index(rows, key)].0 == key,
        row_index(rows, key) == -1 ==> forall|j: int| 0 <= j < rows.len() ==> rows[j].0 != key,
    decreases rows.len(),
{
    if rows.len() > 0 {
        lemma_row_index(rows.drop_last(), key);
        assert forall|j: int| 0 <= j < rows.len() - 1 implies rows[j] == rows.drop_last()[j] by {}
    }
}

} // verus!
