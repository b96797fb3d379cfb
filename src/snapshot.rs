use vstd::prelude::*;

verus! {

/// One fingerprint observation of the store: an item identity and its fingerprint.
#[derive(Clone, Debug, PartialEq)]
pub struct ItemEventHash {
    pub item_id: String,
    pub hash: String,
}

/// The map that a sequence of observations yields when each one overwrites
/// what came before it for the same identity (last write wins).
pub open spec fn latest_map(es: Seq<ItemEventHash>) -> Map<Seq<char>, Seq<char>>
    decreases es.len(),
{
    if es.len() == 0 {
        Map::empty()
    } else {
        latest_map(es.drop_last()).insert(es.last().item_id@, es.last().hash@)
    }
}

/// No identity occurs twice.
pub open spec fn unique_ids(es: Seq<ItemEventHash>) -> bool {
    forall|i: int, j: int|
        0 <= i < es.len() && 0 <= j < es.len() && i != j ==> #[trigger] es[i].item_id@
            != #[trigger] es[j].item_id@
}

/// `i` is the position of the last observation of `id` in `es`.
pub open spec fn is_last_of(es: Seq<ItemEventHash>, id: Seq<char>, i: int) -> bool {
    &&& 0 <= i < es.len()
    &&& es[i].item_id@ == id
    &&& forall|j: int| i < j < es.len() ==> #[trigger] es[j].item_id@ != id
}

proof fn lemma_latest_map_dom(es: Seq<ItemEventHash>, k: Seq<char>)
    ensures
        latest_map(es).contains_key(k) <==> exists|i: int|
            0 <= i < es.len() && #[trigger] es[i].item_id@ == k,
    decreases es.len(),
{
    if es.len() > 0 {
        let pre = es.drop_last();
        lemma_latest_map_dom(pre, k);
        if latest_map(es).contains_key(k) && k != es.last().item_id@ {
            let i = choose|i: int| 0 <= i < pre.len() && #[trigger] pre[i].item_id@ == k;
            assert(es[i].item_id@ == k);
        }
        if exists|i: int| 0 <= i < es.len() && #[trigger] es[i].item_id@ == k {
            let i = choose|i: int| 0 <= i < es.len() && #[trigger] es[i].item_id@ == k;
            if i < es.len() - 1 {
                assert(pre[i].item_id@ == k);
            }
        }
    }
}

/// The value that `latest_map` holds for an identity is the fingerprint of
/// its last observation.
proof fn lemma_latest_map_last(es: Seq<ItemEventHash>, i: int)
    requires
        0 <= i < es.len(),
        forall|j: int| i < j < es.len() ==> #[trigger] es[j].item_id@ != es[i].item_id@,
    ensures
        latest_map(es).contains_key(es[i].item_id@),
        latest_map(es)[es[i].item_id@] == es[i].hash@,
    decreases es.len(),
{
    let pre = es.drop_last();
    if i < es.len() - 1 {
        assert(es[es.len() - 1].item_id@ != es[i].item_id@);
        assert forall|j: int| i < j < pre.len() implies #[trigger] pre[j].item_id@
            != pre[i].item_id@ by {
            assert(es[j].item_id@ != es[i].item_id@);
        }
        lemma_latest_map_last(pre, i);
    }
}

proof fn lemma_latest_map_update(es: Seq<ItemEventHash>, i: int, e: ItemEventHash)
    requires
        unique_ids(es),
        0 <= i < es.len(),
        e.item_id@ == es[i].item_id@,
    ensures
        latest_map(es.update(i, e)) == latest_map(es).insert(e.item_id@, e.hash@),
    decreases es.len(),
{
    let pre = es.drop_last();
    let upd = es.update(i, e);
    if i == es.len() - 1 {
        assert(upd.drop_last() =~= pre);
        assert(latest_map(upd) =~= latest_map(es).insert(e.item_id@, e.hash@));
    } else {
        assert(upd.drop_last() =~= pre.update(i, e));
        assert(unique_ids(pre)) by {
            assert forall|a: int, b: int|
                0 <= a < pre.len() && 0 <= b < pre.len() && a != b implies #[trigger] pre[a].item_id@
                != #[trigger] pre[b].item_id@ by {
                assert(es[a].item_id@ != es[b].item_id@);
            }
        }
        lemma_latest_map_update(pre, i, e);
        assert(es[es.len() - 1].item_id@ != es[i].item_id@);
        assert(latest_map(upd) =~= latest_map(es).insert(e.item_id@, e.hash@));
    }
}

/// Mapping from item identity to the most recently observed fingerprint,
/// holding at most one entry per identity.
pub struct Snapshot {
    entries: Vec<ItemEventHash>,
}

impl View for Snapshot {
    type V = Map<Seq<char>, Seq<char>>;

    closed spec fn view(&self) -> Map<Seq<char>, Seq<char>> {
        latest_map(self.entries@)
    }
}

impl Snapshot {
    /// Entries are unique per identity.
    pub closed spec fn wf(&self) -> bool {
        unique_ids(self.entries@)
    }

    /// The empty snapshot.
    pub fn new() -> (r: Snapshot)
        ensures
            r.wf(),
            r@ == Map::<Seq<char>, Seq<char>>::empty(),
    {
        Snapshot { entries: Vec::new() }
    }

    /// Number of identities held.
    pub fn len(&self) -> (r: usize)
        requires
            self.wf(),
        ensures
            r == self@.len(),
    {
        proof {
            lemma_unique_len(self.entries@);
        }
        self.entries.len()
    }

    /// The fingerprint last observed for `item_id`, if any.
    pub fn get(&self, item_id: &String) -> (r: Option<&String>)
        requires
            self.wf(),
        ensures
            match r {
                Some(h) => self@.contains_key(item_id@) && self@[item_id@] == h@,
                None => !self@.contains_key(item_id@),
            },
    {
        let mut i: usize = 0;
        while i < self.entries.len()
            invariant
                0 <= i <= self.entries@.len(),
                self.wf(),
                forall|j: int| 0 <= j < i ==> #[trigger] self.entries@[j].item_id@ != item_id@,
            decreases self.entries@.len() - i,
        {
            if self.entries[i].item_id == *item_id {
                proof {
                    let es = self.entries@;
                    assert forall|j: int| i < j < es.len() implies #[trigger] es[j].item_id@
                        != es[i as int].item_id@ by {
                        assert(es[j].item_id@ != es[i as int].item_id@);
                    }
                    lemma_latest_map_last(es, i as int);
                }
                return Some(&self.entries[i].hash);
            }
            i += 1;
        }
        proof {
            lemma_latest_map_dom(self.entries@, item_id@);
        }
        None
    }

    /// Records `hash` as the latest fingerprint of `item_id`, replacing any
    /// earlier one.
    pub fn insert(&mut self, item_id: String, hash: String)
        requires
            old(self).wf(),
        ensures
            final(self).wf(),
            final(self)@ == old(self)@.insert(item_id@, hash@),
    {
        let ghost k = item_id@;
        let ghost v = hash@;
        let mut i: usize = 0;
        while i < self.entries.len()
            invariant
                0 <= i <= self.entries@.len(),
                self.entries@ == old(self).entries@,
                unique_ids(self.entries@),
                k == item_id@,
                v == hash@,
                forall|j: int| 0 <= j < i ==> #[trigger] self.entries@[j].item_id@ != k,
            decreases self.entries@.len() - i,
        {
            if self.entries[i].item_id == item_id {
                let e = ItemEventHash { item_id, hash };
                proof {
                    lemma_latest_map_update(self.entries@, i as int, e);
                }
                self.entries.set(i, e);
                proof {
                    let es = self.entries@;
                    assert forall|a: int, b: int|
                        0 <= a < es.len() && 0 <= b < es.len() && a != b implies #[trigger] es[a].item_id@
                        != #[trigger] es[b].item_id@ by {
                        assert(old(self).entries@[a].item_id@ != old(self).entries@[b].item_id@);
                    }
                }
                return;
            }
            i += 1;
        }
        let e = ItemEventHash { item_id, hash };
        self.entries.push(e);
        proof {
            let es = self.entries@;
            assert(es.drop_last() =~= old(self).entries@);
            assert forall|a: int, b: int|
                0 <= a < es.len() && 0 <= b < es.len() && a != b implies #[trigger] es[a].item_id@
                != #[trigger] es[b].item_id@ by {
                if a < es.len() - 1 && b < es.len() - 1 {
                    assert(old(self).entries@[a].item_id@ != old(self).entries@[b].item_id@);
                }
            }
        }
    }

    /// Builds the snapshot of an observation history given oldest first: for
    /// each identity, the most recent observation wins.
    pub fn from_events(events: &Vec<ItemEventHash>) -> (r: Snapshot)
        ensures
            r.wf(),
            r@ == latest_map(events@),
    {
        let mut s = Snapshot::new();
        let mut i: usize = 0;
        while i < events.len()
            invariant
                0 <= i <= events@.len(),
                s.wf(),
                s@ == latest_map(events@.take(i as int)),
            decreases events@.len() - i,
        {
            assert(events@.take(i as int + 1).drop_last() =~= events@.take(i as int));
            s.insert(events[i].item_id.clone(), events[i].hash.clone());
            i += 1;
        }
        assert(events@.take(i as int) =~= events@);
        s
    }
}

proof fn lemma_unique_len(es: Seq<ItemEventHash>)
    requires
        unique_ids(es),
    ensures
        latest_map(es).len() == es.len(),
        latest_map(es).dom().finite(),
    decreases es.len(),
{
    if es.len() > 0 {
        let pre = es.drop_last();
        assert(unique_ids(pre)) by {
            assert forall|a: int, b: int|
                0 <= a < pre.len() && 0 <= b < pre.len() && a != b implies #[trigger] pre[a].item_id@
                != #[trigger] pre[b].item_id@ by {
                assert(es[a].item_id@ != es[b].item_id@);
            }
        }
        lemma_unique_len(pre);
        lemma_latest_map_dom(pre, es.last().item_id@);
        if latest_map(pre).contains_key(es.last().item_id@) {
            let i = choose|i: int| 0 <= i < pre.len() && #[trigger] pre[i].item_id@ == es.last().item_id@;
            assert(es[i].item_id@ == es[es.len() - 1].item_id@);
        }
    }
}

/// Last write wins: in the snapshot of an observation history, an identity
/// is present exactly when it was observed, and its fingerprint is that of
/// its most recent observation.
pub proof fn lemma_latest_observation_governs(events: Seq<ItemEventHash>, id: Seq<char>, i: int)
    requires
        is_last_of(events, id, i),
    ensures
        latest_map(events).contains_key(id),
        latest_map(events)[id] == events[i].hash@,
{
    lemma_latest_map_last(events, i);
}

/// An identity that was never observed is absent from the snapshot.
pub proof fn lemma_unobserved_absent(events: Seq<ItemEventHash>, id: Seq<char>)
    requires
        forall|i: int| 0 <= i < events.len() ==> #[trigger] events[i].item_id@ != id,
    ensures
        !latest_map(events).contains_key(id),
{
    lemma_latest_map_dom(events, id);
}

} // verus!
