use crate::fingerprint::item_fingerprint;
use crate::item::Item;
use crate::snapshot::{is_last_of, latest_map, lemma_latest_observation_governs, ItemEventHash, Snapshot};
use crate::vec_util::into_reversed;
use vstd::prelude::*;

verus! {

/// A record is a change unless the snapshot holds exactly its fingerprint
/// for its identity.
pub open spec fn is_change(item: Item, snapshot: Map<Seq<char>, Seq<char>>) -> bool {
    !snapshot.contains_key(item.item_id@) || snapshot[item.item_id@] != item_fingerprint(item)
}

/// The records that survive change detection, in their original order.
pub open spec fn changes(items: Seq<Item>, snapshot: Map<Seq<char>, Seq<char>>) -> Seq<Item> {
    items.filter(|item: Item| is_change(item, snapshot))
}

proof fn lemma_changes_step(items: Seq<Item>, snapshot: Map<Seq<char>, Seq<char>>, k: int)
    requires
        0 <= k < items.len(),
    ensures
        changes(items.take(k + 1), snapshot) == if is_change(items[k], snapshot) {
            changes(items.take(k), snapshot).push(items[k])
        } else {
            changes(items.take(k), snapshot)
        },
{
    reveal(Seq::filter);
    assert(items.take(k + 1).drop_last() =~= items.take(k));
}

/// Decides whether a record is a change against the snapshot.
pub fn is_changed(item: &Item, snapshot: &Snapshot) -> (r: bool)
    requires
        snapshot.wf(),
    ensures
        r == is_change(*item, snapshot@),
{
    match snapshot.get(&item.item_id) {
        None => true,
        Some(old_hash) => {
            let new_hash = item.fingerprint();
            !(*old_hash == new_hash)
        },
    }
}

/// Drops every record whose fingerprint equals the one the snapshot holds
/// for its identity; records absent from the snapshot are kept. The order of
/// the kept records is preserved.
pub fn drop_unchanged_diffs(diffs: &mut Vec<Item>, item_id_hash_map: &Snapshot)
    requires
        item_id_hash_map.wf(),
    ensures
        final(diffs)@ == changes(old(diffs)@, item_id_hash_map@),
{
    let ghost items = diffs@;
    let ghost n = diffs@.len();
    let mut rest: Vec<Item> = Vec::new();
    std::mem::swap(diffs, &mut rest);
    let mut reversed = into_reversed(rest);
    while reversed.len() > 0
        invariant
            n == items.len(),
            reversed@.len() <= n,
            forall|j: int| 0 <= j < reversed@.len() ==> #[trigger] reversed@[j] == items[n - 1 - j],
            diffs@ == changes(items.take(n - reversed@.len()), item_id_hash_map@),
            item_id_hash_map.wf(),
        decreases reversed@.len(),
    {
        let ghost k = n - reversed@.len();
        let item = reversed.pop().unwrap();
        assert(item == items[k]);
        proof {
            lemma_changes_step(items, item_id_hash_map@, k);
        }
        if is_changed(&item, item_id_hash_map) {
            diffs.push(item);
        }
    }
    assert(items.take(n as int) =~= items);
}

/// Idempotence under no change: when the latest observation of an identity
/// carries the fingerprint of an earlier record, a fresh record with that
/// identity and the same state, currency, prices and URL is dropped.
pub proof fn lemma_unchanged_record_dropped(
    events: Seq<ItemEventHash>,
    i: int,
    earlier: Item,
    fresh: Item,
    items: Seq<Item>,
)
    requires
        is_last_of(events, fresh.item_id@, i),
        events[i].hash@ == item_fingerprint(earlier),
        earlier.item_state == fresh.item_state,
        earlier.currency == fresh.currency,
        earlier.lower_price == fresh.lower_price,
        earlier.upper_price == fresh.upper_price,
        earlier.url@ == fresh.url@,
    ensures
        !is_change(fresh, latest_map(events)),
        !changes(items, latest_map(events)).contains(fresh),
{
    lemma_latest_observation_governs(events, fresh.item_id@, i);
    let snapshot = latest_map(events);
    let p = |item: Item| is_change(item, snapshot);
    if changes(items, snapshot).contains(fresh) {
        let j = choose|j: int| 0 <= j < changes(items, snapshot).len() && changes(items, snapshot)[j] == fresh;
        items.lemma_filter_pred(p, j);
    }
}

/// First observation: a record whose identity the snapshot does not hold is
/// always kept, whatever its fingerprint.
pub proof fn lemma_first_observation_kept(
    items: Seq<Item>,
    snapshot: Map<Seq<char>, Seq<char>>,
    k: int,
)
    requires
        0 <= k < items.len(),
        !snapshot.contains_key(items[k].item_id@),
    ensures
        changes(items, snapshot).contains(items[k]),
{
    let p = |item: Item| is_change(item, snapshot);
    assert(p(items[k]));
    items.lemma_filter_contains(p, k);
}

} // verus!
