use crate::vec_util::into_reversed;
use vstd::prelude::*;

verus! {

/// Largest number of records that one batch request to the queue may carry.
pub const MAX_SQS_BATCH_SIZE: usize = 10;

/// Largest number of batch requests that may be outstanding at once.
pub const MAX_CONCURRENT_BATCHES: usize = 5;

/// The concatenation of a sequence of sequences, in order.
pub open spec fn flat<T>(s: Seq<Seq<T>>) -> Seq<T>
    decreases s.len(),
{
    if s.len() == 0 {
        Seq::empty()
    } else {
        flat(s.drop_last()) + s.last()
    }
}

/// The contents of each vector of a sequence.
pub open spec fn contents<T>(s: Seq<Vec<T>>) -> Seq<Seq<T>> {
    s.map_values(|c: Vec<T>| c@)
}

/// `chunks` splits `items` into consecutive groups of `size` records, the
/// last of which may be shorter; no group is empty.
pub open spec fn is_chunking<T>(chunks: Seq<Seq<T>>, items: Seq<T>, size: nat) -> bool {
    &&& flat(chunks) == items
    &&& forall|i: int| 0 <= i < chunks.len() ==> 0 < #[trigger] chunks[i].len() <= size
    &&& forall|i: int| 0 <= i < chunks.len() - 1 ==> #[trigger] chunks[i].len() == size
}

/// Groups `records` into chunks of `size` records in their order; only the
/// last chunk may hold fewer.
pub fn chunk<T>(records: Vec<T>, size: usize) -> (r: Vec<Vec<T>>)
    requires
        size > 0,
    ensures
        is_chunking(contents(r@), records@, size as nat),
{
    let ghost items = records@;
    let ghost n = records@.len();
    let mut reversed = into_reversed(records);
    let mut out: Vec<Vec<T>> = Vec::new();
    let mut cur: Vec<T> = Vec::new();
    while reversed.len() > 0
        invariant
            n == items.len(),
            reversed@.len() <= n,
            forall|j: int| 0 <= j < reversed@.len() ==> #[trigger] reversed@[j] == items[n - 1 - j],
            flat(contents(out@)) + cur@ == items.take(n - reversed@.len()),
            cur@.len() < size,
            forall|i: int| 0 <= i < out@.len() ==> #[trigger] out@[i]@.len() == size,
        decreases reversed@.len(),
    {
        let ghost k = n - reversed@.len();
        let item = reversed.pop().unwrap();
        assert(item == items[k]);
        cur.push(item);
        assert(items.take(k + 1) =~= items.take(k).push(items[k]));
        assert(flat(contents(out@)) + cur@ =~= items.take(k + 1));
        if cur.len() == size {
            let mut full: Vec<T> = Vec::new();
            std::mem::swap(&mut full, &mut cur);
            let ghost before = out@;
            out.push(full);
            assert(contents(out@) =~= contents(before).push(full@));
            assert(contents(out@).drop_last() =~= contents(before));
            assert(flat(contents(out@)) + cur@ =~= items.take(k + 1));
        }
    }
    if cur.len() > 0 {
        let ghost before = out@;
        out.push(cur);
        assert(contents(out@) =~= contents(before).push(cur@));
        assert(contents(out@).drop_last() =~= contents(before));
    }
    assert(items.take(n as int) =~= items);
    assert(flat(contents(out@)) =~= items);
    out
}

/// One record ready for submission: a request-scoped identifier and the
/// record's wire representation.
#[derive(Clone, Debug, PartialEq)]
pub struct BatchEntry {
    pub id: String,
    pub body: String,
}

/// Relies on uuid::Uuid::new_v4 for a random identifier, rendered by its
/// `Display` impl in the hyphenated form of 36 characters.
#[verifier::external_body]
fn new_request_id() -> (r: String)
    ensures
        r@.len() == 36,
{
    uuid::Uuid::new_v4().to_string()
}

/// The bodies that serialised, in order.
pub open spec fn serialized_bodies(bodies: Seq<Option<String>>) -> Seq<Seq<char>>
    decreases bodies.len(),
{
    if bodies.len() == 0 {
        Seq::empty()
    } else {
        let pre = serialized_bodies(bodies.drop_last());
        match bodies.last() {
            Some(b) => pre.push(b@),
            None => pre,
        }
    }
}

/// Turns the wire representations of a chunk's records into batch entries:
/// a record that failed to serialise (`None`) is skipped, and every other
/// one gets a fresh identifier. Order is kept.
pub fn prepare_entries(bodies: Vec<Option<String>>) -> (r: Vec<BatchEntry>)
    ensures
        r@.len() == serialized_bodies(bodies@).len(),
        r@.len() <= bodies@.len(),
        forall|j: int| 0 <= j < r@.len() ==> #[trigger] r@[j].body@ == serialized_bodies(bodies@)[j],
        forall|j: int| 0 <= j < r@.len() ==> #[trigger] r@[j].id@.len() == 36,
{
    let ghost items = bodies@;
    let ghost n = bodies@.len();
    let mut reversed = into_reversed(bodies);
    let mut out: Vec<BatchEntry> = Vec::new();
    while reversed.len() > 0
        invariant
            n == items.len(),
            reversed@.len() <= n,
            forall|j: int| 0 <= j < reversed@.len() ==> #[trigger] reversed@[j] == items[n - 1 - j],
            out@.len() == serialized_bodies(items.take(n - reversed@.len())).len(),
            forall|j: int| 0 <= j < out@.len() ==> #[trigger] out@[j].body@ == serialized_bodies(items.take(n - reversed@.len()))[j],
            forall|j: int| 0 <= j < out@.len() ==> #[trigger] out@[j].id@.len() == 36,
        decreases reversed@.len(),
    {
        let ghost k = n - reversed@.len();
        let body = reversed.pop().unwrap();
        assert(body == items[k]);
        assert(items.take(k + 1).drop_last() =~= items.take(k));
        match body {
            Some(b) => {
                let id = new_request_id();
                out.push(BatchEntry { id, body: b });
            },
            None => {},
        }
    }
    assert(items.take(n as int) =~= items);
    proof {
        lemma_serialized_bodies_len(items);
    }
    out
}

proof fn lemma_serialized_bodies_len(bodies: Seq<Option<String>>)
    ensures
        serialized_bodies(bodies).len() <= bodies.len(),
    decreases bodies.len(),
{
    if bodies.len() > 0 {
        lemma_serialized_bodies_len(bodies.drop_last());
    }
}

/// What the queue answered to one batch request.
#[derive(Clone, Debug, PartialEq)]
pub enum BatchResponse {
    /// The request was processed: the identifiers of the entries the queue
    /// accepted and of those it rejected.
    Delivered { successful_ids: Vec<String>, failed_ids: Vec<String> },
    /// The request as a whole failed in transport or protocol.
    TransportFailed,
}

/// Views of a list of identifiers.
pub open spec fn id_views(ids: Seq<String>) -> Seq<Seq<char>> {
    ids.map_values(|s: String| s@)
}

/// The entries of a batch that the queue acknowledged.
pub open spec fn acknowledged(entries: Seq<BatchEntry>, response: BatchResponse) -> Seq<BatchEntry> {
    match response {
        BatchResponse::Delivered { successful_ids, .. } => entries.filter(
            |e: BatchEntry| id_views(successful_ids@).contains(e.id@),
        ),
        BatchResponse::TransportFailed => Seq::empty(),
    }
}

/// Number of entries of a batch that count as accepted.
pub open spec fn accepted_spec(entries: Seq<BatchEntry>, response: BatchResponse) -> nat {
    acknowledged(entries, response).len()
}

fn contains_id(ids: &Vec<String>, id: &String) -> (r: bool)
    ensures
        r == id_views(ids@).contains(id@),
{
    let mut i: usize = 0;
    while i < ids.len()
        invariant
            0 <= i <= ids@.len(),
            forall|j: int| 0 <= j < i ==> #[trigger] ids@[j]@ != id@,
        decreases ids@.len() - i,
    {
        if ids[i] == *id {
            assert(id_views(ids@)[i as int] == id@);
            return true;
        }
        i += 1;
    }
    proof {
        let views = id_views(ids@);
        if views.contains(id@) {
            let j = choose|j: int| 0 <= j < views.len() && views[j] == id@;
            assert(ids@[j]@ == id@);
        }
    }
    false
}

/// Counts the entries of a submitted batch that the queue acknowledged: none
/// when the request failed as a whole, else those whose identifier the queue
/// lists as successful.
pub fn accepted_count(entries: &Vec<BatchEntry>, response: &BatchResponse) -> (r: usize)
    ensures
        r == accepted_spec(entries@, *response),
        r <= entries@.len(),
{
    match response {
        BatchResponse::TransportFailed => 0,
        BatchResponse::Delivered { successful_ids, .. } => {
            let ghost p = |e: BatchEntry| id_views(successful_ids@).contains(e.id@);
            let mut count: usize = 0;
            let mut i: usize = 0;
            while i < entries.len()
                invariant
                    0 <= i <= entries@.len(),
                    count == entries@.take(i as int).filter(p).len(),
                    count <= i,
                    i <= entries@.len(),
                    p == (|e: BatchEntry| id_views(successful_ids@).contains(e.id@)),
                decreases entries@.len() - i,
            {
                proof {
                    reveal(Seq::filter);
                    assert(entries@.take(i + 1).drop_last() =~= entries@.take(i as int));
                }
                if contains_id(successful_ids, &entries[i].id) {
                    count += 1;
                }
                i += 1;
            }
            assert(entries@.take(i as int) =~= entries@);
            count
        },
    }
}

/// Accepted count over a whole run: the sum over its batches.
pub open spec fn run_total(batches: Seq<(Seq<BatchEntry>, BatchResponse)>) -> nat
    decreases batches.len(),
{
    if batches.len() == 0 {
        0
    } else {
        run_total(batches.drop_last()) + accepted_spec(batches.last().0, batches.last().1)
    }
}

/// Number of entries submitted over a whole run.
pub open spec fn run_submitted(batches: Seq<(Seq<BatchEntry>, BatchResponse)>) -> nat
    decreases batches.len(),
{
    if batches.len() == 0 {
        0
    } else {
        run_submitted(batches.drop_last()) + batches.last().0.len()
    }
}

/// A batch never has more entries accepted than it carried.
pub proof fn lemma_batch_accepted_bounded(entries: Seq<BatchEntry>, response: BatchResponse)
    ensures
        accepted_spec(entries, response) <= entries.len(),
{
    match response {
        BatchResponse::Delivered { successful_ids, .. } => {
            entries.lemma_filter_len(|e: BatchEntry| id_views(successful_ids@).contains(e.id@));
        },
        BatchResponse::TransportFailed => {},
    }
}

/// The accepted count of a run never exceeds the number of records it
/// submitted.
pub proof fn lemma_run_total_bounded(batches: Seq<(Seq<BatchEntry>, BatchResponse)>)
    ensures
        run_total(batches) <= run_submitted(batches),
    decreases batches.len(),
{
    if batches.len() > 0 {
        lemma_run_total_bounded(batches.drop_last());
        lemma_batch_accepted_bounded(batches.last().0, batches.last().1);
    }
}

/// Across a run, the accepted count never exceeds the number of records
/// chunked, when each batch carries at most the records of its chunk.
pub proof fn lemma_accepted_within_input<T>(
    chunks: Seq<Seq<T>>,
    batches: Seq<(Seq<BatchEntry>, BatchResponse)>,
)
    requires
        batches.len() == chunks.len(),
        forall|i: int| 0 <= i < chunks.len() ==> #[trigger] batches[i].0.len() <= chunks[i].len(),
    ensures
        run_total(batches) <= flat(chunks).len(),
    decreases chunks.len(),
{
    if chunks.len() > 0 {
        let pc = chunks.drop_last();
        let pb = batches.drop_last();
        assert forall|i: int| 0 <= i < pc.len() implies #[trigger] pb[i].0.len() <= pc[i].len() by {
            assert(batches[i].0.len() <= chunks[i].len());
        }
        lemma_accepted_within_input(pc, pb);
        lemma_batch_accepted_bounded(batches.last().0, batches.last().1);
        assert(batches[batches.len() - 1].0.len() <= chunks[chunks.len() - 1].len());
    }
}

/// Failures are isolated: when one batch's request fails in transport, the
/// run's total loses exactly that batch's contribution and nothing that its
/// siblings contributed.
pub proof fn lemma_transport_failure_isolated(
    batches: Seq<(Seq<BatchEntry>, BatchResponse)>,
    i: int,
)
    requires
        0 <= i < batches.len(),
    ensures
        run_total(batches.update(i, (batches[i].0, BatchResponse::TransportFailed))) + accepted_spec(
            batches[i].0,
            batches[i].1,
        ) == run_total(batches),
    decreases batches.len(),
{
    let failed = batches.update(i, (batches[i].0, BatchResponse::TransportFailed));
    if i == batches.len() - 1 {
        assert(failed.drop_last() =~= batches.drop_last());
    } else {
        assert(failed.drop_last() =~= batches.drop_last().update(
            i,
            (batches[i].0, BatchResponse::TransportFailed),
        ));
        lemma_transport_failure_isolated(batches.drop_last(), i);
    }
}

/// Running total of accepted records over the batches of one run.
pub struct Tally {
    pub accepted: usize,
}

impl Tally {
    pub fn new() -> (r: Tally)
        ensures
            r.accepted == 0,
    {
        Tally { accepted: 0 }
    }

    /// Adds what one batch contributed.
    pub fn record(&mut self, entries: &Vec<BatchEntry>, response: &BatchResponse)
        requires
            old(self).accepted + entries@.len() <= usize::MAX,
        ensures
            final(self).accepted == old(self).accepted + accepted_spec(entries@, *response),
    {
        let n = accepted_count(entries, response);
        self.accepted = self.accepted + n;
    }
}

} // verus!
