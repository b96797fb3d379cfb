use crate::crawl::{Crawl, ScrapeError};
use crate::dispatch::{chunk, contents, is_chunking, MAX_SQS_BATCH_SIZE};
use crate::hash_comparison::{changes, is_changed};
use crate::item::Item;
use crate::scraper_config::ScraperConfig;
use crate::snapshot::Snapshot;
use crate::vec_util::into_reversed;
use vstd::prelude::*;

verus! {

/// Failure that aborts a run before anything is crawled or dispatched.
#[derive(Clone, Debug, PartialEq)]
pub enum ScrapePushError {
    /// The fingerprint history of the source could not be read; the message
    /// says why.
    QueryItemEventHashesError(String),
}

impl ScrapePushError {
    /// The name of this kind of failure.
    pub fn error_type(&self) -> (r: &'static str)
        ensures
            r@ == seq![
                'Q', 'u', 'e', 'r', 'y', 'I', 't', 'e', 'm', 'E', 'v', 'e', 'n', 't', 'H', 'a', 's',
                'h', 'e', 's', 'E', 'r', 'r', 'o', 'r',
            ],
    {
        proof {
            reveal_strlit("QueryItemEventHashesError");
        }
        match self {
            ScrapePushError::QueryItemEventHashesError(_) => "QueryItemEventHashesError",
        }
    }
}

/// Begins a run once the snapshot lookup has answered. A failed lookup is
/// fatal and is returned as it is, so no crawl exists and no page is fetched;
/// otherwise the crawl starts at page 1 with the configured pause.
pub fn start_run(config: &ScraperConfig, snapshot: Result<Snapshot, ScrapePushError>) -> (r: Result<
    (Snapshot, Crawl),
    ScrapePushError,
>)
    ensures
        match snapshot {
            Err(e) => r == Err::<(Snapshot, Crawl), ScrapePushError>(e),
            Ok(s) => r matches Ok((s2, crawl)) && s2 == s && crawl.wf() && crawl.next_page == 1
                && !crawl.finished && crawl.sleep_between_pages_millis
                == config.sleep_between_pages_millis,
        },
{
    match snapshot {
        Err(e) => Err(e),
        Ok(s) => Ok((s, Crawl::new(config.sleep_between_pages_millis))),
    }
}

/// The records of a crawl that were fetched, in order; failures left out.
pub open spec fn fetched(scraped: Seq<Result<Item, ScrapeError>>) -> Seq<Item>
    decreases scraped.len(),
{
    if scraped.len() == 0 {
        Seq::empty()
    } else {
        let pre = fetched(scraped.drop_last());
        match scraped.last() {
            Ok(item) => pre.push(item),
            Err(_) => pre,
        }
    }
}

/// Leaves out the failures of a crawl and the records that did not change
/// against the snapshot; the rest keep their order.
pub fn select_changes(scraped: Vec<Result<Item, ScrapeError>>, snapshot: &Snapshot) -> (r: Vec<Item>)
    requires
        snapshot.wf(),
    ensures
        r@ == changes(fetched(scraped@), snapshot@),
{
    let ghost src = scraped@;
    let ghost n = scraped@.len();
    let mut reversed = into_reversed(scraped);
    let mut out: Vec<Item> = Vec::new();
    while reversed.len() > 0
        invariant
            n == src.len(),
            reversed@.len() <= n,
            forall|j: int| 0 <= j < reversed@.len() ==> #[trigger] reversed@[j] == src[n - 1 - j],
            out@ == changes(fetched(src.take(n - reversed@.len())), snapshot@),
            snapshot.wf(),
        decreases reversed@.len(),
    {
        let ghost k = n - reversed@.len();
        let r = reversed.pop().unwrap();
        assert(r == src[k]);
        assert(src.take(k + 1).drop_last() =~= src.take(k));
        match r {
            Ok(item) => {
                proof {
                    reveal(Seq::filter);
                    let pre = fetched(src.take(k));
                    assert(pre.push(item).drop_last() =~= pre);
                }
                if is_changed(&item, snapshot) {
                    out.push(item);
                }
            },
            Err(_) => {},
        }
    }
    assert(src.take(n as int) =~= src);
    out
}

/// The batches of a run: the changed records of a crawl, in order, grouped
/// into chunks of at most `MAX_SQS_BATCH_SIZE`.
pub fn plan_batches(scraped: Vec<Result<Item, ScrapeError>>, snapshot: &Snapshot) -> (r: Vec<Vec<Item>>)
    requires
        snapshot.wf(),
    ensures
        is_chunking(
            contents(r@),
            changes(fetched(scraped@), snapshot@),
            MAX_SQS_BATCH_SIZE as nat,
        ),
{
    let selected = select_changes(scraped, snapshot);
    chunk(selected, MAX_SQS_BATCH_SIZE)
}

} // verus!
