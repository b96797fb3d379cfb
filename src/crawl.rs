use crate::item::Item;
use crate::vec_util::into_reversed;
use vstd::prelude::*;

verus! {

/// Failure to fetch or read one page of a listing catalog.
#[derive(Clone, Debug, PartialEq)]
pub enum ScrapeError {
    /// The request for the page failed; the message says why.
    Request(String),
}

/// A fetched page as a sequence of records, or the failure to fetch it.
pub open spec fn page_view(page: Result<Vec<Item>, ScrapeError>) -> Result<Seq<Item>, ScrapeError> {
    match page {
        Ok(items) => Ok(items@),
        Err(e) => Err(e),
    }
}

pub open spec fn ok_items(items: Seq<Item>) -> Seq<Result<Item, ScrapeError>> {
    items.map_values(|i: Item| Ok(i))
}

/// The record sequence that a crawl produces from the outcomes of pages 1,
/// 2, ...: the records of each page in order, ending at the first empty page,
/// or with the first failure as the last element.
pub open spec fn crawl_output(pages: Seq<Result<Seq<Item>, ScrapeError>>) -> Seq<
    Result<Item, ScrapeError>,
>
    decreases pages.len(),
{
    if pages.len() == 0 {
        Seq::empty()
    } else {
        match pages[0] {
            Err(e) => seq![Err(e)],
            Ok(items) => if items.len() == 0 {
                Seq::empty()
            } else {
                ok_items(items) + crawl_output(pages.skip(1))
            },
        }
    }
}

/// Every page so far was fetched and held records.
pub open spec fn all_nonempty(pages: Seq<Result<Seq<Item>, ScrapeError>>) -> bool {
    forall|k: int| 0 <= k < pages.len() ==> (#[trigger] pages[k] matches Ok(items) && items.len() > 0)
}

proof fn lemma_crawl_output_push(
    pages: Seq<Result<Seq<Item>, ScrapeError>>,
    page: Result<Seq<Item>, ScrapeError>,
)
    requires
        all_nonempty(pages),
    ensures
        crawl_output(pages.push(page)) == crawl_output(pages) + crawl_output(seq![page]),
    decreases pages.len(),
{
    if pages.len() == 0 {
        assert(pages.push(page) =~= seq![page]);
        assert(crawl_output(pages) =~= Seq::<Result<Item, ScrapeError>>::empty());
        assert(crawl_output(pages.push(page)) =~= crawl_output(pages) + crawl_output(seq![page]));
    } else {
        let rest = pages.skip(1);
        assert(pages.push(page).skip(1) =~= rest.push(page));
        assert(pages[0] matches Ok(items) && items.len() > 0);
        assert(all_nonempty(rest)) by {
            assert forall|k: int| 0 <= k < rest.len() implies (#[trigger] rest[k] matches Ok(items)
                && items.len() > 0) by {
                assert(rest[k] == pages[k + 1]);
            }
        }
        lemma_crawl_output_push(rest, page);
        assert(pages.push(page)[0] == pages[0]);
        assert(crawl_output(pages.push(page)) =~= crawl_output(pages) + crawl_output(seq![page]));
    }
}

/// Largest page number a crawl asks for.
pub const MAX_PAGE: i16 = 32767;

/// What a crawl decided after one page.
#[derive(Debug)]
pub enum CrawlStep {
    /// Hand these records on; then wait `sleep_millis`, if any, before the
    /// next page.
    Emit { items: Vec<Item>, sleep_millis: Option<u64> },
    /// The page failed: hand the failure on as the last element.
    Failed(ScrapeError),
    /// The page was empty: the catalog is exhausted.
    Finished,
}

/// Decision state of a paginated crawl: the page to fetch next, whether the
/// crawl is over, and the pause between pages.
pub struct Crawl {
    pub next_page: i16,
    pub finished: bool,
    pub sleep_between_pages_millis: Option<u64>,
}

impl Crawl {
    pub open spec fn wf(&self) -> bool {
        self.next_page >= 1
    }

    /// A crawl that starts at page 1.
    pub fn new(sleep_between_pages_millis: Option<u64>) -> (r: Crawl)
        ensures
            r.wf(),
            r.next_page == 1,
            !r.finished,
            r.sleep_between_pages_millis == sleep_between_pages_millis,
    {
        Crawl { next_page: 1, finished: false, sleep_between_pages_millis }
    }

    /// The page to fetch next, or `None` once the crawl is over.
    pub fn page_to_fetch(&self) -> (r: Option<i16>)
        ensures
            r == (if self.finished {
                None
            } else {
                Some(self.next_page)
            }),
    {
        if self.finished {
            None
        } else {
            Some(self.next_page)
        }
    }

    /// Takes the outcome of fetching page `next_page` and decides: a failure
    /// ends the crawl and is handed on; an empty page ends it quietly; records
    /// are handed on, the page counter advances, and the configured pause
    /// follows. After page `MAX_PAGE` no further page is asked for.
    pub fn on_page(&mut self, page: Result<Vec<Item>, ScrapeError>) -> (r: CrawlStep)
        requires
            old(self).wf(),
            !old(self).finished,
        ensures
            final(self).wf(),
            final(self).sleep_between_pages_millis == old(self).sleep_between_pages_millis,
            final(self).finished ==> final(self).next_page == old(self).next_page,
            match page {
                Err(e) => final(self).finished && r == CrawlStep::Failed(e),
                Ok(items) => if items@.len() == 0 {
                    final(self).finished && r == CrawlStep::Finished
                } else if old(self).next_page < MAX_PAGE {
                    &&& !final(self).finished
                    &&& final(self).next_page == old(self).next_page + 1
                    &&& r matches CrawlStep::Emit { items: emitted, sleep_millis }
                    &&& emitted@ == items@
                    &&& sleep_millis == old(self).sleep_between_pages_millis
                } else {
                    &&& final(self).finished
                    &&& r matches CrawlStep::Emit { items: emitted, sleep_millis }
                    &&& emitted@ == items@
                    &&& sleep_millis is None
                },
            },
    {
        match page {
            Err(e) => {
                self.finished = true;
                CrawlStep::Failed(e)
            },
            Ok(items) => {
                if items.len() == 0 {
                    self.finished = true;
                    CrawlStep::Finished
                } else if self.next_page < MAX_PAGE {
                    self.next_page = self.next_page + 1;
                    CrawlStep::Emit { items, sleep_millis: self.sleep_between_pages_millis }
                } else {
                    self.finished = true;
                    CrawlStep::Emit { items, sleep_millis: None }
                }
            },
        }
    }
}

/// Appends each record of `items` to `out` as `Ok`.
fn push_ok_items(out: &mut Vec<Result<Item, ScrapeError>>, items: Vec<Item>)
    ensures
        final(out)@ == old(out)@ + ok_items(items@),
{
    let ghost src = items@;
    let ghost n = items@.len();
    let mut reversed = into_reversed(items);
    while reversed.len() > 0
        invariant
            n == src.len(),
            reversed@.len() <= n,
            forall|j: int| 0 <= j < reversed@.len() ==> #[trigger] reversed@[j] == src[n - 1 - j],
            out@ == old(out)@ + ok_items(src.take(n - reversed@.len())),
        decreases reversed@.len(),
    {
        let ghost k = n - reversed@.len();
        let item = reversed.pop().unwrap();
        assert(item == src[k]);
        out.push(Ok(item));
        assert(ok_items(src.take(k + 1)) =~= ok_items(src.take(k)).push(Ok(src[k])));
    }
    assert(src.take(n as int) =~= src);
}

/// Shows that some sequence of page outcomes yields `out`.
pub open spec fn is_crawl_output(out: Seq<Result<Item, ScrapeError>>) -> bool {
    exists|pages: Seq<Result<Seq<Item>, ScrapeError>>| out == crawl_output(pages)
}

/// A source of listing records, one page at a time (pages count from 1).
/// An empty page marks the end of the catalog.
pub trait Scraper {
    fn scrape_page(&self, page_num: i16) -> Result<Vec<Item>, ScrapeError>;

    /// Fetches pages 1, 2, ... and hands on their records in order, up to the
    /// first empty page; a failed page ends the sequence as its last element.
    fn scrape(&self) -> (r: Vec<Result<Item, ScrapeError>>)
        default_ensures
            is_crawl_output(r@),
    {
    let mut crawl = Crawl::new(None);
    let mut out: Vec<Result<Item, ScrapeError>> = Vec::new();
    let ghost mut pages: Seq<Result<Seq<Item>, ScrapeError>> = Seq::empty();
    while !crawl.finished
        invariant
            crawl.wf(),
            out@ == crawl_output(pages),
            !crawl.finished ==> all_nonempty(pages),
        decreases MAX_PAGE - crawl.next_page + (if crawl.finished { 0int } else { 1int }),
    {
        let page = self.scrape_page(crawl.next_page);
        let ghost pv = page_view(page);
        proof {
            lemma_crawl_output_push(pages, pv);
            reveal_with_fuel(crawl_output, 2);
            assert(seq![pv].skip(1) =~= Seq::<Result<Seq<Item>, ScrapeError>>::empty());
        }
        let ghost before = pages;
        proof {
            pages = pages.push(pv);
        }
        match crawl.on_page(page) {
            CrawlStep::Emit { items, .. } => {
                assert(crawl_output(seq![pv]) =~= ok_items(items@));
                push_ok_items(&mut out, items);
                proof {
                    assert forall|k: int| 0 <= k < pages.len() implies (#[trigger] pages[k] matches Ok(
                        its,
                    ) && its.len() > 0) by {
                        if k < before.len() {
                            assert(pages[k] == before[k]);
                        }
                    }
                }
            },
            CrawlStep::Failed(e) => {
                assert(crawl_output(seq![pv]) =~= seq![Err(e)]);
                out.push(Err(e));
            },
            CrawlStep::Finished => {
                assert(crawl_output(seq![pv]) =~= Seq::<Result<Item, ScrapeError>>::empty());
            },
        }
    }
    out
    }
}

/// The result of collecting a whole catalog from the outcomes of pages 1, 2,
/// ...: all records up to the first empty page, or the first failure.
pub open spec fn gather_output(pages: Seq<Result<Seq<Item>, ScrapeError>>) -> Result<
    Seq<Item>,
    ScrapeError,
>
    decreases pages.len(),
{
    if pages.len() == 0 {
        Ok(Seq::empty())
    } else {
        match pages[0] {
            Err(e) => Err(e),
            Ok(items) => if items.len() == 0 {
                Ok(Seq::empty())
            } else {
                match gather_output(pages.skip(1)) {
                    Ok(rest) => Ok(items + rest),
                    Err(e) => Err(e),
                }
            },
        }
    }
}

proof fn lemma_gather_output_push(
    pages: Seq<Result<Seq<Item>, ScrapeError>>,
    page: Result<Seq<Item>, ScrapeError>,
)
    requires
        all_nonempty(pages),
    ensures
        gather_output(pages) matches Ok(before) && gather_output(pages.push(page)) == match page {
            Err(e) => Err(e),
            Ok(items) => Ok(before + items),
        },
    decreases pages.len(),
{
    if pages.len() == 0 {
        assert(pages.push(page) =~= seq![page]);
        reveal_with_fuel(gather_output, 2);
        assert(seq![page].skip(1) =~= Seq::<Result<Seq<Item>, ScrapeError>>::empty());
        if let Ok(items) = page {
            assert(items + Seq::<Item>::empty() =~= Seq::<Item>::empty() + items);
        }
    } else {
        let rest = pages.skip(1);
        assert(pages.push(page).skip(1) =~= rest.push(page));
        assert(pages[0] matches Ok(items) && items.len() > 0);
        assert(all_nonempty(rest)) by {
            assert forall|k: int| 0 <= k < rest.len() implies (#[trigger] rest[k] matches Ok(items)
                && items.len() > 0) by {
                assert(rest[k] == pages[k + 1]);
            }
        }
        lemma_gather_output_push(rest, page);
        assert(pages.push(page)[0] == pages[0]);
        if let Ok(items) = page {
            let first = pages[0]->Ok_0;
            let tail = gather_output(rest)->Ok_0;
            assert(first + (tail + items) =~= (first + tail) + items);
        }
    }
}

/// Shows that some sequence of page outcomes yields `r`.
pub open spec fn is_gather_output(r: Result<Seq<Item>, ScrapeError>) -> bool {
    exists|pages: Seq<Result<Seq<Item>, ScrapeError>>| r == gather_output(pages)
}

/// A source of listing records, one page at a time (pages count from 1),
/// collected into one list.
pub trait Source {
    fn gather_page(&self, page_num: i16) -> Result<Vec<Item>, ScrapeError>;

    /// Fetches pages 1, 2, ... up to the first empty page and returns all
    /// their records in order; the first failed page fails the whole call.
    fn gather(&self) -> (r: Result<Vec<Item>, ScrapeError>)
        default_ensures
            is_gather_output(page_view(r)),
    {
        let mut crawl = Crawl::new(None);
        let mut all_items: Vec<Item> = Vec::new();
        let ghost mut pages: Seq<Result<Seq<Item>, ScrapeError>> = Seq::empty();
        while !crawl.finished
            invariant
                crawl.wf(),
                gather_output(pages) == Ok::<Seq<Item>, ScrapeError>(all_items@),
                !crawl.finished ==> all_nonempty(pages),
            decreases MAX_PAGE - crawl.next_page + (if crawl.finished { 0int } else { 1int }),
        {
            let page = self.gather_page(crawl.next_page);
            let ghost pv = page_view(page);
            proof {
                lemma_gather_output_push(pages, pv);
            }
            let ghost before = pages;
            proof {
                pages = pages.push(pv);
            }
            match crawl.on_page(page) {
                CrawlStep::Emit { mut items, .. } => {
                    all_items.append(&mut items);
                    proof {
                        assert forall|k: int| 0 <= k < pages.len() implies (#[trigger] pages[k] matches Ok(
                            its,
                        ) && its.len() > 0) by {
                            if k < before.len() {
                                assert(pages[k] == before[k]);
                            }
                        }
                    }
                },
                CrawlStep::Failed(e) => {
                    return Err(e);
                },
                CrawlStep::Finished => {
                    assert(all_items@ + Seq::<Item>::empty() =~= all_items@);
                },
            }
        }
        Ok(all_items)
    }
}

} // verus!
