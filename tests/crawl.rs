use scrape::crawl::{Crawl, CrawlStep, ScrapeError, Scraper, Source, MAX_PAGE};
use scrape::item::{Item, ItemState};

fn generate_many(page: i16, n: usize) -> Vec<Item> {
    (0..n)
        .map(|i| {
            Item::new(
                format!("item#{}-{}", page, i),
                format!("name {}", i),
                None,
                None,
                None,
                None,
                None,
                None,
                None,
                None,
                ItemState::LISTED,
                format!("https://foo.bar?item={}-{}", page, i),
                None,
            )
        })
        .collect()
}

struct TestScraper {}

impl Scraper for TestScraper {
    fn scrape_page(&self, page_num: i16) -> Result<Vec<Item>, ScrapeError> {
        match page_num {
            1 => Ok(generate_many(1, 10)),
            2 => Ok(generate_many(2, 5)),
            _ => Ok(vec![]),
        }
    }
}

impl Source for TestScraper {
    fn gather_page(&self, page_num: i16) -> Result<Vec<Item>, ScrapeError> {
        match page_num {
            1 => Ok(generate_many(1, 10)),
            2 => Ok(generate_many(2, 5)),
            _ => Ok(vec![]),
        }
    }
}

struct FailingScraper {}

impl Scraper for FailingScraper {
    fn scrape_page(&self, page_num: i16) -> Result<Vec<Item>, ScrapeError> {
        match page_num {
            1 => Ok(generate_many(1, 3)),
            2 => Err(ScrapeError::Request("timeout".to_string())),
            _ => panic!("no page after a failed one is fetched"),
        }
    }
}

impl Source for FailingScraper {
    fn gather_page(&self, page_num: i16) -> Result<Vec<Item>, ScrapeError> {
        match page_num {
            1 => Ok(generate_many(1, 3)),
            2 => Err(ScrapeError::Request("timeout".to_string())),
            _ => panic!("no page after a failed one is fetched"),
        }
    }
}

#[test]
fn should_scrape_all_pages_for_scrape() {
    let items_count = TestScraper {}.scrape().len();

    assert_eq!(items_count, 15);
}

#[test]
fn should_gather_all_pages_for_gather() {
    let items_count = TestScraper {}.gather().unwrap().len();

    assert_eq!(items_count, 15);
}

#[test]
fn scrape_keeps_page_order() {
    let out = TestScraper {}.scrape();
    let ids: Vec<String> = out.into_iter().map(|r| r.unwrap().item_id).collect();
    assert_eq!(ids[0], "item#1-0");
    assert_eq!(ids[9], "item#1-9");
    assert_eq!(ids[10], "item#2-0");
    assert_eq!(ids[14], "item#2-4");
}

#[test]
fn scrape_ends_with_the_failure() {
    let out = FailingScraper {}.scrape();
    assert_eq!(out.len(), 4);
    assert!(out[..3].iter().all(|r| r.is_ok()));
    assert_eq!(out[3], Err(ScrapeError::Request("timeout".to_string())));
}

#[test]
fn gather_fails_on_a_failed_page() {
    assert_eq!(FailingScraper {}.gather(), Err(ScrapeError::Request("timeout".to_string())));
}

#[test]
fn crawl_starts_at_page_one() {
    let crawl = Crawl::new(Some(250));
    assert_eq!(crawl.page_to_fetch(), Some(1));
}

#[test]
fn crawl_emits_records_then_pauses() {
    let mut crawl = Crawl::new(Some(250));
    match crawl.on_page(Ok(generate_many(1, 2))) {
        CrawlStep::Emit { items, sleep_millis } => {
            assert_eq!(items.len(), 2);
            assert_eq!(sleep_millis, Some(250));
        }
        other => panic!("unexpected step {:?}", other),
    }
    assert_eq!(crawl.page_to_fetch(), Some(2));
}

#[test]
fn crawl_stops_on_empty_page() {
    let mut crawl = Crawl::new(None);
    assert!(matches!(crawl.on_page(Ok(vec![])), CrawlStep::Finished));
    assert_eq!(crawl.page_to_fetch(), None);
}

#[test]
fn crawl_stops_on_failed_page() {
    let mut crawl = Crawl::new(Some(5));
    let step = crawl.on_page(Err(ScrapeError::Request("boom".to_string())));
    assert!(matches!(step, CrawlStep::Failed(ScrapeError::Request(ref m)) if m == "boom"));
    assert_eq!(crawl.page_to_fetch(), None);
}

#[test]
fn crawl_stops_after_the_last_page_number() {
    let mut crawl = Crawl { next_page: MAX_PAGE, finished: false, sleep_between_pages_millis: Some(9) };
    match crawl.on_page(Ok(generate_many(1, 1))) {
        CrawlStep::Emit { items, sleep_millis } => {
            assert_eq!(items.len(), 1);
            assert_eq!(sleep_millis, None);
        }
        other => panic!("unexpected step {:?}", other),
    }
    assert_eq!(crawl.page_to_fetch(), None);
}
