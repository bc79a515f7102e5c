//! One full run in miniature: probe, partition, a rate-limited worker,
//! duplicate collapse across workers, enrichment, and batching.

use job_scraper::dedup::{DedupIndex, IdentityKey};
use job_scraper::listing::{CrawlOutcome, ListingCrawl, LISTING_PAGE_STRIDE};
use job_scraper::enrich::enrich;
use job_scraper::merge::into_batches;
use job_scraper::models::{Company, RawListingItem, Target};
use job_scraper::partition::partition;
use job_scraper::worker::{FetchOutcome, PageWorker, WorkerAction, RATE_LIMIT_SLEEP_SECS};

fn listing(id: &str, title: &str) -> RawListingItem {
    RawListingItem {
        source: Target::Xing,
        identity: id.to_owned(),
        title: title.to_owned(),
        company: Company { name: "ACME GmbH".to_owned(), link: None },
        location: "Berlin".to_owned(),
        detail_link: format!("https://example.invalid/jobs/{id}?src=s"),
        posting_date: None,
    }
}

#[test]
fn software_engineer_run_end_to_end() {
    // the probe reports count=250, maxPage=5; two workers, fifty per page;
    // every page through the fifth belongs to exactly one worker
    let assignments = partition("Software Engineer", 250, 5, 2, 50, 1000);
    assert_eq!(assignments.len(), 2);
    assert_eq!((assignments[0].start_page, assignments[0].end_page), (2, 4));
    assert_eq!((assignments[1].start_page, assignments[1].end_page), (4, 6));

    // worker one walks pages 2 and 3; page 3 answers 429 once, then succeeds
    let mut first = PageWorker::new(assignments[0].clone(), 50);
    assert_eq!(
        first.on_outcome(FetchOutcome::Page(vec![listing("1", "Engineer A")])),
        WorkerAction::Proceed
    );
    let action = first.on_outcome(FetchOutcome::HttpStatus(429));
    assert_eq!(action, WorkerAction::Sleep(RATE_LIMIT_SLEEP_SECS));
    assert_eq!(
        first.on_outcome(FetchOutcome::Page(vec![listing("2", "Engineer B")])),
        WorkerAction::Stop
    );
    assert_eq!(first.rate_limit_events, 1);
    assert_eq!(first.pages_emitted, 2);

    // worker two walks pages 4 and 5, independently re-fetching worker
    // one's finds on the way
    let mut second = PageWorker::new(assignments[1].clone(), 50);
    assert_eq!(
        second.on_outcome(
            FetchOutcome::Page(vec![listing("1", "Engineer A"), listing("3", "Engineer C")])
        ),
        WorkerAction::Proceed
    );
    assert_eq!(
        second.on_outcome(FetchOutcome::Page(vec![listing("4", "Engineer D")])),
        WorkerAction::Stop
    );

    // the deduplicator collapses the overlap to one record each
    let mut index = DedupIndex::new();
    let mut survivors = Vec::new();
    for item in first.collected.into_iter().chain(second.collected.into_iter()) {
        let key = IdentityKey::new(item.source, item.identity.clone());
        if index.accept(&key) {
            survivors.push(item);
        }
    }
    let ids: Vec<&str> = survivors.iter().map(|i| i.identity.as_str()).collect();
    assert_eq!(ids, vec!["1", "2", "3", "4"]);

    // enrichment never drops a record, even when every fetch failed
    let records: Vec<_> = survivors.into_iter().map(|item| enrich(item, None)).collect();
    assert_eq!(records.len(), 4);
    assert!(records.iter().all(|r| r.detail_content.is_none()));

    // the merger hands the sink fixed-size batches
    let batches = into_batches(records, 3);
    assert_eq!(batches.len(), 2);
    assert_eq!(batches[0].len(), 3);
    assert_eq!(batches[1].len(), 1);
}

#[test]
fn crawl_pacing_sleeps_and_stops() {
    let mut crawl = ListingCrawl::start();
    assert_eq!(crawl.on_outcome(CrawlOutcome::PageConsumed), WorkerAction::Proceed);
    assert_eq!(crawl.offset, LISTING_PAGE_STRIDE);
    assert_eq!(
        crawl.on_outcome(CrawlOutcome::HttpStatus(429)),
        WorkerAction::Sleep(RATE_LIMIT_SLEEP_SECS)
    );
    assert_eq!(crawl.offset, LISTING_PAGE_STRIDE, "a rate limit retries the same page");
    assert_eq!(crawl.rate_limit_events, 1);
    assert_eq!(crawl.on_outcome(CrawlOutcome::HttpStatus(403)), WorkerAction::Stop);
    assert!(crawl.done);
}

#[test]
fn crawl_stops_on_an_empty_page() {
    let mut crawl = ListingCrawl::start();
    assert_eq!(crawl.on_outcome(CrawlOutcome::PageConsumed), WorkerAction::Proceed);
    assert_eq!(crawl.on_outcome(CrawlOutcome::Exhausted), WorkerAction::Stop);
    assert!(crawl.done);
}
