use job_scraper::models::{Company, RawListingItem, Target};
use job_scraper::partition::WorkAssignment;
use job_scraper::models::Error;
use job_scraper::worker::{
    classify_status, sequence_error, FetchOutcome, PageWorker, StatusClass, WorkerAction,
    RATE_LIMIT_SLEEP_SECS,
};

fn item(id: &str) -> RawListingItem {
    RawListingItem {
        source: Target::Xing,
        identity: id.to_owned(),
        title: format!("job {id}"),
        company: Company { name: "ACME".to_owned(), link: None },
        location: "Berlin".to_owned(),
        detail_link: format!("https://example.invalid/{id}?x=1"),
        posting_date: None,
    }
}

fn assignment(start: u32, end: u32) -> WorkAssignment {
    WorkAssignment { query: "q".to_owned(), start_page: start, end_page: end }
}

#[test]
fn classify_status_matches_retry_policy() {
    assert_eq!(classify_status(429), StatusClass::RateLimited);
    assert_eq!(classify_status(200), StatusClass::Success);
    assert_eq!(classify_status(204), StatusClass::Success);
    assert_eq!(classify_status(301), StatusClass::Failed);
    assert_eq!(classify_status(404), StatusClass::Failed);
    assert_eq!(classify_status(500), StatusClass::Failed);
    assert_eq!(classify_status(199), StatusClass::Failed);
}

#[test]
fn rate_limited_page_retries_after_fixed_sleep_and_emits_once() {
    // a page request answered 429 three times in a row before succeeding
    let mut w = PageWorker::new(assignment(3, 4), 100);
    for _ in 0..3 {
        let action = w.on_outcome(FetchOutcome::HttpStatus(429));
        assert_eq!(action, WorkerAction::Sleep(RATE_LIMIT_SLEEP_SECS));
        assert_eq!(RATE_LIMIT_SLEEP_SECS, 5);
        // the page did not advance: the retry repeats the same request
        assert_eq!(w.next_request().unwrap().offset, 200);
    }
    let action = w.on_outcome(FetchOutcome::Page(vec![item("1"), item("2")]));
    assert_eq!(action, WorkerAction::Stop);
    assert_eq!(w.pages_emitted, 1, "exactly one emitted page result");
    assert_eq!(w.rate_limit_events, 3, "three logged rate-limit events");
    assert_eq!(w.collected.len(), 2);
}

#[test]
fn worker_walks_its_range_and_requests_right_offsets() {
    let mut w = PageWorker::new(assignment(2, 4), 50);
    assert_eq!(w.next_request().unwrap().offset, 50);
    assert_eq!(w.next_request().unwrap().limit, 50);
    assert_eq!(w.on_outcome(FetchOutcome::Page(vec![item("a")])), WorkerAction::Proceed);
    assert_eq!(w.next_request().unwrap().offset, 100);
    assert_eq!(w.on_outcome(FetchOutcome::Page(vec![item("b")])), WorkerAction::Stop);
    assert!(w.done);
    assert!(w.next_request().is_none());
    assert_eq!(w.pages_emitted, 2);
}

#[test]
fn hard_failure_stops_worker_but_keeps_collected_pages() {
    let mut w = PageWorker::new(assignment(2, 6), 100);
    w.on_outcome(FetchOutcome::Page(vec![item("a"), item("b")]));
    let action = w.on_outcome(FetchOutcome::HttpStatus(500));
    assert_eq!(action, WorkerAction::Stop);
    assert!(w.done);
    assert_eq!(w.collected.len(), 2, "partial output is kept");
    assert_eq!(w.pages_emitted, 1);
}

#[test]
fn transport_error_stops_worker() {
    let mut w = PageWorker::new(assignment(2, 6), 100);
    let action = w.on_outcome(FetchOutcome::Transport);
    assert_eq!(action, WorkerAction::Stop);
    assert!(w.done);
}

#[test]
fn malformed_page_is_skipped_without_aborting() {
    let mut w = PageWorker::new(assignment(2, 5), 100);
    assert_eq!(w.on_outcome(FetchOutcome::Malformed), WorkerAction::Proceed);
    assert_eq!(w.parse_failures, 1);
    assert_eq!(w.pages_emitted, 0);
    // the walk continues on the next page
    assert_eq!(w.next_request().unwrap().offset, 200);
    w.on_outcome(FetchOutcome::Page(vec![item("a")]));
    assert_eq!(w.pages_emitted, 1);
}

#[test]
fn sequence_failures_carry_the_offending_url() {
    let url = "https://example.invalid/search?offset=0".to_owned();
    assert_eq!(
        sequence_error(url.clone(), &FetchOutcome::HttpStatus(500)),
        Some(Error::RequestNotOk(url.clone()))
    );
    assert_eq!(
        sequence_error(url.clone(), &FetchOutcome::Transport),
        Some(Error::RequestNotOk(url.clone()))
    );
    assert_eq!(sequence_error(url.clone(), &FetchOutcome::HttpStatus(429)), None);
    assert_eq!(sequence_error(url.clone(), &FetchOutcome::Malformed), None);
    assert_eq!(sequence_error(url, &FetchOutcome::Page(Vec::new())), None);
}

#[test]
fn empty_assignment_is_born_done() {
    let w = PageWorker::new(assignment(4, 4), 100);
    assert!(w.done);
    assert!(w.next_request().is_none());
}
