//! The HTML-listing adapter's page walk: candidate detail-page ids are
//! pulled out of a listing page and deduplicated within it, and a small
//! state machine paces the walk through successive offsets, sleeping on
//! rate limits and stopping on the first hard failure.

use vstd::prelude::*;

use crate::enrich::extract_job_id;
use crate::html::all_match_attrs;
use crate::html::capture_first_of;
use crate::html::html_all_attrs;
use crate::strutil::views_of;
use crate::worker::RATE_LIMIT_SLEEP_SECS;
use crate::worker::RATE_LIMIT_STATUS;
use crate::worker::WorkerAction;

verus! {

/// How far one listing page advances the result offset.
pub const LISTING_PAGE_STRIDE: u64 = 25;

/// The ids that a list of candidate links yields: each link's captured id
/// in order of first appearance, links without one skipped, repeats
/// within the list dropped.
pub open spec fn extracted_ids(pattern: Seq<char>, hrefs: Seq<Seq<char>>) -> Seq<Seq<char>>
    decreases hrefs.len(),
{
    if hrefs.len() == 0 {
        seq![]
    } else {
        let front = extracted_ids(pattern, hrefs.drop_last());
        match capture_first_of(pattern, hrefs.last()) {
            Some(id) => if front.contains(id) {
                front
            } else {
                front.push(id)
            },
            None => front,
        }
    }
}

/// Whether one of the strings has this view.
fn contains_str(v: &Vec<String>, s: &String) -> (r: bool)
    ensures
        r == views_of(v@).contains(s@),
{
    let mut i: usize = 0;
    while i < v.len()
        invariant
            i <= v@.len(),
            forall|j: int| 0 <= j < i ==> views_of(v@)[j] != s@,
        decreases v@.len() - i,
    {
        if v[i] == *s {
            proof {
                assert(views_of(v@)[i as int] == s@);
            }
            return true;
        }
        i += 1;
    }
    proof {
        if views_of(v@).contains(s@) {
            let j = choose|j: int| 0 <= j < views_of(v@).len() && views_of(v@)[j] == s@;
            assert(false);
        }
    }
    false
}

/// The candidate detail-page ids of one listing page: every id found in a
/// match of the card-link selector, in order of first appearance, each id
/// only once however many cards repeat it.
pub fn listing_page_ids(html: &str) -> (r: Vec<String>)
    ensures
        views_of(r@) == extracted_ids(
            ".*-(\\d+)\\?.*"@,
            all_match_attrs(html@, ".base-card__full-link"@, "href"@),
        ),
{
    let hrefs = html_all_attrs(html, ".base-card__full-link", "href");
    let ghost views = views_of(hrefs@);
    let mut out: Vec<String> = Vec::new();
    let mut i: usize = 0;
    proof {
        assert(views.take(0) =~= Seq::<Seq<char>>::empty());
        assert(views_of(out@) =~= extracted_ids(".*-(\\d+)\\?.*"@, views.take(0)));
    }
    while i < hrefs.len()
        invariant
            i <= hrefs@.len(),
            views == views_of(hrefs@),
            views_of(out@) == extracted_ids(".*-(\\d+)\\?.*"@, views.take(i as int)),
        decreases hrefs@.len() - i,
    {
        let ghost prior = out@;
        let id = extract_job_id(hrefs[i].as_str());
        match id {
            Some(id) => {
                if !contains_str(&out, &id) {
                    out.push(id);
                    proof {
                        assert(views_of(out@) =~= views_of(prior).push(
                            capture_first_of(".*-(\\d+)\\?.*"@, views[i as int])->0,
                        ));
                    }
                }
            },
            None => {},
        }
        i += 1;
        proof {
            assert(views.take(i as int).drop_last() =~= views.take(i - 1));
            assert(views.take(i as int).last() == views[i - 1]);
            assert(views_of(out@) =~= extracted_ids(".*-(\\d+)\\?.*"@, views.take(i as int)));
        }
    }
    proof {
        assert(views.take(hrefs@.len() as int) =~= views);
    }
    out
}

/// The pacing of one query-and-location walk across listing pages.
#[derive(Debug, Clone, PartialEq, Eq)]
pub struct ListingCrawl {
    /// The result offset the next listing-page request asks for.
    pub offset: u64,
    /// Rate-limit answers seen; each one was slept on and retried.
    pub rate_limit_events: u64,
    /// Whether this walk has ended.
    pub done: bool,
}

/// What one listing-page request came back with, seen from the pacing
/// machine: a consumed page, a status, or no answer at all.
#[derive(Debug, Clone, Copy, PartialEq, Eq, Structural)]
pub enum CrawlOutcome {
    /// A success status arrived and the caller consumed the page's ids.
    PageConsumed,
    /// A success status arrived but the page held no listings: the source
    /// is out of results for this query and location.
    Exhausted,
    /// A non-success status, rate limit included.
    HttpStatus(u16),
    /// The request failed before any status arrived.
    Transport,
}

impl ListingCrawl {
    /// A walk at its beginning: the first page, nothing counted.
    pub fn start() -> (r: ListingCrawl)
        ensures
            r.offset == 0,
            r.rate_limit_events == 0,
            !r.done,
    {
        ListingCrawl { offset: 0, rate_limit_events: 0, done: false }
    }

    /// Paces the walk after one listing-page request: a consumed page
    /// moves to the next offset; an empty page is the exhaustion signal
    /// and ends the walk; a rate limit counts an event and asks for the
    /// fixed sleep before the same page is retried; any other status or a
    /// transport failure ends the walk.
    pub fn on_outcome(&mut self, outcome: CrawlOutcome) -> (action: WorkerAction)
        requires
            !old(self).done,
            old(self).offset <= u64::MAX - LISTING_PAGE_STRIDE,
            old(self).rate_limit_events < u64::MAX,
        ensures
            outcome == CrawlOutcome::PageConsumed ==> {
                &&& final(self).offset == old(self).offset + LISTING_PAGE_STRIDE
                &&& final(self).rate_limit_events == old(self).rate_limit_events
                &&& !final(self).done
                &&& action == WorkerAction::Proceed
            },
            outcome == CrawlOutcome::Exhausted ==> {
                &&& final(self).offset == old(self).offset
                &&& final(self).rate_limit_events == old(self).rate_limit_events
                &&& final(self).done
                &&& action == WorkerAction::Stop
            },
            outcome == CrawlOutcome::HttpStatus(RATE_LIMIT_STATUS) ==> {
                &&& final(self).offset == old(self).offset
                &&& final(self).rate_limit_events == old(self).rate_limit_events + 1
                &&& !final(self).done
                &&& action == WorkerAction::Sleep(RATE_LIMIT_SLEEP_SECS)
            },
            (outcome matches CrawlOutcome::HttpStatus(s) && s != RATE_LIMIT_STATUS) ==> {
                &&& final(self).offset == old(self).offset
                &&& final(self).rate_limit_events == old(self).rate_limit_events
                &&& final(self).done
                &&& action == WorkerAction::Stop
            },
            outcome == CrawlOutcome::Transport ==> {
                &&& final(self).offset == old(self).offset
                &&& final(self).rate_limit_events == old(self).rate_limit_events
                &&& final(self).done
                &&& action == WorkerAction::Stop
            },
    {
        match outcome {
            CrawlOutcome::PageConsumed => {
                self.offset = self.offset + LISTING_PAGE_STRIDE;
                WorkerAction::Proceed
            },
            CrawlOutcome::Exhausted => {
                self.done = true;
                WorkerAction::Stop
            },
            CrawlOutcome::HttpStatus(status) => {
                if status == RATE_LIMIT_STATUS {
                    self.rate_limit_events = self.rate_limit_events + 1;
                    WorkerAction::Sleep(RATE_LIMIT_SLEEP_SECS)
                } else {
                    self.done = true;
                    WorkerAction::Stop
                }
            },
            CrawlOutcome::Transport => {
                self.done = true;
                WorkerAction::Stop
            },
        }
    }
}

} // verus!
