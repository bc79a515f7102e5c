//! The per-assignment page worker and its rate-limit handling. A worker
//! owns one contiguous page range; the caller performs each request and
//! feeds the outcome back, and the worker decides whether to sleep and
//! retry, move on, or stop, exactly as the retry policy prescribes:
//! a rate-limit answer is retried after a fixed sleep, without limit; any
//! other failure ends this worker's sequence and keeps what was collected.

use vstd::prelude::*;

use crate::models::Error;
use crate::models::RawListingItem;
use crate::partition::WorkAssignment;

verus! {

/// Seconds a worker sleeps after a rate-limit answer before retrying.
pub const RATE_LIMIT_SLEEP_SECS: u64 = 5;

/// The HTTP status that signals a rate limit.
pub const RATE_LIMIT_STATUS: u16 = 429;

/// How a single response is classified by the retry policy.
#[derive(Debug, Clone, Copy, PartialEq, Eq, Structural)]
pub enum StatusClass {
    /// A success status; the page can be consumed.
    Success,
    /// The rate-limit status; sleep and retry the same request.
    RateLimited,
    /// Any other status; this pagination sequence ends.
    Failed,
}

/// Classifies an HTTP status code for the retry policy: 429 asks for a
/// sleep-and-retry, the success range proceeds, anything else fails the
/// sequence.
pub fn classify_status(status: u16) -> (r: StatusClass)
    ensures
        r == StatusClass::RateLimited <==> status == RATE_LIMIT_STATUS,
        r == StatusClass::Success <==> (200 <= status < 300),
        r == StatusClass::Failed <==> (status < 200 || status >= 300) && status
            != RATE_LIMIT_STATUS,
{
    if status == RATE_LIMIT_STATUS {
        StatusClass::RateLimited
    } else if 200 <= status && status < 300 {
        StatusClass::Success
    } else {
        StatusClass::Failed
    }
}

/// What one request attempt came back with, after the caller has read the
/// status and, on success, parsed the body.
#[derive(Debug, Clone, PartialEq, Eq)]
pub enum FetchOutcome {
    /// A success status with a well-formed body: the page's items.
    Page(Vec<RawListingItem>),
    /// A success status whose body could not be parsed.
    Malformed,
    /// A non-success status, rate limit included.
    HttpStatus(u16),
    /// The request itself failed before any status arrived.
    Transport,
}

/// What the caller must do next with this worker.
#[derive(Debug, Clone, Copy, PartialEq, Eq, Structural)]
pub enum WorkerAction {
    /// Sleep this many seconds, then repeat the same request.
    Sleep(u64),
    /// Issue the next request.
    Proceed,
    /// This worker is finished; keep what it collected.
    Stop,
}

/// One page request, ready to be turned into a URL.
#[derive(Debug, Clone, Copy, PartialEq, Eq, Structural)]
pub struct PageRequest {
    /// Index of the first result on the page: page index times page size.
    pub offset: u64,
    /// Results per page.
    pub limit: u32,
}

/// A worker task working through one page range. All state a request
/// outcome can change sits here; the caller only moves bytes.
#[derive(Debug)]
pub struct PageWorker {
    pub query: String,
    /// The page the next request asks for.
    pub next_page: u32,
    /// One past the last page of this worker's range.
    pub end_page: u32,
    pub page_size: u32,
    /// Items of every page consumed so far, in page order.
    pub collected: Vec<RawListingItem>,
    /// Pages successfully consumed.
    pub pages_emitted: u32,
    /// Rate-limit answers seen; each one was slept on and retried.
    pub rate_limit_events: u64,
    /// Pages skipped because their body could not be parsed.
    pub parse_failures: u64,
    /// Whether this worker's sequence has ended.
    pub done: bool,
}

impl PageWorker {
    /// The worker still respects its page range.
    pub open spec fn wf(&self) -> bool {
        &&& self.next_page <= self.end_page
        &&& (!self.done ==> self.next_page < self.end_page)
    }

    /// A fresh worker for one assignment. A range that holds no pages is
    /// born finished.
    pub fn new(assignment: WorkAssignment, page_size: u32) -> (r: PageWorker)
        requires
            assignment.start_page <= assignment.end_page,
            page_size >= 1,
        ensures
            r.wf(),
            r.query == assignment.query,
            r.next_page == assignment.start_page,
            r.end_page == assignment.end_page,
            r.page_size == page_size,
            r.collected@ == Seq::<RawListingItem>::empty(),
            r.pages_emitted == 0,
            r.rate_limit_events == 0,
            r.parse_failures == 0,
            r.done == (assignment.start_page == assignment.end_page),
    {
        PageWorker {
            query: assignment.query,
            next_page: assignment.start_page,
            end_page: assignment.end_page,
            page_size,
            collected: Vec::new(),
            pages_emitted: 0,
            rate_limit_events: 0,
            parse_failures: 0,
            done: assignment.start_page == assignment.end_page,
        }
    }

    /// The request for the worker's current page, or nothing once it is
    /// done. Pages are numbered from one — page one is the probe request
    /// at offset zero — so page `p` starts at `(p - 1) * page_size`.
    /// Retrying after a rate limit asks for the same request again,
    /// because the page did not advance.
    pub fn next_request(&self) -> (r: Option<PageRequest>)
        requires
            self.next_page >= 1,
        ensures
            r is Some <==> !self.done,
            r matches Some(req) ==> req.offset == (self.next_page - 1) as int
                * self.page_size as int && req.limit == self.page_size,
    {
        proof {
            assert((self.next_page - 1) as int * self.page_size as int <= 0xffff_ffff
                * 0xffff_ffff) by (nonlinear_arith)
                requires
                    0 <= (self.next_page - 1) as int <= 0xffff_ffff,
                    self.page_size as int <= 0xffff_ffff,
            ;
            assert((self.next_page - 1) as int * self.page_size as int >= 0) by (nonlinear_arith)
                requires
                    (self.next_page - 1) as int >= 0,
                    self.page_size as int >= 0,
            ;
        }
        if self.done {
            None
        } else {
            Some(
                PageRequest {
                    offset: (self.next_page - 1) as u64 * self.page_size as u64,
                    limit: self.page_size,
                },
            )
        }
    }

    /// Feeds the outcome of the current page's request into the worker.
    /// A rate limit counts an event and asks for a sleep, leaving the page
    /// to be retried; a consumed page appends its items and advances; a
    /// malformed body skips only that page; any other failure stops this
    /// worker and keeps what it collected.
    pub fn on_outcome(&mut self, outcome: FetchOutcome) -> (action: WorkerAction)
        requires
            old(self).wf(),
            !old(self).done,
            old(self).rate_limit_events < u64::MAX,
            old(self).parse_failures < u64::MAX,
            old(self).pages_emitted < u32::MAX,
        ensures
            final(self).wf(),
            final(self).query == old(self).query,
            final(self).end_page == old(self).end_page,
            final(self).page_size == old(self).page_size,
            outcome matches FetchOutcome::Page(items) ==> {
                &&& final(self).collected@ == old(self).collected@ + items@
                &&& final(self).pages_emitted == old(self).pages_emitted + 1
                &&& final(self).next_page == old(self).next_page + 1
                &&& final(self).rate_limit_events == old(self).rate_limit_events
                &&& final(self).parse_failures == old(self).parse_failures
                &&& final(self).done == (old(self).next_page + 1 == old(self).end_page)
                &&& action == (if final(self).done {
                    WorkerAction::Stop
                } else {
                    WorkerAction::Proceed
                })
            },
            outcome == FetchOutcome::Malformed ==> {
                &&& final(self).collected == old(self).collected
                &&& final(self).pages_emitted == old(self).pages_emitted
                &&& final(self).next_page == old(self).next_page + 1
                &&& final(self).rate_limit_events == old(self).rate_limit_events
                &&& final(self).parse_failures == old(self).parse_failures + 1
                &&& final(self).done == (old(self).next_page + 1 == old(self).end_page)
                &&& action == (if final(self).done {
                    WorkerAction::Stop
                } else {
                    WorkerAction::Proceed
                })
            },
            outcome == FetchOutcome::HttpStatus(RATE_LIMIT_STATUS) ==> {
                &&& final(self).collected == old(self).collected
                &&& final(self).pages_emitted == old(self).pages_emitted
                &&& final(self).next_page == old(self).next_page
                &&& final(self).rate_limit_events == old(self).rate_limit_events + 1
                &&& final(self).parse_failures == old(self).parse_failures
                &&& final(self).done == false
                &&& action == WorkerAction::Sleep(RATE_LIMIT_SLEEP_SECS)
            },
            (outcome matches FetchOutcome::HttpStatus(s) && s != RATE_LIMIT_STATUS) ==> {
                &&& final(self).collected == old(self).collected
                &&& final(self).pages_emitted == old(self).pages_emitted
                &&& final(self).next_page == old(self).next_page
                &&& final(self).rate_limit_events == old(self).rate_limit_events
                &&& final(self).parse_failures == old(self).parse_failures
                &&& final(self).done == true
                &&& action == WorkerAction::Stop
            },
            outcome == FetchOutcome::Transport ==> {
                &&& final(self).collected == old(self).collected
                &&& final(self).pages_emitted == old(self).pages_emitted
                &&& final(self).next_page == old(self).next_page
                &&& final(self).rate_limit_events == old(self).rate_limit_events
                &&& final(self).parse_failures == old(self).parse_failures
                &&& final(self).done == true
                &&& action == WorkerAction::Stop
            },
    {
        match outcome {
            FetchOutcome::Page(mut items) => {
                self.collected.append(&mut items);
                self.pages_emitted = self.pages_emitted + 1;
                self.next_page = self.next_page + 1;
                if self.next_page == self.end_page {
                    self.done = true;
                    WorkerAction::Stop
                } else {
                    WorkerAction::Proceed
                }
            },
            FetchOutcome::Malformed => {
                self.parse_failures = self.parse_failures + 1;
                self.next_page = self.next_page + 1;
                if self.next_page == self.end_page {
                    self.done = true;
                    WorkerAction::Stop
                } else {
                    WorkerAction::Proceed
                }
            },
            FetchOutcome::HttpStatus(status) => {
                if status == RATE_LIMIT_STATUS {
                    self.rate_limit_events = self.rate_limit_events + 1;
                    WorkerAction::Sleep(RATE_LIMIT_SLEEP_SECS)
                } else {
                    self.done = true;
                    WorkerAction::Stop
                }
            },
            FetchOutcome::Transport => {
                self.done = true;
                WorkerAction::Stop
            },
        }
    }
}

/// What to do with one wrapped adapter call — a detail fetch, say — after
/// an attempt came back with this status: the rate limit sleeps and
/// retries the same call, a success consumes the answer, anything else
/// gives the call up.
pub fn call_action(status: u16) -> (r: WorkerAction)
    ensures
        status == RATE_LIMIT_STATUS ==> r == WorkerAction::Sleep(RATE_LIMIT_SLEEP_SECS),
        200 <= status < 300 ==> r == WorkerAction::Proceed,
        ((status < 200 || status >= 300) && status != RATE_LIMIT_STATUS) ==> r
            == WorkerAction::Stop,
{
    match classify_status(status) {
        StatusClass::RateLimited => WorkerAction::Sleep(RATE_LIMIT_SLEEP_SECS),
        StatusClass::Success => WorkerAction::Proceed,
        StatusClass::Failed => WorkerAction::Stop,
    }
}

/// The typed failure of a page request that ended its worker's sequence:
/// a non-success status other than the rate limit keeps the offending
/// URL, as does a transport failure; outcomes that do not end the
/// sequence carry no failure.
pub fn sequence_error(url: String, outcome: &FetchOutcome) -> (r: Option<Error>)
    ensures
        r is Some <==> (outcome == FetchOutcome::Transport || (
        outcome matches FetchOutcome::HttpStatus(s) && s != RATE_LIMIT_STATUS)),
        r matches Some(e) ==> (e matches Error::RequestNotOk(u) && u@ == url@),
{
    match outcome {
        FetchOutcome::HttpStatus(status) => {
            if *status == RATE_LIMIT_STATUS {
                None
            } else {
                Some(Error::RequestNotOk(url))
            }
        },
        FetchOutcome::Transport => Some(Error::RequestNotOk(url)),
        FetchOutcome::Page(_) => None,
        FetchOutcome::Malformed => None,
    }
}

} // verus!
