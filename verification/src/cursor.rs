//! Keyset (cursor) pagination. A cursor source has no page numbers to
//! partition: one sequential worker per query posts a filter body that
//! carries the previous response's opaque continuation pair, and stops as
//! soon as a page comes back empty — the explicit exhaustion signal — or
//! the sequence fails.

use vstd::prelude::*;

verus! {

broadcast use vstd::string::group_string_axioms;

/// Seconds a cursor worker idles between two successive requests.
pub const CURSOR_IDLE_SLEEP_SECS: u64 = 5;

/// The body of one cursor-source request: the job-status filter plus the
/// continuation tokens of the previous response, absent on the first call.
#[derive(Debug, Clone, PartialEq, Eq)]
pub struct RequestBody {
    pub job_status: String,
    pub search_after: Option<(String, String)>,
    pub pit_id: Option<String>,
}

/// Where a cursor worker stands between two requests.
#[derive(Debug, Clone, PartialEq, Eq)]
pub struct CursorState {
    /// The `pitId` of the last response, if any came yet.
    pub pit_id: Option<String>,
    /// The `searchAfter` pair of the last response, if any came yet.
    pub search_after: Option<(String, String)>,
    /// Whether this cursor's sequence has ended.
    pub exhausted: bool,
}

impl CursorState {
    /// The state before the first request: no continuation tokens yet.
    pub fn start() -> (r: CursorState)
        ensures
            r.pit_id is None,
            r.search_after is None,
            !r.exhausted,
    {
        CursorState { pit_id: None, search_after: None, exhausted: false }
    }

    /// The body of the next request: the fixed open-jobs filter plus
    /// whatever continuation tokens the previous response supplied.
    pub fn request_body(&self) -> (r: RequestBody)
        requires
            !self.exhausted,
        ensures
            r.job_status@ == "open"@,
            r.search_after == self.search_after,
            r.pit_id == self.pit_id,
    {
        let pit_id: Option<String> = match &self.pit_id {
            Some(p) => Some(p.clone()),
            None => None,
        };
        let search_after: Option<(String, String)> = match &self.search_after {
            Some(pair) => Some((pair.0.clone(), pair.1.clone())),
            None => None,
        };
        RequestBody { job_status: "open".to_owned(), search_after, pit_id }
    }

    /// Takes the continuation tokens of a well-formed response and decides
    /// whether to keep polling: an empty page is the exhaustion signal and
    /// ends the sequence; otherwise the next request continues from the new
    /// tokens.
    pub fn advance(&mut self, pit_id: String, search_after: (String, String), items_on_page: usize) -> (cont: bool)
        requires
            !old(self).exhausted,
        ensures
            final(self).pit_id == Some(pit_id),
            final(self).search_after == Some(search_after),
            final(self).exhausted == (items_on_page == 0),
            cont == (items_on_page != 0),
    {
        self.pit_id = Some(pit_id);
        self.search_after = Some(search_after);
        self.exhausted = items_on_page == 0;
        items_on_page != 0
    }

    /// Ends the sequence after a failed request or an unreadable body; the
    /// tokens gathered so far are kept for diagnosis.
    pub fn fail(&mut self)
        ensures
            final(self).exhausted,
            final(self).pit_id == old(self).pit_id,
            final(self).search_after == old(self).search_after,
    {
        self.exhausted = true;
    }
}

} // verus!
