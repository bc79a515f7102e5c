//! Content enrichment. A listing already discovered on a search page gets
//! one best-effort detail fetch; these functions turn the fetched page
//! into the record fields. Enrichment failure is never fatal: a record
//! always comes back, at worst without detail content.

use vstd::prelude::*;

use crate::age::spec_convert_age;
use crate::age::try_convert_age;
use crate::html::all_match_texts;
use crate::html::capture_first_of;
use crate::html::first_match_attr;
use crate::html::first_match_text;
use crate::html::html_all_texts;
use crate::html::html_first_attr;
use crate::html::html_first_text;
use crate::html::opt_view;
use crate::html::regex_capture_first;
use crate::models::Error;
use crate::models::JobCriteria;
use crate::models::NormalizedRecord;
use crate::models::RawListingItem;
use crate::strutil::trim_of;
use crate::strutil::trim_spaces;
use crate::strutil::views_of;

verus! {

broadcast use vstd::string::group_string_axioms;

/// An optional string, trimmed of surrounding whitespace.
pub open spec fn opt_trim(o: Option<Seq<char>>) -> Option<Seq<char>> {
    match o {
        Some(s) => Some(trim_of(s)),
        None => None,
    }
}

/// The numeric id buried in a detail-page link, when the link has the
/// shape the listing pages use: the digits between the last dash and the
/// query string.
pub fn extract_job_id(url: &str) -> (r: Option<String>)
    ensures
        opt_view(r) == capture_first_of(".*-(\\d+)\\?.*"@, url@),
{
    regex_capture_first(".*-(\\d+)\\?.*", url)
}

/// The detail content of an offset-source posting page: the salary block
/// followed by the posting body, both found by their fixed selectors, or
/// nothing when either block is missing.
pub open spec fn detail_content_of(html: Seq<char>) -> Option<Seq<char>> {
    let body = first_match_text(
        html,
        ".styles-grid-gridContainer-cec162b7.styles-grid-standardGridContainer-cfa898d5"@,
    );
    let salary = first_match_text(html, "[data-cy=\"posting-salary\"]"@);
    match (body, salary) {
        (Some(b), Some(s)) => Some(s + b),
        _ => None,
    }
}

/// Extracts the detail content from a fetched posting page: the salary
/// block and the posting body, concatenated. Each missing block is
/// reported by name; the posting body is checked first.
pub fn extract_detail_content(html: &str) -> (r: Result<String, Error>)
    ensures
        r matches Ok(s) ==> detail_content_of(html@) == Some(s@),
        r is Err ==> detail_content_of(html@) is None,
        r matches Err(e) ==> e is ContentNotFound,
        (first_match_text(
            html@,
            ".styles-grid-gridContainer-cec162b7.styles-grid-standardGridContainer-cfa898d5"@,
        ) is None) ==> (r matches Err(e) && e matches Error::ContentNotFound(what) && what@
            == "Job Posting data"@),
        (first_match_text(
            html@,
            ".styles-grid-gridContainer-cec162b7.styles-grid-standardGridContainer-cfa898d5"@,
        ) is Some && first_match_text(html@, "[data-cy=\"posting-salary\"]"@) is None) ==> (
        r matches Err(e) && e matches Error::ContentNotFound(what) && what@ == "Salary"@),
{
    let body = match html_first_text(
        html,
        ".styles-grid-gridContainer-cec162b7.styles-grid-standardGridContainer-cfa898d5",
    ) {
        Some(b) => b,
        None => {
            return Err(Error::ContentNotFound("Job Posting data".to_owned()));
        },
    };
    let salary = match html_first_text(html, "[data-cy=\"posting-salary\"]") {
        Some(s) => s,
        None => {
            return Err(Error::ContentNotFound("Salary".to_owned()));
        },
    };
    let mut content = salary;
    content.append(body.as_str());
    Ok(content)
}

/// Attaches the outcome of a detail fetch to a listing. The record keeps
/// the listing's identity and every display field; the detail content is
/// what the fetched page yielded, or absent when the fetch failed or a
/// block was missing. No failure drops the record.
pub fn enrich(item: RawListingItem, detail_html: Option<&str>) -> (r: NormalizedRecord)
    ensures
        r.source == item.source,
        r.identity == item.identity,
        r.title == item.title,
        r.company == item.company,
        r.location == item.location,
        r.posting_date == item.posting_date,
        opt_view(r.detail_content) == (match detail_html {
            Some(h) => detail_content_of(h@),
            None => None::<Seq<char>>,
        }),
{
    let detail_content: Option<String> = match detail_html {
        Some(h) => match extract_detail_content(h) {
            Ok(content) => Some(content),
            Err(_) => None,
        },
        None => None,
    };
    NormalizedRecord {
        source: item.source,
        identity: item.identity,
        title: item.title,
        company: item.company,
        location: item.location,
        posting_date: item.posting_date,
        detail_content,
    }
}

/// The fields parsed out of one HTML-source detail page. Every field is
/// best-effort: a missing fragment leaves its field absent and touches
/// nothing else.
#[derive(Debug, Clone, PartialEq, Eq)]
pub struct ListingDetail {
    pub title: Option<String>,
    pub company_name: Option<String>,
    pub company_link: Option<String>,
    pub location: Option<String>,
    /// Posting time in seconds, from the page's relative age and the
    /// caller's clock reading.
    pub posting_date: Option<i64>,
    pub raw_data: Option<String>,
    pub criteria: JobCriteria,
}

/// Orders the texts of the criteria block into the four named criteria:
/// the page lists seniority, employment type, job function and industries
/// in that order, each trimmed; missing tail entries stay absent.
pub fn criteria_from_texts(texts: &Vec<String>) -> (r: JobCriteria)
    ensures
        opt_view(r.seniority) == (if views_of(texts@).len() > 0 {
            Some(trim_of(views_of(texts@)[0]))
        } else {
            None::<Seq<char>>
        }),
        opt_view(r.employment_type) == (if views_of(texts@).len() > 1 {
            Some(trim_of(views_of(texts@)[1]))
        } else {
            None::<Seq<char>>
        }),
        opt_view(r.job_function) == (if views_of(texts@).len() > 2 {
            Some(trim_of(views_of(texts@)[2]))
        } else {
            None::<Seq<char>>
        }),
        opt_view(r.industries) == (if views_of(texts@).len() > 3 {
            Some(trim_of(views_of(texts@)[3]))
        } else {
            None::<Seq<char>>
        }),
{
    let seniority: Option<String> = if texts.len() > 0 {
        Some(trim_spaces(texts[0].as_str()))
    } else {
        None
    };
    let employment_type: Option<String> = if texts.len() > 1 {
        Some(trim_spaces(texts[1].as_str()))
    } else {
        None
    };
    let job_function: Option<String> = if texts.len() > 2 {
        Some(trim_spaces(texts[2].as_str()))
    } else {
        None
    };
    let industries: Option<String> = if texts.len() > 3 {
        Some(trim_spaces(texts[3].as_str()))
    } else {
        None
    };
    JobCriteria { seniority, employment_type, job_function, industries }
}

/// Parses one HTML-source detail page into its fields, using the page's
/// fixed selectors; `now` is the caller's clock reading in seconds, used
/// to anchor the page's relative posting age. Every field is best-effort.
pub fn parse_job_detail(html: &str, now: i64) -> (r: ListingDetail)
    ensures
        opt_view(r.title) == opt_trim(first_match_text(html@, ".top-card-layout__title"@)),
        opt_view(r.company_name) == opt_trim(
            first_match_text(html@, ".topcard__org-name-link"@),
        ),
        opt_view(r.company_link) == first_match_attr(html@, ".topcard__org-name-link"@, "href"@),
        opt_view(r.location) == opt_trim(
            first_match_text(html@, "span.topcard__flavor.topcard__flavor--bullet"@),
        ),
        r.posting_date is Some ==> (first_match_text(
            html@,
            "span.posted-time-ago__text"@,
        ) matches Some(age) && spec_convert_age(trim_of(age), now as int) == Some(
            r.posting_date->0 as int,
        )),
        r.posting_date is None ==> (match first_match_text(html@, "span.posted-time-ago__text"@) {
            Some(age) => spec_convert_age(trim_of(age), now as int) is None,
            None => true,
        }),
        opt_view(r.raw_data) == opt_trim(first_match_text(html@, "div.description__text"@)),
        opt_view(r.criteria.seniority) == (if all_match_texts(
            html@,
            ".description__job-criteria-text"@,
        ).len() > 0 {
            Some(trim_of(all_match_texts(html@, ".description__job-criteria-text"@)[0]))
        } else {
            None::<Seq<char>>
        }),
        opt_view(r.criteria.employment_type) == (if all_match_texts(
            html@,
            ".description__job-criteria-text"@,
        ).len() > 1 {
            Some(trim_of(all_match_texts(html@, ".description__job-criteria-text"@)[1]))
        } else {
            None::<Seq<char>>
        }),
        opt_view(r.criteria.job_function) == (if all_match_texts(
            html@,
            ".description__job-criteria-text"@,
        ).len() > 2 {
            Some(trim_of(all_match_texts(html@, ".description__job-criteria-text"@)[2]))
        } else {
            None::<Seq<char>>
        }),
        opt_view(r.criteria.industries) == (if all_match_texts(
            html@,
            ".description__job-criteria-text"@,
        ).len() > 3 {
            Some(trim_of(all_match_texts(html@, ".description__job-criteria-text"@)[3]))
        } else {
            None::<Seq<char>>
        }),
{
    let title: Option<String> = match html_first_text(html, ".top-card-layout__title") {
        Some(t) => Some(trim_spaces(t.as_str())),
        None => None,
    };
    let company_name: Option<String> = match html_first_text(html, ".topcard__org-name-link") {
        Some(t) => Some(trim_spaces(t.as_str())),
        None => None,
    };
    let company_link = html_first_attr(html, ".topcard__org-name-link", "href");
    let location: Option<String> = match html_first_text(
        html,
        "span.topcard__flavor.topcard__flavor--bullet",
    ) {
        Some(t) => Some(trim_spaces(t.as_str())),
        None => None,
    };
    let posting_date: Option<i64> = match html_first_text(html, "span.posted-time-ago__text") {
        Some(age_text) => {
            let trimmed = trim_spaces(age_text.as_str());
            try_convert_age(trimmed.as_str(), now)
        },
        None => None,
    };
    let raw_data: Option<String> = match html_first_text(html, "div.description__text") {
        Some(t) => Some(trim_spaces(t.as_str())),
        None => None,
    };
    let criteria_texts = html_all_texts(html, ".description__job-criteria-text");
    let criteria = criteria_from_texts(&criteria_texts);
    ListingDetail { title, company_name, company_link, location, posting_date, raw_data, criteria }
}

} // verus!
