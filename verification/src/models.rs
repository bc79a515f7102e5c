//! Data model shared by the scraping components: sources, queries, listing
//! items, normalized records and the error taxonomy.

use vstd::prelude::*;

use crate::strutil::eq_ignore_ascii;
use crate::strutil::to_lower;

verus! {

broadcast use vstd::string::group_string_axioms;

/// A scraping source that persists its results to a file of its own.
#[derive(Clone, Copy, Debug, PartialEq, Eq, Structural)]
pub enum Site {
    Xing,
}

impl Site {
    /// The file that stores this site's scraped records.
    pub fn filename(&self) -> (r: &'static str)
        ensures
            r@ == "xing.json"@,
    {
        match self {
            Site::Xing => "xing.json",
        }
    }

    /// Looks a site up by name, ASCII case folded; unknown names are
    /// rejected with a typed error instead of a panic.
    pub fn from_name(s: &str) -> (r: Result<Site, Error>)
        ensures
            to_lower(s@) == "xing"@ ==> r == Ok::<Site, Error>(Site::Xing),
            to_lower(s@) != "xing"@ ==> (r matches Err(e) && e is UnknownSource),
    {
        proof {
            reveal_strlit("xing");
            assert(to_lower("xing"@) =~= "xing"@);
        }
        if eq_ignore_ascii(s, "xing") {
            Ok(Site::Xing)
        } else {
            Err(Error::UnknownSource)
        }
    }
}

/// A scraping target that the command line can name.
#[derive(Clone, Copy, Debug, PartialEq, Eq, Structural)]
pub enum Target {
    Xing,
    Linkedin,
    Stepstone,
    Glassdoor,
    Instaffo,
}

impl Target {
    /// Looks a target up by name, ASCII case folded; unknown names are
    /// rejected with a typed error instead of a panic.
    pub fn from_name(s: &str) -> (r: Result<Target, Error>)
        ensures
            to_lower(s@) == "xing"@ ==> r == Ok::<Target, Error>(Target::Xing),
            to_lower(s@) == "linkedin"@ ==> r == Ok::<Target, Error>(Target::Linkedin),
            to_lower(s@) == "stepstone"@ ==> r == Ok::<Target, Error>(Target::Stepstone),
            to_lower(s@) == "glassdoor"@ ==> r == Ok::<Target, Error>(Target::Glassdoor),
            to_lower(s@) == "instaffo"@ ==> r == Ok::<Target, Error>(Target::Instaffo),
            r is Err <==> (to_lower(s@) != "xing"@ && to_lower(s@) != "linkedin"@ && to_lower(s@)
                != "stepstone"@ && to_lower(s@) != "glassdoor"@ && to_lower(s@) != "instaffo"@),
            r matches Err(e) ==> e is UnknownSource,
    {
        proof {
            reveal_strlit("xing");
            reveal_strlit("linkedin");
            reveal_strlit("stepstone");
            reveal_strlit("glassdoor");
            reveal_strlit("instaffo");
            assert(to_lower("xing"@) =~= "xing"@);
            assert(to_lower("linkedin"@) =~= "linkedin"@);
            assert(to_lower("stepstone"@) =~= "stepstone"@);
            assert(to_lower("glassdoor"@) =~= "glassdoor"@);
            assert(to_lower("instaffo"@) =~= "instaffo"@);
            assert("xing"@.len() == 4);
            assert("linkedin"@.len() == 8);
            assert("stepstone"@.len() == 9);
            assert("glassdoor"@.len() == 9);
            assert("instaffo"@.len() == 8);
            assert("stepstone"@[0] == 's' && "glassdoor"@[0] == 'g');
            assert("linkedin"@[0] == 'l' && "instaffo"@[0] == 'i');
        }
        if eq_ignore_ascii(s, "xing") {
            Ok(Target::Xing)
        } else if eq_ignore_ascii(s, "linkedin") {
            Ok(Target::Linkedin)
        } else if eq_ignore_ascii(s, "stepstone") {
            Ok(Target::Stepstone)
        } else if eq_ignore_ascii(s, "glassdoor") {
            Ok(Target::Glassdoor)
        } else if eq_ignore_ascii(s, "instaffo") {
            Ok(Target::Instaffo)
        } else {
            Err(Error::UnknownSource)
        }
    }
}

/// A company a listing belongs to.
#[derive(Debug, Clone, PartialEq, Eq)]
pub struct Company {
    pub name: String,
    pub link: Option<String>,
}

impl Company {
    pub fn new(name: String, link: Option<String>) -> (r: Company)
        ensures
            r.name == name,
            r.link == link,
    {
        Company { name, link }
    }
}

/// One listing as a site adapter parsed it from a search or listing page:
/// the stable identity used for deduplication, the link used for the detail
/// fetch, and the display fields that survive into the normalized record.
#[derive(Debug, Clone, PartialEq, Eq)]
pub struct RawListingItem {
    pub source: Target,
    pub identity: String,
    pub title: String,
    pub company: Company,
    pub location: String,
    pub detail_link: String,
    /// Posting time as seconds since the epoch, when the source reports one.
    pub posting_date: Option<i64>,
}

/// The unit handed to the storage sink: one listing with its detail content
/// attached when the enrichment fetch found any.
#[derive(Debug, Clone, PartialEq, Eq)]
pub struct NormalizedRecord {
    pub source: Target,
    pub identity: String,
    pub title: String,
    pub company: Company,
    pub location: String,
    /// Posting time as seconds since the epoch, when known.
    pub posting_date: Option<i64>,
    /// Absent when enrichment failed or found nothing; never fatal.
    pub detail_content: Option<String>,
}

/// A salary band in whole currency units.
#[derive(Debug, Clone, Copy, PartialEq, Eq, Structural)]
pub struct SalaryRange {
    pub min: u32,
    pub max: u32,
}

impl SalaryRange {
    pub fn new(min: u32, max: u32) -> (r: SalaryRange)
        ensures
            r.min == min,
            r.max == max,
    {
        SalaryRange { min, max }
    }
}

/// How senior a posting is pitched.
#[derive(Debug, Clone, Copy, PartialEq, Eq, Structural)]
pub enum ExperienceLevel {
    Junior,
    Mid,
    Senior,
    Lead,
}

/// Where the work happens.
#[derive(Debug, Clone, Copy, PartialEq, Eq, Structural)]
pub enum Workplace {
    Remote,
    Onsite,
    Hybrid,
}

/// Structured details of a job post, filled in by a downstream extractor
/// from the raw detail content.
#[derive(Debug, Clone, PartialEq, Eq)]
pub struct JobDetails {
    pub requirements: Vec<String>,
    pub technologies: Vec<String>,
    pub benefits: Vec<String>,
    pub programming_languages: Vec<String>,
    pub salary_forecast: Option<(u32, u32)>,
    pub requires_degree: Option<String>,
    pub experience_level: Option<ExperienceLevel>,
    pub application_url: Option<String>,
    pub workplace: Option<Workplace>,
}

impl JobDetails {
    pub fn new(
        requirements: Vec<String>,
        technologies: Vec<String>,
        benefits: Vec<String>,
        programming_languages: Vec<String>,
        salary_forecast: Option<(u32, u32)>,
        requires_degree: Option<String>,
        experience_level: Option<ExperienceLevel>,
        application_url: Option<String>,
        workplace: Option<Workplace>,
    ) -> (r: JobDetails)
        ensures
            r.requirements == requirements,
            r.technologies == technologies,
            r.benefits == benefits,
            r.programming_languages == programming_languages,
            r.salary_forecast == salary_forecast,
            r.requires_degree == requires_degree,
            r.experience_level == experience_level,
            r.application_url == application_url,
            r.workplace == workplace,
    {
        JobDetails {
            requirements,
            technologies,
            programming_languages,
            salary_forecast,
            experience_level,
            application_url,
            benefits,
            workplace,
            requires_degree,
        }
    }
}

/// The classified criteria block of a detail page, in the order the page
/// lists them.
#[derive(Debug, Clone, PartialEq, Eq)]
pub struct JobCriteria {
    pub seniority: Option<String>,
    pub employment_type: Option<String>,
    pub job_function: Option<String>,
    pub industries: Option<String>,
}

/// What went wrong while scraping. Failures are kept at the smallest scope
/// that can contain them; the variant says which scope that is.
#[derive(Debug, Clone, PartialEq, Eq)]
pub enum Error {
    /// A request came back with a status that is neither success nor a rate
    /// limit; the offending URL is kept.
    RequestNotOk(String),
    /// An expected fragment was missing from a fetched page.
    ContentNotFound(String),
    /// A caller named a source this library does not know.
    UnknownSource,
}

impl Error {
    /// A short label for logs, fixed per variant.
    pub fn describe(&self) -> (r: &'static str)
        ensures
            self is RequestNotOk ==> r@ == "request not ok"@,
            self is ContentNotFound ==> r@ == "content not found"@,
            self is UnknownSource ==> r@ == "unknown source"@,
    {
        match self {
            Error::RequestNotOk(_) => "request not ok",
            Error::ContentNotFound(_) => "content not found",
            Error::UnknownSource => "unknown source",
        }
    }
}

} // verus!
