use job_scraper::cursor::CursorState;
use job_scraper::models::{
    Error, ExperienceLevel, JobDetails, SalaryRange, Site, Target, Workplace,
};
use job_scraper::repair::removal_flags;

#[test]
fn site_filename_names_its_store() {
    assert_eq!(Site::Xing.filename(), "xing.json");
}

#[test]
fn site_lookup_rejects_unknown_names() {
    assert_eq!(Site::from_name("xing"), Ok(Site::Xing));
    assert_eq!(Site::from_name("Xing"), Ok(Site::Xing));
    assert_eq!(Site::from_name("stepstone"), Err(Error::UnknownSource));
    assert_eq!(Site::from_name(""), Err(Error::UnknownSource));
}

#[test]
fn target_lookup_covers_every_source() {
    assert_eq!(Target::from_name("xing"), Ok(Target::Xing));
    assert_eq!(Target::from_name("linkedin"), Ok(Target::Linkedin));
    assert_eq!(Target::from_name("stepstone"), Ok(Target::Stepstone));
    assert_eq!(Target::from_name("glassdoor"), Ok(Target::Glassdoor));
    assert_eq!(Target::from_name("instaffo"), Ok(Target::Instaffo));
    assert_eq!(Target::from_name("monster"), Err(Error::UnknownSource));
}

#[test]
fn target_lookup_folds_ascii_case() {
    assert_eq!(Target::from_name("XING"), Ok(Target::Xing));
    assert_eq!(Target::from_name("LinkedIn"), Ok(Target::Linkedin));
    assert_eq!(Target::from_name("Instaffo"), Ok(Target::Instaffo));
    assert_eq!(Target::from_name("MONSTER"), Err(Error::UnknownSource));
}

#[test]
fn error_labels_are_stable() {
    assert_eq!(Error::UnknownSource.describe(), "unknown source");
    assert_eq!(Error::RequestNotOk("u".to_owned()).describe(), "request not ok");
    assert_eq!(Error::ContentNotFound("Salary".to_owned()).describe(), "content not found");
}

#[test]
fn constructors_place_every_field() {
    let range = SalaryRange::new(55000, 70000);
    assert_eq!(range.min, 55000);
    assert_eq!(range.max, 70000);
    let details = JobDetails::new(
        vec!["Rust".to_owned()],
        vec!["Tokio".to_owned()],
        vec!["remote budget".to_owned()],
        vec!["Rust".to_owned()],
        Some((55000, 70000)),
        Some("CS degree".to_owned()),
        Some(ExperienceLevel::Senior),
        Some("https://example.invalid/apply".to_owned()),
        Some(Workplace::Hybrid),
    );
    assert_eq!(details.requirements, vec!["Rust".to_owned()]);
    assert_eq!(details.technologies, vec!["Tokio".to_owned()]);
    assert_eq!(details.benefits, vec!["remote budget".to_owned()]);
    assert_eq!(details.programming_languages, vec!["Rust".to_owned()]);
    assert_eq!(details.salary_forecast, Some((55000, 70000)));
    assert_eq!(details.requires_degree.as_deref(), Some("CS degree"));
    assert_eq!(details.experience_level, Some(ExperienceLevel::Senior));
    assert_eq!(details.application_url.as_deref(), Some("https://example.invalid/apply"));
    assert_eq!(details.workplace, Some(Workplace::Hybrid));
}

#[test]
fn cursor_threads_continuation_tokens() {
    let mut cursor = CursorState::start();
    let body = cursor.request_body();
    assert_eq!(body.job_status, "open");
    assert_eq!(body.pit_id, None);
    assert_eq!(body.search_after, None);

    let cont = cursor.advance("pit-1".to_owned(), ("a".to_owned(), "b".to_owned()), 20);
    assert!(cont);
    let body = cursor.request_body();
    assert_eq!(body.pit_id.as_deref(), Some("pit-1"));
    assert_eq!(body.search_after, Some(("a".to_owned(), "b".to_owned())));
}

#[test]
fn cursor_stops_on_an_empty_page() {
    let mut cursor = CursorState::start();
    let cont = cursor.advance("pit-2".to_owned(), ("c".to_owned(), "d".to_owned()), 0);
    assert!(!cont);
    assert!(cursor.exhausted);
}

#[test]
fn cursor_stops_on_failure() {
    let mut cursor = CursorState::start();
    cursor.fail();
    assert!(cursor.exhausted);
}

#[test]
fn repair_flags_incomplete_and_duplicate_records() {
    let entries = vec![
        (Some("Rust Dev".to_owned()), Some("ACME GmbH".to_owned())),
        (None, Some("ACME GmbH".to_owned())),
        (Some("Go Dev".to_owned()), None),
        (Some("Rust  Dev".to_owned()), Some("ACMEGmbH".to_owned())),
        (Some("Rust Dev".to_owned()), Some("Other AG".to_owned())),
        (Some("rust dev".to_owned()), Some("acme gmbh".to_owned())),
    ];
    let flags = removal_flags(&entries);
    assert_eq!(
        flags,
        vec![
            false, // first complete occurrence
            true,  // missing title
            true,  // missing company
            true,  // same listing once whitespace is stripped
            false, // same title but another company
            false, // differs by case, which the key keeps
        ]
    );
}
