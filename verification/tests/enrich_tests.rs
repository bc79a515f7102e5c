use job_scraper::enrich::{criteria_from_texts, enrich, extract_detail_content, extract_job_id, parse_job_detail};
use job_scraper::listing::listing_page_ids;
use job_scraper::models::{Company, Error, RawListingItem, Target};

fn item() -> RawListingItem {
    RawListingItem {
        source: Target::Xing,
        identity: "98960724".to_owned(),
        title: "Anwendungsentwickler Java".to_owned(),
        company: Company { name: "ACME GmbH".to_owned(), link: None },
        location: "Nuernberg".to_owned(),
        detail_link: "https://www.xing.com/jobs/nuernberg-anwendungsentwickler-java-98960724".to_owned(),
        posting_date: None,
    }
}

const POSTING_HTML: &str = "<html><body><div data-cy=\"posting-salary\">55.000 - 70.000 EUR</div><div class=\"styles-grid-gridContainer-cec162b7 styles-grid-standardGridContainer-cfa898d5\">Develop and maintain Java services.</div></body></html>";

#[test]
fn detail_content_concatenates_salary_and_body() {
    let content = extract_detail_content(POSTING_HTML).unwrap();
    assert_eq!(content, "55.000 - 70.000 EURDevelop and maintain Java services.");
}

#[test]
fn missing_body_is_reported_by_name() {
    let html = "<html><body><div data-cy=\"posting-salary\">50k</div></body></html>";
    match extract_detail_content(html) {
        Err(Error::ContentNotFound(what)) => assert_eq!(what, "Job Posting data"),
        other => panic!("expected a content-not-found error, got {other:?}"),
    }
}

#[test]
fn missing_salary_is_reported_by_name() {
    let html = "<html><body><div class=\"styles-grid-gridContainer-cec162b7 styles-grid-standardGridContainer-cfa898d5\">body</div></body></html>";
    match extract_detail_content(html) {
        Err(Error::ContentNotFound(what)) => assert_eq!(what, "Salary"),
        other => panic!("expected a content-not-found error, got {other:?}"),
    }
}

#[test]
fn enrich_keeps_identity_when_fetch_failed() {
    let record = enrich(item(), None);
    assert_eq!(record.identity, "98960724");
    assert_eq!(record.title, "Anwendungsentwickler Java");
    assert_eq!(record.company.name, "ACME GmbH");
    assert_eq!(record.location, "Nuernberg");
    assert_eq!(record.detail_content, None);
}

#[test]
fn enrich_keeps_identity_when_content_is_missing() {
    let record = enrich(item(), Some("<html><body>nothing here</body></html>"));
    assert_eq!(record.identity, "98960724");
    assert_eq!(record.detail_content, None);
}

#[test]
fn enrich_attaches_detail_content_on_success() {
    let record = enrich(item(), Some(POSTING_HTML));
    assert_eq!(record.identity, "98960724");
    let content = record.detail_content.expect("content expected");
    assert!(content.starts_with("55.000 - 70.000 EUR"));
    assert!(content.contains("Develop and maintain Java services."));
}

#[test]
fn job_id_is_extracted_from_detail_links() {
    assert_eq!(
        extract_job_id("https://example.invalid/jobs/view/rust-developer-3544610012?refId=abc"),
        Some("3544610012".to_owned())
    );
    assert_eq!(extract_job_id("https://example.invalid/jobs/view/no-id-here"), None);
}

#[test]
fn listing_page_ids_dedupes_within_the_page() {
    let html = "<html><body>\
        <a class=\"base-card__full-link\" href=\"https://example.invalid/jobs/view/dev-111?a=1\">x</a>\
        <a class=\"base-card__full-link\" href=\"https://example.invalid/jobs/view/dev-222?a=1\">y</a>\
        <a class=\"base-card__full-link\" href=\"https://example.invalid/jobs/view/dev-111?b=2\">x again</a>\
        <a class=\"base-card__full-link\" href=\"https://example.invalid/jobs/view/plain\">no id</a>\
        </body></html>";
    assert_eq!(listing_page_ids(html), vec!["111".to_owned(), "222".to_owned()]);
}

#[test]
fn detail_page_fields_are_parsed() {
    let now: i64 = 1700000000;
    let html = "<html><body>\
        <h1 class=\"top-card-layout__title\"> Senior Rust Engineer </h1>\
        <a class=\"topcard__org-name-link\" href=\"https://example.invalid/org\"> ACME GmbH </a>\
        <span class=\"topcard__flavor topcard__flavor--bullet\"> Berlin </span>\
        <span class=\"posted-time-ago__text\"> 2 weeks ago </span>\
        <div class=\"description__text\">Build things.</div>\
        <span class=\"description__job-criteria-text\"> Mid-Senior level </span>\
        <span class=\"description__job-criteria-text\"> Full-time </span>\
        <span class=\"description__job-criteria-text\"> Engineering </span>\
        <span class=\"description__job-criteria-text\"> Software Development </span>\
        </body></html>";
    let detail = parse_job_detail(html, now);
    assert_eq!(detail.title.as_deref(), Some("Senior Rust Engineer"));
    assert_eq!(detail.company_name.as_deref(), Some("ACME GmbH"));
    assert_eq!(detail.company_link.as_deref(), Some("https://example.invalid/org"));
    assert_eq!(detail.location.as_deref(), Some("Berlin"));
    assert_eq!(detail.posting_date, Some(now - 2 * 604800));
    assert_eq!(detail.raw_data.as_deref(), Some("Build things."));
    assert_eq!(detail.criteria.seniority.as_deref(), Some("Mid-Senior level"));
    assert_eq!(detail.criteria.employment_type.as_deref(), Some("Full-time"));
    assert_eq!(detail.criteria.job_function.as_deref(), Some("Engineering"));
    assert_eq!(detail.criteria.industries.as_deref(), Some("Software Development"));
}

#[test]
fn sparse_detail_page_leaves_fields_absent() {
    let detail = parse_job_detail("<html><body><p>gone</p></body></html>", 1700000000);
    assert_eq!(detail.title, None);
    assert_eq!(detail.company_name, None);
    assert_eq!(detail.company_link, None);
    assert_eq!(detail.location, None);
    assert_eq!(detail.posting_date, None);
    assert_eq!(detail.raw_data, None);
    assert_eq!(detail.criteria.seniority, None);
    assert_eq!(detail.criteria.industries, None);
}

#[test]
fn criteria_fall_in_page_order() {
    let texts = vec!["Senior".to_owned(), "Contract".to_owned()];
    let criteria = criteria_from_texts(&texts);
    assert_eq!(criteria.seniority.as_deref(), Some("Senior"));
    assert_eq!(criteria.employment_type.as_deref(), Some("Contract"));
    assert_eq!(criteria.job_function, None);
    assert_eq!(criteria.industries, None);
}
