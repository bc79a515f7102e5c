use job_scraper::strutil::u64_to_string;
use job_scraper::urls::{combine_cookies, job_posting_url, job_search_url, listing_search_url};

#[test]
fn job_search_url_is_exact() {
    assert_eq!(
        job_search_url(0, 100, "Software"),
        "https://www.xing.com/jobs/api/search?employmentType=FULL_TIME.ef2fe9&offset=0&limit=100&keywords=Software"
    );
    assert_eq!(
        job_search_url(300, 50, "Rust Engineer"),
        "https://www.xing.com/jobs/api/search?employmentType=FULL_TIME.ef2fe9&offset=300&limit=50&keywords=Rust Engineer"
    );
}

#[test]
fn listing_search_url_encodes_the_query() {
    // a space must come out percent-encoded: the encoder really ran
    assert_eq!(
        listing_search_url("Software Engineer", "Germany", 25),
        "https://www.linkedin.com/jobs-guest/jobs/api/seeMoreJobPostings/search?location=Germany&keywords=Software%20Engineer&start=25&f_TPR=r604800"
    );
}

#[test]
fn listing_search_url_keeps_unreserved_bytes() {
    assert_eq!(
        listing_search_url("C++ & C#", "Berlin", 0),
        "https://www.linkedin.com/jobs-guest/jobs/api/seeMoreJobPostings/search?location=Berlin&keywords=C%2B%2B%20%26%20C%23&start=0&f_TPR=r604800"
    );
    assert_eq!(
        listing_search_url("plain-text_1.2~3", "Berlin", 0),
        "https://www.linkedin.com/jobs-guest/jobs/api/seeMoreJobPostings/search?location=Berlin&keywords=plain-text_1.2~3&start=0&f_TPR=r604800"
    );
}

#[test]
fn job_posting_url_appends_the_id() {
    assert_eq!(
        job_posting_url("3544610012"),
        "https://www.linkedin.com/jobs-guest/jobs/api/jobPosting/3544610012"
    );
}

#[test]
fn combine_cookies_joins_pairs() {
    let pairs = vec![
        ("_session".to_owned(), "abc123".to_owned()),
        ("theme".to_owned(), "dark".to_owned()),
    ];
    assert_eq!(combine_cookies(&pairs), "_session=abc123;theme=dark");
    let one = vec![("k".to_owned(), "v".to_owned())];
    assert_eq!(combine_cookies(&one), "k=v");
    let none: Vec<(String, String)> = Vec::new();
    assert_eq!(combine_cookies(&none), "");
}

#[test]
fn decimal_rendering_is_exact() {
    assert_eq!(u64_to_string(0), "0");
    assert_eq!(u64_to_string(7), "7");
    assert_eq!(u64_to_string(100), "100");
    assert_eq!(u64_to_string(98960724), "98960724");
    assert_eq!(u64_to_string(u64::MAX), "18446744073709551615");
}
