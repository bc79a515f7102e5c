use job_scraper::age::try_convert_age;

const NOW: i64 = 1700000000;

#[test]
fn test_try_convert_age() {
    let age = "1 day ago";
    let res = try_convert_age(age, NOW);
    assert!(res.is_some());
    let res = res.unwrap();
    assert!(res < NOW);
}

#[test]
fn one_day_ago_lies_inside_the_expected_window() {
    let t = try_convert_age("1 day ago", NOW).unwrap();
    assert!(t < NOW, "strictly before now");
    assert!(t > NOW - 2 * 86400, "strictly after now minus two days");
    assert_eq!(t, NOW - 86400);
}

#[test]
fn unparseable_unit_yields_none() {
    assert_eq!(try_convert_age("1 fortnight ago", NOW), None);
    assert_eq!(try_convert_age("3 months ago", NOW), None);
}

#[test]
fn plural_units_and_case_are_accepted() {
    assert_eq!(try_convert_age("3 days ago", NOW), Some(NOW - 3 * 86400));
    assert_eq!(try_convert_age("2 weeks ago", NOW), Some(NOW - 2 * 604800));
    assert_eq!(try_convert_age("1 year ago", NOW), Some(NOW - 31536000));
    assert_eq!(try_convert_age("10 DAYS ago", NOW), Some(NOW - 10 * 86400));
    assert_eq!(try_convert_age("1 Week ago", NOW), Some(NOW - 604800));
}

#[test]
fn malformed_age_strings_yield_none() {
    assert_eq!(try_convert_age("", NOW), None);
    assert_eq!(try_convert_age("yesterday", NOW), None);
    assert_eq!(try_convert_age("day ago", NOW), None);
    assert_eq!(try_convert_age("one day ago", NOW), None);
    assert_eq!(try_convert_age("-1 days ago", NOW), None);
    assert_eq!(try_convert_age("99999999999999999999999999 days ago", NOW), None);
}

#[test]
fn surrounding_whitespace_is_tolerated() {
    assert_eq!(try_convert_age("  4  days   ago  ", NOW), Some(NOW - 4 * 86400));
}
