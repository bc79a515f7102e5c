//! The boundary to the HTML parser. Fetched pages are plain strings;
//! what a fixed CSS selector finds in them is computed by the `scraper`
//! crate and named here, so that the extraction logic above can be exact
//! about which fragment each field came from.

use vstd::prelude::*;

use crate::strutil::views_of;

verus! {

/// The `Option<String>` a lookup returned, as character sequences.
pub open spec fn opt_view(o: Option<String>) -> Option<Seq<char>> {
    match o {
        Some(s) => Some(s@),
        None => None,
    }
}

/// The concatenated text of the first element of `html` that `selector`
/// matches; nothing when the selector is invalid or matches nothing. A
/// function of the two strings alone.
pub uninterp spec fn first_match_text(html: Seq<char>, selector: Seq<char>) -> Option<Seq<char>>;

/// Relies on scraper's Html::parse_document, Selector::parse and the
/// Select iterator: parsing is deterministic, and the first match's text
/// depends on the document and selector alone.
#[verifier::external_body]
pub(crate) fn html_first_text(html: &str, selector: &str) -> (r: Option<String>)
    ensures
        opt_view(r) == first_match_text(html@, selector@),
{
    let parsed = scraper::Selector::parse(selector);
    let doc = scraper::Html::parse_document(html);
    match parsed {
        Ok(sel) => doc.select(&sel).next().map(|el| el.text().collect()),
        Err(_) => None,
    }
}

/// The value of attribute `attr` on the first element of `html` that
/// `selector` matches; nothing when the selector is invalid, nothing
/// matches, or the element lacks the attribute. A function of the three
/// strings alone.
pub uninterp spec fn first_match_attr(html: Seq<char>, selector: Seq<char>, attr: Seq<char>) -> Option<Seq<char>>;

/// Relies on scraper's Html::parse_document, Selector::parse and
/// ElementRef::attr: deterministic in the document, selector and
/// attribute name.
#[verifier::external_body]
pub(crate) fn html_first_attr(html: &str, selector: &str, attr: &str) -> (r: Option<String>)
    ensures
        opt_view(r) == first_match_attr(html@, selector@, attr@),
{
    let parsed = scraper::Selector::parse(selector);
    let doc = scraper::Html::parse_document(html);
    match parsed {
        Ok(sel) => doc.select(&sel).next().and_then(|el| el.value().attr(attr)).map(String::from),
        Err(_) => None,
    }
}

/// The concatenated text of every element of `html` that `selector`
/// matches, in the order the parsed tree yields them; empty when the
/// selector is invalid. A function of the two strings alone.
pub uninterp spec fn all_match_texts(html: Seq<char>, selector: Seq<char>) -> Seq<Seq<char>>;

/// Relies on scraper's Html::parse_document, Selector::parse and the
/// Select iterator, which walks the parsed tree's matches in a fixed
/// order.
#[verifier::external_body]
pub(crate) fn html_all_texts(html: &str, selector: &str) -> (r: Vec<String>)
    ensures
        views_of(r@) == all_match_texts(html@, selector@),
{
    let parsed = scraper::Selector::parse(selector);
    let doc = scraper::Html::parse_document(html);
    match parsed {
        Ok(sel) => doc.select(&sel).map(|el| el.text().collect()).collect(),
        Err(_) => Vec::new(),
    }
}

/// The value of attribute `attr` on every element of `html` that
/// `selector` matches and that carries the attribute, in the order the
/// parsed tree yields them; empty when the selector is invalid. A
/// function of the three strings alone.
pub uninterp spec fn all_match_attrs(html: Seq<char>, selector: Seq<char>, attr: Seq<char>) -> Seq<
    Seq<char>,
>;

/// Relies on scraper's Html::parse_document, Selector::parse and
/// ElementRef::attr, walking the parsed tree's matches in a fixed order.
#[verifier::external_body]
pub(crate) fn html_all_attrs(html: &str, selector: &str, attr: &str) -> (r: Vec<String>)
    ensures
        views_of(r@) == all_match_attrs(html@, selector@, attr@),
{
    let parsed = scraper::Selector::parse(selector);
    let doc = scraper::Html::parse_document(html);
    match parsed {
        Ok(sel) => doc.select(&sel).filter_map(
            |el| el.value().attr(attr).map(String::from),
        ).collect(),
        Err(_) => Vec::new(),
    }
}

/// The first capture group of `pattern` matched against `text`; nothing
/// when the pattern is invalid, does not match, or has no first group. A
/// function of the two strings alone.
pub uninterp spec fn capture_first_of(pattern: Seq<char>, text: Seq<char>) -> Option<Seq<char>>;

/// Relies on regex's Regex::new and Regex::captures: matching is
/// deterministic in the pattern and the text.
#[verifier::external_body]
pub(crate) fn regex_capture_first(pattern: &str, text: &str) -> (r: Option<String>)
    ensures
        opt_view(r) == capture_first_of(pattern@, text@),
{
    let re = match regex::Regex::new(pattern) {
        Ok(re) => re,
        Err(_) => return None,
    };
    re.captures(text).and_then(|caps| caps.get(1)).map(|m| m.as_str().to_owned())
}

} // verus!
