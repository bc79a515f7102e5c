//! Request-URL building for the site adapters, and the cookie header line
//! for the cursor source. Every URL is pinned character by character, with
//! offsets rendered in decimal and the query keyword encoded where the
//! source expects it.

use vstd::prelude::*;

use crate::strutil::append_u64;
use crate::strutil::dec_str;

verus! {

/// What `urlencoding::encode` returns for a string: a function of the
/// input characters alone.
pub uninterp spec fn url_encoded_of(s: Seq<char>) -> Seq<char>;

/// Relies on urlencoding::encode: percent-encodes every byte of the UTF-8
/// form except ASCII alphanumerics and `-`, `_`, `.`, `~`; the result
/// depends on the input alone, and an empty input stays empty.
#[verifier::external_body]
pub(crate) fn encode_component(s: &str) -> (r: String)
    ensures
        r@ == url_encoded_of(s@),
        s@.len() == 0 ==> r@.len() == 0,
{
    urlencoding::encode(s).into_owned()
}

/// The search-API URL of the offset-paginated source for one page request:
/// full-time listings at `offset`, `results` per page, for `search`.
pub fn job_search_url(offset: u64, results: u32, search: &str) -> (r: String)
    ensures
        r@ == "https://www.xing.com/jobs/api/search?employmentType=FULL_TIME.ef2fe9&offset="@
            + dec_str(offset as int) + "&limit="@ + dec_str(results as int) + "&keywords="@
            + search@,
{
    let mut url =
        "https://www.xing.com/jobs/api/search?employmentType=FULL_TIME.ef2fe9&offset=".to_owned();
    append_u64(&mut url, offset);
    url.append("&limit=");
    append_u64(&mut url, results as u64);
    url.append("&keywords=");
    url.append(search);
    proof {
        assert(url@ =~= "https://www.xing.com/jobs/api/search?employmentType=FULL_TIME.ef2fe9&offset="@
            + dec_str(offset as int) + "&limit="@ + dec_str(results as int) + "&keywords="@
            + search@);
    }
    url
}

/// The guest listing-page URL of the HTML source: recent full listings for
/// an encoded keyword at a result offset.
pub fn listing_search_url(query: &str, location: &str, offset: u64) -> (r: String)
    ensures
        r@ == "https://www.linkedin.com/jobs-guest/jobs/api/seeMoreJobPostings/search?location="@
            + location@ + "&keywords="@ + url_encoded_of(query@) + "&start="@ + dec_str(
            offset as int,
        ) + "&f_TPR=r604800"@,
{
    let mut url =
        "https://www.linkedin.com/jobs-guest/jobs/api/seeMoreJobPostings/search?location=".to_owned();
    url.append(location);
    url.append("&keywords=");
    let encoded = encode_component(query);
    url.append(encoded.as_str());
    url.append("&start=");
    append_u64(&mut url, offset);
    url.append("&f_TPR=r604800");
    proof {
        assert(url@
            =~= "https://www.linkedin.com/jobs-guest/jobs/api/seeMoreJobPostings/search?location="@
            + location@ + "&keywords="@ + url_encoded_of(query@) + "&start="@ + dec_str(
            offset as int,
        ) + "&f_TPR=r604800"@);
    }
    url
}

/// The detail-page URL of the HTML source for one listing id.
pub fn job_posting_url(id: &str) -> (r: String)
    ensures
        r@ == "https://www.linkedin.com/jobs-guest/jobs/api/jobPosting/"@ + id@,
{
    let mut url = "https://www.linkedin.com/jobs-guest/jobs/api/jobPosting/".to_owned();
    url.append(id);
    proof {
        assert(url@ =~= "https://www.linkedin.com/jobs-guest/jobs/api/jobPosting/"@ + id@);
    }
    url
}

/// One cookie rendered as `name=value`.
pub open spec fn cookie_of(pair: (Seq<char>, Seq<char>)) -> Seq<char> {
    pair.0 + "="@ + pair.1
}

/// Cookie pairs rendered as a `Cookie` header line: `name=value` entries
/// joined with `;`.
pub open spec fn cookies_joined(pairs: Seq<(Seq<char>, Seq<char>)>) -> Seq<char>
    decreases pairs.len(),
{
    if pairs.len() == 0 {
        seq![]
    } else if pairs.len() == 1 {
        cookie_of(pairs[0])
    } else {
        cookies_joined(pairs.drop_last()) + ";"@ + cookie_of(pairs.last())
    }
}

/// The pair views of a cookie list.
pub open spec fn cookie_views(pairs: Seq<(String, String)>) -> Seq<(Seq<char>, Seq<char>)> {
    pairs.map_values(|p: (String, String)| (p.0@, p.1@))
}

/// Renders cookie pairs as one `Cookie` header line, `name=value` joined
/// with `;`, in the order given.
pub fn combine_cookies(pairs: &Vec<(String, String)>) -> (r: String)
    ensures
        r@ == cookies_joined(cookie_views(pairs@)),
{
    let mut out = String::new();
    let mut i: usize = 0;
    proof {
        assert(cookie_views(pairs@).take(0) =~= Seq::<(Seq<char>, Seq<char>)>::empty());
        assert(out@ =~= cookies_joined(cookie_views(pairs@).take(0)));
    }
    while i < pairs.len()
        invariant
            i <= pairs@.len(),
            out@ == cookies_joined(cookie_views(pairs@).take(i as int)),
        decreases pairs@.len() - i,
    {
        let ghost prefix = cookie_views(pairs@).take(i as int);
        if i > 0 {
            out.append(";");
        }
        out.append(pairs[i].0.as_str());
        out.append("=");
        out.append(pairs[i].1.as_str());
        proof {
            let longer = cookie_views(pairs@).take(i + 1);
            assert(longer.drop_last() =~= prefix);
            assert(longer.last() == (pairs@[i as int].0@, pairs@[i as int].1@));
            if i == 0 {
                assert(out@ =~= cookie_of(longer[0]));
                assert(longer.len() == 1);
            } else {
                assert(out@ =~= cookies_joined(prefix) + ";"@ + cookie_of(longer.last()));
            }
            assert(out@ =~= cookies_joined(longer));
        }
        i += 1;
    }
    proof {
        assert(cookie_views(pairs@).take(pairs@.len() as int) =~= cookie_views(pairs@));
    }
    out
}

} // verus!
