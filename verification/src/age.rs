//! Relative-age conversion. Detail pages report a posting age like
//! "3 days ago"; the amount and unit are parsed and subtracted from the
//! caller's clock reading to give an absolute timestamp. An unparseable
//! amount or unit yields nothing rather than an error — the field is
//! simply left absent.

use vstd::prelude::*;

use crate::strutil::all_digits;
use crate::strutil::digits_val;
use crate::strutil::eq_ignore_ascii;
use crate::strutil::lemma_word_is_take;
use crate::strutil::leading_word;
use crate::strutil::parse_digits;
use crate::strutil::split_tokens;
use crate::strutil::to_lower;
use crate::strutil::tokens_of;
use crate::strutil::views_of;

verus! {

broadcast use vstd::string::group_string_axioms;

/// Seconds in a day, a week, and a (non-leap) year.
pub const DAY_SECONDS: u64 = 86400;

pub const WEEK_SECONDS: u64 = 604800;

pub const YEAR_SECONDS: u64 = 31536000;

/// The length in seconds of an age unit, up to ASCII case and an optional
/// plural `s`; unknown units have none.
pub open spec fn unit_seconds(unit: Seq<char>) -> Option<int> {
    if to_lower(unit) == "day"@ || to_lower(unit) == "days"@ {
        Some(DAY_SECONDS as int)
    } else if to_lower(unit) == "week"@ || to_lower(unit) == "weeks"@ {
        Some(WEEK_SECONDS as int)
    } else if to_lower(unit) == "year"@ || to_lower(unit) == "years"@ {
        Some(YEAR_SECONDS as int)
    } else {
        None
    }
}

/// What an age string converts to, given the clock reading `now` in
/// seconds: the first token must be an amount in decimal digits and the
/// second a known unit, and the amount of seconds they denote is
/// subtracted from `now`. Anything else — too few tokens, a non-numeric
/// amount, an unknown unit, or a span the timestamp type cannot hold —
/// converts to nothing.
pub open spec fn spec_convert_age(s: Seq<char>, now: int) -> Option<int> {
    let toks = tokens_of(s);
    if toks.len() < 2 {
        None
    } else if !(all_digits(toks[0]) && digits_val(toks[0]) <= u64::MAX) {
        None
    } else {
        match unit_seconds(toks[1]) {
            None => None,
            Some(secs) => {
                let delta = digits_val(toks[0]) * secs;
                if delta > i64::MAX || now - delta < i64::MIN {
                    None
                } else {
                    Some(now - delta)
                }
            },
        }
    }
}

/// The age "1 day ago" converts to the timestamp exactly one day before
/// the clock reading: strictly before it, and strictly after the reading
/// less two days. Clock readings in the lowest two days of the timestamp
/// range are left out; there the span is not representable and the
/// conversion yields nothing instead.
pub proof fn lemma_one_day_ago_window(now: int)
    requires
        now >= i64::MIN + 2 * DAY_SECONDS,
        now <= i64::MAX,
    ensures
        spec_convert_age("1 day ago"@, now) == Some(now - DAY_SECONDS),
        now - DAY_SECONDS < now,
        now - DAY_SECONDS > now - 2 * DAY_SECONDS,
{
    reveal_strlit("1 day ago");
    reveal_strlit("1");
    reveal_strlit("day");
    reveal_strlit("days");
    reveal_strlit("week");
    reveal_strlit("weeks");
    reveal_strlit("year");
    reveal_strlit("years");
    reveal_strlit("ago");
    let s = "1 day ago"@;
    assert(s.len() == 9);
    lemma_word_is_take(s, 1);
    assert(leading_word(s) =~= "1"@);
    let s1 = s.skip(1);
    assert(tokens_of(s) =~= seq![leading_word(s)] + tokens_of(s1));
    let s2 = s1.skip(1);
    assert(forall|j: int| 0 <= j < s2.len() ==> #[trigger] s2[j] == s[j + 2]);
    assert(tokens_of(s1) == tokens_of(s2));
    lemma_word_is_take(s2, 3);
    assert(leading_word(s2) =~= "day"@);
    let s3 = s2.skip(3);
    assert(tokens_of(s2) =~= seq![leading_word(s2)] + tokens_of(s3));
    let s4 = s3.skip(1);
    assert(forall|j: int| 0 <= j < s4.len() ==> #[trigger] s4[j] == s[j + 6]);
    assert(tokens_of(s3) == tokens_of(s4));
    lemma_word_is_take(s4, 3);
    assert(leading_word(s4) =~= "ago"@);
    let s5 = s4.skip(3);
    assert(s5 =~= Seq::<char>::empty());
    assert(tokens_of(s4) =~= seq![leading_word(s4)] + tokens_of(s5));
    let toks = tokens_of(s);
    assert(toks =~= seq!["1"@, "day"@, "ago"@]);
    assert(toks[0] =~= seq!['1']);
    assert(all_digits(toks[0]));
    assert(digits_val(toks[0]) == 1) by {
        reveal_with_fuel(digits_val, 3);
        assert(seq!['1'].drop_last() =~= Seq::<char>::empty());
    }
    assert(to_lower("day"@) =~= "day"@);
    assert(to_lower(toks[1]) == "day"@);
    assert(unit_seconds(toks[1]) == Some(DAY_SECONDS as int));
}

/// A converted age lies strictly in the past: whenever an age string with
/// a non-zero amount converts at all, the timestamp it yields is strictly
/// before `now`, by exactly the amount times the unit's length — so at
/// least one day's worth of seconds.
pub proof fn lemma_converted_age_past(s: Seq<char>, now: int, t: int)
    requires
        spec_convert_age(s, now) == Some(t),
        digits_val(tokens_of(s)[0]) >= 1,
    ensures
        t < now,
        now - t == digits_val(tokens_of(s)[0]) * unit_seconds(tokens_of(s)[1])->0,
        now - t >= DAY_SECONDS,
{
    let toks = tokens_of(s);
    let amount = digits_val(toks[0]);
    let secs = unit_seconds(toks[1])->0;
    assert(secs >= DAY_SECONDS);
    assert(amount * secs >= secs) by (nonlinear_arith)
        requires
            amount >= 1,
            secs >= 0,
    ;
}

fn unit_seconds_exec(unit: &str) -> (r: Option<u64>)
    ensures
        r matches Some(secs) ==> unit_seconds(unit@) == Some(secs as int),
        r is None ==> unit_seconds(unit@) is None,
{
    proof {
        reveal_strlit("day");
        reveal_strlit("days");
        reveal_strlit("week");
        reveal_strlit("weeks");
        reveal_strlit("year");
        reveal_strlit("years");
        assert(to_lower("day"@) =~= "day"@);
        assert(to_lower("days"@) =~= "days"@);
        assert(to_lower("week"@) =~= "week"@);
        assert(to_lower("weeks"@) =~= "weeks"@);
        assert(to_lower("year"@) =~= "year"@);
        assert(to_lower("years"@) =~= "years"@);
    }
    if eq_ignore_ascii(unit, "day") || eq_ignore_ascii(unit, "days") {
        Some(DAY_SECONDS)
    } else if eq_ignore_ascii(unit, "week") || eq_ignore_ascii(unit, "weeks") {
        Some(WEEK_SECONDS)
    } else if eq_ignore_ascii(unit, "year") || eq_ignore_ascii(unit, "years") {
        Some(YEAR_SECONDS)
    } else {
        None
    }
}

/// Converts a relative age like "3 days ago" to an absolute timestamp in
/// seconds, given the clock reading `now`; tokens beyond the unit are
/// ignored. Nothing comes back when the string does not parse.
pub fn try_convert_age(age: &str, now: i64) -> (r: Option<i64>)
    ensures
        r is Some <==> spec_convert_age(age@, now as int) is Some,
        r matches Some(v) ==> spec_convert_age(age@, now as int) == Some(v as int),
{
    let toks = split_tokens(age);
    proof {
        assert(views_of(toks@).len() == toks@.len());
    }
    if toks.len() < 2 {
        return None;
    }
    proof {
        assert(views_of(toks@)[0] == toks@[0]@);
        assert(views_of(toks@)[1] == toks@[1]@);
    }
    let amount = match parse_digits(toks[0].as_str()) {
        Some(a) => a,
        None => {
            return None;
        },
    };
    let secs = match unit_seconds_exec(toks[1].as_str()) {
        Some(s) => s,
        None => {
            return None;
        },
    };
    if amount > i64::MAX as u64 / secs {
        proof {
            let ghost m: int = i64::MAX as int;
            assert(amount as int * secs as int > m) by (nonlinear_arith)
                requires
                    amount as int > m / secs as int,
                    secs as int >= 1,
                    m >= 0,
            ;
        }
        return None;
    }
    proof {
        assert(amount as int * secs as int <= i64::MAX as int) by (nonlinear_arith)
            requires
                amount as int <= i64::MAX as int / secs as int,
                secs as int >= 1,
                amount as int >= 0,
        ;
    }
    let delta: u64 = amount * secs;
    let delta_signed: i64 = delta as i64;
    if now < i64::MIN + delta_signed {
        return None;
    }
    Some(now - delta_signed)
}

} // verus!
