//! Display helpers shared by the desktop shells.
//!
//! Time strings are in the local zone. URL checks only accept `http` and
//! `https`, which is what the shells open in the system browser.

use vstd::prelude::*;
use chrono::Datelike;
use crate::textutil::{chars_of, int_text, is_whitespace, is_ws, lower_char, push_int, to_ascii_lower};

verus! {

/// The first `p.len()` characters of `s` are `p`, ignoring ASCII case
/// (`p` is lowercase ASCII).
pub open spec fn has_prefix_ignore_case(s: Seq<char>, p: Seq<char>) -> bool {
    s.len() >= p.len() && forall|i: int| 0 <= i < p.len() ==> lower_char(#[trigger] s[i]) == p[i]
}

/// An `http://` or `https://` URL (scheme in any ASCII case) with something
/// after the scheme and no whitespace anywhere.
pub open spec fn is_http_url_spec(s: Seq<char>) -> bool {
    ((s.len() > 8 && has_prefix_ignore_case(s, "https://"@)) || (s.len() > 7 && has_prefix_ignore_case(
        s,
        "http://"@,
    ))) && forall|i: int| 0 <= i < s.len() ==> !is_ws(#[trigger] s[i])
}

fn prefix_ignore_case(s: &[char], p: &[char]) -> (r: bool)
    ensures
        r == has_prefix_ignore_case(s@, p@),
{
    if s.len() < p.len() {
        return false;
    }
    let mut i: usize = 0;
    while i < p.len()
        invariant
            s.len() >= p.len(),
            i <= p.len(),
            forall|j: int| 0 <= j < i ==> lower_char(#[trigger] s@[j]) == p@[j],
        decreases p.len() - i,
    {
        if to_ascii_lower(s[i]) != p[i] {
            return false;
        }
        i += 1;
    }
    true
}

/// `true` when `url` is an `http` or `https` URL with no whitespace.
#[verifier::loop_isolation(false)]
pub fn is_http_url(url: &str) -> (r: bool)
    ensures
        r == is_http_url_spec(url@),
{
    let s = chars_of(url);
    let https = chars_of("https://");
    let http = chars_of("http://");
    proof {
        reveal_strlit("https://");
        reveal_strlit("http://");
    }
    let scheme = (s.len() > 8 && prefix_ignore_case(s.as_slice(), https.as_slice())) || (s.len() > 7
        && prefix_ignore_case(s.as_slice(), http.as_slice()));
    if !scheme {
        return false;
    }
    let mut i: usize = 0;
    while i < s.len()
        invariant
            i <= s.len(),
            forall|j: int| 0 <= j < i ==> !is_ws(#[trigger] s@[j]),
        decreases s.len() - i,
    {
        if is_whitespace(s[i]) {
            assert(is_ws(s@[i as int]));
            return false;
        }
        i += 1;
    }
    true
}

pub open spec fn is_digit_char(c: char) -> bool {
    '0' <= c <= '9'
}

pub open spec fn all_digits(s: Seq<char>) -> bool {
    forall|i: int| 0 <= i < s.len() ==> is_digit_char(#[trigger] s[i])
}

/// The two digits at `i`, read as a number from `lo` to `hi`.
pub open spec fn two_digits_in(s: Seq<char>, i: int, lo: int, hi: int) -> bool {
    &&& 0 <= i && i + 1 < s.len()
    &&& is_digit_char(s[i]) && is_digit_char(s[i + 1])
    &&& lo <= (s[i] as int - '0' as int) * 10 + (s[i + 1] as int - '0' as int) <= hi
}

/// `HH:MM`: hour 00 to 23, minute 00 to 59.
pub open spec fn clock_shape(s: Seq<char>) -> bool {
    s.len() == 5 && two_digits_in(s, 0, 0, 23) && s[2] == ':' && two_digits_in(s, 3, 0, 59)
}

pub open spec fn month_abbrev(s: Seq<char>) -> bool {
    s == "Jan"@ || s == "Feb"@ || s == "Mar"@ || s == "Apr"@ || s == "May"@ || s == "Jun"@ || s == "Jul"@
        || s == "Aug"@ || s == "Sep"@ || s == "Oct"@ || s == "Nov"@ || s == "Dec"@
}

/// `DD Mon`: day 01 to 31 and an English month abbreviation.
pub open spec fn day_month_shape(s: Seq<char>) -> bool {
    s.len() == 6 && two_digits_in(s, 0, 1, 31) && s[2] == ' ' && month_abbrev(s.skip(3))
}

/// A `%Y` year: four digits, or a sign and at least four digits outside
/// the years 0 to 9999.
pub open spec fn year_shape(y: Seq<char>) -> bool {
    (y.len() == 4 && all_digits(y)) || (y.len() >= 5 && (y[0] == '+' || y[0] == '-') && all_digits(y.skip(1)))
}

/// `YYYY-MM-DD`: a year, month 01 to 12, day 01 to 31.
pub open spec fn date_shape(s: Seq<char>) -> bool {
    let n = s.len() as int;
    &&& n >= 10
    &&& year_shape(s.take(n - 6))
    &&& s[n - 6] == '-' && two_digits_in(s, n - 5, 1, 12)
    &&& s[n - 3] == '-' && two_digits_in(s, n - 2, 1, 31)
}

/// `YYYY-MM-DD HH:MM`.
pub open spec fn date_clock_shape(s: Seq<char>) -> bool {
    let n = s.len() as int;
    n >= 16 && date_shape(s.take(n - 6)) && s[n - 6] == ' ' && clock_shape(s.skip(n - 5))
}

/// The Unix seconds chrono can place: `DateTime::from_timestamp` gives an
/// instant exactly for the days whose date falls in its years -262143 to
/// 262142 (January 1 of the first to December 31 of the last).
pub open spec fn chrono_range(unix: i64) -> bool {
    -8_334_601_228_800 <= unix <= 8_210_266_876_799
}

/// The chrono patterns the shells format with.
pub open spec fn known_pattern(p: Seq<char>) -> bool {
    p == "%H:%M"@ || p == "%d %b"@ || p == "%Y-%m-%d"@ || p == "%Y-%m-%d %H:%M"@
}

/// What a known pattern gives: `%H`, `%M`, `%d` and `%m` are two zero-padded
/// digits, `%b` an English month abbreviation, `%Y` the year zero-padded to
/// four digits (with a sign outside 0 to 9999).
pub open spec fn pattern_shape(p: Seq<char>, t: Seq<char>) -> bool {
    if p == "%H:%M"@ {
        clock_shape(t)
    } else if p == "%d %b"@ {
        day_month_shape(t)
    } else if p == "%Y-%m-%d"@ {
        date_shape(t)
    } else {
        date_clock_shape(t)
    }
}

/// `DateTime::from_timestamp(unix, 0)` in the local zone, formatted with a
/// chrono `strftime` pattern. `None` exactly when chrono has no such
/// instant, which depends on `unix` alone ([`chrono_range`]). Which
/// digits come back depends on the machine's time zone, so only the shape
/// that chrono's formatting gives each pattern is claimed, not the values.
#[verifier::external_body]
fn format_local(unix: i64, pattern: &str) -> (r: Option<String>)
    requires
        known_pattern(pattern@),
    ensures
        r is Some <==> chrono_range(unix),
        match r {
            Some(t) => pattern_shape(pattern@, t@),
            None => true,
        },
{
    chrono::DateTime::from_timestamp(unix, 0).map(|when| when.with_timezone(&chrono::Local).format(pattern).to_string())
}

proof fn lemma_patterns_differ()
    ensures
        "%H:%M"@ != "%d %b"@,
        "%H:%M"@ != "%Y-%m-%d"@,
        "%d %b"@ != "%Y-%m-%d"@,
        "%Y-%m-%d %H:%M"@ != "%H:%M"@,
        "%Y-%m-%d %H:%M"@ != "%d %b"@,
        "%Y-%m-%d %H:%M"@ != "%Y-%m-%d"@,
{
    reveal_strlit("%H:%M");
    reveal_strlit("%d %b");
    reveal_strlit("%Y-%m-%d");
    reveal_strlit("%Y-%m-%d %H:%M");
    assert("%H:%M"@.len() == 5 && "%d %b"@.len() == 5);
    assert("%H:%M"@[1] != "%d %b"@[1]);
    assert("%Y-%m-%d"@.len() == 8 && "%Y-%m-%d %H:%M"@.len() == 14);
}

/// Message header time, `YYYY-MM-DD HH:MM` in the local zone, or the raw
/// number when chrono cannot place it.
pub fn message_time(unix: i64) -> (r: String)
    ensures
        chrono_range(unix) ==> date_clock_shape(r@),
        !chrono_range(unix) ==> r@ == int_text(unix as int),
{
    proof {
        lemma_patterns_differ();
    }
    let local = format_local(unix, "%Y-%m-%d %H:%M");
    assert(match local {
        Some(t) => date_clock_shape(t@),
        None => !chrono_range(unix),
    });
    message_time_from(unix, local)
}

/// [`message_time`] once the local formatting is known: that text, or the
/// decimal timestamp when there is none.
pub fn message_time_from(unix: i64, local: Option<String>) -> (r: String)
    ensures
        match local {
            Some(t) => r@ == t@,
            None => r@ == int_text(unix as int),
        },
{
    match local {
        Some(t) => t,
        None => {
            let mut s = String::new();
            push_int(&mut s, unix);
            s
        },
    }
}


/// Year and day of the year of `unix` in the local zone; `None` exactly
/// when chrono has no such instant ([`chrono_range`]). Which date it is
/// depends on the zone, so nothing more is claimed.
#[verifier::external_body]
fn local_date(unix: i64) -> (r: Option<(i32, u32)>)
    ensures
        r is Some <==> chrono_range(unix),
{
    chrono::DateTime::from_timestamp(unix, 0).map(|when| {
        let local = when.with_timezone(&chrono::Local);
        (local.year(), local.ordinal())
    })
}

/// Year and day of the year of the current local date. It depends on the
/// clock, so nothing is claimed of it.
#[verifier::external_body]
fn local_today() -> (r: (i32, u32)) {
    let now = chrono::Local::now();
    (now.year(), now.ordinal())
}

/// The chat-list clock pattern for a date, given today's date (each as year
/// and day of the year): `HH:MM` today, `DD Mon` this year, else `YYYY-MM-DD`.
pub fn list_time_pattern(when: (i32, u32), today: (i32, u32)) -> (p: &'static str)
    ensures
        p@ == (if when == today {
            "%H:%M"@
        } else if when.0 == today.0 {
            "%d %b"@
        } else {
            "%Y-%m-%d"@
        }),
{
    if when.0 == today.0 && when.1 == today.1 {
        "%H:%M"
    } else if when.0 == today.0 {
        "%d %b"
    } else {
        "%Y-%m-%d"
    }
}

/// Chat-list clock: `HH:MM` today, `DD Mon` this year, otherwise
/// `YYYY-MM-DD`; empty when chrono cannot place the timestamp.
pub fn list_time(unix: i64) -> (r: String)
    ensures
        r@.len() == 0 || clock_shape(r@) || day_month_shape(r@) || date_shape(r@),
        chrono_range(unix) <==> r@.len() > 0,
{
    proof {
        lemma_patterns_differ();
    }
    match local_date(unix) {
        None => String::new(),
        Some(when) => {
            let pattern = list_time_pattern(when, local_today());
            match format_local(unix, pattern) {
                Some(text) => text,
                None => String::new(),
            }
        },
    }
}

} // verus!
