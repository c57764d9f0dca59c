//! The calls this library makes into outside crates, each behind a contract.
use vstd::prelude::*;

verus! {

/// The lower-case hexadecimal digit for `n` (below 16).
pub open spec fn hex_digit(n: int) -> char {
    if n < 10 {
        (48 + n) as char
    } else {
        (87 + n) as char
    }
}

/// How serde_json writes one character inside a string: `"` and `\` behind a backslash, the
/// control characters below 0x20 as `\b`, `\t`, `\n`, `\f`, `\r` or `\u00XX` (lower-case hex),
/// and every other character as it is.
pub open spec fn json_char_escape(c: char) -> Seq<char> {
    let n = c as int;
    if c == '"' {
        seq!['\\', '"']
    } else if c == '\\' {
        seq!['\\', '\\']
    } else if n == 8 {
        seq!['\\', 'b']
    } else if n == 9 {
        seq!['\\', 't']
    } else if n == 10 {
        seq!['\\', 'n']
    } else if n == 12 {
        seq!['\\', 'f']
    } else if n == 13 {
        seq!['\\', 'r']
    } else if n < 32 {
        seq!['\\', 'u', '0', '0', hex_digit(n / 16), hex_digit(n % 16)]
    } else {
        seq![c]
    }
}

/// The escaped characters of a string.
pub open spec fn json_escaped(s: Seq<char>) -> Seq<char>
    decreases s.len(),
{
    if s.len() == 0 {
        seq![]
    } else {
        json_escaped(s.drop_last()) + json_char_escape(s.last())
    }
}

/// The JSON text that `serde_json::to_string` produces for a string: the escaped characters
/// between double quotes. Writing a string to memory does not fail.
pub open spec fn serde_json_string_literal(s: Seq<char>) -> Option<Seq<char>> {
    Some(seq!['"'] + json_escaped(s) + seq!['"'])
}

/// `serde_json::to_string` on a `&str`: the JSON string literal for `s` (see
/// `serde_json_string_literal`; serde_json's `format_escaped_str` with its `ESCAPE` table).
#[verifier::external_body]
pub(crate) fn json_string_literal(s: &str) -> (r: Option<String>)
    ensures
        match r {
            Some(t) => serde_json_string_literal(s@) == Some(t@),
            None => serde_json_string_literal(s@) is None,
        },
{
    serde_json::to_string(s).ok()
}

/// The scheme that `reqwest::Url::parse` finds in `s`, or `None` where `s` is not a valid URL.
pub uninterp spec fn url_parse_scheme(s: Seq<char>) -> Option<Seq<char>>;

/// `reqwest::Url::parse(s)`, reduced to the parsed URL's scheme. The contract names the result;
/// it does not restate the URL standard's parsing rules.
#[verifier::external_body]
pub(crate) fn url_scheme(s: &str) -> (r: Option<String>)
    ensures
        match r {
            Some(t) => url_parse_scheme(s@) == Some(t@),
            None => url_parse_scheme(s@) is None,
        },
{
    match reqwest::Url::parse(s) {
        Ok(url) => Some(url.scheme().to_owned()),
        Err(_) => None,
    }
}

/// The text that std's `Debug` formatting writes for a string (quoted, with escapes).
pub uninterp spec fn rust_debug_str(s: Seq<char>) -> Seq<char>;

/// `format!("{:?}", s)` for a `&str`.
#[verifier::external_body]
pub(crate) fn debug_str(s: &str) -> (r: String)
    ensures
        r@ == rust_debug_str(s@),
{
    format!("{:?}", s)
}

/// Days from the Common Era epoch (0001-01-01 is day 1) of chrono's earliest date, `NaiveDate::MIN`.
pub open spec fn min_day() -> int {
    -95746129
}

/// Days from the Common Era epoch of chrono's latest date, `NaiveDate::MAX`.
pub open spec fn max_day() -> int {
    95745399
}

/// Whether a day number lies within chrono's calendar.
pub open spec fn in_calendar(d: int) -> bool {
    min_day() <= d <= max_day()
}

/// The largest number of days that chrono's `TimeDelta::days` accepts without panicking.
pub open spec fn max_delta_days() -> int {
    106751991167
}

/// The day number of the date that `NaiveDate::parse_from_str(s, fmt)` returns, or `None`
/// where it returns an error.
pub uninterp spec fn chrono_parse_days(s: Seq<char>, fmt: Seq<char>) -> Option<int>;

/// Whether `c` is an ASCII digit.
pub open spec fn is_ascii_digit(c: char) -> bool {
    '0' <= c <= '9'
}

/// `NaiveDate::parse_from_str(s, fmt)`, the date given by its day number. Every date chrono
/// produces lies within its calendar. With the format `%Y-%m-%d`, whose last item is the day
/// number, a text is accepted only when it ends in that number: chrono's parser reads the day
/// as ASCII digits and refuses any text left after the last item, so the text's last character
/// is an ASCII digit.
#[verifier::external_body]
pub(crate) fn chrono_parse(s: &str, fmt: &str) -> (r: Option<i32>)
    ensures
        match r {
            Some(d) => chrono_parse_days(s@, fmt@) == Some(d as int) && in_calendar(d as int),
            None => chrono_parse_days(s@, fmt@) is None,
        },
        (r is Some && fmt@ == "%Y-%m-%d"@) ==> s@.len() > 0 && is_ascii_digit(s@.last()),
{
    match chrono::NaiveDate::parse_from_str(s, fmt) {
        Ok(date) => Some(chrono::Datelike::num_days_from_ce(&date)),
        Err(_) => None,
    }
}

/// `NaiveDate::checked_add_signed(TimeDelta::days(n))` on the date with day number `days`: the
/// date `n` days later, or `None` where that date lies outside chrono's calendar. `TimeDelta::days`
/// panics beyond `max_delta_days`, which `requires` rules out.
#[verifier::external_body]
pub(crate) fn chrono_add_days(days: i32, n: i64) -> (r: Option<i32>)
    requires
        in_calendar(days as int),
        -max_delta_days() <= n <= max_delta_days(),
    ensures
        r is Some <==> in_calendar(days + n),
        r matches Some(e) ==> e == days + n,
{
    match chrono::NaiveDate::from_num_days_from_ce_opt(days) {
        Some(date) => match date.checked_add_signed(chrono::TimeDelta::days(n)) {
            Some(later) => Some(chrono::Datelike::num_days_from_ce(&later)),
            None => None,
        },
        None => None,
    }
}

/// `Datelike::weekday(..).num_days_from_monday()` on the date with day number `days`.
/// 0001-01-01 (day 1) is a Monday, so the result is `(days - 1) mod 7`.
#[verifier::external_body]
pub(crate) fn chrono_weekday(days: i32) -> (r: Option<u32>)
    ensures
        in_calendar(days as int) ==> r == Some(((days - 1) % 7) as u32),
{
    match chrono::NaiveDate::from_num_days_from_ce_opt(days) {
        Some(date) => Some(chrono::Datelike::weekday(&date).num_days_from_monday()),
        None => None,
    }
}

/// The text that chrono's `Display` writes for the date with day number `days`
/// (`YYYY-MM-DD` for years 0 to 9999).
pub uninterp spec fn chrono_date_display(days: int) -> Seq<char>;

/// `NaiveDate::to_string` on the date with day number `days`.
#[verifier::external_body]
pub(crate) fn chrono_date_text(days: i32) -> (r: Option<String>)
    ensures
        in_calendar(days as int) ==> r is Some,
        r matches Some(t) ==> t@ == chrono_date_display(days as int),
{
    match chrono::NaiveDate::from_num_days_from_ce_opt(days) {
        Some(date) => Some(date.to_string()),
        None => None,
    }
}

/// The text that `reqwest::StatusCode`'s `Display` writes for a status code: the number, a
/// space, and its canonical reason phrase, or `<unknown status code>` where it has none (for
/// example `500 Internal Server Error`).
pub uninterp spec fn reqwest_status_display(code: int) -> Seq<char>;

/// `reqwest::StatusCode::from_u16(code)` and its `to_string`. `from_u16` accepts exactly the
/// codes from 100 to 999.
#[verifier::external_body]
pub(crate) fn http_status_text(code: u16) -> (r: Option<String>)
    ensures
        r is Some <==> 100 <= code <= 999,
        r matches Some(t) ==> t@ == reqwest_status_display(code as int),
{
    match reqwest::StatusCode::from_u16(code) {
        Ok(status) => Some(status.to_string()),
        Err(_) => None,
    }
}

} // verus!
