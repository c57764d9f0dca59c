//! The small, locale-independent date language of the meal-plan commands: ISO dates, `today`,
//! `tomorrow`, `yesterday` and signed day or week offsets such as `+2d` or `-1w`.
use vstd::prelude::*;

use crate::bindings::{
    chrono_add_days, chrono_date_display, chrono_date_text, chrono_parse, chrono_parse_days,
    chrono_weekday, in_calendar, max_day, max_delta_days, min_day,
};
use crate::error::{error_of, AppError, ErrorCode, ErrorView};
use crate::text::{
    append_str, chars_of, opt_str_view, parse_i64, parse_int, str_eq, string_from_range,
};

verus! {

/// A calendar date, held as its day number from the Common Era epoch (0001-01-01 is day 1).
#[derive(Debug, Clone, Copy, PartialEq, Eq, Structural)]
pub struct Date {
    days_from_ce: i32,
}

impl View for Date {
    type V = int;

    closed spec fn view(&self) -> int {
        self.days_from_ce as int
    }
}

impl Date {
    #[verifier::type_invariant]
    closed spec fn within_calendar(self) -> bool {
        in_calendar(self.days_from_ce as int)
    }

    /// The date with the given day number, where chrono's calendar has one.
    pub fn from_days_from_ce(days: i32) -> (r: Option<Date>)
        ensures
            r is Some <==> in_calendar(days as int),
            r matches Some(d) ==> d@ == days,
    {
        if -95746129 <= days && days <= 95745399 {
            Some(Date { days_from_ce: days })
        } else {
            None
        }
    }

    /// The day number (0001-01-01 is day 1).
    pub fn days_from_ce(&self) -> (r: i32)
        ensures
            r == self@,
            in_calendar(r as int),
    {
        proof {
            use_type_invariant(self);
        }
        self.days_from_ce
    }

    /// The date as text (`YYYY-MM-DD` for years 0 to 9999).
    pub fn to_text(&self) -> (r: String)
        ensures
            r@ == chrono_date_display(self@),
    {
        proof {
            use_type_invariant(self);
        }
        match chrono_date_text(self.days_from_ce) {
            Some(t) => t,
            None => {
                proof {
                    assert(false);
                }
                String::new()
            },
        }
    }
}

/// Days since the most recent Monday (0 for a Monday, 6 for a Sunday).
pub open spec fn weekday(d: int) -> int {
    (d - 1) % 7
}

/// The Monday that starts the ISO week of `d`.
pub open spec fn week_start(d: int) -> int {
    d - weekday(d)
}

/// The Sunday that ends the ISO week of `d`.
pub open spec fn week_end(d: int) -> int {
    d + 6 - weekday(d)
}

/// The message for a date argument outside the date language.
pub open spec fn date_error_message(flag: Seq<char>, value: Seq<char>) -> Seq<char> {
    flag
        + " must use YYYY-MM-DD, today, tomorrow, yesterday, or a signed offset such as +2d or -1w (got \""@
        + value + "\")"@
}

/// The offset in days that a signed offset (`+2d`, `-1w`) names, before it is applied: a sign,
/// an integer, and `d` for days or `w` for weeks. `None` where the text has another shape, or
/// the week count times seven leaves the `i64` range.
pub open spec fn offset_days(value: Seq<char>) -> Option<int> {
    if value.len() == 0 {
        None
    } else {
        let number = value.drop_last();
        let unit = value.last();
        match parse_int(number) {
            None => None,
            Some(n) => {
                let days = if unit == 'd' {
                    Some(n)
                } else if unit == 'w' {
                    if i64::MIN <= n * 7 <= i64::MAX {
                        Some(n * 7)
                    } else {
                        None
                    }
                } else {
                    None
                };
                if number.len() > 0 && (number[0] == '+' || number[0] == '-') {
                    days
                } else {
                    None
                }
            },
        }
    }
}

/// The inputs on which the date language is defined. Elsewhere the resolution cannot complete: a
/// value that does not end in an ASCII character cannot be split before its unit, and an offset
/// of more than `max_delta_days` days cannot be turned into a duration.
pub open spec fn date_input_in_domain(value: Seq<char>) -> bool {
    &&& value.len() == 0 || (value.last() as u32) < 128
    &&& offset_days(value) matches Some(k) ==> -max_delta_days() <= k <= max_delta_days()
}

/// `base + k` where that is a date of chrono's calendar.
pub open spec fn shifted(base: int, k: int) -> Option<int> {
    if in_calendar(base + k) {
        Some(base + k)
    } else {
        None
    }
}

/// The date that a date argument names, relative to `today`, or the error for it.
pub open spec fn resolved_date(flag: Seq<char>, value: Seq<char>, today: int) -> Result<
    int,
    ErrorView,
> {
    let err = error_of(ErrorCode::InvalidArgs, date_error_message(flag, value));
    if value == "today"@ {
        Ok(today)
    } else if value == "tomorrow"@ {
        match shifted(today, 1) {
            Some(d) => Ok(d),
            None => Err(err),
        }
    } else if value == "yesterday"@ {
        match shifted(today, -1) {
            Some(d) => Ok(d),
            None => Err(err),
        }
    } else {
        match chrono_parse_days(value, "%Y-%m-%d"@) {
            Some(d) => Ok(d),
            None => match offset_days(value) {
                Some(k) => match shifted(today, k) {
                    Some(d) => Ok(d),
                    None => Err(err),
                },
                None => Err(err),
            },
        }
    }
}

/// Whether a date argument lies within the date language's domain.
pub fn date_input_supported(value: &str) -> (r: bool)
    ensures
        r == date_input_in_domain(value@),
{
    let v = chars_of(value);
    if v.len() > 0 && (v[v.len() - 1] as u32) >= 128 {
        return false;
    }
    match signed_offset(value) {
        Some(k) => -106751991167 <= k && k <= 106751991167,
        None => true,
    }
}

/// Splits a signed offset into its day count (see `offset_days`).
fn signed_offset(value: &str) -> (r: Option<i64>)
    ensures
        match r {
            Some(k) => offset_days(value@) == Some(k as int),
            None => offset_days(value@) is None,
        },
{
    let v = chars_of(value);
    let n = v.len();
    if n == 0 {
        return None;
    }
    let number = string_from_range(&v, 0, n - 1);
    assert(number@ =~= value@.drop_last());
    let unit = v[n - 1];
    let parsed = parse_i64(number.as_str());
    let count = match parsed {
        None => {
            return None;
        },
        Some(c) => c,
    };
    let days = if unit == 'd' {
        Some(count)
    } else if unit == 'w' {
        count.checked_mul(7)
    } else {
        None
    };
    if n - 1 > 0 && (v[0] == '+' || v[0] == '-') {
        assert(number@[0] == v@[0]);
        days
    } else {
        None
    }
}

fn date_error(flag: &str, value: &str) -> (r: AppError)
    ensures
        r@ == error_of(ErrorCode::InvalidArgs, date_error_message(flag@, value@)),
{
    let mut m = String::new();
    append_str(&mut m, flag);
    append_str(
        &mut m,
        " must use YYYY-MM-DD, today, tomorrow, yesterday, or a signed offset such as +2d or -1w (got \"",
    );
    append_str(&mut m, value);
    append_str(&mut m, "\")");
    AppError::new(ErrorCode::InvalidArgs, m)
}

/// `today` moved by `k` days, where the result is a date of chrono's calendar.
fn shift(today: Date, k: i64) -> (r: Option<Date>)
    requires
        -max_delta_days() <= k <= max_delta_days(),
    ensures
        match r {
            Some(d) => shifted(today@, k as int) == Some(d@),
            None => shifted(today@, k as int) is None,
        },
{
    let base = today.days_from_ce();
    match chrono_add_days(base, k) {
        Some(d) => Some(Date { days_from_ce: d }),
        None => None,
    }
}

/// Resolves one date argument against `today`.
pub fn parse_date_input(flag: &str, value: &str, today: Date) -> (r: Result<Date, AppError>)
    requires
        date_input_in_domain(value@),
    ensures
        match (r, resolved_date(flag@, value@, today@)) {
            (Ok(d), Ok(e)) => d@ == e,
            (Err(x), Err(y)) => x@ == y,
            _ => false,
        },
        offset_days(value@) matches Some(k) ==> match r {
            Ok(d) => d@ == today@ + k,
            Err(e) => !in_calendar(today@ + k) && e@ == error_of(
                ErrorCode::InvalidArgs,
                date_error_message(flag@, value@),
            ),
        },
{
    proof {
        reveal_strlit("today");
        reveal_strlit("tomorrow");
        reveal_strlit("yesterday");
        reveal_strlit("%Y-%m-%d");
    }
    if str_eq(value, "today") {
        return Ok(today);
    }
    if str_eq(value, "tomorrow") {
        return match shift(today, 1) {
            Some(d) => Ok(d),
            None => Err(date_error(flag, value)),
        };
    }
    if str_eq(value, "yesterday") {
        return match shift(today, -1) {
            Some(d) => Ok(d),
            None => Err(date_error(flag, value)),
        };
    }
    match chrono_parse(value, "%Y-%m-%d") {
        Some(d) => {
            return Ok(Date { days_from_ce: d });
        },
        None => {},
    }
    match signed_offset(value) {
        Some(k) => match shift(today, k) {
            Some(d) => Ok(d),
            None => Err(date_error(flag, value)),
        },
        None => Err(date_error(flag, value)),
    }
}

/// The Monday of the week of `date`.
pub fn monday_of_week(date: Date) -> (r: Date)
    requires
        in_calendar(week_start(date@)),
    ensures
        r@ == week_start(date@),
{
    let days = date.days_from_ce();
    let wd = match chrono_weekday(days) {
        Some(w) => w,
        None => {
            proof {
                assert(false);
            }
            0
        },
    };
    Date { days_from_ce: days - wd as i32 }
}

/// The Sunday of the week of `date`.
pub fn sunday_of_week(date: Date) -> (r: Date)
    requires
        in_calendar(week_end(date@)),
    ensures
        r@ == week_end(date@),
{
    let days = date.days_from_ce();
    let wd = match chrono_weekday(days) {
        Some(w) => w,
        None => {
            proof {
                assert(false);
            }
            0
        },
    };
    Date { days_from_ce: days + (6 - wd as i32) }
}

/// The dates that optional range bounds name, or the first error.
pub open spec fn resolved_bounds(from: Option<Seq<char>>, to: Option<Seq<char>>, today: int) -> Result<
    (Option<int>, Option<int>),
    ErrorView,
> {
    let f = match from {
        Some(v) => match resolved_date("--from"@, v, today) {
            Ok(d) => Ok(Some(d)),
            Err(e) => Err(e),
        },
        None => Ok(None),
    };
    match f {
        Err(e) => Err(e),
        Ok(f) => match to {
            Some(v) => match resolved_date("--to"@, v, today) {
                Ok(d) => Ok((f, Some(d))),
                Err(e) => Err(e),
            },
            None => Ok((f, None)),
        },
    }
}

/// A missing start defaults to the Monday of the end's week, a missing end to the Sunday of the
/// start's week, and with neither the range runs from today to the end of this week.
pub open spec fn filled_range(from: Option<int>, to: Option<int>, today: int) -> (int, int) {
    match (from, to) {
        (Some(f), Some(t)) => (f, t),
        (Some(f), None) => (f, week_end(f)),
        (None, Some(t)) => (week_start(t), t),
        (None, None) => (today, week_end(today)),
    }
}

/// Whether the range bounds can be resolved: each argument lies in the date language's domain,
/// and every week boundary that has to be filled in lies within chrono's calendar.
pub open spec fn plan_range_defined(from: Option<Seq<char>>, to: Option<Seq<char>>, today: int) -> bool {
    &&& from matches Some(v) ==> date_input_in_domain(v)
    &&& to matches Some(v) ==> date_input_in_domain(v)
    &&& match resolved_bounds(from, to, today) {
        Ok((f, t)) => {
            let (a, b) = filled_range(f, t, today);
            in_calendar(a) && in_calendar(b)
        },
        Err(_) => true,
    }
}

/// The message for a range whose start lies after its end.
pub open spec fn reversed_range_message(from: int, to: int) -> Seq<char> {
    "--from ("@ + chrono_date_display(from) + ") must be on or before --to ("@
        + chrono_date_display(to) + ")"@
}

/// The date range that `plan list` covers, or the error for its arguments.
pub open spec fn resolved_range(from: Option<Seq<char>>, to: Option<Seq<char>>, today: int) -> Result<
    (int, int),
    ErrorView,
> {
    match resolved_bounds(from, to, today) {
        Err(e) => Err(e),
        Ok((f, t)) => {
            let (a, b) = filled_range(f, t, today);
            if a > b {
                Err(error_of(ErrorCode::InvalidArgs, reversed_range_message(a, b)))
            } else {
                Ok((a, b))
            }
        },
    }
}

fn resolve_bound(flag: &str, value: Option<&str>, today: Date) -> (r: Result<Option<Date>, AppError>)
    requires
        value matches Some(v) ==> date_input_in_domain(v@),
    ensures
        match value {
            None => r matches Ok(None),
            Some(v) => match (r, resolved_date(flag@, v@, today@)) {
                (Ok(Some(d)), Ok(e)) => d@ == e,
                (Err(x), Err(y)) => x@ == y,
                _ => false,
            },
        },
{
    match value {
        None => Ok(None),
        Some(v) => match parse_date_input(flag, v, today) {
            Ok(d) => Ok(Some(d)),
            Err(e) => Err(e),
        },
    }
}

/// Resolves the range of `plan list`; the start must not lie after the end.
pub fn resolve_plan_range(from: Option<&str>, to: Option<&str>, today: Date) -> (r: Result<
    (Date, Date),
    AppError,
>)
    requires
        plan_range_defined(opt_str_view(from), opt_str_view(to), today@),
    ensures
        match (r, resolved_range(opt_str_view(from), opt_str_view(to), today@)) {
            (Ok((a, b)), Ok((x, y))) => a@ == x && b@ == y,
            (Err(e), Err(f)) => e@ == f,
            _ => false,
        },
{
    let f = resolve_bound("--from", from, today)?;
    let t = resolve_bound("--to", to, today)?;
    let (a, b) = match (f, t) {
        (Some(f), Some(t)) => (f, t),
        (Some(f), None) => (f, sunday_of_week(f)),
        (None, Some(t)) => (monday_of_week(t), t),
        (None, None) => (today, sunday_of_week(today)),
    };
    if a.days_from_ce() > b.days_from_ce() {
        let mut m = String::new();
        append_str(&mut m, "--from (");
        append_str(&mut m, a.to_text().as_str());
        append_str(&mut m, ") must be on or before --to (");
        append_str(&mut m, b.to_text().as_str());
        append_str(&mut m, ")");
        return Err(AppError::new(ErrorCode::InvalidArgs, m));
    }
    Ok((a, b))
}

/// Resolves the range of `plan list` where it is defined, and gives `None` where it is not
/// (an argument outside the date language's domain, or a week boundary beyond chrono's calendar).
pub fn resolve_plan_range_checked(from: Option<&str>, to: Option<&str>, today: Date) -> (r: Option<
    Result<(Date, Date), AppError>,
>)
    ensures
        r is Some <==> plan_range_defined(opt_str_view(from), opt_str_view(to), today@),
        r matches Some(res) ==> match (res, resolved_range(opt_str_view(from), opt_str_view(to), today@)) {
            (Ok((a, b)), Ok((x, y))) => a@ == x && b@ == y,
            (Err(e), Err(f)) => e@ == f,
            _ => false,
        },
{
    let from_ok = match from {
        Some(v) => date_input_supported(v),
        None => true,
    };
    let to_ok = match to {
        Some(v) => date_input_supported(v),
        None => true,
    };
    if !from_ok || !to_ok {
        return None;
    }
    proof {
        use_type_invariant(&today);
    }
    let bounds_ok = match (resolve_bound("--from", from, today), resolve_bound("--to", to, today)) {
        (Ok(f), Ok(t)) => match (f, t) {
            (Some(f), Some(t)) => {
                proof {
                    use_type_invariant(&f);
                    use_type_invariant(&t);
                }
                true
            },
            (Some(f), None) => {
                proof {
                    use_type_invariant(&f);
                }
                week_end_known(f)
            },
            (None, Some(t)) => {
                proof {
                    use_type_invariant(&t);
                }
                week_start_known(t)
            },
            (None, None) => week_end_known(today),
        },
        _ => true,
    };
    if !bounds_ok {
        return None;
    }
    Some(resolve_plan_range(from, to, today))
}

fn week_end_known(d: Date) -> (r: bool)
    ensures
        r == in_calendar(week_end(d@)),
{
    let days = d.days_from_ce();
    match chrono_weekday(days) {
        Some(w) => (days as i64) + 6 - (w as i64) <= 95745399,
        None => {
            proof {
                assert(false);
            }
            false
        },
    }
}

fn week_start_known(d: Date) -> (r: bool)
    ensures
        r == in_calendar(week_start(d@)),
{
    let days = d.days_from_ce();
    match chrono_weekday(days) {
        Some(w) => (days as i64) - (w as i64) >= -95746129,
        None => {
            proof {
                assert(false);
            }
            false
        },
    }
}

/// Every date lies in its ISO week, which runs from a Monday to the Sunday six days later.
pub proof fn week_contains_date(d: int)
    ensures
        week_start(d) <= d <= week_end(d),
        week_end(d) - week_start(d) == 6,
        weekday(week_start(d)) == 0,
        weekday(week_end(d)) == 6,
{
    let x = d - 1;
    assert(0 <= x % 7 < 7) by {
        vstd::arithmetic::div_mod::lemma_mod_bound(x, 7);
    }
    assert((x - x % 7) % 7 == 0) by {
        vstd::arithmetic::div_mod::lemma_fundamental_div_mod(x, 7);
        vstd::arithmetic::div_mod::lemma_mod_multiples_basic(x / 7, 7);
        assert(x - x % 7 == 7 * (x / 7));
        vstd::arithmetic::mul::lemma_mul_is_commutative(7, x / 7);
    }
    assert((x - x % 7 + 6) % 7 == 6) by {
        vstd::arithmetic::div_mod::lemma_fundamental_div_mod(x, 7);
        assert(x - x % 7 + 6 == 7 * (x / 7) + 6);
        vstd::arithmetic::div_mod::lemma_mod_multiples_vanish(x / 7, 6, 7);
        vstd::arithmetic::div_mod::lemma_small_mod(6, 7);
    }
}

/// The range of `plan list` never starts after it ends, and every way it can fail is an
/// argument error. A missing end closes the start's week and a missing start opens the end's
/// week.
pub proof fn resolved_range_is_ordered(from: Option<Seq<char>>, to: Option<Seq<char>>, today: int)
    ensures
        resolved_range(from, to, today) matches Ok((a, b)) ==> a <= b,
        resolved_range(from, to, today) matches Err(e) ==> e.code == ErrorCode::InvalidArgs,
        match (from, to) {
            (Some(v), None) => match resolved_date("--from"@, v, today) {
                Ok(f) => resolved_range(from, to, today) == Ok::<(int, int), ErrorView>(
                    (f, week_end(f)),
                ),
                Err(e) => resolved_range(from, to, today) == Err::<(int, int), ErrorView>(e),
            },
            (None, Some(v)) => match resolved_date("--to"@, v, today) {
                Ok(t) => resolved_range(from, to, today) == Ok::<(int, int), ErrorView>(
                    (week_start(t), t),
                ),
                Err(e) => resolved_range(from, to, today) == Err::<(int, int), ErrorView>(e),
            },
            _ => true,
        },
{
    if let (Some(v), None) = (from, to) {
        if let Ok(f) = resolved_date("--from"@, v, today) {
            week_contains_date(f);
        }
    }
    if let (None, Some(v)) = (from, to) {
        if let Ok(t) = resolved_date("--to"@, v, today) {
            week_contains_date(t);
        }
    }
}

/// Without dates, `plan list` covers today through the Sunday that ends today's week.
pub proof fn default_range_is_rest_of_week(today: int)
    ensures
        resolved_range(None, None, today) == Ok::<(int, int), ErrorView>((today, week_end(today))),
        today <= week_end(today) <= today + 6,
{
    week_contains_date(today);
}

} // verus!
