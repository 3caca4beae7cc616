//! UTC instants and the `time-range` filter element.
use vstd::prelude::*;

verus! {

/// A calendar date and wall-clock time in UTC, as its plain parts.
pub struct DateTimeModel {
    pub year: int,
    pub month: int,
    pub day: int,
    pub hour: int,
    pub minute: int,
    pub second: int,
}

pub open spec fn is_leap_year(y: int) -> bool {
    (y % 4 == 0 && y % 100 != 0) || y % 400 == 0
}

pub open spec fn days_in_month(y: int, m: int) -> int {
    if m == 2 {
        if is_leap_year(y) { 29 } else { 28 }
    } else if m == 4 || m == 6 || m == 9 || m == 11 {
        30
    } else {
        31
    }
}

/// A valid UTC instant with a four-digit year, to the second.
pub open spec fn valid_instant(m: DateTimeModel) -> bool {
    &&& 0 <= m.year <= 9999
    &&& 1 <= m.month <= 12
    &&& 1 <= m.day <= days_in_month(m.year, m.month)
    &&& 0 <= m.hour < 24
    &&& 0 <= m.minute < 60
    &&& 0 <= m.second < 60
}

pub open spec fn digit_char(d: int) -> char {
    seq!['0', '1', '2', '3', '4', '5', '6', '7', '8', '9'][d]
}

/// `n` written in decimal with exactly `width` digits, zeros in front.
pub open spec fn padded_digits(n: int, width: nat) -> Seq<char>
    decreases width,
{
    if width == 0 {
        Seq::empty()
    } else {
        padded_digits(n / 10, (width - 1) as nat).push(digit_char(n % 10))
    }
}

/// The UTC basic format `YYYYMMDDTHHMMSSZ`.
pub open spec fn basic_utc_text(m: DateTimeModel) -> Seq<char> {
    padded_digits(m.year, 4) + padded_digits(m.month, 2) + padded_digits(m.day, 2) + seq!['T']
        + padded_digits(m.hour, 2) + padded_digits(m.minute, 2) + padded_digits(m.second, 2)
        + seq!['Z']
}

/// An instant in UTC, always a valid calendar date and time of day.
#[derive(Clone, Copy, Debug, PartialEq, Eq)]
pub struct UtcDateTime {
    year: i32,
    month: u32,
    day: u32,
    hour: u32,
    minute: u32,
    second: u32,
}

impl View for UtcDateTime {
    type V = DateTimeModel;

    closed spec fn view(&self) -> DateTimeModel {
        DateTimeModel {
            year: self.year as int,
            month: self.month as int,
            day: self.day as int,
            hour: self.hour as int,
            minute: self.minute as int,
            second: self.second as int,
        }
    }
}

fn days_in_month_exec(y: i32, m: u32) -> (r: u32)
    requires
        0 <= y <= 9999,
    ensures
        r as int == days_in_month(y as int, m as int),
{
    if m == 2 {
        if (y % 4 == 0 && y % 100 != 0) || y % 400 == 0 {
            29
        } else {
            28
        }
    } else if m == 4 || m == 6 || m == 9 || m == 11 {
        30
    } else {
        31
    }
}

impl UtcDateTime {
    #[verifier::type_invariant]
    spec fn wf(self) -> bool {
        valid_instant(self@)
    }

    /// The instant with the given parts, or `None` when they name no valid
    /// instant with a four-digit year.
    pub fn new(year: i32, month: u32, day: u32, hour: u32, minute: u32, second: u32) -> (r: Option<
        UtcDateTime,
    >)
        ensures
            r is Some <==> valid_instant(
                DateTimeModel {
                    year: year as int,
                    month: month as int,
                    day: day as int,
                    hour: hour as int,
                    minute: minute as int,
                    second: second as int,
                },
            ),
            r is Some ==> r->0@ == (DateTimeModel {
                year: year as int,
                month: month as int,
                day: day as int,
                hour: hour as int,
                minute: minute as int,
                second: second as int,
            }),
    {
        if year < 0 || year > 9999 || month < 1 || month > 12 {
            return None;
        }
        if day < 1 || day > days_in_month_exec(year, month) {
            return None;
        }
        if hour >= 24 || minute >= 60 || second >= 60 {
            return None;
        }
        Some(UtcDateTime { year, month, day, hour, minute, second })
    }

    pub fn year(&self) -> (r: i32)
        ensures
            r as int == self@.year,
    {
        self.year
    }

    pub fn month(&self) -> (r: u32)
        ensures
            r as int == self@.month,
    {
        self.month
    }

    pub fn day(&self) -> (r: u32)
        ensures
            r as int == self@.day,
    {
        self.day
    }

    pub fn hour(&self) -> (r: u32)
        ensures
            r as int == self@.hour,
    {
        self.hour
    }

    pub fn minute(&self) -> (r: u32)
        ensures
            r as int == self@.minute,
    {
        self.minute
    }

    pub fn second(&self) -> (r: u32)
        ensures
            r as int == self@.second,
    {
        self.second
    }
}

/// Relies on chrono's `NaiveDateTime::format` with `%Y%m%dT%H%M%SZ`: for a
/// year in 0..=9999 the year is four zero-padded digits and every other field
/// two. The instant is built with `NaiveDate::from_ymd_opt` and
/// `and_hms_opt`, which accept every valid instant.
#[verifier::external_body]
fn format_basic_utc(dt: &UtcDateTime) -> (r: String)
    requires
        valid_instant(dt@),
    ensures
        r@ == basic_utc_text(dt@),
{
    match chrono::NaiveDate::from_ymd_opt(dt.year, dt.month, dt.day)
        .and_then(|d| d.and_hms_opt(dt.hour, dt.minute, dt.second)) {
        Some(t) => t.format("%Y%m%dT%H%M%SZ").to_string(),
        None => String::new(),
    }
}

/// The text of a `time-range` bound: the instant in UTC basic format, or the
/// given sentinel when the bound is open.
pub open spec fn bound_text(b: Option<DateTimeModel>, open_text: Seq<char>) -> Seq<char> {
    match b {
        Some(m) => basic_utc_text(m),
        None => open_text,
    }
}

pub open spec fn opt_view(b: Option<UtcDateTime>) -> Option<DateTimeModel> {
    match b {
        Some(d) => Some(d@),
        None => None,
    }
}

/// `<c:time-range start="S" end="E" />`
pub open spec fn time_range_xml(t: TimeRange) -> Seq<char> {
    "<c:time-range start=\""@ + bound_text(opt_view(t.start), "-infinity"@) + "\" end=\""@
        + bound_text(opt_view(t.end), "+infinity"@) + "\" />"@
}

/// A time range; an unset `start` is open towards the past, an unset `end`
/// towards the future.
#[derive(Clone, Debug, Default, PartialEq, Eq)]
pub struct TimeRange {
    pub start: Option<UtcDateTime>,
    pub end: Option<UtcDateTime>,
}

impl TimeRange {
    pub fn new(start: Option<UtcDateTime>, end: Option<UtcDateTime>) -> (r: TimeRange)
        ensures
            r.start == start,
            r.end == end,
    {
        TimeRange { start, end }
    }

    fn bound_to_xml(b: &Option<UtcDateTime>, open_text: &str) -> (r: String)
        ensures
            r@ == bound_text(opt_view(*b), open_text@),
    {
        match b {
            Some(d) => {
                proof {
                    use_type_invariant(d);
                }
                format_basic_utc(d)
            },
            None => open_text.to_owned(),
        }
    }

    pub fn to_xml(&self) -> (r: String)
        ensures
            r@ == time_range_xml(*self),
    {
        let mut s = String::from_str("<c:time-range start=\"");
        let start = TimeRange::bound_to_xml(&self.start, "-infinity");
        s.append(start.as_str());
        s.append("\" end=\"");
        let end = TimeRange::bound_to_xml(&self.end, "+infinity");
        s.append(end.as_str());
        s.append("\" />");
        s
    }
}

/// A time range with both ends unset renders the two infinity sentinels.
pub proof fn lemma_open_time_range(t: TimeRange)
    requires
        t.start is None,
        t.end is None,
    ensures
        time_range_xml(t) == "<c:time-range start=\"-infinity\" end=\"+infinity\" />"@,
{
    reveal_strlit("<c:time-range start=\"");
    reveal_strlit("-infinity");
    reveal_strlit("\" end=\"");
    reveal_strlit("+infinity");
    reveal_strlit("\" />");
    reveal_strlit("<c:time-range start=\"-infinity\" end=\"+infinity\" />");
    assert(time_range_xml(t) =~= "<c:time-range start=\"-infinity\" end=\"+infinity\" />"@);
}

} // verus!
