use vstd::prelude::*;

verus! {

/// Whether `year` is a leap year of the Gregorian calendar.
pub open spec fn leap_year(year: int) -> bool {
    (year % 4 == 0 && year % 100 != 0) || year % 400 == 0
}

/// The number of days of `month` (1 to 12) in `year`; 0 for any other month.
pub open spec fn days_in_month(month: int, year: int) -> int {
    if month == 1 || month == 3 || month == 5 || month == 7 || month == 8 || month == 10 || month
        == 12 {
        31
    } else if month == 4 || month == 6 || month == 9 || month == 11 {
        30
    } else if month == 2 {
        if leap_year(year) {
            29
        } else {
            28
        }
    } else {
        0
    }
}

pub open spec fn is_digit(c: char) -> bool {
    '0' <= c && c <= '9'
}

pub open spec fn digit_value(c: char) -> int {
    (c as int) - ('0' as int)
}

/// `YYYY-MM-DD` in ASCII: ten characters, digits but for the two dashes.
pub open spec fn has_iso_date_shape(s: Seq<char>) -> bool {
    &&& s.len() == 10
    &&& is_digit(s[0]) && is_digit(s[1]) && is_digit(s[2]) && is_digit(s[3])
    &&& s[4] == '-'
    &&& is_digit(s[5]) && is_digit(s[6])
    &&& s[7] == '-'
    &&& is_digit(s[8]) && is_digit(s[9])
}

pub open spec fn date_year(s: Seq<char>) -> int {
    1000 * digit_value(s[0]) + 100 * digit_value(s[1]) + 10 * digit_value(s[2]) + digit_value(
        s[3],
    )
}

pub open spec fn date_month(s: Seq<char>) -> int {
    10 * digit_value(s[5]) + digit_value(s[6])
}

pub open spec fn date_day(s: Seq<char>) -> int {
    10 * digit_value(s[8]) + digit_value(s[9])
}

/// `s` is a date of the calendar written `YYYY-MM-DD`.
pub open spec fn is_iso_date_text(s: Seq<char>) -> bool {
    &&& has_iso_date_shape(s)
    &&& 1 <= date_month(s) <= 12
    &&& 1 <= date_day(s) <= days_in_month(date_month(s), date_year(s))
}

/// Leap years are those divisible by 4, but not by 100 unless by 400.
pub fn is_leap_year(year: u32) -> (r: bool)
    ensures
        r == leap_year(year as int),
{
    (year % 4 == 0 && year % 100 != 0) || year % 400 == 0
}

fn digit_at(date: &str, i: usize) -> (r: Option<u32>)
    requires
        i < date@.len(),
    ensures
        r is Some <==> is_digit(date@[i as int]),
        r matches Some(d) ==> d == digit_value(date@[i as int]) && d <= 9,
{
    let c = date.get_char(i);
    if '0' <= c && c <= '9' {
        Some((c as u32) - ('0' as u32))
    } else {
        None
    }
}

/// Whether `date` is a valid calendar date written `YYYY-MM-DD`.
///
/// Every one of the ten positions must hold an ASCII character, so counting
/// characters and counting bytes agree on the accepted texts.
pub fn is_iso_date(date: &str) -> (r: bool)
    ensures
        r == is_iso_date_text(date@),
{
    if date.unicode_len() != 10 {
        return false;
    }
    let d0 = digit_at(date, 0);
    let d1 = digit_at(date, 1);
    let d2 = digit_at(date, 2);
    let d3 = digit_at(date, 3);
    let d5 = digit_at(date, 5);
    let d6 = digit_at(date, 6);
    let d8 = digit_at(date, 8);
    let d9 = digit_at(date, 9);
    if date.get_char(4) != '-' || date.get_char(7) != '-' {
        return false;
    }
    match (d0, d1, d2, d3, d5, d6, d8, d9) {
        (Some(y0), Some(y1), Some(y2), Some(y3), Some(m0), Some(m1), Some(a0), Some(a1)) => {
            let year: u32 = 1000 * y0 + 100 * y1 + 10 * y2 + y3;
            let month: u32 = 10 * m0 + m1;
            let day: u32 = 10 * a0 + a1;
            let max_day: u32 = if month == 1 || month == 3 || month == 5 || month == 7 || month
                == 8 || month == 10 || month == 12 {
                31
            } else if month == 4 || month == 6 || month == 9 || month == 11 {
                30
            } else if month == 2 && is_leap_year(year) {
                29
            } else if month == 2 {
                28
            } else {
                return false;
            };
            day > 0 && day <= max_day
        },
        _ => false,
    }
}

/// How month names are written.
#[derive(Clone, Copy, Debug, PartialEq, Eq, Structural)]
pub enum MonthNameStyle {
    Short,
    Long,
}

/// The name of `month` (1 to 12) in `style`.
pub open spec fn month_name(style: MonthNameStyle, month: int) -> Seq<char> {
    match style {
        MonthNameStyle::Short => if month == 1 {
            "Jan"@
        } else if month == 2 {
            "Feb"@
        } else if month == 3 {
            "Mar"@
        } else if month == 4 {
            "Apr"@
        } else if month == 5 {
            "May"@
        } else if month == 6 {
            "Jun"@
        } else if month == 7 {
            "Jul"@
        } else if month == 8 {
            "Aug"@
        } else if month == 9 {
            "Sep"@
        } else if month == 10 {
            "Oct"@
        } else if month == 11 {
            "Nov"@
        } else {
            "Dec"@
        },
        MonthNameStyle::Long => if month == 1 {
            "January"@
        } else if month == 2 {
            "February"@
        } else if month == 3 {
            "March"@
        } else if month == 4 {
            "April"@
        } else if month == 5 {
            "May"@
        } else if month == 6 {
            "June"@
        } else if month == 7 {
            "July"@
        } else if month == 8 {
            "August"@
        } else if month == 9 {
            "September"@
        } else if month == 10 {
            "October"@
        } else if month == 11 {
            "November"@
        } else {
            "December"@
        },
    }
}

/// The day of a valid date without its leading zero.
pub open spec fn day_text(s: Seq<char>) -> Seq<char> {
    if s[8] == '0' {
        s.subrange(9, 10)
    } else {
        s.subrange(8, 10)
    }
}

fn month_name_of(style: MonthNameStyle, month: u32) -> (r: &'static str)
    requires
        1 <= month <= 12,
    ensures
        r@ == month_name(style, month as int),
{
    match style {
        MonthNameStyle::Short => if month == 1 {
            "Jan"
        } else if month == 2 {
            "Feb"
        } else if month == 3 {
            "Mar"
        } else if month == 4 {
            "Apr"
        } else if month == 5 {
            "May"
        } else if month == 6 {
            "Jun"
        } else if month == 7 {
            "Jul"
        } else if month == 8 {
            "Aug"
        } else if month == 9 {
            "Sep"
        } else if month == 10 {
            "Oct"
        } else if month == 11 {
            "Nov"
        } else {
            "Dec"
        },
        MonthNameStyle::Long => if month == 1 {
            "January"
        } else if month == 2 {
            "February"
        } else if month == 3 {
            "March"
        } else if month == 4 {
            "April"
        } else if month == 5 {
            "May"
        } else if month == 6 {
            "June"
        } else if month == 7 {
            "July"
        } else if month == 8 {
            "August"
        } else if month == 9 {
            "September"
        } else if month == 10 {
            "October"
        } else if month == 11 {
            "November"
        } else {
            "December"
        },
    }
}

/// Splits a valid date into the month's name, the day without its leading
/// zero and the year; `None` for any text that is not a valid date.
pub fn writing_date_parts(date: &str, month_name_style: MonthNameStyle) -> (r: Option<
    (&'static str, &str, &str),
>)
    ensures
        r is Some <==> is_iso_date_text(date@),
        r matches Some((month, day, year)) ==> {
            &&& month@ == month_name(month_name_style, date_month(date@))
            &&& day@ == day_text(date@)
            &&& year@ == date@.subrange(0, 4)
        },
{
    if !is_iso_date(date) {
        return None;
    }
    let m0 = date.get_char(5);
    let m1 = date.get_char(6);
    let month: u32 = 10 * ((m0 as u32) - ('0' as u32)) + ((m1 as u32) - ('0' as u32));
    let name = month_name_of(month_name_style, month);
    let day = if date.get_char(8) == '0' {
        date.substring_char(9, 10)
    } else {
        date.substring_char(8, 10)
    };
    let year = date.substring_char(0, 4);
    Some((name, day, year))
}

/// `Mon YYYY` for a valid date.
pub open spec fn short_date(s: Seq<char>) -> Seq<char> {
    month_name(MonthNameStyle::Short, date_month(s)) + " "@ + s.subrange(0, 4)
}

/// `Month D, YYYY` for a valid date.
pub open spec fn long_date(s: Seq<char>) -> Seq<char> {
    month_name(MonthNameStyle::Long, date_month(s)) + " "@ + day_text(s) + ", "@ + s.subrange(
        0,
        4,
    )
}

/// The month and year of a valid date, as in `Jun 2026`; any other text is
/// given back unchanged.
pub fn display_writing_date(date: &str) -> (r: String)
    ensures
        r@ == (if is_iso_date_text(date@) {
            short_date(date@)
        } else {
            date@
        }),
{
    match writing_date_parts(date, MonthNameStyle::Short) {
        Some((month, _day, year)) => {
            let mut out = String::from_str(month);
            out.append(" ");
            out.append(year);
            out
        },
        None => String::from_str(date),
    }
}

/// A valid date written out, as in `June 12, 2026`; any other text is given
/// back unchanged.
pub fn full_writing_date(date: &str) -> (r: String)
    ensures
        r@ == (if is_iso_date_text(date@) {
            long_date(date@)
        } else {
            date@
        }),
{
    match writing_date_parts(date, MonthNameStyle::Long) {
        Some((month, day, year)) => {
            let mut out = String::from_str(month);
            out.append(" ");
            out.append(day);
            out.append(", ");
            out.append(year);
            out
        },
        None => String::from_str(date),
    }
}

/// Every month's name begins with a capital letter.
proof fn lemma_month_name_starts_capital(style: MonthNameStyle, month: int)
    ensures
        month_name(style, month).len() > 0,
        'A' <= month_name(style, month)[0] <= 'Z',
{
    reveal_strlit("Jan");
    reveal_strlit("Feb");
    reveal_strlit("Mar");
    reveal_strlit("Apr");
    reveal_strlit("May");
    reveal_strlit("Jun");
    reveal_strlit("Jul");
    reveal_strlit("Aug");
    reveal_strlit("Sep");
    reveal_strlit("Oct");
    reveal_strlit("Nov");
    reveal_strlit("Dec");
    reveal_strlit("January");
    reveal_strlit("February");
    reveal_strlit("March");
    reveal_strlit("April");
    reveal_strlit("June");
    reveal_strlit("July");
    reveal_strlit("August");
    reveal_strlit("September");
    reveal_strlit("October");
    reveal_strlit("November");
    reveal_strlit("December");
}

/// A date is shown as it was given exactly when it is not a valid date: valid
/// dates are always rewritten, in the short and in the long form.
pub proof fn law_date_shown_unchanged_iff_invalid(d: Seq<char>)
    ensures
        (if is_iso_date_text(d) {
            short_date(d)
        } else {
            d
        }) == d <==> !is_iso_date_text(d),
        (if is_iso_date_text(d) {
            long_date(d)
        } else {
            d
        }) == d <==> !is_iso_date_text(d),
{
    if is_iso_date_text(d) {
        lemma_month_name_starts_capital(MonthNameStyle::Short, date_month(d));
        lemma_month_name_starts_capital(MonthNameStyle::Long, date_month(d));
        let m = month_name(MonthNameStyle::Short, date_month(d));
        let l = month_name(MonthNameStyle::Long, date_month(d));
        assert(short_date(d)[0] == m[0]);
        assert(long_date(d)[0] == l[0]);
    }
}

/// The number that two decimal digits spell.
pub open spec fn two_digit_number(tens: char, ones: char) -> int {
    10 * ((tens as int) - ('0' as int)) + ((ones as int) - ('0' as int))
}

/// Ten ASCII characters: digits, with dashes at positions 4 and 7.
pub open spec fn digits_with_dashes(s: Seq<char>) -> bool {
    &&& s.len() == 10
    &&& s[4] == '-'
    &&& s[7] == '-'
    &&& forall|i: int| 0 <= i < 10 && i != 4 && i != 7 ==> '0' <= #[trigger] s[i] <= '9'
}

/// Only texts of the form `DDDD-DD-DD` are dates.
pub proof fn law_dates_are_digits_with_dashes(s: Seq<char>)
    requires
        is_iso_date_text(s),
    ensures
        digits_with_dashes(s),
{
}

/// January, March, May, July, August, October and December have 31 days: a
/// date in one of them is accepted exactly when its day is 1 to 31.
pub proof fn law_long_months_have_31_days(s: Seq<char>)
    requires
        digits_with_dashes(s),
        ({
            let m = two_digit_number(s[5], s[6]);
            m == 1 || m == 3 || m == 5 || m == 7 || m == 8 || m == 10 || m == 12
        }),
    ensures
        is_iso_date_text(s) <==> 1 <= two_digit_number(s[8], s[9]) <= 31,
{
    assert(is_digit(s[0]) && is_digit(s[1]) && is_digit(s[2]) && is_digit(s[3]));
    assert(is_digit(s[5]) && is_digit(s[6]) && is_digit(s[8]) && is_digit(s[9]));
}

/// April, June, September and November have 30 days.
pub proof fn law_short_months_have_30_days(s: Seq<char>)
    requires
        digits_with_dashes(s),
        ({
            let m = two_digit_number(s[5], s[6]);
            m == 4 || m == 6 || m == 9 || m == 11
        }),
    ensures
        is_iso_date_text(s) <==> 1 <= two_digit_number(s[8], s[9]) <= 30,
{
    assert(is_digit(s[0]) && is_digit(s[1]) && is_digit(s[2]) && is_digit(s[3]));
    assert(is_digit(s[5]) && is_digit(s[6]) && is_digit(s[8]) && is_digit(s[9]));
}

/// February has 29 days in years divisible by 4 but not by 100, or by 400,
/// and 28 days otherwise.
pub proof fn law_february(s: Seq<char>)
    requires
        digits_with_dashes(s),
        two_digit_number(s[5], s[6]) == 2,
    ensures
        ({
            let y = 100 * two_digit_number(s[0], s[1]) + two_digit_number(s[2], s[3]);
            let d = two_digit_number(s[8], s[9]);
            is_iso_date_text(s) <==> (1 <= d <= 28 || (d == 29 && ((y % 4 == 0 && y % 100
                != 0) || y % 400 == 0)))
        }),
{
    assert(is_digit(s[0]) && is_digit(s[1]) && is_digit(s[2]) && is_digit(s[3]));
    assert(is_digit(s[5]) && is_digit(s[6]) && is_digit(s[8]) && is_digit(s[9]));
}

/// There is no month 0 and none after 12.
pub proof fn law_twelve_months(s: Seq<char>)
    requires
        digits_with_dashes(s),
        ({
            let m = two_digit_number(s[5], s[6]);
            m == 0 || m > 12
        }),
    ensures
        !is_iso_date_text(s),
{
}

/// The months' names in calendar order, each its own; a short name is the
/// first three letters of the long one.
pub proof fn law_month_names()
    ensures
        month_name(MonthNameStyle::Long, 1) == "January"@,
        month_name(MonthNameStyle::Long, 2) == "February"@,
        month_name(MonthNameStyle::Long, 3) == "March"@,
        month_name(MonthNameStyle::Long, 4) == "April"@,
        month_name(MonthNameStyle::Long, 5) == "May"@,
        month_name(MonthNameStyle::Long, 6) == "June"@,
        month_name(MonthNameStyle::Long, 7) == "July"@,
        month_name(MonthNameStyle::Long, 8) == "August"@,
        month_name(MonthNameStyle::Long, 9) == "September"@,
        month_name(MonthNameStyle::Long, 10) == "October"@,
        month_name(MonthNameStyle::Long, 11) == "November"@,
        month_name(MonthNameStyle::Long, 12) == "December"@,
        forall|m: int|
            1 <= m <= 12 ==> #[trigger] month_name(MonthNameStyle::Short, m) == month_name(
                MonthNameStyle::Long,
                m,
            ).take(3),
        forall|a: int, b: int|
            1 <= a < b <= 12 ==> #[trigger] month_name(MonthNameStyle::Long, a) != #[trigger] month_name(
                MonthNameStyle::Long,
                b,
            ),
{
    reveal_strlit("Jan");
    reveal_strlit("Feb");
    reveal_strlit("Mar");
    reveal_strlit("Apr");
    reveal_strlit("May");
    reveal_strlit("Jun");
    reveal_strlit("Jul");
    reveal_strlit("Aug");
    reveal_strlit("Sep");
    reveal_strlit("Oct");
    reveal_strlit("Nov");
    reveal_strlit("Dec");
    reveal_strlit("January");
    reveal_strlit("February");
    reveal_strlit("March");
    reveal_strlit("April");
    reveal_strlit("June");
    reveal_strlit("July");
    reveal_strlit("August");
    reveal_strlit("September");
    reveal_strlit("October");
    reveal_strlit("November");
    reveal_strlit("December");
    assert forall|m: int| 1 <= m <= 12 implies #[trigger] month_name(MonthNameStyle::Short, m)
        == month_name(MonthNameStyle::Long, m).take(3) by {
        assert(month_name(MonthNameStyle::Short, m) =~= month_name(MonthNameStyle::Long, m).take(
            3,
        ));
    }
    assert forall|a: int, b: int| 1 <= a < b <= 12 implies #[trigger] month_name(
        MonthNameStyle::Long,
        a,
    ) != #[trigger] month_name(MonthNameStyle::Long, b) by {
        let x = month_name(MonthNameStyle::Long, a);
        let y = month_name(MonthNameStyle::Long, b);
        if x == y {
            assert(x.len() == y.len());
            assert(x[0] == y[0]);
            assert(x[1] == y[1]);
            assert(x[2] == y[2]);
            assert(x[3] == y[3]);
        }
    }
}

} // verus!
