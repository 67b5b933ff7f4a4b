//! Day buckets and the dates they name, in UTC.

use vstd::prelude::*;

use crate::text;

verus! {

// ---- the calendar ------------------------------------------------------------

/// A leap year of the Gregorian calendar.
pub open spec fn is_leap(y: int) -> bool {
    y % 4 == 0 && (y % 100 != 0 || y % 400 == 0)
}

/// How many days a month has.
pub open spec fn month_days(y: int, m: int) -> int {
    if m == 2 {
        if is_leap(y) {
            29
        } else {
            28
        }
    } else if m == 4 || m == 6 || m == 9 || m == 11 {
        30
    } else {
        31
    }
}

/// How many days a year has.
pub open spec fn year_days(y: int) -> int {
    if is_leap(y) {
        366
    } else {
        365
    }
}

/// The days from 1970-01-01 to the first of January of `y`.
pub open spec fn days_to_year(y: int) -> int
    decreases y - 1970,
{
    if y <= 1970 {
        0
    } else {
        days_to_year(y - 1) + year_days(y - 1)
    }
}

/// The days from the first of January of `y` to the first of month `m`.
pub open spec fn days_to_month(y: int, m: int) -> int
    decreases m,
{
    if m <= 1 {
        0
    } else {
        days_to_month(y, m - 1) + month_days(y, m - 1)
    }
}

/// A date of the calendar, from 1970 on.
pub open spec fn is_date(y: int, m: int, d: int) -> bool {
    1970 <= y && 1 <= m <= 12 && 1 <= d <= month_days(y, m)
}

/// The days from 1970-01-01 to a date.
pub open spec fn day_number(y: int, m: int, d: int) -> int {
    days_to_year(y) + days_to_month(y, m) + d - 1
}

/// The leap years before `y`, counted from year 1.
spec fn leaps_before(y: int) -> int {
    (y - 1) / 4 - (y - 1) / 100 + (y - 1) / 400
}

proof fn lemma_leap_step(y: int)
    requires
        y >= 1,
    ensures
        leaps_before(y + 1) == leaps_before(y) + (if is_leap(y) {
            1int
        } else {
            0
        }),
{
    assert(y / 4 == (y - 1) / 4 + (if y % 4 == 0 {
        1int
    } else {
        0
    }));
    assert(y / 100 == (y - 1) / 100 + (if y % 100 == 0 {
        1int
    } else {
        0
    }));
    assert(y / 400 == (y - 1) / 400 + (if y % 400 == 0 {
        1int
    } else {
        0
    }));
    assert(y % 400 == 0 ==> y % 100 == 0);
    assert(y % 100 == 0 ==> y % 4 == 0);
}

proof fn lemma_days_to_year(y: int)
    requires
        y >= 1970,
    ensures
        days_to_year(y) == 365 * (y - 1970) + leaps_before(y) - 477,
    decreases y,
{
    if y > 1970 {
        lemma_days_to_year(y - 1);
        lemma_leap_step(y - 1);
    }
}

proof fn lemma_days_to_month(y: int, m: int)
    requires
        1 <= m <= 12,
    ensures
        days_to_month(y, m) == (if m == 1 {
            0int
        } else if m == 2 {
            31
        } else {
            (if is_leap(y) {
                60int
            } else {
                59
            }) + (153 * (m - 3) + 2) / 5
        }),
{
    reveal_with_fuel(days_to_month, 13);
}

/// Two dates with the same day number are the same date.
pub proof fn law_day_number_is_unique(y: int, m: int, d: int, y2: int, m2: int, d2: int)
    requires
        is_date(y, m, d),
        is_date(y2, m2, d2),
        day_number(y, m, d) == day_number(y2, m2, d2),
    ensures
        y == y2 && m == m2 && d == d2,
{
    lemma_within_year(y, m, d);
    lemma_within_year(y2, m2, d2);
    if y < y2 {
        lemma_years_grow(y + 1, y2);
    } else if y2 < y {
        lemma_years_grow(y2 + 1, y);
    } else {
        lemma_days_to_month(y, m);
        lemma_days_to_month(y, m2);
    }
}

proof fn lemma_within_year(y: int, m: int, d: int)
    requires
        is_date(y, m, d),
    ensures
        0 <= days_to_month(y, m) + d - 1 < year_days(y),
{
    lemma_days_to_month(y, m);
}

proof fn lemma_years_grow(y: int, y2: int)
    requires
        1970 < y <= y2,
    ensures
        days_to_year(y) <= days_to_year(y2),
    decreases y2 - y,
{
    if y < y2 {
        lemma_years_grow(y, y2 - 1);
    }
}

// ---- civil from days ---------------------------------------------------------

/// `v` in decimal with two digits.
pub open spec fn two_digits(v: int) -> Seq<char> {
    seq![text::digit_char((v / 10 % 10) as nat), text::digit_char((v % 10) as nat)]
}

/// `YYYY-MM-DD`.
pub open spec fn date_text(y: int, m: int, d: int) -> Seq<char> {
    two_digits(y / 100) + two_digits(y % 100) + seq!['-'] + two_digits(m) + seq!['-'] + two_digits(
        d,
    )
}

/// `s` is the date of the day numbered `day`.
pub open spec fn names_day(s: Seq<char>, day: int) -> bool {
    exists|y: int, m: int, d: int|
        is_date(y, m, d) && #[trigger] day_number(y, m, d) == day && s == date_text(y, m, d)
}

/// The year of the 400-year cycle that starts in March, and the day within it.
proof fn lemma_year_of_era(doe: int)
    requires
        0 <= doe < 146097,
    ensures
        ({
            let yoe = (doe - doe / 1460 + doe / 36524 - doe / 146096) / 365;
            let doy = doe - (365 * yoe + yoe / 4 - yoe / 100);
            &&& 0 <= yoe <= 399
            &&& 0 <= doy <= 365
            &&& doy == 365 ==> (yoe + 1) % 4 == 0 && ((yoe + 1) % 100 != 0 || yoe == 399)
        }),
{
    let century = doe / 36524;
    let yoe = (doe - doe / 1460 + doe / 36524 - doe / 146096) / 365;
    let q = doe / 1460;
    assert(0 <= century <= 4);
    if century == 4 {
        assert(doe == 146096);
    } else {
        assert(doe / 146096 == 0);
        assert(36524 * century <= doe < 36524 * (century + 1));
        assert(100 * century <= yoe < 100 * (century + 1));
        assert(yoe / 100 == century);
    }
}

/// The last day of February only comes in a leap year, and every other day of
/// the March-based year falls in its month.
proof fn lemma_month_of_year(doy: int, y0: int)
    requires
        0 <= doy <= 365,
        doy == 365 ==> is_leap(y0 + 1),
        y0 >= 0,
    ensures
        ({
            let mp = (5 * doy + 2) / 153;
            let d = doy - (153 * mp + 2) / 5 + 1;
            let m = if mp < 10 {
                mp + 3
            } else {
                mp - 9
            };
            let y = if m <= 2 {
                y0 + 1
            } else {
                y0
            };
            &&& 0 <= mp <= 11
            &&& 1 <= m <= 12
            &&& 1 <= d <= month_days(y, m)
        }),
{
}

/// A leap day of the March-based year falls in a leap year.
proof fn lemma_leap_day(yoe: int, era: int)
    requires
        0 <= yoe <= 399,
        (yoe + 1) % 4 == 0,
        (yoe + 1) % 100 != 0 || yoe == 399,
        era == 4 || era == 5,
    ensures
        is_leap(yoe + era * 400 + 1),
{
}

/// The date of a day bucket: Hinnant's civil-from-days, which is exact over the
/// whole `u16` range.
fn civil_from_days(day: u16) -> (r: (u32, u32, u32))
    ensures
        is_date(r.0 as int, r.1 as int, r.2 as int),
        day_number(r.0 as int, r.1 as int, r.2 as int) == day,
{
    let z: u32 = day as u32 + 719_468;
    let era: u32 = z / 146_097;
    let doe: u32 = z % 146_097;
    proof {
        assert(era == 4 || era == 5);
        assert(z == 146_097 * era + doe);
        lemma_year_of_era(doe as int);
    }
    let yoe: u32 = (doe - doe / 1_460 + doe / 36_524 - doe / 146_096) / 365;
    let doy: u32 = doe - (365 * yoe + yoe / 4 - yoe / 100);
    let y0: u32 = yoe + era * 400;
    let ghost mp_spec = (5 * doy as int + 2) / 153;
    proof {
        if doy == 365 {
            lemma_leap_day(yoe as int, era as int);
        }
        lemma_month_of_year(doy as int, y0 as int);
        lemma_civil(day as int, era as int, doe as int, yoe as int, doy as int, mp_spec);
    }
    let mp: u32 = (5 * doy + 2) / 153;
    let d: u32 = doy + 1 - (153 * mp + 2) / 5;
    let m: u32 = if mp < 10 {
        mp + 3
    } else {
        mp - 9
    };
    let y: u32 = if m <= 2 {
        y0 + 1
    } else {
        y0
    };
    (y, m, d)
}

/// `YYYY-MM-DD` for a day bucket, UTC.
pub fn iso_date(day: u16) -> (r: String)
    ensures
        names_day(r@, day as int),
        is_date_shaped(r@),
{
    let (y, m, d): (u32, u32, u32) = civil_from_days(day);
    let mut r = String::new();
    push_two(&mut r, y / 100);
    push_two(&mut r, y % 100);
    r.push('-');
    push_two(&mut r, m);
    r.push('-');
    push_two(&mut r, d);
    proof {
        assert(r@ =~= date_text(y as int, m as int, d as int));
        assert(day_number(y as int, m as int, d as int) == day);
        lemma_last_year(y as int, m as int, d as int);
        lemma_date_text(y as int, m as int, d as int);
    }
    r
}

/// What civil-from-days computes has the day number it started from.
proof fn lemma_civil(day: int, era: int, doe: int, yoe: int, doy: int, mp: int)
    requires
        0 <= day <= 65535,
        day + 719468 == 146097 * era + doe,
        era == 4 || era == 5,
        0 <= doe < 146097,
        0 <= yoe <= 399,
        doy == doe - (365 * yoe + yoe / 4 - yoe / 100),
        0 <= doy <= 365,
        mp == (5 * doy + 2) / 153,
        0 <= mp <= 11,
    ensures
        ({
            let y0 = yoe + era * 400;
            let d = doy - (153 * mp + 2) / 5 + 1;
            let m = if mp < 10 {
                mp + 3
            } else {
                mp - 9
            };
            let y = if m <= 2 {
                y0 + 1
            } else {
                y0
            };
            &&& y >= 1970
            &&& day_number(y, m, d) == day
        }),
{
    let y0 = yoe + era * 400;
    let m = if mp < 10 {
        mp + 3
    } else {
        mp - 9
    };
    let y = if m <= 2 {
        y0 + 1
    } else {
        y0
    };
    let leaps = y0 / 4 - y0 / 100 + y0 / 400;
    assert(y0 / 4 == yoe / 4 + 100 * era);
    assert(y0 / 100 == yoe / 100 + 4 * era);
    assert(y0 / 400 == era);
    assert(day + 719468 == 365 * y0 + leaps + doy);
    assert(leaps_before(y0 + 1) == leaps);
    assert(y0 >= 1969);
    if m > 2 {
        assert(y0 >= 1970) by {
            if y0 == 1969 {
                assert(doy < 306);
            }
        }
        lemma_days_to_year(y);
        lemma_leap_step(y);
    } else {
        lemma_days_to_year(y);
    }
    lemma_days_to_month(y, m);
}

fn push_two(s: &mut String, v: u32)
    ensures
        final(s)@ == old(s)@ + two_digits(v as int),
{
    let ghost before = s@;
    s.push(text::digit((v / 10 % 10) as u8));
    s.push(text::digit((v % 10) as u8));
    assert(s@ =~= before + two_digits(v as int));
}

/// A day has one date: what [`iso_date`] returns is pinned down.
pub proof fn law_one_date_per_day(s: Seq<char>, t: Seq<char>, day: int)
    requires
        names_day(s, day),
        names_day(t, day),
    ensures
        s == t,
{
    let (y, m, d) = choose|y: int, m: int, d: int|
        is_date(y, m, d) && #[trigger] day_number(y, m, d) == day && s == date_text(y, m, d);
    let (y2, m2, d2) = choose|y: int, m: int, d: int|
        is_date(y, m, d) && #[trigger] day_number(y, m, d) == day && t == date_text(y, m, d);
    law_day_number_is_unique(y, m, d, y2, m2, d2);
}

// ---- the order of dates ------------------------------------------------------

/// The date after a date.
pub open spec fn next_date(y: int, m: int, d: int) -> (int, int, int) {
    if d < month_days(y, m) {
        (y, m, d + 1)
    } else if m < 12 {
        (y, m + 1, 1)
    } else {
        (y + 1, 1, 1)
    }
}

/// A date comes before another: in an earlier year, or an earlier month of the
/// same year, or on an earlier day of the same month.
pub open spec fn date_before(y: int, m: int, d: int, y2: int, m2: int, d2: int) -> bool {
    y < y2 || (y == y2 && (m < m2 || (m == m2 && d < d2)))
}

/// Four digits, two digits and two digits, with a hyphen between.
pub open spec fn is_date_shaped(s: Seq<char>) -> bool {
    &&& s.len() == 10
    &&& forall|i: int|
        0 <= i < 10 ==> if i == 4 || i == 7 {
            #[trigger] s[i] == '-'
        } else {
            text::is_digit(s[i])
        }
}

/// The date after a date is the next day.
pub proof fn law_next_date_is_the_next_day(y: int, m: int, d: int)
    requires
        is_date(y, m, d),
    ensures
        ({
            let (y2, m2, d2) = next_date(y, m, d);
            is_date(y2, m2, d2) && day_number(y2, m2, d2) == day_number(y, m, d) + 1
        }),
{
    lemma_days_to_month(y, m);
    if m < 12 {
        lemma_days_to_month(y, m + 1);
    } else {
        lemma_days_to_month(y + 1, 1);
    }
}

/// The later of two dates has the larger day number.
pub proof fn law_days_follow_dates(y: int, m: int, d: int, y2: int, m2: int, d2: int)
    requires
        is_date(y, m, d),
        is_date(y2, m2, d2),
    ensures
        day_number(y, m, d) < day_number(y2, m2, d2) <==> date_before(y, m, d, y2, m2, d2),
{
    lemma_within_year(y, m, d);
    lemma_within_year(y2, m2, d2);
    if y < y2 {
        lemma_years_grow(y + 1, y2);
    } else if y2 < y {
        lemma_years_grow(y2 + 1, y);
    } else {
        lemma_days_to_month(y, m);
        lemma_days_to_month(y, m2);
    }
}

/// Every day of the `u16` range falls before 2150.
proof fn lemma_last_year(y: int, m: int, d: int)
    requires
        is_date(y, m, d),
        day_number(y, m, d) <= 65535,
    ensures
        y < 2150,
{
    lemma_within_year(y, m, d);
    lemma_days_to_year(2150);
    if y >= 2150 {
        lemma_years_grow(2150, y);
    }
}

/// The text of a date, character by character.
proof fn lemma_date_text(y: int, m: int, d: int)
    requires
        is_date(y, m, d),
        y <= 9999,
    ensures
        is_date_shaped(date_text(y, m, d)),
        date_text(y, m, d)[0] == text::digit_char((y / 1000) as nat),
        date_text(y, m, d)[1] == text::digit_char((y / 100 % 10) as nat),
        date_text(y, m, d)[2] == text::digit_char((y / 10 % 10) as nat),
        date_text(y, m, d)[3] == text::digit_char((y % 10) as nat),
        date_text(y, m, d)[5] == text::digit_char((m / 10) as nat),
        date_text(y, m, d)[6] == text::digit_char((m % 10) as nat),
        date_text(y, m, d)[8] == text::digit_char((d / 10) as nat),
        date_text(y, m, d)[9] == text::digit_char((d % 10) as nat),
{
    assert(y / 100 / 10 % 10 == y / 1000);
    assert(y % 100 / 10 % 10 == y / 10 % 10);
    assert(y % 100 % 10 == y % 10);
}

/// Texts of dates sort as the dates do.
proof fn lemma_texts_follow_dates(y: int, m: int, d: int, y2: int, m2: int, d2: int)
    requires
        is_date(y, m, d),
        is_date(y2, m2, d2),
        y2 <= 9999,
        date_before(y, m, d, y2, m2, d2),
    ensures
        text::sorts_before(date_text(y, m, d), date_text(y2, m2, d2)),
{
    lemma_date_text(y, m, d);
    lemma_date_text(y2, m2, d2);
    let s = date_text(y, m, d);
    let t = date_text(y2, m2, d2);
    let i: int = if y / 1000 != y2 / 1000 {
        0
    } else if y / 100 % 10 != y2 / 100 % 10 {
        1
    } else if y / 10 % 10 != y2 / 10 % 10 {
        2
    } else if y != y2 {
        3
    } else if m / 10 != m2 / 10 {
        5
    } else if m != m2 {
        6
    } else if d / 10 != d2 / 10 {
        8
    } else {
        9
    };
    assert(s.take(i) =~= t.take(i));
    assert((s[i] as u32) < (t[i] as u32));
}

/// Dates sort as their days do: of two days the earlier has the text that sorts
/// first, and from one day to the next the calendar goes on by one date.
pub proof fn law_dates_sort_as_days(s: Seq<char>, a: int, t: Seq<char>, b: int)
    requires
        names_day(s, a),
        names_day(t, b),
        0 <= a < b <= 65535,
    ensures
        is_date_shaped(s),
        is_date_shaped(t),
        text::sorts_before(s, t),
        b == a + 1 ==> exists|y: int, m: int, d: int|
            {
                &&& #[trigger] is_date(y, m, d)
                &&& s == date_text(y, m, d)
                &&& t == date_text(next_date(y, m, d).0, next_date(y, m, d).1, next_date(y, m, d).2)
            },
{
    let (y, m, d) = choose|y: int, m: int, d: int|
        is_date(y, m, d) && #[trigger] day_number(y, m, d) == a && s == date_text(y, m, d);
    let (y2, m2, d2) = choose|y: int, m: int, d: int|
        is_date(y, m, d) && #[trigger] day_number(y, m, d) == b && t == date_text(y, m, d);
    lemma_last_year(y, m, d);
    lemma_last_year(y2, m2, d2);
    lemma_date_text(y, m, d);
    lemma_date_text(y2, m2, d2);
    law_days_follow_dates(y, m, d, y2, m2, d2);
    lemma_texts_follow_dates(y, m, d, y2, m2, d2);
    if b == a + 1 {
        law_next_date_is_the_next_day(y, m, d);
        let (y3, m3, d3) = next_date(y, m, d);
        law_day_number_is_unique(y2, m2, d2, y3, m3, d3);
    }
}

// ---- buckets -----------------------------------------------------------------

/// The bucket of an instant: whole days since the Unix epoch.
pub open spec fn bucket_of(secs: int) -> int {
    if secs / 86_400 <= 65_535 {
        secs / 86_400
    } else {
        65_535
    }
}

/// The bucket of an instant, in seconds since the Unix epoch.
pub fn day_bucket(secs: u64) -> (r: u16)
    ensures
        r == bucket_of(secs as int),
{
    let days: u64 = secs / 86_400;
    if days <= 65_535 {
        days as u16
    } else {
        65_535
    }
}

/// The day of the week, `0` for Sunday. 1970-01-01 was a Thursday.
pub open spec fn weekday_of(day: int) -> int {
    (day + 4) % 7
}

/// The day of the week, `0` for Sunday.
pub fn weekday(day: u16) -> (r: u8)
    ensures
        r == weekday_of(day as int),
{
    ((day as u32 + 4) % 7) as u8
}

/// An instant falls in the bucket of its day: eighty-six thousand four hundred
/// seconds from midnight to midnight, up to the last bucket there is.
pub proof fn law_instants_fall_in_their_day(secs: int)
    requires
        0 <= secs,
    ensures
        secs < 65_536 * 86_400 ==> bucket_of(secs) * 86_400 <= secs < (bucket_of(secs) + 1) * 86_400,
        secs >= 65_536 * 86_400 ==> bucket_of(secs) == 65_535,
        0 <= bucket_of(secs) <= 65_535,
{
}

/// The week goes on by one day a day, from Saturday to Sunday, and the first of
/// January 1970 was a Thursday.
pub proof fn law_weekdays_follow_each_other(day: int)
    requires
        0 <= day,
    ensures
        0 <= weekday_of(day) <= 6,
        weekday_of(day) < 6 ==> weekday_of(day + 1) == weekday_of(day) + 1,
        weekday_of(day) == 6 ==> weekday_of(day + 1) == 0,
        weekday_of(day_number(1970, 1, 1)) == 4,
{
    assert(days_to_month(1970, 1) == 0);
    assert(days_to_year(1970) == 0);
}

/// A date is read back from its text: the year from the first four digits, the
/// month from the next two and the day from the last two.
pub proof fn law_dates_read_back(y: int, m: int, d: int)
    requires
        is_date(y, m, d),
        y <= 9999,
    ensures
        text::numeral_value(date_text(y, m, d).subrange(0, 4)) == y,
        text::numeral_value(date_text(y, m, d).subrange(5, 7)) == m,
        text::numeral_value(date_text(y, m, d).subrange(8, 10)) == d,
{
    lemma_date_text(y, m, d);
    let s = date_text(y, m, d);
    let year = seq![s[0], s[1], s[2], s[3]];
    assert(s.subrange(0, 4) =~= year);
    assert(s.subrange(5, 7) =~= seq![s[5], s[6]]);
    assert(s.subrange(8, 10) =~= seq![s[8], s[9]]);
    let one = seq![s[0]];
    let two = one.push(s[1]);
    let three = two.push(s[2]);
    text::law_numerals_count_in_tens(one, s[0]);
    text::law_numerals_count_in_tens(one, s[1]);
    text::law_numerals_count_in_tens(two, s[2]);
    text::law_numerals_count_in_tens(three, s[3]);
    assert(three.push(s[3]) =~= year);
    text::law_numerals_count_in_tens(seq![s[5]], s[5]);
    text::law_numerals_count_in_tens(seq![s[5]], s[6]);
    assert(seq![s[5]].push(s[6]) =~= seq![s[5], s[6]]);
    text::law_numerals_count_in_tens(seq![s[8]], s[8]);
    text::law_numerals_count_in_tens(seq![s[8]], s[9]);
    assert(seq![s[8]].push(s[9]) =~= seq![s[8], s[9]]);
}

/// A year has three hundred and sixty-five days, or one more, in February, where it
/// is a leap year; the months make up the year; and after four hundred years the
/// calendar repeats.
pub proof fn law_months_make_up_the_year(y: int)
    requires
        y >= 1970,
    ensures
        year_days(y) == 365 || year_days(y) == 366,
        year_days(y) == 366 <==> month_days(y, 2) == 29,
        year_days(y) == 365 <==> month_days(y, 2) == 28,
        year_days(y) == 366 <==> y % 4 == 0 && (y % 100 == 0 ==> y % 400 == 0),
        month_days(y, 1) == 31 && month_days(y, 3) == 31 && month_days(y, 4) == 30 && month_days(
            y,
            5,
        ) == 31 && month_days(y, 6) == 30,
        month_days(y, 7) == 31 && month_days(y, 8) == 31 && month_days(y, 9) == 30 && month_days(
            y,
            10,
        ) == 31 && month_days(y, 11) == 30 && month_days(y, 12) == 31,
        days_to_month(y, 12) + month_days(y, 12) == year_days(y),
        days_to_year(y + 1) == days_to_year(y) + year_days(y),
        days_to_year(y + 400) == days_to_year(y) + 146_097,
{
    lemma_days_to_month(y, 12);
    lemma_days_to_year(y);
    lemma_days_to_year(y + 400);
    assert((y + 399) / 4 == (y - 1) / 4 + 100);
    assert((y + 399) / 100 == (y - 1) / 100 + 4);
    assert((y + 399) / 400 == (y - 1) / 400 + 1);
}

} // verus!
