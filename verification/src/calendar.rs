//! The month calendar of the lecturer's home page: moving between months,
//! the grid of day cells, and the dates that the cells stand for.
use vstd::prelude::*;
use crate::dates::{days_from_sunday, days_of_ymd, weekday_from_sunday, ymd_days};
use crate::models::Class;
use crate::numbers::{int_to_padded_string, signed_decimal, signed_padded};
use crate::text::{concat2, concat3, owned, str_eq};

verus! {

/// The date that the calendar's month is held as (it opens on today's
/// date; each step lands on the first of a month).
#[derive(Clone, Debug, PartialEq)]
pub struct CalendarDate {
    pub year: i32,
    pub month: u32,
    pub day: u32,
}

/// The first day of the month before `(year, month)`, whatever the day.
pub open spec fn step_back(year: int, month: int) -> (int, int, int) {
    if month == 1 {
        (year - 1, 12, 1)
    } else {
        (year, month - 1, 1)
    }
}

/// The first day of the month after `(year, month)`.
pub open spec fn step_forward(year: int, month: int) -> (int, int, int) {
    if month == 12 {
        (year + 1, 1, 1)
    } else {
        (year, month + 1, 1)
    }
}

/// The date that a step lands on, where it is a date chrono has.
pub open spec fn landed(t: (int, int, int)) -> Option<CalendarDate> {
    if i32::MIN <= t.0 <= i32::MAX && 0 <= t.1 <= u32::MAX && 0 <= t.2 <= u32::MAX && ymd_days(
        t.0 as i32,
        t.1 as u32,
        t.2 as u32,
    ) is Some {
        Some(CalendarDate { year: t.0 as i32, month: t.1 as u32, day: t.2 as u32 })
    } else {
        None
    }
}

/// The first of a month where chrono has that date.
fn first_of(year: i64, month: u32) -> (r: Option<CalendarDate>)
    ensures
        r == landed((year as int, month as int, 1)),
{
    if year < -2147483648 || year > 2147483647 {
        return None;
    }
    match days_of_ymd(year as i32, month, 1) {
        Some(_) => Some(CalendarDate { year: year as i32, month, day: 1 }),
        None => None,
    }
}

/// The month before the one shown ("Previous Month"), from any day of the
/// month shown; none where chrono has no such date (the page gives up
/// there).
pub fn prev_month(current: &CalendarDate) -> (r: Option<CalendarDate>)
    requires
        1 <= current.month <= 12,
    ensures
        r == landed(step_back(current.year as int, current.month as int)),
{
    if current.month == 1 {
        first_of(current.year as i64 - 1, 12)
    } else {
        first_of(current.year as i64, current.month - 1)
    }
}

/// The month after the one shown ("›"); none where chrono has no such date.
pub fn next_month(current: &CalendarDate) -> (r: Option<CalendarDate>)
    requires
        1 <= current.month <= 12,
    ensures
        r == landed(step_forward(current.year as int, current.month as int)),
{
    if current.month == 12 {
        first_of(current.year as i64 + 1, 1)
    } else {
        first_of(current.year as i64, current.month + 1)
    }
}

/// Where the month starts in the week (0 for Sunday) and how many days it
/// has, from chrono's day numbers of its first and of the next month's
/// first day.
pub open spec fn month_layout(year: i32, month: u32) -> Option<(int, int)> {
    let next = step_forward(year as int, month as int);
    if i32::MIN <= next.0 <= i32::MAX {
        match (ymd_days(year, month, 1), ymd_days(next.0 as i32, next.1 as u32, 1)) {
            (Some(a), Some(b)) => Some((weekday_from_sunday(a as int), b - a)),
            _ => None,
        }
    } else {
        None
    }
}

/// The first weekday (0 for Sunday) and the length of a month; none where
/// chrono lacks its first day or the next month's.
pub fn days_in_month(year: i32, month: u32) -> (r: Option<(u32, i64)>)
    requires
        1 <= month <= 12,
    ensures
        match month_layout(year, month) {
            Some(l) => r matches Some((w, n)) && w == l.0 && n == l.1,
            None => r is None,
        },
{
    let (ny, nm): (i64, u32) = if month == 12 {
        (year as i64 + 1, 1)
    } else {
        (year as i64, month + 1)
    };
    if ny > 2147483647 {
        return None;
    }
    let a = days_of_ymd(year, month, 1);
    let b = days_of_ymd(ny as i32, nm, 1);
    match (a, b) {
        (Some(a), Some(b)) => Some((days_from_sunday(a), (b as i64) - (a as i64))),
        _ => None,
    }
}

/// The day in cell `i` of the six-week grid: none before the month starts
/// or after it ends.
pub open spec fn cell_day(i: int, first_weekday: int, days: int) -> Option<u32> {
    if i < first_weekday || i >= first_weekday + days {
        None
    } else {
        Some((i - first_weekday + 1) as u32)
    }
}

/// The 42 cells (six weeks from Sunday) of a month's grid.
pub fn calendar_cells(first_weekday: u32, days: i64) -> (r: Vec<Option<u32>>)
    requires
        first_weekday < 7,
        0 <= days <= 31,
    ensures
        r@.len() == 42,
        forall|i: int| 0 <= i < 42 ==> #[trigger] r@[i] == cell_day(i, first_weekday as int, days as int),
{
    let mut out: Vec<Option<u32>> = Vec::new();
    let mut i: u32 = 0;
    while i < 42
        invariant
            0 <= i <= 42,
            first_weekday < 7,
            0 <= days <= 31,
            out@.len() == i,
            forall|j: int| 0 <= j < i ==> #[trigger] out@[j] == cell_day(j, first_weekday as int, days as int),
        decreases 42 - i,
    {
        if i < first_weekday || (i as i64) >= (first_weekday as i64) + days {
            out.push(None);
        } else {
            out.push(Some(i - first_weekday + 1));
        }
        i = i + 1;
    }
    out
}

/// The English name of a month number; "Unknown" outside 1 to 12.
pub open spec fn month_name_of(month: int) -> Seq<char> {
    if month == 1 {
        "January"@
    } else if month == 2 {
        "February"@
    } else if month == 3 {
        "March"@
    } else if month == 4 {
        "April"@
    } else if month == 5 {
        "May"@
    } else if month == 6 {
        "June"@
    } else if month == 7 {
        "July"@
    } else if month == 8 {
        "August"@
    } else if month == 9 {
        "September"@
    } else if month == 10 {
        "October"@
    } else if month == 11 {
        "November"@
    } else if month == 12 {
        "December"@
    } else {
        "Unknown"@
    }
}

/// The English name of a month number.
pub fn month_name(month: u32) -> (r: &'static str)
    ensures
        r@ == month_name_of(month as int),
{
    if month == 1 {
        "January"
    } else if month == 2 {
        "February"
    } else if month == 3 {
        "March"
    } else if month == 4 {
        "April"
    } else if month == 5 {
        "May"
    } else if month == 6 {
        "June"
    } else if month == 7 {
        "July"
    } else if month == 8 {
        "August"
    } else if month == 9 {
        "September"
    } else if month == 10 {
        "October"
    } else if month == 11 {
        "November"
    } else if month == 12 {
        "December"
    } else {
        "Unknown"
    }
}

/// The calendar's heading: month name and year ("March 2025").
pub fn calendar_title(year: i32, month: u32) -> (r: String)
    ensures
        r@ == month_name_of(month as int) + " "@ + signed_decimal(year as int),
{
    let y = crate::numbers::int_to_string(year as i64);
    concat3(month_name(month), " ", y.as_str())
}

/// The ISO text of a calendar day: year in four digits, month and day in
/// two (`{:04}-{:02}-{:02}`).
pub open spec fn cell_date(year: int, month: int, day: int) -> Seq<char> {
    signed_padded(year, 4) + "-"@ + signed_padded(month, 2) + "-"@ + signed_padded(day, 2)
}

/// The ISO text of a calendar day.
pub fn calendar_date_text(year: i32, month: u32, day: u32) -> (r: String)
    ensures
        r@ == cell_date(year as int, month as int, day as int),
{
    let y = int_to_padded_string(year as i64, 4);
    let m = int_to_padded_string(month as i64, 2);
    let d = int_to_padded_string(day as i64, 2);
    let ym = concat3(y.as_str(), "-", m.as_str());
    concat3(ym.as_str(), "-", d.as_str())
}

/// The style of a day cell: the chosen day marked as selected, else today
/// marked as today.
pub open spec fn day_style(date: Seq<char>, today: Seq<char>, selected: Seq<char>) -> Seq<char> {
    if date == selected {
        "day day-selected"@
    } else if date == today {
        "day day-today"@
    } else {
        "day"@
    }
}

/// The style of a day cell.
pub fn day_class_names(date: &str, today: &str, selected: &str) -> (r: &'static str)
    ensures
        r@ == day_style(date@, today@, selected@),
{
    if str_eq(date, selected) {
        "day day-selected"
    } else if str_eq(date, today) {
        "day day-today"
    } else {
        "day"
    }
}

/// Some class is held on `date`.
pub open spec fn any_class_on(cs: Seq<Class>, date: Seq<char>) -> bool {
    exists|i: int| 0 <= i < cs.len() && (#[trigger] cs[i]).date@ == date
}

/// Whether some class is held on `date` (the cell's dot).
pub fn has_classes_on_date(classes: &Vec<Class>, date: &str) -> (b: bool)
    ensures
        b == any_class_on(classes@, date@),
{
    let mut i: usize = 0;
    while i < classes.len()
        invariant
            0 <= i <= classes.len(),
            forall|j: int| 0 <= j < i ==> (#[trigger] classes@[j]).date@ != date@,
        decreases classes.len() - i,
    {
        if str_eq(classes[i].date.as_str(), date) {
            assert(classes@[i as int].date@ == date@);
            return true;
        }
        i = i + 1;
    }
    false
}

/// Stepping forward a month and then back lands on the first of the month
/// one started from; stepping back and then forward does too.
pub proof fn lemma_month_steps_undo(year: int, month: int)
    requires
        1 <= month <= 12,
    ensures
        ({
            let f = step_forward(year, month);
            step_back(f.0, f.1) == (year, month, 1int)
        }),
        ({
            let b = step_back(year, month);
            step_forward(b.0, b.1) == (year, month, 1int)
        }),
{
}

/// The cell of day `d` of a month starting on weekday `first_weekday`.
pub open spec fn day_cell(first_weekday: int, d: int) -> int {
    first_weekday + d - 1
}

/// The grid shows each day of the month exactly once, in order from the
/// month's first weekday, and nothing else.
pub proof fn lemma_cells_cover_month(first_weekday: int, days: int)
    requires
        0 <= first_weekday < 7,
        0 <= days <= 31,
    ensures
        forall|d: int|
            1 <= d <= days ==> cell_day(#[trigger] day_cell(first_weekday, d), first_weekday, days) == Some(
                d as u32,
            ),
        forall|i: int|
            #![trigger cell_day(i, first_weekday, days)]
            0 <= i < 42 && cell_day(i, first_weekday, days) is Some ==> {
                let d = cell_day(i, first_weekday, days)->0;
                1 <= d <= days && i == day_cell(first_weekday, d as int)
            },
{
}

} // verus!
