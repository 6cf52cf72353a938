//! Attendance statistics: the slots of weekly and monthly trends, the days
//! of a student's week, and the labels of the statistics pages.
use vstd::prelude::*;
use crate::calendar::month_name_of;
use crate::dates::{date_format, format_date, start_of_week, week_start};
use crate::models::{StudentModuleBreakdown, StudentWeeklyAttendancePoint};
use crate::numbers::{
    int_to_padded_string, int_to_string, parse_i32_spec, parse_int_chars, signed_decimal,
    signed_padded,
};
use crate::text::{
    chars_eq, chars_of, concat2, concat3, contains_char, has_char, lemma_split_append_sep, lemma_split_extend,
    lemma_split_words, owned, replace_all, replace_chars,
    split_chars, split_fields, str_eq, str_le, lex_le, string_of, views,
};

verus! {

/// The last position at which `week` occurs in `weeks` (the row that a
/// map filled in order keeps).
pub open spec fn last_index_of(weeks: Seq<i64>, week: i64) -> Option<int>
    decreases weeks.len(),
{
    if weeks.len() == 0 {
        None
    } else if weeks.last() == week {
        Some(weeks.len() - 1)
    } else {
        last_index_of(weeks.drop_last(), week)
    }
}

/// The row of each week of a month's trend, weeks 1 to 5: for week `w`, the
/// last row whose week number is `w`, or none (the week then shows zero).
pub fn week_slots(weeks: &Vec<i64>) -> (r: Vec<Option<usize>>)
    ensures
        r@.len() == 5,
        forall|w: int|
            0 <= w < 5 ==> match last_index_of(weeks@, (w + 1) as i64) {
                Some(k) => #[trigger] r@[w] == Some(k as usize),
                None => r@[w] is None,
            },
{
    let mut out: Vec<Option<usize>> = Vec::new();
    let mut w: i64 = 1;
    while w <= 5
        invariant
            1 <= w <= 6,
            out@.len() == w - 1,
            forall|v: int|
                0 <= v < out@.len() ==> match last_index_of(weeks@, (v + 1) as i64) {
                    Some(k) => #[trigger] out@[v] == Some(k as usize),
                    None => out@[v] is None,
                },
        decreases 6 - w,
    {
        let mut found: Option<usize> = None;
        let mut i: usize = 0;
        while i < weeks.len()
            invariant
                0 <= i <= weeks.len(),
                match last_index_of(weeks@.subrange(0, i as int), w) {
                    Some(k) => found == Some(k as usize),
                    None => found is None,
                },
            decreases weeks.len() - i,
        {
            proof {
                let p = weeks@.subrange(0, i as int);
                assert(weeks@.subrange(0, i + 1) =~= p.push(weeks@[i as int]));
                assert(p.push(weeks@[i as int]).drop_last() =~= p);
            }
            if weeks[i] == w {
                found = Some(i);
            }
            i = i + 1;
        }
        assert(weeks@.subrange(0, weeks.len() as int) =~= weeks@);
        out.push(found);
        w = w + 1;
    }
    out
}

/// The label of a week of a month's trend.
pub fn week_label(week: i64) -> (r: String)
    ensures
        r@ == "Week "@ + signed_decimal(week as int),
{
    let n = int_to_string(week);
    concat2("Week ", n.as_str())
}

/// The labels of a year's monthly trend up to `month`: "YYYY-MM" for each
/// month from January.
pub fn month_labels(year: i32, month: u32) -> (r: Vec<String>)
    requires
        month <= 12,
    ensures
        r@.len() == month,
        forall|m: int|
            0 <= m < month ==> (#[trigger] r@[m])@ == signed_decimal(year as int) + "-"@
                + signed_padded(m + 1, 2),
{
    let y = int_to_string(year as i64);
    let mut out: Vec<String> = Vec::new();
    let mut m: u32 = 1;
    while m <= month
        invariant
            1 <= m <= month + 1,
            month <= 12,
            y@ == signed_decimal(year as int),
            out@.len() == m - 1,
            forall|k: int|
                0 <= k < out@.len() ==> (#[trigger] out@[k])@ == signed_decimal(year as int) + "-"@
                    + signed_padded(k + 1, 2),
        decreases month + 1 - m,
    {
        let mm = int_to_padded_string(m as i64, 2);
        out.push(concat3(y.as_str(), "-", mm.as_str()));
        m = m + 1;
    }
    out
}

/// The first position at which `key` occurs.
pub open spec fn first_index_of(keys: Seq<Seq<char>>, key: Seq<char>) -> Option<int> {
    if exists|i: int| 0 <= i < keys.len() && keys[i] == key {
        Some(choose|i: int| 0 <= i < keys.len() && keys[i] == key && forall|j: int| 0 <= j < i ==> keys[j] != key)
    } else {
        None
    }
}

/// The first position at which `key` occurs in `keys` (as `iter().find`).
pub fn find_first(keys: &Vec<String>, key: &str) -> (r: Option<usize>)
    ensures
        match r {
            Some(i) => i < keys.len() && keys@[i as int]@ == key@ && forall|j: int|
                0 <= j < i ==> keys@[j]@ != key@,
            None => forall|j: int| 0 <= j < keys.len() ==> keys@[j]@ != key@,
        },
{
    let mut i: usize = 0;
    while i < keys.len()
        invariant
            0 <= i <= keys.len(),
            forall|j: int| 0 <= j < i ==> keys@[j]@ != key@,
        decreases keys.len() - i,
    {
        if str_eq(keys[i].as_str(), key) {
            return Some(i);
        }
        i = i + 1;
    }
    None
}

/// The ISO date of day `k` (0 for Monday) of the week of `today`; none
/// outside chrono's calendar.
pub open spec fn week_day_text(today: int, k: int) -> Option<Seq<char>> {
    let d = week_start(today) + k;
    if i32::MIN <= d <= i32::MAX {
        date_format(d as i32, "%Y-%m-%d"@)
    } else {
        None
    }
}

/// The ISO dates of the seven days (Monday to Sunday) of the week of
/// `today`; none when one of them is outside chrono's calendar.
pub fn week_day_keys(today: i32) -> (r: Option<Vec<String>>)
    ensures
        match r {
            Some(v) => v@.len() == 7 && forall|k: int|
                0 <= k < 7 ==> #[trigger] week_day_text(today as int, k) == Some(v@[k]@),
            None => exists|k: int| 0 <= k < 7 && #[trigger] week_day_text(today as int, k) is None,
        },
{
    let start = start_of_week(today);
    let mut out: Vec<String> = Vec::new();
    let mut k: i64 = 0;
    while k < 7
        invariant
            0 <= k <= 7,
            start == week_start(today as int),
            start <= today,
            start >= today - 6,
            out@.len() == k,
            forall|j: int| 0 <= j < k ==> #[trigger] week_day_text(today as int, j) == Some(out@[j]@),
        decreases 7 - k,
    {
        let d = start + k;
        if d < i32::MIN as i64 || d > i32::MAX as i64 {
            assert(week_day_text(today as int, k as int) is None);
            return None;
        }
        match format_date(d as i32, "%Y-%m-%d") {
            Some(s) => out.push(s),
            None => {
                assert(week_day_text(today as int, k as int) is None);
                return None;
            },
        }
        k = k + 1;
    }
    Some(out)
}

/// One day of a student's week: the counts of the row for that date (the
/// first such row), or zeros.
pub open spec fn day_point(key: Seq<char>, rows: Seq<(String, i64, i64)>) -> (int, int) {
    if exists|i: int| 0 <= i < rows.len() && rows[i].0@ == key {
        let i = choose|i: int|
            0 <= i < rows.len() && rows[i].0@ == key && forall|j: int| 0 <= j < i ==> rows[j].0@ != key;
        (rows[i].1 as int, rows[i].2 as int)
    } else {
        (0, 0)
    }
}

/// The first row for the date `key`.
fn first_row(rows: &Vec<(String, i64, i64)>, key: &str) -> (r: Option<usize>)
    ensures
        match r {
            Some(i) => i < rows.len() && rows@[i as int].0@ == key@ && forall|j: int|
                0 <= j < i ==> rows@[j].0@ != key@,
            None => forall|j: int| 0 <= j < rows.len() ==> rows@[j].0@ != key@,
        },
{
    let mut i: usize = 0;
    while i < rows.len()
        invariant
            0 <= i <= rows.len(),
            forall|j: int| 0 <= j < i ==> rows@[j].0@ != key@,
        decreases rows.len() - i,
    {
        if str_eq(rows[i].0.as_str(), key) {
            return Some(i);
        }
        i = i + 1;
    }
    None
}

/// The points of a student's week: one per day key, in order, with the
/// counts of the first row for that date, or zeros.
pub fn week_points(keys: &Vec<String>, rows: &Vec<(String, i64, i64)>) -> (r: Vec<StudentWeeklyAttendancePoint>)
    ensures
        r@.len() == keys@.len(),
        forall|k: int|
            0 <= k < keys@.len() ==> (#[trigger] r@[k]).date@ == keys@[k]@ && (r@[k].present as int,
            r@[k].recorded as int) == day_point(keys@[k]@, rows@),
{
    let mut out: Vec<StudentWeeklyAttendancePoint> = Vec::new();
    let mut k: usize = 0;
    while k < keys.len()
        invariant
            0 <= k <= keys.len(),
            out@.len() == k,
            forall|j: int|
                0 <= j < k ==> (#[trigger] out@[j]).date@ == keys@[j]@ && (out@[j].present as int,
                out@[j].recorded as int) == day_point(keys@[j]@, rows@),
        decreases keys.len() - k,
    {
        let key = keys[k].as_str();
        let hit = first_row(rows, key);
        let point = match hit {
            Some(i) => {
                assert(rows@[i as int].0@ == key@);
                proof {
                    let c = choose|c: int|
                        0 <= c < rows@.len() && rows@[c].0@ == key@ && forall|j: int|
                            0 <= j < c ==> rows@[j].0@ != key@;
                    assert(c == i) by {
                        if c < i {
                            assert(rows@[c].0@ != key@);
                        }
                        if c > i {
                            assert(rows@[i as int].0@ != key@);
                        }
                    }
                }
                StudentWeeklyAttendancePoint { date: keys[k].clone(), present: rows[i].1, recorded: rows[i].2 }
            },
            None => StudentWeeklyAttendancePoint { date: keys[k].clone(), present: 0, recorded: 0 },
        };
        out.push(point);
        k = k + 1;
    }
    out
}

/// How a count of sessions reads: "p of r sessions", or `none` when
/// nothing was recorded.
pub fn sessions_text(present: i64, recorded: i64, none: &str) -> (r: String)
    ensures
        recorded > 0 ==> r@ == signed_decimal(present as int) + " of "@ + signed_decimal(recorded as int)
            + " sessions"@,
        recorded <= 0 ==> r@ == none@,
{
    if recorded > 0 {
        let p = int_to_string(present);
        let t = int_to_string(recorded);
        let mut s = concat3(p.as_str(), " of ", t.as_str());
        s.append(" sessions");
        s
    } else {
        owned(none)
    }
}

/// How a day of the weekly chart reads: "p / r present", or "No classes".
pub fn day_meta(present: i64, recorded: i64) -> (r: String)
    ensures
        recorded > 0 ==> r@ == signed_decimal(present as int) + " / "@ + signed_decimal(recorded as int)
            + " present"@,
        recorded <= 0 ==> r@ == "No classes"@,
{
    if recorded > 0 {
        let p = int_to_string(present);
        let t = int_to_string(recorded);
        let mut s = concat3(p.as_str(), " / ", t.as_str());
        s.append(" present");
        s
    } else {
        owned("No classes")
    }
}

/// The numbers that a "YYYY-MM" text holds: the parts between '-' that
/// read as `i32`, in order.
pub open spec fn month_numbers(parts: Seq<Seq<char>>) -> Seq<int>
    decreases parts.len(),
{
    if parts.len() == 0 {
        Seq::empty()
    } else {
        let rest = month_numbers(parts.drop_last());
        match parse_i32_spec(parts.last()) {
            Some(v) => rest.push(v),
            None => rest,
        }
    }
}

/// The year and month that a "YYYY-MM" text names, when exactly two of its
/// parts read as numbers.
pub open spec fn year_month(text: Seq<char>) -> Option<(int, int)> {
    let ns = month_numbers(split_fields(text, seq!['-']));
    if ns.len() == 2 {
        Some((ns[0], ns[1]))
    } else {
        None
    }
}

/// The numbers of a "YYYY-MM" text.
fn read_year_month(text: &str) -> (r: Option<(i32, i32)>)
    ensures
        match r {
            Some((y, m)) => year_month(text@) == Some((y as int, m as int)),
            None => year_month(text@) is None,
        },
{
    let cs = chars_of(text);
    let mut seps: Vec<char> = Vec::new();
    seps.push('-');
    assert(seps@ =~= seq!['-']);
    let parts = split_chars(&cs, &seps);
    let ghost fs = split_fields(cs@, seps@);
    let mut nums: Vec<i32> = Vec::new();
    let mut i: usize = 0;
    while i < parts.len()
        invariant
            0 <= i <= parts.len(),
            parts@.len() == fs.len(),
            forall|k: int| 0 <= k < parts@.len() ==> (#[trigger] parts@[k])@ == fs[k],
            nums@.len() == month_numbers(fs.subrange(0, i as int)).len(),
            forall|k: int|
                0 <= k < nums@.len() ==> nums@[k] as int == #[trigger] month_numbers(
                    fs.subrange(0, i as int),
                )[k],
        decreases parts.len() - i,
    {
        proof {
            let p = fs.subrange(0, i as int);
            assert(fs.subrange(0, i + 1) =~= p.push(fs[i as int]));
            assert(p.push(fs[i as int]).drop_last() =~= p);
        }
        match parse_int_chars(&parts[i], true, i32::MIN as i64, i32::MAX as i64) {
            Some(v) => nums.push(v as i32),
            None => {},
        }
        i = i + 1;
    }
    assert(fs.subrange(0, parts.len() as int) =~= fs);
    if nums.len() == 2 {
        assert(month_numbers(fs)[0] == nums@[0] as int);
        assert(month_numbers(fs)[1] == nums@[1] as int);
        Some((nums[0], nums[1]))
    } else {
        None
    }
}

/// The month before (`forward` false) or after a "YYYY-MM" month, written
/// "YYYY-MM" with at least four year digits; none when the text is no
/// month.
pub open spec fn shifted_month(text: Seq<char>, forward: bool) -> Option<Seq<char>> {
    match year_month(text) {
        None => None,
        Some((y, m)) => {
            let (y2, m2) = if forward {
                if m + 1 == 13 { (y + 1, 1) } else { (y, m + 1) }
            } else {
                if m - 1 == 0 { (y - 1, 12) } else { (y, m - 1) }
            };
            Some(signed_padded(y2, 4) + "-"@ + signed_padded(m2, 2))
        },
    }
}

/// The months whose neighbour can be computed without leaving `i32`.
pub open spec fn month_shift_in_range(text: Seq<char>, forward: bool) -> bool {
    match year_month(text) {
        None => true,
        Some((y, m)) => if forward {
            m < i32::MAX && (m + 1 == 13 ==> y < i32::MAX)
        } else {
            m > i32::MIN && (m - 1 == 0 ==> y > i32::MIN)
        },
    }
}

/// The month before or after a "YYYY-MM" month (the statistics page's
/// Prev and Next).
pub fn shift_month(text: &str, forward: bool) -> (r: Option<String>)
    requires
        month_shift_in_range(text@, forward),
    ensures
        match shifted_month(text@, forward) {
            Some(s) => r is Some && r->0@ == s,
            None => r is None,
        },
{
    match read_year_month(text) {
        None => None,
        Some((y, m)) => {
            assert(year_month(text@) == Some((y as int, m as int)));
            let (y2, m2): (i32, i32) = if forward {
                if m + 1 == 13 {
                    (y + 1, 1)
                } else {
                    (y, m + 1)
                }
            } else {
                if m - 1 == 0 {
                    (y - 1, 12)
                } else {
                    (y, m - 1)
                }
            };
            let ys = int_to_padded_string(y2 as i64, 4);
            let ms = int_to_padded_string(m2 as i64, 2);
            Some(concat3(ys.as_str(), "-", ms.as_str()))
        },
    }
}

/// How the statistics page writes a month: "YYYY-MM".
pub open spec fn month_text(y: int, m: int) -> Seq<char> {
    signed_padded(y, 4) + "-"@ + signed_padded(m, 2)
}

/// A month written by the page reads back as that month (for years from
/// zero on).
pub proof fn lemma_month_text_reads(y: int, m: int)
    requires
        0 <= y <= i32::MAX,
        1 <= m <= 12,
    ensures
        year_month(month_text(y, m)) == Some((y, m)),
{
    let a = signed_padded(y, 4);
    let b = signed_padded(m, 2);
    crate::numbers::lemma_decimal_digits(y as nat);
    crate::numbers::lemma_decimal_digits(m as nat);
    crate::numbers::lemma_zero_pad_value(crate::numbers::decimal(y as nat), 4);
    crate::numbers::lemma_zero_pad_value(crate::numbers::decimal(m as nat), 2);
    let seps = seq!['-'];
    assert(seps.contains('-')) by {
        assert(seps[0] == '-');
    }
    assert forall|i: int| 0 <= i < a.len() implies !seps.contains(#[trigger] a[i]) by {
        assert(crate::numbers::is_digit_char(a[i]));
    }
    assert forall|i: int| 0 <= i < b.len() implies !seps.contains(#[trigger] b[i]) by {
        assert(crate::numbers::is_digit_char(b[i]));
    }
    reveal_strlit("-");
    assert(month_text(y, m) =~= a.push('-') + b);
    crate::text::lemma_split_words(a, seps);
    crate::text::lemma_split_append_sep(a, '-', seps);
    crate::text::lemma_split_extend(a.push('-'), b, seps);
    let parts = split_fields(month_text(y, m), seps);
    assert(parts =~= seq![a, b]);
    assert(crate::numbers::is_digit_char(a[0]));
    assert(crate::numbers::is_digit_char(b[0]));
    assert(parse_i32_spec(a) == Some(y));
    assert(parse_i32_spec(b) == Some(m));
    assert(seq![a, b].drop_last() =~= seq![a]);
    assert(seq![a].drop_last() =~= Seq::<Seq<char>>::empty());
    assert(seq![a].last() == a);
    assert(seq![a, b].last() == b);
    assert(month_numbers(Seq::<Seq<char>>::empty()) =~= Seq::<int>::empty());
    assert(month_numbers(seq![a]) =~= seq![y]);
    assert(month_numbers(seq![a, b]) =~= seq![y, m]);
}

/// Stepping the statistics month forward and then back returns to the
/// month one started from, and so does stepping back and then forward
/// (for months the page writes, years from zero on).
pub proof fn lemma_month_shift_undo(y: int, m: int)
    requires
        0 <= y <= i32::MAX,
        1 <= m <= 12,
    ensures
        y < i32::MAX ==> ({
            let next = if m == 12 { month_text(y + 1, 1) } else { month_text(y, m + 1) };
            &&& shifted_month(month_text(y, m), true) == Some(next)
            &&& shifted_month(next, false) == Some(month_text(y, m))
        }),
        y > 0 ==> ({
            let prev = if m == 1 { month_text(y - 1, 12) } else { month_text(y, m - 1) };
            &&& shifted_month(month_text(y, m), false) == Some(prev)
            &&& shifted_month(prev, true) == Some(month_text(y, m))
        }),
{
    lemma_month_text_reads(y, m);
    if y < i32::MAX {
        if m == 12 {
            lemma_month_text_reads(y + 1, 1);
        } else {
            lemma_month_text_reads(y, m + 1);
        }
    }
    if y > 0 {
        if m == 1 {
            lemma_month_text_reads(y - 1, 12);
        } else {
            lemma_month_text_reads(y, m - 1);
        }
    }
}

/// The month after `selected`, when it is not later than `current` (the
/// page does not move past the current month).
pub fn next_month_within(selected: &str, current: &str) -> (r: Option<String>)
    requires
        month_shift_in_range(selected@, true),
    ensures
        match shifted_month(selected@, true) {
            Some(s) => if lex_le(s, current@) {
                r is Some && r->0@ == s
            } else {
                r is None
            },
            None => r is None,
        },
{
    match shift_month(selected, true) {
        Some(s) => if str_le(s.as_str(), current) {
            Some(s)
        } else {
            None
        },
        None => None,
    }
}

/// The short name of a month number written with two digits.
pub open spec fn month_abbrev(mm: Seq<char>) -> Option<Seq<char>> {
    if mm == "01"@ {
        Some("Jan"@)
    } else if mm == "02"@ {
        Some("Feb"@)
    } else if mm == "03"@ {
        Some("Mar"@)
    } else if mm == "04"@ {
        Some("Apr"@)
    } else if mm == "05"@ {
        Some("May"@)
    } else if mm == "06"@ {
        Some("Jun"@)
    } else if mm == "07"@ {
        Some("Jul"@)
    } else if mm == "08"@ {
        Some("Aug"@)
    } else if mm == "09"@ {
        Some("Sep"@)
    } else if mm == "10"@ {
        Some("Oct"@)
    } else if mm == "11"@ {
        Some("Nov"@)
    } else if mm == "12"@ {
        Some("Dec"@)
    } else {
        None
    }
}

/// "MM" is month `m` written with two digits, as the month labels write it.
proof fn lemma_two_digit_month(m: int)
    requires
        1 <= m <= 12,
    ensures
        signed_padded(m, 2) == seq![crate::numbers::digit_char(m / 10), crate::numbers::digit_char(m % 10)],
{
    let d = crate::numbers::decimal(m as nat);
    if m < 10 {
        assert(d == seq![crate::numbers::digit_char(m)]);
        assert(crate::numbers::zeros(1) + d =~= seq![crate::numbers::digit_char(0), crate::numbers::digit_char(m)]);
    } else {
        assert(crate::numbers::decimal((m / 10) as nat) == seq![crate::numbers::digit_char(1)]);
        assert(d =~= seq![crate::numbers::digit_char(1), crate::numbers::digit_char(m % 10)]);
    }
}

/// The short name of each month, "01" to "12", is the first three letters
/// of its English name, and no two months share one.
pub proof fn lemma_month_abbrev_names(m: int, n: int)
    requires
        1 <= m <= 12,
        1 <= n <= 12,
    ensures
        month_abbrev(signed_padded(m, 2)) == Some(month_name_of(m).subrange(0, 3)),
        m != n ==> month_abbrev(signed_padded(m, 2)) != month_abbrev(signed_padded(n, 2)),
{
    lemma_month_abbrev_name(m);
    lemma_month_abbrev_name(n);
    if m != n {
        let a = month_name_of(m).subrange(0, 3);
        let b = month_name_of(n).subrange(0, 3);
        reveal_strlit("January");
        reveal_strlit("Jan");
        reveal_strlit("01");
        reveal_strlit("February");
        reveal_strlit("Feb");
        reveal_strlit("02");
        reveal_strlit("March");
        reveal_strlit("Mar");
        reveal_strlit("03");
        reveal_strlit("April");
        reveal_strlit("Apr");
        reveal_strlit("04");
        reveal_strlit("May");
        reveal_strlit("May");
        reveal_strlit("05");
        reveal_strlit("June");
        reveal_strlit("Jun");
        reveal_strlit("06");
        reveal_strlit("July");
        reveal_strlit("Jul");
        reveal_strlit("07");
        reveal_strlit("August");
        reveal_strlit("Aug");
        reveal_strlit("08");
        reveal_strlit("September");
        reveal_strlit("Sep");
        reveal_strlit("09");
        reveal_strlit("October");
        reveal_strlit("Oct");
        reveal_strlit("10");
        reveal_strlit("November");
        reveal_strlit("Nov");
        reveal_strlit("11");
        reveal_strlit("December");
        reveal_strlit("Dec");
        reveal_strlit("12");
        assert(a[0] != b[0] || a[1] != b[1] || a[2] != b[2]);
    }
}

/// A point of a monthly trend, "YYYY-MM" as the month labels write it (for
/// a year without a sign), is labelled with the first three letters of its
/// month's English name.
pub proof fn lemma_monthly_point_label(year: int, m: int)
    requires
        year >= 0,
        1 <= m <= 12,
    ensures
        chart_label(signed_decimal(year) + "-"@ + signed_padded(m, 2), "Monthly"@) == month_name_of(m).subrange(
            0,
            3,
        ),
{
    let y = signed_decimal(year);
    let mm = signed_padded(m, 2);
    crate::numbers::lemma_decimal_digits(year as nat);
    assert(y == crate::numbers::decimal(year as nat));
    lemma_two_digit_month(m);
    lemma_month_abbrev_name(m);
    reveal_strlit("-");
    let seps = seq!['-'];
    assert(seps.contains('-')) by {
        assert(seps[0] == '-');
    }
    assert forall|i: int| 0 <= i < y.len() implies !seps.contains(#[trigger] y[i]) by {
        assert(crate::numbers::is_digit_char(y[i]));
        if seps.contains(y[i]) {
            let k = choose|k: int| 0 <= k < seps.len() && seps[k] == y[i];
            assert(seps[k] == '-');
        }
    }
    assert forall|i: int| 0 <= i < mm.len() implies !seps.contains(#[trigger] mm[i]) by {
        if seps.contains(mm[i]) {
            let k = choose|k: int| 0 <= k < seps.len() && seps[k] == mm[i];
            assert(seps[k] == '-');
        }
    }
    let whole = y + "-"@ + mm;
    assert(whole =~= y.push('-') + mm);
    assert(whole[y.len() as int] == '-');
    assert(has_char(whole, '-'));
    lemma_split_words(y, seps);
    lemma_split_append_sep(y, '-', seps);
    assert(y.push('-').last() == '-');
    lemma_split_extend(y.push('-'), mm, seps);
    let parts = split_fields(whole, seps);
    assert(parts =~= seq![y, mm]);
}

/// Replacing a pattern leaves a text unchanged where the pattern's first
/// character never occurs in it.
proof fn lemma_replace_absent(s: Seq<char>, from: Seq<char>, to: Seq<char>)
    requires
        from.len() > 0,
        forall|i: int| 0 <= i < s.len() ==> s[i] != from[0],
    ensures
        replace_all(s, from, to) == s,
    decreases s.len(),
{
    if s.len() > 0 {
        assert(!crate::text::starts_with(s, from)) by {
            if crate::text::starts_with(s, from) {
                assert(s.subrange(0, from.len() as int)[0] == s[0]);
            }
        }
        lemma_replace_absent(s.drop_first(), from, to);
        assert(seq![s[0]] + s.drop_first() =~= s);
    }
}

/// The point of week `n` of a weekly trend, "Week <n>", is labelled
/// "W<n>".
pub proof fn lemma_weekly_point_label(n: int)
    ensures
        chart_label("Week "@ + signed_decimal(n), "Weekly"@) == "W"@ + signed_decimal(n),
{
    reveal_strlit("Week ");
    reveal_strlit("Weekly");
    reveal_strlit("Monthly");
    reveal_strlit("W");
    let d = signed_decimal(n);
    let from = "Week "@;
    let m: nat = if n < 0 { (-n) as nat } else { n as nat };
    crate::numbers::lemma_decimal_digits(m);
    let dm = crate::numbers::decimal(m);
    if n < 0 {
        assert(d =~= seq!['-'] + dm);
    } else {
        assert(d =~= dm);
    }
    assert forall|i: int| 0 <= i < d.len() implies d[i] != from[0] by {
        if n < 0 && i == 0 {
            assert(d[0] == '-');
        } else if n < 0 {
            assert(d[i] == dm[i - 1]);
            assert(crate::numbers::is_digit_char(dm[i - 1]));
        } else {
            assert(crate::numbers::is_digit_char(dm[i]));
        }
    }
    lemma_replace_absent(d, from, "W"@);
    let whole = from + d;
    assert(crate::text::starts_with(whole, from)) by {
        assert(whole.subrange(0, from.len() as int) =~= from);
    }
    assert(whole.subrange(from.len() as int, whole.len() as int) =~= d);
    assert("Weekly"@ != "Monthly"@) by {
        assert("Weekly"@.len() != "Monthly"@.len());
    }
}

/// The short name of month `m` is the first three letters of its name.
proof fn lemma_month_abbrev_name(m: int)
    requires
        1 <= m <= 12,
    ensures
        month_abbrev(signed_padded(m, 2)) == Some(month_name_of(m).subrange(0, 3)),
{
    lemma_two_digit_month(m);
        reveal_strlit("January");
        reveal_strlit("Jan");
        reveal_strlit("01");
        reveal_strlit("February");
        reveal_strlit("Feb");
        reveal_strlit("02");
        reveal_strlit("March");
        reveal_strlit("Mar");
        reveal_strlit("03");
        reveal_strlit("April");
        reveal_strlit("Apr");
        reveal_strlit("04");
        reveal_strlit("May");
        reveal_strlit("May");
        reveal_strlit("05");
        reveal_strlit("June");
        reveal_strlit("Jun");
        reveal_strlit("06");
        reveal_strlit("July");
        reveal_strlit("Jul");
        reveal_strlit("07");
        reveal_strlit("August");
        reveal_strlit("Aug");
        reveal_strlit("08");
        reveal_strlit("September");
        reveal_strlit("Sep");
        reveal_strlit("09");
        reveal_strlit("October");
        reveal_strlit("Oct");
        reveal_strlit("10");
        reveal_strlit("November");
        reveal_strlit("Nov");
        reveal_strlit("11");
        reveal_strlit("December");
        reveal_strlit("Dec");
        reveal_strlit("12");
    let mm = signed_padded(m, 2);
    assert(month_name_of(m).subrange(0, 3) =~= month_name_of(m).subrange(0, 3));
    if m == 1 {
        assert(mm =~= "01"@);
        assert(month_name_of(m).subrange(0, 3) =~= "Jan"@);
    }
    if m == 2 {
        assert(mm =~= "02"@);
        assert(month_name_of(m).subrange(0, 3) =~= "Feb"@);
    }
    if m == 3 {
        assert(mm =~= "03"@);
        assert(month_name_of(m).subrange(0, 3) =~= "Mar"@);
    }
    if m == 4 {
        assert(mm =~= "04"@);
        assert(month_name_of(m).subrange(0, 3) =~= "Apr"@);
    }
    if m == 5 {
        assert(mm =~= "05"@);
        assert(month_name_of(m).subrange(0, 3) =~= "May"@);
    }
    if m == 6 {
        assert(mm =~= "06"@);
        assert(month_name_of(m).subrange(0, 3) =~= "Jun"@);
    }
    if m == 7 {
        assert(mm =~= "07"@);
        assert(month_name_of(m).subrange(0, 3) =~= "Jul"@);
    }
    if m == 8 {
        assert(mm =~= "08"@);
        assert(month_name_of(m).subrange(0, 3) =~= "Aug"@);
    }
    if m == 9 {
        assert(mm =~= "09"@);
        assert(month_name_of(m).subrange(0, 3) =~= "Sep"@);
    }
    if m == 10 {
        assert(mm =~= "10"@);
        assert(month_name_of(m).subrange(0, 3) =~= "Oct"@);
    }
    if m == 11 {
        assert(mm =~= "11"@);
        assert(month_name_of(m).subrange(0, 3) =~= "Nov"@);
    }
    if m == 12 {
        assert(mm =~= "12"@);
        assert(month_name_of(m).subrange(0, 3) =~= "Dec"@);
    }
}

fn month_abbrev_of(mm: &str) -> (r: Option<&'static str>)
    ensures
        match month_abbrev(mm@) {
            Some(a) => r is Some && r->0@ == a,
            None => r is None,
        },
{
    if str_eq(mm, "01") {
        Some("Jan")
    } else if str_eq(mm, "02") {
        Some("Feb")
    } else if str_eq(mm, "03") {
        Some("Mar")
    } else if str_eq(mm, "04") {
        Some("Apr")
    } else if str_eq(mm, "05") {
        Some("May")
    } else if str_eq(mm, "06") {
        Some("Jun")
    } else if str_eq(mm, "07") {
        Some("Jul")
    } else if str_eq(mm, "08") {
        Some("Aug")
    } else if str_eq(mm, "09") {
        Some("Sep")
    } else if str_eq(mm, "10") {
        Some("Oct")
    } else if str_eq(mm, "11") {
        Some("Nov")
    } else if str_eq(mm, "12") {
        Some("Dec")
    } else {
        None
    }
}

/// The x-axis label of a trend point: for a monthly trend the month's short
/// name ("YYYY-MM" with a known month), for a weekly trend "W<n>" in place
/// of "Week <n>", and otherwise the label itself.
pub open spec fn chart_label(raw: Seq<char>, timeframe: Seq<char>) -> Seq<char> {
    if timeframe == "Monthly"@ && has_char(raw, '-') {
        let parts = split_fields(raw, seq!['-']);
        if parts.len() == 2 {
            match month_abbrev(parts[1]) {
                Some(a) => a,
                None => raw,
            }
        } else {
            raw
        }
    } else if timeframe == "Weekly"@ {
        replace_all(raw, "Week "@, "W"@)
    } else {
        raw
    }
}

/// The x-axis label of a trend point.
pub fn trend_point_label(raw: &str, timeframe: &str) -> (r: String)
    ensures
        r@ == chart_label(raw@, timeframe@),
{
    let cs = chars_of(raw);
    if str_eq(timeframe, "Monthly") && contains_char(&cs, '-') {
        let mut seps: Vec<char> = Vec::new();
        seps.push('-');
        assert(seps@ =~= seq!['-']);
        let parts = split_chars(&cs, &seps);
        if parts.len() == 2 {
            let mm = string_of(&parts[1]);
            match month_abbrev_of(mm.as_str()) {
                Some(a) => owned(a),
                None => owned(raw),
            }
        } else {
            owned(raw)
        }
    } else if str_eq(timeframe, "Weekly") {
        let from = chars_of("Week ");
        let to = chars_of("W");
        proof {
            reveal_strlit("Week ");
        }
        let r = replace_chars(&cs, &from, &to);
        string_of(&r)
    } else {
        owned(raw)
    }
}

/// The title of the lecturer's statistics page: the chosen module's title
/// when it is among the options, "Attendance Statistics" when it is not,
/// and "All Modules" when none is chosen.
pub fn statistics_title(selected: &Option<String>, option_codes: &Vec<String>, option_titles: &Vec<String>) -> (r: String)
    requires
        option_codes@.len() == option_titles@.len(),
    ensures
        match selected {
            None => r@ == "Attendance Statistics - All Modules"@,
            Some(code) => match first_index_of(views(option_codes@), code@) {
                Some(i) => r@ == "Attendance Statistics - "@ + option_titles@[i]@,
                None => r@ == "Attendance Statistics"@,
            },
        },
{
    match selected {
        None => owned("Attendance Statistics - All Modules"),
        Some(code) => {
            match find_first(option_codes, code.as_str()) {
                Some(i) => {
                    proof {
                        let ks = views(option_codes@);
                        assert(ks[i as int] == code@);
                        let c = choose|c: int|
                            0 <= c < ks.len() && ks[c] == code@ && forall|j: int| 0 <= j < c ==> ks[j] != code@;
                        assert(c == i) by {
                            if c < i {
                                assert(option_codes@[c]@ != code@);
                            }
                            if c > i {
                                assert(ks[i as int] != code@);
                            }
                        }
                    }
                    concat2("Attendance Statistics - ", option_titles[i].as_str())
                },
                None => {
                    proof {
                        let ks = views(option_codes@);
                        assert(!exists|i: int| 0 <= i < ks.len() && ks[i] == code@) by {
                            assert forall|i: int| 0 <= i < ks.len() implies ks[i] != code@ by {
                                assert(option_codes@[i]@ != code@);
                            }
                        }
                    }
                    owned("Attendance Statistics")
                },
            }
        },
    }
}

/// "Across n modules".
pub fn across_modules(count: usize) -> (r: String)
    requires
        count <= i64::MAX,
    ensures
        r@ == "Across "@ + signed_decimal(count as int) + " modules"@,
{
    let n = int_to_string(count as i64);
    concat3("Across ", n.as_str(), " modules")
}

/// `a`'s attendance rate (present over recorded) is below `b`'s, compared
/// without division: `a.present * b.recorded < b.present * a.recorded`.
pub open spec fn rate_below(a: (i64, i64), b: (i64, i64)) -> bool {
    (a.0 as int) * (b.1 as int) < (b.0 as int) * (a.1 as int)
}

/// Some attendance was recorded.
pub open spec fn counted(c: (i64, i64)) -> bool {
    c.1 > 0
}

/// No entry has any attendance recorded.
pub open spec fn none_counted(cs: Seq<(i64, i64)>) -> bool {
    forall|j: int| 0 <= j < cs.len() ==> !counted(#[trigger] cs[j])
}

/// Entry `i` has the lowest rate among the entries with attendance
/// recorded, and is the first such (as `Iterator::min_by` picks).
pub open spec fn is_first_lowest(cs: Seq<(i64, i64)>, i: int) -> bool {
    &&& 0 <= i < cs.len()
    &&& counted(cs[i])
    &&& forall|j: int| 0 <= j < cs.len() && counted(#[trigger] cs[j]) ==> !rate_below(cs[j], cs[i])
    &&& forall|j: int| 0 <= j < i && counted(#[trigger] cs[j]) ==> rate_below(cs[i], cs[j])
}

/// Entry `i` has the highest rate among the entries with attendance
/// recorded, and is the last such (as `Iterator::max_by` picks).
pub open spec fn is_last_highest(cs: Seq<(i64, i64)>, i: int) -> bool {
    &&& 0 <= i < cs.len()
    &&& counted(cs[i])
    &&& forall|j: int| 0 <= j < cs.len() && counted(#[trigger] cs[j]) ==> !rate_below(cs[i], cs[j])
    &&& forall|j: int| i < j < cs.len() && counted(#[trigger] cs[j]) ==> rate_below(cs[j], cs[i])
}

/// Rates compare as fractions present over recorded: with as many classes
/// recorded, fewer present is the lower rate; with as many present (some),
/// more recorded is the lower rate; and a rate is unchanged when both
/// counts are scaled alike.
pub proof fn lemma_rate_compares_fractions(a: (i64, i64), b: (i64, i64), k: int)
    requires
        counted(a),
        counted(b),
        k > 0,
    ensures
        a.1 == b.1 ==> (rate_below(a, b) <==> a.0 < b.0),
        a.0 == b.0 && a.0 > 0 ==> (rate_below(a, b) <==> a.1 > b.1),
        !rate_below(a, a),
        (a.0 as int) * k <= i64::MAX && (a.1 as int) * k <= i64::MAX && (a.0 as int) * k >= i64::MIN ==> (
        rate_below(((a.0 * k) as i64, (a.1 * k) as i64), b) == rate_below(a, b) && rate_below(
            b,
            ((a.0 * k) as i64, (a.1 * k) as i64),
        ) == rate_below(b, a)),
{
    let (p, r) = (a.0 as int, a.1 as int);
    let (q, s) = (b.0 as int, b.1 as int);
    if r == s {
        assert(p * s < q * r <==> p < q) by (nonlinear_arith)
            requires
                r == s,
                s > 0,
        ;
    }
    if p == q && p > 0 {
        assert(p * s < q * r <==> r > s) by (nonlinear_arith)
            requires
                p == q,
                p > 0,
        ;
    }
    if p * k <= i64::MAX && r * k <= i64::MAX && p * k >= i64::MIN {
        assert(((p * k) * s < q * (r * k)) <==> (p * s < q * r)) by (nonlinear_arith)
            requires
                k > 0,
        ;
        assert((q * (r * k) < (p * k) * s) <==> (q * r < p * s)) by (nonlinear_arith)
            requires
                k > 0,
        ;
    }
}

/// A rate below one that is not above a third is below the third.
proof fn lemma_rate_below_trans(a: (i64, i64), b: (i64, i64), c: (i64, i64))
    requires
        counted(a),
        counted(b),
        counted(c),
        rate_below(a, b),
        !rate_below(c, b),
    ensures
        rate_below(a, c),
{
    let (p1, q1, p2, q2, p3, q3) = (a.0 as int, a.1 as int, b.0 as int, b.1 as int, c.0 as int, c.1 as int);
    assert(p1 * q3 < p3 * q1) by (nonlinear_arith)
        requires
            q1 > 0,
            q2 > 0,
            q3 > 0,
            p1 * q2 < p2 * q1,
            p2 * q3 <= p3 * q2,
    {
        assert(p1 * q2 * q3 < p2 * q1 * q3);
        assert(p2 * q3 * q1 <= p3 * q2 * q1);
        assert(q2 * (p1 * q3) < q2 * (p3 * q1));
    }
}

/// Rates not above one another chain.
proof fn lemma_rate_not_below_trans(a: (i64, i64), b: (i64, i64), c: (i64, i64))
    requires
        counted(a),
        counted(b),
        counted(c),
        !rate_below(b, a),
        !rate_below(c, b),
    ensures
        !rate_below(c, a),
{
    let (p1, q1, p2, q2, p3, q3) = (a.0 as int, a.1 as int, b.0 as int, b.1 as int, c.0 as int, c.1 as int);
    assert(p1 * q3 <= p3 * q1) by (nonlinear_arith)
        requires
            q1 > 0,
            q2 > 0,
            q3 > 0,
            p1 * q2 <= p2 * q1,
            p2 * q3 <= p3 * q2,
    {
        assert(p1 * q2 * q3 <= p2 * q1 * q3);
        assert(p2 * q3 * q1 <= p3 * q2 * q1);
        assert(q2 * (p1 * q3) <= q2 * (p3 * q1));
    }
}

/// Whether `a`'s rate is below `b`'s.
fn below(a: (i64, i64), b: (i64, i64)) -> (r: bool)
    ensures
        r == rate_below(a, b),
{
    let (p1, q1, p2, q2) = (a.0 as i128, a.1 as i128, b.0 as i128, b.1 as i128);
    assert(-0x4000_0000_0000_0000_0000_0000_0000_0000 <= p1 * q2 <= 0x4000_0000_0000_0000_0000_0000_0000_0000)
        by (nonlinear_arith)
        requires
            -0x8000_0000_0000_0000 <= p1 <= 0x7fff_ffff_ffff_ffff,
            -0x8000_0000_0000_0000 <= q2 <= 0x7fff_ffff_ffff_ffff,
    ;
    assert(-0x4000_0000_0000_0000_0000_0000_0000_0000 <= p2 * q1 <= 0x4000_0000_0000_0000_0000_0000_0000_0000)
        by (nonlinear_arith)
        requires
            -0x8000_0000_0000_0000 <= p2 <= 0x7fff_ffff_ffff_ffff,
            -0x8000_0000_0000_0000 <= q1 <= 0x7fff_ffff_ffff_ffff,
    ;
    p1 * q2 < p2 * q1
}

/// The entry with the lowest attendance rate (the first of equals), among
/// those with attendance recorded; none when none has.
pub fn lowest_rate(cs: &Vec<(i64, i64)>) -> (r: Option<usize>)
    ensures
        match r {
            Some(i) => is_first_lowest(cs@, i as int),
            None => none_counted(cs@),
        },
{
    let mut best: Option<usize> = None;
    let mut i: usize = 0;
    while i < cs.len()
        invariant
            0 <= i <= cs.len(),
            match best {
                Some(b) => {
                    &&& b < i
                    &&& counted(cs@[b as int])
                    &&& forall|j: int| 0 <= j < i && counted(#[trigger] cs@[j]) ==> !rate_below(cs@[j], cs@[b as int])
                    &&& forall|j: int| 0 <= j < b && counted(#[trigger] cs@[j]) ==> rate_below(cs@[b as int], cs@[j])
                },
                None => forall|j: int| 0 <= j < i ==> !counted(#[trigger] cs@[j]),
            },
        decreases cs.len() - i,
    {
        let c = cs[i];
        if c.1 > 0 {
            match best {
                None => {
                    best = Some(i);
                },
                Some(b) => {
                    if below(c, cs[b]) {
                        proof {
                            assert forall|j: int| 0 <= j < i && counted(#[trigger] cs@[j]) implies rate_below(
                                cs@[i as int],
                                cs@[j],
                            ) by {
                                lemma_rate_below_trans(cs@[i as int], cs@[b as int], cs@[j]);
                            }
                            assert forall|j: int| 0 <= j < i + 1 && counted(#[trigger] cs@[j]) implies !rate_below(
                                cs@[j],
                                cs@[i as int],
                            ) by {
                                if j < i {
                                    lemma_rate_below_trans(cs@[i as int], cs@[b as int], cs@[j]);
                                }
                            }
                        }
                        best = Some(i);
                    }
                },
            }
        }
        i = i + 1;
    }
    best
}

/// The entry with the highest attendance rate (the last of equals), among
/// those with attendance recorded; none when none has.
pub fn highest_rate(cs: &Vec<(i64, i64)>) -> (r: Option<usize>)
    ensures
        match r {
            Some(i) => is_last_highest(cs@, i as int),
            None => none_counted(cs@),
        },
{
    let mut best: Option<usize> = None;
    let mut i: usize = 0;
    while i < cs.len()
        invariant
            0 <= i <= cs.len(),
            match best {
                Some(b) => {
                    &&& b < i
                    &&& counted(cs@[b as int])
                    &&& forall|j: int| 0 <= j < i && counted(#[trigger] cs@[j]) ==> !rate_below(cs@[b as int], cs@[j])
                    &&& forall|j: int| b < j < i && counted(#[trigger] cs@[j]) ==> rate_below(cs@[j], cs@[b as int])
                },
                None => forall|j: int| 0 <= j < i ==> !counted(#[trigger] cs@[j]),
            },
        decreases cs.len() - i,
    {
        let c = cs[i];
        if c.1 > 0 {
            match best {
                None => {
                    best = Some(i);
                },
                Some(b) => {
                    if !below(c, cs[b]) {
                        proof {
                            assert forall|j: int| 0 <= j < i + 1 && counted(#[trigger] cs@[j]) implies !rate_below(
                                cs@[i as int],
                                cs@[j],
                            ) by {
                                if j < i {
                                    lemma_rate_not_below_trans(cs@[j], cs@[b as int], cs@[i as int]);
                                }
                            }
                        }
                        best = Some(i);
                    }
                },
            }
        }
        i = i + 1;
    }
    best
}

/// Only one entry is the first lowest, and only one the last highest.
pub proof fn lemma_rate_choice_unique(cs: Seq<(i64, i64)>, i: int, k: int)
    ensures
        is_first_lowest(cs, i) && is_first_lowest(cs, k) ==> i == k,
        is_last_highest(cs, i) && is_last_highest(cs, k) ==> i == k,
{
    if is_first_lowest(cs, i) && is_first_lowest(cs, k) && i != k {
        if i < k {
            assert(rate_below(cs[k], cs[i]));
            assert(!rate_below(cs[k], cs[i]));
        } else {
            assert(rate_below(cs[i], cs[k]));
            assert(!rate_below(cs[i], cs[k]));
        }
    }
    if is_last_highest(cs, i) && is_last_highest(cs, k) && i != k {
        if i < k {
            assert(rate_below(cs[k], cs[i]));
            assert(!rate_below(cs[i], cs[k]) && !rate_below(cs[k], cs[i]));
        } else {
            assert(rate_below(cs[i], cs[k]));
            assert(!rate_below(cs[i], cs[k]));
        }
    }
}

/// The present and recorded counts of a student's modules.
pub open spec fn module_counts(ms: Seq<StudentModuleBreakdown>) -> Seq<(i64, i64)> {
    Seq::new(ms.len(), |i: int| (ms[i].present, ms[i].recorded))
}

/// The present and recorded counts of the days of a week.
pub open spec fn day_counts(ps: Seq<StudentWeeklyAttendancePoint>) -> Seq<(i64, i64)> {
    Seq::new(ps.len(), |i: int| (ps[i].present, ps[i].recorded))
}

fn counts_of_modules(ms: &Vec<StudentModuleBreakdown>) -> (r: Vec<(i64, i64)>)
    ensures
        r@ == module_counts(ms@),
{
    let mut out: Vec<(i64, i64)> = Vec::new();
    let mut i: usize = 0;
    while i < ms.len()
        invariant
            0 <= i <= ms.len(),
            out@ =~= module_counts(ms@).subrange(0, i as int),
        decreases ms.len() - i,
    {
        out.push((ms[i].present, ms[i].recorded));
        i = i + 1;
    }
    out
}

fn counts_of_days(ps: &Vec<StudentWeeklyAttendancePoint>) -> (r: Vec<(i64, i64)>)
    ensures
        r@ == day_counts(ps@),
{
    let mut out: Vec<(i64, i64)> = Vec::new();
    let mut i: usize = 0;
    while i < ps.len()
        invariant
            0 <= i <= ps.len(),
            out@ =~= day_counts(ps@).subrange(0, i as int),
        decreases ps.len() - i,
    {
        out.push((ps[i].present, ps[i].recorded));
        i = i + 1;
    }
    out
}

/// The student's most missed module: the lowest attendance rate (the first
/// of equals) among modules with attendance recorded.
pub fn most_missed_module(modules: &Vec<StudentModuleBreakdown>) -> (r: Option<usize>)
    ensures
        match r {
            Some(i) => is_first_lowest(module_counts(modules@), i as int),
            None => none_counted(module_counts(modules@)),
        },
{
    let cs = counts_of_modules(modules);
    lowest_rate(&cs)
}

/// The student's best module: the highest attendance rate (the last of
/// equals) among modules with attendance recorded.
pub fn best_module(modules: &Vec<StudentModuleBreakdown>) -> (r: Option<usize>)
    ensures
        match r {
            Some(i) => is_last_highest(module_counts(modules@), i as int),
            None => none_counted(module_counts(modules@)),
        },
{
    let cs = counts_of_modules(modules);
    highest_rate(&cs)
}

/// The day of the week with most absences: the lowest attendance rate (the
/// first of equals) among days with attendance recorded.
pub fn worst_day(points: &Vec<StudentWeeklyAttendancePoint>) -> (r: Option<usize>)
    ensures
        match r {
            Some(i) => is_first_lowest(day_counts(points@), i as int),
            None => none_counted(day_counts(points@)),
        },
{
    let cs = counts_of_days(points);
    lowest_rate(&cs)
}

/// The note on the most missed module: its title and "needs attention",
/// or "All modules are on track" when no module has attendance recorded.
pub fn most_missed_note(modules: &Vec<StudentModuleBreakdown>) -> (r: String)
    ensures
        none_counted(module_counts(modules@)) ==> r@ == "All modules are on track"@,
        forall|i: int|
            is_first_lowest(module_counts(modules@), i) ==> r@ == modules@[i].module_title@ + " needs attention"@,
{
    match most_missed_module(modules) {
        Some(i) => {
            proof {
                assert forall|k: int| is_first_lowest(module_counts(modules@), k) implies k == i by {
                    lemma_rate_choice_unique(module_counts(modules@), i as int, k);
                }
            }
            concat2(modules[i].module_title.as_str(), " needs attention")
        },
        None => owned("All modules are on track"),
    }
}

/// The note on the best module: "Great job in" and its title, or "Keep up
/// the consistency" when no module has attendance recorded.
pub fn best_module_note(modules: &Vec<StudentModuleBreakdown>) -> (r: String)
    ensures
        none_counted(module_counts(modules@)) ==> r@ == "Keep up the consistency"@,
        forall|i: int|
            is_last_highest(module_counts(modules@), i) ==> r@ == "Great job in "@ + modules@[i].module_title@,
{
    match best_module(modules) {
        Some(i) => {
            proof {
                assert forall|k: int| is_last_highest(module_counts(modules@), k) implies k == i by {
                    lemma_rate_choice_unique(module_counts(modules@), i as int, k);
                }
            }
            concat2("Great job in ", modules[i].module_title.as_str())
        },
        None => owned("Keep up the consistency"),
    }
}

} // verus!
