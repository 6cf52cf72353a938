//! Scheduling classes: the checks on class forms, the requests built from
//! them, and the dates of recurring series.
use vstd::prelude::*;
use crate::dates::{date_format, iso_date_days, format_date, parse_iso_date};
use crate::models::{Class, CreateClassRequest, UpdateClassRequest};
use crate::numbers::{
    decimal, int_to_padded_string, int_to_string, parse_i32, parse_i32_spec, parse_u32,
    parse_u32_spec, signed_decimal, signed_padded,
};
use crate::text::{views, blank, concat3, is_blank, owned, str_eq, trim, trim_str};

verus! {

/// The answer to a request about one class.
#[derive(Clone, Debug, PartialEq)]
pub struct ClassResponse {
    pub success: bool,
    pub message: String,
    pub class: Option<Class>,
}

/// The characters that an optional string holds.
pub open spec fn opt_view(o: Option<String>) -> Option<Seq<char>> {
    match o {
        Some(s) => Some(s@),
        None => None,
    }
}

/// An optional text field kept only when it holds something besides white
/// space (the text itself is kept as given).
pub open spec fn non_blank_field(o: Option<Seq<char>>) -> Option<Seq<char>> {
    match o {
        Some(s) => if is_blank(s) { None } else { Some(s) },
        None => None,
    }
}

/// A copy of an optional string.
pub fn copy_opt(o: &Option<String>) -> (r: Option<String>)
    ensures
        r == *o,
{
    match o {
        Some(s) => Some(s.clone()),
        None => None,
    }
}

/// `o.filter(|s| !s.trim().is_empty())` on a copy of `o`.
pub fn keep_non_blank(o: &Option<String>) -> (r: Option<String>)
    ensures
        opt_view(r) == non_blank_field(opt_view(*o)),
{
    match o {
        Some(s) => if blank(s.as_str()) {
            None
        } else {
            Some(s.clone())
        },
        None => None,
    }
}

/// The first check that a new class fails, if any.
pub open spec fn new_class_error(title: Seq<char>, date: Seq<char>, time: Seq<char>, duration: int) -> Option<
    Seq<char>,
> {
    if is_blank(title) {
        Some("Class title is required"@)
    } else if is_blank(date) || is_blank(time) {
        Some("Date and time are required"@)
    } else if duration <= 0 {
        Some("Please choose a valid duration"@)
    } else {
        None
    }
}

/// Checks the fields of a new class; the refusal message, if any.
pub fn check_new_class(title: &str, date: &str, time: &str, duration_minutes: i32) -> (r: Option<&'static str>)
    ensures
        match new_class_error(title@, date@, time@, duration_minutes as int) {
            Some(m) => r is Some && r->0@ == m,
            None => r is None,
        },
{
    if blank(title) {
        return Some("Class title is required");
    }
    if blank(date) || blank(time) {
        return Some("Date and time are required");
    }
    if duration_minutes <= 0 {
        return Some("Please choose a valid duration");
    }
    None
}

/// A new class is accepted exactly when its title, date and time are not
/// blank and its duration is positive, whatever the duration's size; a
/// refusal names the first of those that fails.
pub proof fn lemma_new_class_accepted(title: Seq<char>, date: Seq<char>, time: Seq<char>, duration: int)
    ensures
        new_class_error(title, date, time, duration) is None <==> (!is_blank(title) && !is_blank(date)
            && !is_blank(time) && duration > 0),
        is_blank(title) ==> new_class_error(title, date, time, duration) == Some("Class title is required"@),
        !is_blank(title) && (is_blank(date) || is_blank(time)) ==> new_class_error(title, date, time, duration)
            == Some("Date and time are required"@),
        !is_blank(title) && !is_blank(date) && !is_blank(time) && duration <= 0 ==> new_class_error(
            title,
            date,
            time,
            duration,
        ) == Some("Please choose a valid duration"@),
{
}

/// The answer that refuses a class request with `message`.
pub fn class_refused(message: &str) -> (r: ClassResponse)
    ensures
        !r.success,
        r.message@ == message@,
        r.class is None,
{
    ClassResponse { success: false, message: owned(message), class: None }
}

/// The message when a class names a module that does not exist.
pub fn unknown_module_message(module_code: &str) -> (m: String)
    ensures
        m@ == "Module '"@ + module_code@ + "' does not exist"@,
{
    concat3("Module '", module_code, "' does not exist")
}

/// The repeat pattern that a new class stores: none when the form left it
/// blank or chose "No repeat".
pub open spec fn stored_pattern(recurring: Option<Seq<char>>) -> Option<Seq<char>> {
    match recurring {
        Some(s) => if is_blank(s) || s == "No repeat"@ { None } else { Some(s) },
        None => None,
    }
}

/// Builds the request for the first class of a new class (or series): title
/// trimmed, blank venue and description dropped, the repeat pattern as
/// `stored_pattern` keeps it.
pub fn new_class_request(
    module_code: &str,
    title: &str,
    venue: &Option<String>,
    description: &Option<String>,
    recurring: &Option<String>,
    date: &str,
    time: &str,
    duration_minutes: i32,
) -> (r: CreateClassRequest)
    ensures
        r.module_code@ == module_code@,
        r.title@ == trim(title@),
        opt_view(r.venue) == non_blank_field(opt_view(*venue)),
        opt_view(r.description) == non_blank_field(opt_view(*description)),
        opt_view(r.recurring) == stored_pattern(opt_view(*recurring)),
        r.date@ == date@,
        r.time@ == time@,
        r.duration_minutes == duration_minutes,
{
    let pattern = match recurring {
        Some(s) => if blank(s.as_str()) || str_eq(s.as_str(), "No repeat") {
            None
        } else {
            Some(s.clone())
        },
        None => None,
    };
    CreateClassRequest {
        module_code: owned(module_code),
        title: trim_str(title),
        venue: keep_non_blank(venue),
        description: keep_non_blank(description),
        recurring: pattern,
        date: owned(date),
        time: owned(time),
        duration_minutes,
    }
}

/// A series repeats when a pattern other than "No repeat" was chosen.
pub open spec fn repeats(recurring: Option<Seq<char>>) -> bool {
    match recurring {
        Some(p) => p != "No repeat"@,
        None => false,
    }
}

/// Whether the chosen pattern makes a series.
pub fn is_repeating(recurring: &Option<String>) -> (b: bool)
    ensures
        b == repeats(opt_view(*recurring)),
{
    match recurring {
        Some(p) => !str_eq(p.as_str(), "No repeat"),
        None => false,
    }
}

/// Days between the classes of a series: daily 1, weekly 7, monthly 30,
/// and weekly for any other pattern.
pub open spec fn interval_days(pattern: Seq<char>) -> int {
    if pattern == "Daily"@ {
        1
    } else if pattern == "Weekly"@ {
        7
    } else if pattern == "Monthly"@ {
        30
    } else {
        7
    }
}

/// A daily series repeats every day, a weekly one every seven days, a
/// monthly one every thirty days, and any other pattern weekly.
pub proof fn lemma_series_intervals(pattern: Seq<char>)
    ensures
        interval_days("Daily"@) == 1,
        interval_days("Weekly"@) == 7,
        interval_days("Monthly"@) == 30,
        pattern != "Daily"@ && pattern != "Monthly"@ ==> interval_days(pattern) == 7,
{
    reveal_strlit("Daily");
    reveal_strlit("Weekly");
    reveal_strlit("Monthly");
    assert("Weekly"@ != "Daily"@) by {
        assert("Weekly"@.len() != "Daily"@.len());
    }
    assert("Monthly"@ != "Daily"@) by {
        assert("Monthly"@.len() != "Daily"@.len());
    }
    assert("Monthly"@ != "Weekly"@) by {
        assert("Monthly"@.len() != "Weekly"@.len());
    }
}

/// The gap between the classes of a series of `pattern`, in days.
pub fn repeat_interval(pattern: &str) -> (d: i64)
    ensures
        d == interval_days(pattern@),
{
    if str_eq(pattern, "Daily") {
        1
    } else if str_eq(pattern, "Weekly") {
        7
    } else if str_eq(pattern, "Monthly") {
        30
    } else {
        7
    }
}

/// How many classes a new series has: the count given, eight by default.
pub open spec fn series_length(count: Option<i32>) -> int {
    match count {
        Some(c) => c as int,
        None => 8,
    }
}

/// The day numbers of the further classes of a series of `count` classes
/// that starts on day `start`, `interval` days apart.
pub open spec fn further_days(start: int, interval: int, count: int) -> Seq<int> {
    Seq::new(if count > 1 { (count - 1) as nat } else { 0 }, |k: int| start + interval * (k + 1))
}

/// The further classes of a series follow the first one at equal steps of
/// the series' interval, one fewer than the series has classes.
pub proof fn lemma_series_evenly_spaced(start: int, interval: int, count: int)
    ensures
        further_days(start, interval, count).len() == if count > 1 { count - 1 } else { 0 },
        count > 1 ==> further_days(start, interval, count)[0] == start + interval,
        forall|k: int|
            0 <= k < further_days(start, interval, count).len() - 1 ==> #[trigger] further_days(
                start,
                interval,
                count,
            )[k + 1] == further_days(start, interval, count)[k] + interval,
{
    let d = further_days(start, interval, count);
    assert forall|k: int| 0 <= k < d.len() - 1 implies #[trigger] d[k + 1] == d[k] + interval by {
        assert(d[k + 1] == start + interval * (k + 2));
        assert(d[k] == start + interval * (k + 1));
        assert(interval * (k + 2) == interval * (k + 1) + interval) by (nonlinear_arith);
    }
}

/// The ISO dates of the further classes of a series (after the first one
/// on `date`): none when `date` is no ISO date; otherwise one per further
/// class, in order, up to the first that falls outside chrono's calendar.
pub open spec fn further_dates_ok(date: Seq<char>, interval: int, count: int, r: Seq<Seq<char>>) -> bool {
    match iso_date_days(date) {
        None => r.len() == 0,
        Some(start) => {
            let days = further_days(start as int, interval, count);
            &&& r.len() <= days.len()
            &&& forall|k: int|
                0 <= k < r.len() ==> i32::MIN <= #[trigger] days[k] <= i32::MAX && date_format(
                    days[k] as i32,
                    "%Y-%m-%d"@,
                ) == Some(r[k])
            &&& r.len() < days.len() ==> !(i32::MIN <= days[r.len() as int] <= i32::MAX)
                || date_format(days[r.len() as int] as i32, "%Y-%m-%d"@) is None
        },
    }
}

/// The dates of the further classes of a series of `count` classes, the
/// first on `date`, repeating by `pattern` (see `further_dates_ok`).
pub fn further_dates(date: &str, pattern: &str, count: i32) -> (r: Vec<String>)
    ensures
        further_dates_ok(date@, interval_days(pattern@), count as int, views(r@)),
{
    let mut out: Vec<String> = Vec::new();
    let start = match parse_iso_date(date) {
        Some(d) => d,
        None => {
            assert(views(out@) =~= Seq::<Seq<char>>::empty());
            return out;
        },
    };
    let interval = repeat_interval(pattern);
    let ghost days = further_days(start as int, interval as int, count as int);
    let mut i: i64 = 1;
    while i < count as i64
        invariant
            1 <= i <= i32::MAX,
            i <= count || i == 1,
            iso_date_days(date@) == Some(start),
            days == further_days(start as int, interval as int, count as int),
            1 <= interval <= 30,
            interval == interval_days(pattern@),
            out.len() == i - 1,
            forall|k: int|
                0 <= k < out.len() ==> i32::MIN <= #[trigger] days[k] <= i32::MAX && date_format(
                    days[k] as i32,
                    "%Y-%m-%d"@,
                ) == Some(out@[k]@),
        decreases count - i,
    {
        assert(interval * i <= 30 * 0x7fff_ffff) by (nonlinear_arith)
            requires
                1 <= interval <= 30,
                1 <= i <= 0x7fff_ffff,
        ;
        assert(interval * i >= 0) by (nonlinear_arith)
            requires
                1 <= interval,
                1 <= i,
        ;
        let d: i64 = (start as i64) + interval * i;
        assert(days[i - 1] == d);
        if d < i32::MIN as i64 || d > i32::MAX as i64 {
            assert forall|k: int| 0 <= k < out.len() implies views(out@)[k] == out@[k]@ by {}
            return out;
        }
        match format_date(d as i32, "%Y-%m-%d") {
            Some(s) => {
                out.push(s);
            },
            None => {
                assert forall|k: int| 0 <= k < out.len() implies views(out@)[k] == out@[k]@ by {}
                return out;
            },
        }
        i = i + 1;
    }
    assert(days.len() == out.len());
    assert forall|k: int| 0 <= k < out.len() implies views(out@)[k] == out@[k]@ by {}
    assert(views(out@).len() == days.len());
    out
}

/// The message after creating a class or a series.
pub open spec fn created_message(recurring: Option<Seq<char>>, count: Option<i32>) -> Seq<char> {
    if repeats(recurring) {
        "Created "@ + signed_decimal(series_length(count)) + " recurring class instances successfully!"@
    } else {
        "Class created successfully!"@
    }
}

/// The message after creating a class or a series.
pub fn class_created_message(recurring: &Option<String>, count: Option<i32>) -> (m: String)
    ensures
        m@ == created_message(opt_view(*recurring), count),
{
    if is_repeating(recurring) {
        let n: i32 = match count {
            Some(c) => c,
            None => 8,
        };
        let digits = int_to_string(n as i64);
        concat3("Created ", digits.as_str(), " recurring class instances successfully!")
    } else {
        owned("Class created successfully!")
    }
}

/// The answer after the first class of a request was stored.
pub fn class_created(class: Class, recurring: &Option<String>, count: Option<i32>) -> (r: ClassResponse)
    ensures
        r.success,
        r.message@ == created_message(opt_view(*recurring), count),
        r.class == Some(class),
{
    ClassResponse { success: true, message: class_created_message(recurring, count), class: Some(class) }
}

/// The first check that a class update fails, if any.
pub open spec fn update_class_error(title: Seq<char>, date: Seq<char>, duration: int) -> Option<Seq<char>> {
    if is_blank(title) {
        Some("Class title is required"@)
    } else if is_blank(date) {
        Some("Class date is required"@)
    } else if duration <= 0 {
        Some("Please choose a valid duration"@)
    } else {
        None
    }
}

/// Checks a class update and builds the stored request: title, date and
/// time trimmed; blank description, venue and pattern dropped.
pub fn class_update_request(
    title: &str,
    description: &Option<String>,
    date: &str,
    time: &str,
    duration_minutes: i32,
    venue: &Option<String>,
    recurring: &Option<String>,
) -> (r: Result<UpdateClassRequest, &'static str>)
    ensures
        match update_class_error(title@, date@, duration_minutes as int) {
            Some(m) => r is Err && r->Err_0@ == m,
            None => r is Ok && r->Ok_0.title@ == trim(title@) && opt_view(r->Ok_0.description)
                == non_blank_field(opt_view(*description)) && r->Ok_0.date@ == trim(date@)
                && r->Ok_0.time@ == trim(time@) && r->Ok_0.duration_minutes == duration_minutes
                && opt_view(r->Ok_0.venue) == non_blank_field(opt_view(*venue)) && opt_view(
                r->Ok_0.recurring,
            ) == non_blank_field(opt_view(*recurring)),
        },
{
    if blank(title) {
        return Err("Class title is required");
    }
    if blank(date) {
        return Err("Class date is required");
    }
    if duration_minutes <= 0 {
        return Err("Please choose a valid duration");
    }
    Ok(UpdateClassRequest {
        title: trim_str(title),
        description: keep_non_blank(description),
        date: trim_str(date),
        time: trim_str(time),
        duration_minutes,
        venue: keep_non_blank(venue),
        recurring: keep_non_blank(recurring),
    })
}

/// How many classes a rewritten series holds: the new count (at least one)
/// when given, else as many as the old series had (at least one).
pub open spec fn rewrite_total(new_count: Option<i32>, old_total: int) -> int {
    match new_count {
        Some(c) => if c < 1 { 1 } else { c as int },
        None => if old_total < 1 { 1 } else { old_total },
    }
}

/// How many classes a rewritten series holds.
pub fn rewritten_series_total(new_count: Option<i32>, old_total: usize) -> (n: usize)
    ensures
        n == rewrite_total(new_count, old_total as int),
{
    match new_count {
        Some(c) => if c < 1 {
            1
        } else {
            c as usize
        },
        None => if old_total < 1 {
            1
        } else {
            old_total
        },
    }
}

/// The classes of the old series to delete: all but the edited one, in order.
pub open spec fn others(ids: Seq<i64>, keep: i64) -> Seq<i64>
    decreases ids.len(),
{
    if ids.len() == 0 {
        ids
    } else if ids.last() != keep {
        others(ids.drop_last(), keep).push(ids.last())
    } else {
        others(ids.drop_last(), keep)
    }
}

/// The classes of the old series to delete when `keep` is rewritten.
pub fn series_to_delete(ids: &Vec<i64>, keep: i64) -> (r: Vec<i64>)
    ensures
        r@ == others(ids@, keep),
{
    let mut out: Vec<i64> = Vec::new();
    let mut i: usize = 0;
    while i < ids.len()
        invariant
            0 <= i <= ids.len(),
            out@ == others(ids@.subrange(0, i as int), keep),
        decreases ids.len() - i,
    {
        proof {
            let p = ids@.subrange(0, i as int);
            assert(ids@.subrange(0, i + 1) =~= p.push(ids@[i as int]));
            assert(p.push(ids@[i as int]).drop_last() =~= p);
        }
        if ids[i] != keep {
            out.push(ids[i]);
        }
        i = i + 1;
    }
    assert(ids@.subrange(0, ids.len() as int) =~= ids@);
    out
}

/// The message after rewriting a series; `created` counts the classes added
/// beside the edited one.
pub open spec fn rewrite_message(new_pattern: Option<Seq<char>>, created: int) -> Seq<char> {
    match new_pattern {
        Some(p) => "Series updated to '"@ + p + "' recurrence. Now "@ + signed_decimal(created + 1)
            + " instance(s) in total."@,
        None => "Series updated to 'No repeat'. Removed future instances."@,
    }
}

/// The message after rewriting a series.
pub fn series_rewritten_message(new_pattern: &Option<String>, created: u32) -> (m: String)
    ensures
        m@ == rewrite_message(opt_view(*new_pattern), created as int),
{
    match new_pattern {
        Some(p) => {
            let n = int_to_string((created as i64) + 1);
            let mut s = concat3("Series updated to '", p.as_str(), "' recurrence. Now ");
            s.append(n.as_str());
            s.append(" instance(s) in total.");
            s
        },
        None => owned("Series updated to 'No repeat'. Removed future instances."),
    }
}

/// The message after updating the upcoming classes of a series.
pub fn series_updated_message(count: u32) -> (m: String)
    ensures
        m@ == "Updated "@ + signed_decimal(count as int) + " classes in the series"@,
{
    let n = int_to_string(count as i64);
    concat3("Updated ", n.as_str(), " classes in the series")
}

/// The message after changing a class's status.
pub fn status_changed_message(status: &str) -> (m: String)
    ensures
        m@ == "Class status updated to "@ + status@,
{
    crate::text::concat2("Class status updated to ", status)
}

/// What the class editor submits.
#[derive(Clone, Debug, PartialEq)]
pub struct ClassEdit {
    pub time: String,
    pub venue: Option<String>,
    pub description: Option<String>,
    pub recurring: Option<String>,
    pub recurrence_count: Option<i32>,
    pub duration_minutes: i32,
    /// Whether the whole series is rewritten rather than this class updated.
    pub rewrite_series: bool,
}

/// A form's repeat choice: none for "No repeat".
pub open spec fn chosen_pattern(recurring: Seq<char>) -> Option<Seq<char>> {
    if recurring == "No repeat"@ {
        None
    } else {
        Some(recurring)
    }
}

/// The recurrence count of a form: read only when the class repeats.
pub open spec fn chosen_count(recurring: Seq<char>, count_text: Seq<char>) -> Option<int> {
    if recurring == "No repeat"@ {
        None
    } else {
        parse_i32_spec(count_text)
    }
}

/// The duration of a form: the number given (90 when unreadable), at least 15.
pub open spec fn chosen_duration(duration_text: Seq<char>) -> int {
    let d = match parse_i32_spec(duration_text) {
        Some(v) => v,
        None => 90,
    };
    if d < 15 {
        15
    } else {
        d
    }
}

/// The optional text of a form field: none when blank.
pub open spec fn optional_text(s: Seq<char>) -> Option<Seq<char>> {
    if is_blank(s) {
        None
    } else {
        Some(s)
    }
}

/// The optional text of a form field.
pub fn optional_field(s: &str) -> (r: Option<String>)
    ensures
        opt_view(r) == optional_text(s@),
{
    if blank(s) {
        None
    } else {
        Some(owned(s))
    }
}

/// The repeat choice and count of a form.
fn pattern_and_count(recurring: &str, count_text: &str) -> (r: (Option<String>, Option<i32>))
    ensures
        opt_view(r.0) == chosen_pattern(recurring@),
        match chosen_count(recurring@, count_text@) {
            Some(c) => r.1 == Some(c as i32),
            None => r.1 is None,
        },
{
    if str_eq(recurring, "No repeat") {
        (None, None)
    } else {
        (Some(owned(recurring)), parse_i32(count_text))
    }
}

/// The duration of a form.
pub fn form_duration(duration_text: &str) -> (d: i32)
    ensures
        d == chosen_duration(duration_text@),
{
    let d = match parse_i32(duration_text) {
        Some(v) => v,
        None => 90,
    };
    if d < 15 {
        15
    } else {
        d
    }
}

/// Plans the submission of the class editor: refused without a title or a
/// date; otherwise the time "hour:minute", the optional fields, the repeat
/// choice and count, the duration, and whether the series is rewritten:
/// exactly when the repeat pattern changed; otherwise only this class is
/// updated.
pub fn plan_class_edit(
    title: &str,
    date: &str,
    hour: &str,
    minute: &str,
    venue: &str,
    description: &str,
    recurring: &str,
    count_text: &str,
    duration_text: &str,
    stored_recurring: &Option<String>,
) -> (r: Result<ClassEdit, &'static str>)
    ensures
        is_blank(title@) ==> r is Err && r->Err_0@ == "Please enter a class title"@,
        !is_blank(title@) && is_blank(date@) ==> r is Err && r->Err_0@ == "Please select a date"@,
        !is_blank(title@) && !is_blank(date@) ==> r is Ok && {
            let e = r->Ok_0;
            &&& e.time@ == hour@ + ":"@ + minute@
            &&& opt_view(e.venue) == optional_text(venue@)
            &&& opt_view(e.description) == optional_text(description@)
            &&& opt_view(e.recurring) == chosen_pattern(recurring@)
            &&& (match chosen_count(recurring@, count_text@) {
                Some(c) => e.recurrence_count == Some(c as i32),
                None => e.recurrence_count is None,
            })
            &&& e.duration_minutes == chosen_duration(duration_text@)
            &&& e.rewrite_series == (chosen_pattern(recurring@) != opt_view(*stored_recurring))
        },
{
    if blank(title) {
        return Err("Please enter a class title");
    }
    if blank(date) {
        return Err("Please select a date");
    }
    let time = concat3(hour, ":", minute);
    let (pattern, count) = pattern_and_count(recurring, count_text);
    let changed = match (&pattern, stored_recurring) {
        (Some(a), Some(b)) => !str_eq(a.as_str(), b.as_str()),
        (None, None) => false,
        _ => true,
    };
    Ok(ClassEdit {
        time,
        venue: optional_field(venue),
        description: optional_field(description),
        recurring: pattern,
        recurrence_count: count,
        duration_minutes: form_duration(duration_text),
        rewrite_series: changed,
    })
}

/// What the new-class form submits.
#[derive(Clone, Debug, PartialEq)]
pub struct NewClassForm {
    pub time: String,
    pub venue: Option<String>,
    pub description: Option<String>,
    pub recurring: Option<String>,
    pub recurrence_count: Option<i32>,
    pub duration_minutes: i32,
}

/// A time component of the form: the number given (`default` when
/// unreadable), at most `max`.
pub open spec fn clock_component(text: Seq<char>, default: int, max: int) -> int {
    let v = match parse_u32_spec(text) {
        Some(v) => v,
        None => default,
    };
    if v > max {
        max
    } else {
        v
    }
}

/// `format!("{:02}", text.parse::<u32>().unwrap_or(default).min(max))`.
pub fn time_component(text: &str, default: u32, max: u32) -> (r: String)
    ensures
        r@ == signed_padded(clock_component(text@, default as int, max as int), 2),
{
    let v = match parse_u32(text) {
        Some(v) => v,
        None => default,
    };
    let v = if v > max {
        max
    } else {
        v
    };
    int_to_padded_string(v as i64, 2)
}

/// Plans the submission of the new-class form: refused without a module, a
/// title or a date; otherwise the time from the hour (default 9, at most
/// 23) and minute (default 0, at most 59), both two digits, and the other
/// fields as the class editor reads them.
pub fn plan_new_class(
    module_code: &str,
    title: &str,
    date: &str,
    hour: &str,
    minute: &str,
    venue: &str,
    description: &str,
    recurring: &str,
    count_text: &str,
    duration_text: &str,
) -> (r: Result<NewClassForm, &'static str>)
    ensures
        module_code@.len() == 0 ==> r is Err && r->Err_0@
            == "No module selected. Please go back and select a module."@,
        module_code@.len() != 0 && is_blank(title@) ==> r is Err && r->Err_0@
            == "Please enter a class title"@,
        module_code@.len() != 0 && !is_blank(title@) && is_blank(date@) ==> r is Err && r->Err_0@
            == "Please select a date"@,
        module_code@.len() != 0 && !is_blank(title@) && !is_blank(date@) ==> r is Ok && {
            let f = r->Ok_0;
            &&& f.time@ == signed_padded(clock_component(hour@, 9, 23), 2) + ":"@ + signed_padded(
                clock_component(minute@, 0, 59),
                2,
            )
            &&& opt_view(f.venue) == optional_text(venue@)
            &&& opt_view(f.description) == optional_text(description@)
            &&& opt_view(f.recurring) == chosen_pattern(recurring@)
            &&& (match chosen_count(recurring@, count_text@) {
                Some(c) => f.recurrence_count == Some(c as i32),
                None => f.recurrence_count is None,
            })
            &&& f.duration_minutes == chosen_duration(duration_text@)
        },
{
    if module_code.is_empty() {
        return Err("No module selected. Please go back and select a module.");
    }
    if blank(title) {
        return Err("Please enter a class title");
    }
    if blank(date) {
        return Err("Please select a date");
    }
    let h = time_component(hour, 9, 23);
    let m = time_component(minute, 0, 59);
    let time = concat3(h.as_str(), ":", m.as_str());
    let (pattern, count) = pattern_and_count(recurring, count_text);
    Ok(NewClassForm {
        time,
        venue: optional_field(venue),
        description: optional_field(description),
        recurring: pattern,
        recurrence_count: count,
        duration_minutes: form_duration(duration_text),
    })
}

/// The answer to a request for a list of classes.
#[derive(Clone, Debug, PartialEq)]
pub struct ClassesListResponse {
    pub success: bool,
    pub message: String,
    pub classes: Vec<Class>,
}

/// The answer to a request for a module's or a lecturer's classes.
pub fn classes_listed(listed: Result<Vec<Class>, String>) -> (r: ClassesListResponse)
    ensures
        match listed {
            Ok(cs) => r.success && r.message@ == "Classes fetched successfully"@ && r.classes == cs,
            Err(e) => !r.success && r.message == e && r.classes@.len() == 0,
        },
{
    match listed {
        Ok(cs) => ClassesListResponse { success: true, message: owned("Classes fetched successfully"), classes: cs },
        Err(e) => ClassesListResponse { success: false, message: e, classes: Vec::new() },
    }
}

/// The answer to a lookup of one class.
pub fn class_found(found: Option<Class>) -> (r: ClassResponse)
    ensures
        match found {
            Some(c) => r.success && r.message@ == "Class found"@ && r.class == Some(c),
            None => !r.success && r.message@ == "Class not found"@ && r.class is None,
        },
{
    match found {
        Some(c) => ClassResponse { success: true, message: owned("Class found"), class: Some(c) },
        None => ClassResponse { success: false, message: owned("Class not found"), class: None },
    }
}

/// The answer once the store has updated (or refused to update) a class.
pub fn class_updated(updated: Result<Class, String>) -> (r: ClassResponse)
    ensures
        match updated {
            Ok(c) => r.success && r.message@ == "Class updated successfully!"@ && r.class == Some(c),
            Err(e) => !r.success && r.message == e && r.class is None,
        },
{
    match updated {
        Ok(c) => ClassResponse { success: true, message: owned("Class updated successfully!"), class: Some(c) },
        Err(e) => ClassResponse { success: false, message: e, class: None },
    }
}

/// The answer once the store has deleted (or refused to delete) a class.
pub fn class_deleted(deleted: Result<(), String>) -> (r: ClassResponse)
    ensures
        match deleted {
            Ok(_) => r.success && r.message@ == "Class deleted successfully!"@ && r.class is None,
            Err(e) => !r.success && r.message == e && r.class is None,
        },
{
    match deleted {
        Ok(_) => ClassResponse { success: true, message: owned("Class deleted successfully!"), class: None },
        Err(e) => ClassResponse { success: false, message: e, class: None },
    }
}

} // verus!
