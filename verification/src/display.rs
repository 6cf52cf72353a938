//! What the pages show: labels, greetings, card faces and links derived
//! from the records of the service.
use vstd::prelude::*;
use crate::models::{Class, ModuleWithStats, StudentRecentActivity, StudentScheduleItem, UserProfile};
use crate::numbers::{decimal, int_to_padded_string, int_to_string, signed_decimal, signed_padded};
use crate::dates::{
    date_format, format_date, format_hm, hm_seconds, hm_text, is_date_pattern, iso_date_days, parse_hm,
    parse_iso_date, start_of_week, week_start,
};
use crate::text::{
    ascii_upper, char_to_uppercase, char_uppercase, chars_of, concat2, concat3, concat4, is_ascii_alnum,
    is_ascii_alpha, is_blank, blank, owned, starts_with, starts_with_chars, str_eq, string_of,
};

verus! {

/// Where a class form returns to: the timetable when it was opened from
/// there, else the module's class list (all classes when no module is
/// known).
pub open spec fn return_path(origin: Option<Seq<char>>, module_code: Seq<char>) -> Seq<char> {
    if origin == Some("timetable"@) {
        "/timetable"@
    } else if module_code.len() == 0 {
        "/classes"@
    } else {
        "/classes?module="@ + module_code
    }
}

/// The page that a class form returns to.
pub fn build_return_path(origin: Option<String>, module_code: &str) -> (r: String)
    ensures
        r@ == return_path(
            match origin {
                Some(o) => Some(o@),
                None => None,
            },
            module_code@,
        ),
{
    let from_timetable = match &origin {
        Some(o) => str_eq(o.as_str(), "timetable"),
        None => false,
    };
    if from_timetable {
        owned("/timetable")
    } else if chars_of(module_code).len() == 0 {
        owned("/classes")
    } else {
        concat2("/classes?module=", module_code)
    }
}

/// A navigation link is active: the root link on the root page (or an
/// empty path), any other link on every page whose path starts with it.
pub open spec fn link_active(href: Seq<char>, path: Seq<char>) -> bool {
    if href == "/"@ {
        path == "/"@ || path.len() == 0
    } else {
        starts_with(path, href)
    }
}

/// Whether the navigation link to `href` is active on the page `path`.
pub fn nav_link_active(href: &str, path: &str) -> (b: bool)
    ensures
        b == link_active(href@, path@),
{
    if str_eq(href, "/") {
        let p = chars_of(path);
        str_eq(path, "/") || p.len() == 0
    } else {
        let p = chars_of(path);
        let h = chars_of(href);
        starts_with_chars(&p, &h)
    }
}

/// The style of a navigation link.
pub fn nav_link_class(active: bool) -> (r: &'static str)
    ensures
        active ==> r@ == "nav-link active"@,
        !active ==> r@ == "nav-link"@,
{
    if active {
        "nav-link active"
    } else {
        "nav-link"
    }
}

/// The pages that show the lecturer's sidebar, top bar and footer.
pub open spec fn sidebar_page(path: Seq<char>) -> bool {
    ||| starts_with(path, "/home"@)
    ||| starts_with(path, "/timetable"@)
    ||| starts_with(path, "/statistics"@)
    ||| starts_with(path, "/about"@)
    ||| starts_with(path, "/classes"@)
    ||| starts_with(path, "/modules"@)
}

/// Whether the page at `path` shows the sidebar.
pub fn shows_sidebar(path: &str) -> (b: bool)
    ensures
        b == sidebar_page(path@),
{
    let p = chars_of(path);
    let a = chars_of("/home");
    let b = chars_of("/timetable");
    let c = chars_of("/statistics");
    let d = chars_of("/about");
    let e = chars_of("/classes");
    let f = chars_of("/modules");
    starts_with_chars(&p, &a) || starts_with_chars(&p, &b) || starts_with_chars(&p, &c) || starts_with_chars(&p, &d)
        || starts_with_chars(&p, &e) || starts_with_chars(&p, &f)
}

/// The style of the page frame: without the sidebar's room where it is
/// not shown.
pub fn shell_class(path: &str) -> (r: &'static str)
    ensures
        sidebar_page(path@) ==> r@ == "app-shell"@,
        !sidebar_page(path@) ==> r@ == "app-shell no-sidebar"@,
{
    if shows_sidebar(path) {
        "app-shell"
    } else {
        "app-shell no-sidebar"
    }
}

/// Where a user lands after signing in: students on their home page, all
/// others on the lecturer's.
pub fn home_path_for_role(role: &str) -> (r: &'static str)
    ensures
        role@ == "student"@ ==> r@ == "/student/home"@,
        role@ != "student"@ ==> r@ == "/home"@,
{
    if str_eq(role, "student") {
        "/student/home"
    } else {
        "/home"
    }
}

/// How a role reads: the three known roles by name; any other word with
/// its first character upper-cased; "Student" for no role at all.
pub open spec fn role_label(role: Seq<char>) -> Seq<char> {
    if role == "student"@ {
        "Student"@
    } else if role == "lecturer"@ {
        "Lecturer"@
    } else if role == "tutor"@ {
        "Tutor"@
    } else if role.len() == 0 {
        "Student"@
    } else {
        char_uppercase(role[0]) + role.drop_first()
    }
}

/// The characters of `v` from position `start` on.
pub fn chars_after(v: &Vec<char>, start: usize) -> (r: Vec<char>)
    requires
        start <= v.len(),
    ensures
        r@ == v@.subrange(start as int, v.len() as int),
{
    let mut out: Vec<char> = Vec::new();
    let mut i: usize = start;
    while i < v.len()
        invariant
            start <= i <= v.len(),
            out@ == v@.subrange(start as int, i as int),
        decreases v.len() - i,
    {
        out.push(v[i]);
        proof {
            assert(v@.subrange(start as int, i + 1) =~= v@.subrange(start as int, i as int).push(v@[i as int]));
        }
        i = i + 1;
    }
    out
}

/// How a role reads on the profile pages.
pub fn format_role(role: &str) -> (r: String)
    ensures
        r@ == role_label(role@),
{
    if str_eq(role, "student") {
        return owned("Student");
    }
    if str_eq(role, "lecturer") {
        return owned("Lecturer");
    }
    if str_eq(role, "tutor") {
        return owned("Tutor");
    }
    let cs = chars_of(role);
    if cs.len() == 0 {
        return owned("Student");
    }
    let first = char_to_uppercase(cs[0]);
    let rest = chars_after(&cs, 1);
    let rest_s = string_of(&rest);
    assert(cs@.subrange(1, cs@.len() as int) =~= cs@.drop_first());
    concat2(first.as_str(), rest_s.as_str())
}

/// The form of address for a role on the lecturer's home page.
pub open spec fn role_title(role: Seq<char>) -> Seq<char> {
    if role == "lecturer"@ {
        "Dr."@
    } else if role == "tutor"@ {
        "Mr./Ms."@
    } else {
        ""@
    }
}

/// The home page's greeting.
pub open spec fn greeting_text(user: Option<UserProfile>) -> Seq<char> {
    match user {
        Some(u) => "Welcome back, "@ + role_title(u.role@) + " "@ + u.name@ + " "@ + u.surname@,
        None => "Welcome back"@,
    }
}

/// The greeting of the lecturer's home page for the signed-in user.
pub fn greeting(user: &Option<UserProfile>) -> (r: String)
    ensures
        r@ == greeting_text(*user),
{
    match user {
        Some(u) => {
            let title: &str = if str_eq(u.role.as_str(), "lecturer") {
                "Dr."
            } else if str_eq(u.role.as_str(), "tutor") {
                "Mr./Ms."
            } else {
                ""
            };
            let head = concat3("Welcome back, ", title, " ");
            let tail = concat3(u.name.as_str(), " ", u.surname.as_str());
            concat2(head.as_str(), tail.as_str())
        },
        None => owned("Welcome back"),
    }
}

/// The attendance status of a recent class: as recorded, "upcoming" when
/// nothing was recorded yet.
pub fn recorded_status(status: Option<String>) -> (r: String)
    ensures
        r@ == match status {
            Some(s) => s@,
            None => "upcoming"@,
        },
{
    match status {
        Some(s) => s,
        None => owned("upcoming"),
    }
}

/// A class in a student's attendance record for the lecturer: as recorded,
/// "absent" when nothing was recorded.
pub fn class_attendance_status(status: Option<String>) -> (r: String)
    ensures
        r@ == match status {
            Some(s) => s@,
            None => "absent"@,
        },
{
    match status {
        Some(s) => s,
        None => owned("absent"),
    }
}

/// A recent class of a student, its status "upcoming" while nothing was
/// recorded.
pub fn recent_activity(
    class_id: i64,
    title: String,
    module_code: String,
    date: String,
    time: String,
    status: Option<String>,
) -> (r: StudentRecentActivity)
    ensures
        r.class_id == class_id,
        r.title == title,
        r.module_code == module_code,
        r.date == date,
        r.time == time,
        r.status@ == match status {
            Some(s) => s@,
            None => "upcoming"@,
        },
{
    StudentRecentActivity { class_id, title, module_code, date, time, status: recorded_status(status) }
}

/// The icon style and label of an attendance status in the recent
/// activity list; anything unknown reads as absent.
pub open spec fn activity_label(status: Seq<char>) -> (Seq<char>, Seq<char>) {
    if status == "present"@ {
        ("activity-icon-success"@, "Present"@)
    } else if status == "late"@ {
        ("activity-icon-warning"@, "Late"@)
    } else if status == "excused"@ {
        ("activity-icon-warning"@, "Excused"@)
    } else if status == "upcoming"@ {
        ("activity-icon-info"@, "Upcoming"@)
    } else {
        ("activity-icon-error"@, "Absent"@)
    }
}

/// The icon style and label of an attendance status.
pub fn format_status_label(status: &str) -> (r: (&'static str, &'static str))
    ensures
        (r.0@, r.1@) == activity_label(status@),
{
    if str_eq(status, "present") {
        ("activity-icon-success", "Present")
    } else if str_eq(status, "late") {
        ("activity-icon-warning", "Late")
    } else if str_eq(status, "excused") {
        ("activity-icon-warning", "Excused")
    } else if str_eq(status, "upcoming") {
        ("activity-icon-info", "Upcoming")
    } else {
        ("activity-icon-error", "Absent")
    }
}

/// The accent colour of the `index`-th card of the student's schedule.
pub open spec fn card_color(index: int) -> Seq<char> {
    if index % 4 == 0 {
        "purple"@
    } else if index % 4 == 1 {
        "red"@
    } else if index % 4 == 2 {
        "yellow"@
    } else {
        "teal"@
    }
}

/// The accent colour of a schedule card.
pub fn schedule_card_color(index: usize) -> (r: &'static str)
    ensures
        r@ == card_color(index as int),
{
    let k = index % 4;
    if k == 0 {
        "purple"
    } else if k == 1 {
        "red"
    } else if k == 2 {
        "yellow"
    } else {
        "teal"
    }
}

/// The first ASCII letter or digit of `s`, if any.
pub open spec fn first_alnum(s: Seq<char>) -> Option<char>
    decreases s.len(),
{
    if s.len() == 0 {
        None
    } else if is_ascii_alnum(s[0]) {
        Some(s[0])
    } else {
        first_alnum(s.drop_first())
    }
}

/// The icon of a schedule card: the first ASCII letter or digit of the
/// module code, upper-cased, or a bullet when it has none.
pub open spec fn card_icon(module_code: Seq<char>) -> Seq<char> {
    match first_alnum(module_code) {
        Some(c) => seq![ascii_upper(c)],
        None => "•"@,
    }
}

/// `c.to_ascii_uppercase()`.
pub fn to_ascii_upper(c: char) -> (r: char)
    ensures
        r == ascii_upper(c),
{
    if 'a' <= c && c <= 'z' {
        ((c as u8) - 32) as char
    } else {
        c
    }
}

/// The icon of a schedule card.
pub fn schedule_icon(module_code: &str) -> (r: String)
    ensures
        r@ == card_icon(module_code@),
{
    let cs = chars_of(module_code);
    let mut i: usize = 0;
    assert(cs@.subrange(0, cs.len() as int) =~= cs@);
    while i < cs.len()
        invariant
            0 <= i <= cs.len(),
            cs@ == module_code@,
            first_alnum(cs@.subrange(i as int, cs.len() as int)) == first_alnum(cs@),
        decreases cs.len() - i,
    {
        let c = cs[i];
        if ('a' <= c && c <= 'z') || ('A' <= c && c <= 'Z') || ('0' <= c && c <= '9') {
            assert(cs@.subrange(i as int, cs.len() as int)[0] == c);
            assert(is_ascii_alnum(c));
            assert(first_alnum(cs@.subrange(i as int, cs.len() as int)) == Some(c));
            assert(first_alnum(module_code@) == Some(c));
            let mut v: Vec<char> = Vec::new();
            v.push(to_ascii_upper(c));
            assert(v@ =~= seq![ascii_upper(c)]);
            return string_of(&v);
        }
        assert(cs@.subrange(i as int, cs.len() as int).drop_first() =~= cs@.subrange(i + 1, cs.len() as int));
        i = i + 1;
    }
    owned("•")
}

/// The venue of a schedule card, "Location TBA" when none is known.
pub open spec fn card_venue(venue: Option<String>) -> Seq<char> {
    match venue {
        Some(v) => v@,
        None => "Location TBA"@,
    }
}

/// The details of a schedule card: the class title and the venue joined by
/// a middle dot, either alone when the other is blank.
pub open spec fn card_details(class_title: Seq<char>, venue: Option<String>) -> Seq<char> {
    if is_blank(class_title) {
        card_venue(venue)
    } else if is_blank(card_venue(venue)) {
        class_title
    } else {
        class_title + " · "@ + card_venue(venue)
    }
}

/// The details of a schedule card.
pub fn schedule_details(class_title: &str, venue: &Option<String>) -> (r: String)
    ensures
        r@ == card_details(class_title@, *venue),
{
    let venue_text = match venue {
        Some(v) => owned(v.as_str()),
        None => owned("Location TBA"),
    };
    if blank(class_title) {
        venue_text
    } else if blank(venue_text.as_str()) {
        owned(class_title)
    } else {
        concat3(class_title, " · ", venue_text.as_str())
    }
}

/// The sum of the code points of `s`.
pub open spec fn code_point_sum(s: Seq<char>) -> int
    decreases s.len(),
{
    if s.len() == 0 {
        0
    } else {
        code_point_sum(s.drop_last()) + ((s.last() as u32) as int)
    }
}

/// The colour family of a module (its code points summed, modulo four):
/// 0 purple, 1 blue, 2 orange, 3 green.
pub open spec fn module_shade(module_code: Seq<char>) -> int {
    code_point_sum(module_code) % 4
}

/// The colour family of a module, from its code points summed modulo four
/// (the sum itself may exceed any fixed width; only its remainder counts).
pub fn module_shade_of(module_code: &str) -> (k: u32)
    ensures
        k == module_shade(module_code@),
        k < 4,
{
    let cs = chars_of(module_code);
    let mut acc: u32 = 0;
    let mut i: usize = 0;
    while i < cs.len()
        invariant
            0 <= i <= cs.len(),
            acc < 4,
            acc == code_point_sum(cs@.subrange(0, i as int)) % 4,
        decreases cs.len() - i,
    {
        let c = cs[i];
        let cu: u32 = c as u32;
        proof {
            let p = cs@.subrange(0, i as int);
            assert(cs@.subrange(0, i + 1).drop_last() =~= p);
            assert(code_point_sum(cs@.subrange(0, i + 1)) == code_point_sum(p) + (cu as int));
            assert((code_point_sum(p) + (cu as int)) % 4 == (code_point_sum(p) % 4 + (cu as int) % 4) % 4)
                by (nonlinear_arith);
        }
        acc = (acc + cu % 4) % 4;
        i = i + 1;
    }
    assert(cs@.subrange(0, cs.len() as int) =~= cs@);
    acc
}

/// The icon and style of a module card.
pub open spec fn module_card_look(shade: int) -> (Seq<char>, Seq<char>) {
    if shade == 0 {
        ("</>"@, "mod-purp"@)
    } else if shade == 1 {
        ("🗄️"@, "mod-blue"@)
    } else if shade == 2 {
        ("🧩"@, "mod-orange"@)
    } else {
        ("🍃"@, "mod-green"@)
    }
}

/// The icon and style variant of a module's card.
pub fn module_card_style(module_code: &str) -> (r: (&'static str, &'static str))
    ensures
        (r.0@, r.1@) == module_card_look(module_shade(module_code@)),
{
    let k = module_shade_of(module_code);
    if k == 0 {
        ("</>", "mod-purp")
    } else if k == 1 {
        ("🗄️", "mod-blue")
    } else if k == 2 {
        ("🧩", "mod-orange")
    } else {
        ("🍃", "mod-green")
    }
}

/// The style of a module card's icon.
pub fn module_icon_style(module_code: &str) -> (r: String)
    ensures
        r@ == "module-icon "@ + module_card_look(module_shade(module_code@)).1,
{
    let (_icon, variant) = module_card_style(module_code);
    concat2("module-icon ", variant)
}

/// The link that opens a module for editing.
pub fn module_edit_link(module_code: &str) -> (r: String)
    ensures
        r@ == "/modules/edit?code="@ + module_code@,
{
    concat2("/modules/edit?code=", module_code)
}

/// Whether a key opens a focused card: Enter or the space bar.
pub fn activates_card(key: &str) -> (b: bool)
    ensures
        b == (key@ == "Enter"@ || key@ == " "@),
{
    str_eq(key, "Enter") || str_eq(key, " ")
}

/// A module's description on its card, with a placeholder when empty.
pub open spec fn card_description(desc: Seq<char>) -> Seq<char> {
    if desc.len() == 0 {
        "No description available"@
    } else {
        desc
    }
}

/// A module's description on its card.
pub fn module_card_description(desc: &str) -> (r: String)
    ensures
        r@ == card_description(desc@),
{
    if chars_of(desc).len() == 0 {
        owned("No description available")
    } else {
        owned(desc)
    }
}

/// The links of a module card: its class list and its new-class form.
pub fn module_card_links(module_code: &str) -> (r: (String, String))
    ensures
        r.0@ == "/classes?module="@ + module_code@,
        r.1@ == "/classes/new?module="@ + module_code@,
{
    (concat2("/classes?module=", module_code), concat2("/classes/new?module=", module_code))
}

/// The dot colour of a class in the day's list: codes starting with 'C'
/// that contain "S1" purple, those that contain "S3" blue, all others
/// green.
pub open spec fn dot_color(module_code: Seq<char>) -> Seq<char> {
    if module_code.len() > 0 && module_code[0] == 'C' && crate::text::contains_seq(module_code, "S1"@) {
        "dot-purple"@
    } else if module_code.len() > 0 && module_code[0] == 'C' && crate::text::contains_seq(module_code, "S3"@) {
        "dot-blue"@
    } else {
        "dot-green"@
    }
}

/// The dot colour of a class in the day's list.
pub fn class_dot_color(module_code: &str) -> (r: &'static str)
    ensures
        r@ == dot_color(module_code@),
{
    let cs = chars_of(module_code);
    if cs.len() > 0 && cs[0] == 'C' {
        let s1 = chars_of("S1");
        let s3 = chars_of("S3");
        if crate::text::contains_chars(&cs, &s1) {
            return "dot-purple";
        }
        if crate::text::contains_chars(&cs, &s3) {
            return "dot-blue";
        }
    }
    "dot-green"
}

/// The second line of a class in the day's list: its time, then its venue
/// after a dash when it has one.
pub open spec fn class_sub_line(c: Class) -> Seq<char> {
    match c.venue {
        Some(v) => c.time@ + " – "@ + v@,
        None => c.time@,
    }
}

/// The second line of a class in the day's list.
pub fn class_list_sub_line(c: &Class) -> (r: String)
    ensures
        r@ == class_sub_line(*c),
{
    match &c.venue {
        Some(v) => concat3(c.time.as_str(), " – ", v.as_str()),
        None => owned(c.time.as_str()),
    }
}

/// The link that opens a class for editing.
pub fn class_edit_link(class_id: i64) -> (r: String)
    ensures
        r@ == "/classes/edit?id="@ + signed_decimal(class_id as int),
{
    let id = int_to_string(class_id);
    concat2("/classes/edit?id=", id.as_str())
}

/// A date text formatted with `pattern` where chrono reads it as an ISO
/// date; the text itself otherwise.  (A date that chrono read always has a
/// formatted form, so the fallback only covers unreadable texts.)
pub open spec fn date_or_text(s: Seq<char>, pattern: Seq<char>) -> Seq<char> {
    match iso_date_days(s) {
        Some(d) => match date_format(d, pattern) {
            Some(t) => t,
            None => s,
        },
        None => s,
    }
}

/// An ISO date text formatted with `pattern`, or the text itself.
fn format_iso_date(date_iso: &str, pattern: &str) -> (r: String)
    requires
        is_date_pattern(pattern@),
    ensures
        r@ == date_or_text(date_iso@, pattern@),
{
    match parse_iso_date(date_iso) {
        Some(d) => match format_date(d, pattern) {
            Some(t) => t,
            None => owned(date_iso),
        },
        None => owned(date_iso),
    }
}

/// An ISO date as day and abbreviated month ("05 Mar").
pub fn format_short_date(date_iso: &str) -> (r: String)
    ensures
        r@ == date_or_text(date_iso@, "%d %b"@),
{
    format_iso_date(date_iso, "%d %b")
}

/// An ISO date as its abbreviated weekday ("Mon").
pub fn format_day_short(date_iso: &str) -> (r: String)
    ensures
        r@ == date_or_text(date_iso@, "%a"@),
{
    format_iso_date(date_iso, "%a")
}

/// An ISO date as its weekday ("Monday").
pub fn format_day_long(date_iso: &str) -> (r: String)
    ensures
        r@ == date_or_text(date_iso@, "%A"@),
{
    format_iso_date(date_iso, "%A")
}

/// The student's home page date: the given date, or today when the text is
/// no date, as "Monday, 05 Mar".
pub open spec fn pretty_date(s: Seq<char>, today: i32) -> Option<Seq<char>> {
    match iso_date_days(s) {
        Some(d) => date_format(d, "%A, %d %b"@),
        None => date_format(today, "%A, %d %b"@),
    }
}

/// The characters that an optional string holds.
pub open spec fn text_opt(o: Option<String>) -> Option<Seq<char>> {
    match o {
        Some(s) => Some(s@),
        None => None,
    }
}

/// The student's home page date, `today` being the day number of the
/// current local date; none only where chrono has no date of that number.
pub fn format_pretty_date(date_iso: &str, today: i32) -> (r: Option<String>)
    ensures
        text_opt(r) == pretty_date(date_iso@, today),
{
    let d = match parse_iso_date(date_iso) {
        Some(d) => d,
        None => today,
    };
    format_date(d, "%A, %d %b")
}

/// The last line of a schedule card: the details alone for a class of
/// today, else the short date, a middle dot and the details.
pub open spec fn schedule_line(date: Seq<char>, current_date_iso: Seq<char>, details: Seq<char>) -> Seq<char> {
    if date == current_date_iso {
        details
    } else {
        date_or_text(date, "%d %b"@) + " · "@ + details
    }
}

/// What a card of the student's schedule shows.
#[derive(Clone, Debug, PartialEq)]
pub struct ScheduleCard {
    pub time: String,
    pub color: String,
    pub icon: String,
    pub module_title: String,
    pub line: String,
}

/// The card of the `index`-th class of the student's schedule, on the day
/// `current_date_iso`.
pub fn schedule_card(item: &StudentScheduleItem, index: usize, current_date_iso: &str) -> (r: ScheduleCard)
    ensures
        r.time@ == item.time@,
        r.color@ == card_color(index as int),
        r.icon@ == card_icon(item.module_code@),
        r.module_title@ == item.module_title@,
        r.line@ == schedule_line(item.date@, current_date_iso@, card_details(item.class_title@, item.venue)),
{
    let details = schedule_details(item.class_title.as_str(), &item.venue);
    let line = if str_eq(item.date.as_str(), current_date_iso) {
        details
    } else {
        let short = format_short_date(item.date.as_str());
        concat3(short.as_str(), " · ", details.as_str())
    };
    ScheduleCard {
        time: owned(item.time.as_str()),
        color: owned(schedule_card_color(index)),
        icon: schedule_icon(item.module_code.as_str()),
        module_title: owned(item.module_title.as_str()),
        line,
    }
}

/// The day numbers of the texts that chrono reads as ISO dates, in order.
pub open spec fn parsed_days(ds: Seq<Seq<char>>) -> Seq<i32>
    decreases ds.len(),
{
    if ds.len() == 0 {
        Seq::empty()
    } else {
        match iso_date_days(ds.last()) {
            Some(d) => parsed_days(ds.drop_last()).push(d),
            None => parsed_days(ds.drop_last()),
        }
    }
}

/// The dates of attendance points.
pub open spec fn point_dates(ps: Seq<crate::models::StudentWeeklyAttendancePoint>) -> Seq<Seq<char>> {
    Seq::new(ps.len(), |i: int| ps[i].date@)
}

/// "05 Mar - 11 Mar" for two day numbers, where chrono formats both.
pub open spec fn range_label(a: int, b: int) -> Option<Seq<char>> {
    if i32::MIN <= a <= i32::MAX && i32::MIN <= b <= i32::MAX {
        match (date_format(a as i32, "%d %b"@), date_format(b as i32, "%d %b"@)) {
            (Some(x), Some(y)) => Some(x + " - "@ + y),
            _ => None,
        }
    } else {
        None
    }
}

/// The week shown on the student's statistics: from the first to the last
/// readable date of the points, or the Monday-to-Sunday week of `today`
/// when none is readable.
pub open spec fn week_range(ps: Seq<crate::models::StudentWeeklyAttendancePoint>, today: i32) -> Option<Seq<char>> {
    let ds = parsed_days(point_dates(ps));
    if ds.len() > 0 {
        range_label(ds[0] as int, ds.last() as int)
    } else {
        range_label(week_start(today as int), week_start(today as int) + 6)
    }
}

/// "05 Mar - 11 Mar" for two day numbers.
fn range_text(a: i64, b: i64) -> (r: Option<String>)
    ensures
        text_opt(r) == range_label(a as int, b as int),
{
    if a < -2147483648 || a > 2147483647 || b < -2147483648 || b > 2147483647 {
        return None;
    }
    let x = format_date(a as i32, "%d %b");
    let y = format_date(b as i32, "%d %b");
    match (x, y) {
        (Some(x), Some(y)) => Some(concat3(x.as_str(), " - ", y.as_str())),
        _ => None,
    }
}

/// The week label of the student's statistics, `today` being the day
/// number of the current local date.
pub fn week_range_label(points: &Vec<crate::models::StudentWeeklyAttendancePoint>, today: i32) -> (r: Option<String>)
    ensures
        text_opt(r) == week_range(points@, today),
{
    let mut days: Vec<i32> = Vec::new();
    let mut i: usize = 0;
    while i < points.len()
        invariant
            0 <= i <= points.len(),
            days@ == parsed_days(point_dates(points@).subrange(0, i as int)),
        decreases points.len() - i,
    {
        proof {
            let p = point_dates(points@).subrange(0, i as int);
            assert(point_dates(points@).subrange(0, i + 1).drop_last() =~= p);
            assert(point_dates(points@).subrange(0, i + 1).last() == points@[i as int].date@);
        }
        match parse_iso_date(points[i].date.as_str()) {
            Some(d) => days.push(d),
            None => {},
        }
        i = i + 1;
    }
    assert(point_dates(points@).subrange(0, points.len() as int) =~= point_dates(points@));
    if days.len() > 0 {
        range_text(days[0] as i64, days[days.len() - 1] as i64)
    } else {
        let start = start_of_week(today);
        range_text(start, start + 6)
    }
}

/// A recent attendance's time: "Today", "Yesterday" or the short date of
/// its day (today when its date is unreadable), then its `HH:MM` time
/// (midnight when unreadable).
pub open spec fn recent_time(date_iso: Seq<char>, time: Seq<char>, today: i32) -> Option<Seq<char>> {
    let d: i32 = match iso_date_days(date_iso) {
        Some(x) => x,
        None => today,
    };
    let secs: int = match hm_seconds(time) {
        Some(v) => v as int,
        None => 0,
    };
    let label: Option<Seq<char>> = if d == today {
        Some("Today"@)
    } else if d == today - 1 {
        Some("Yesterday"@)
    } else {
        date_format(d, "%d %b"@)
    };
    match label {
        Some(l) => Some(l + " "@ + hm_text(secs)),
        None => None,
    }
}

/// The time of a recent attendance, `today` being the day number of the
/// current local date; none only where chrono has no date of that number.
pub fn format_recent_time(date_iso: &str, time: &str, today: i32) -> (r: Option<String>)
    ensures
        text_opt(r) == recent_time(date_iso@, time@, today),
{
    let d = match parse_iso_date(date_iso) {
        Some(x) => x,
        None => today,
    };
    let secs: u32 = match parse_hm(time) {
        Some(v) => v,
        None => 0,
    };
    let label: Option<String> = if d == today {
        Some(owned("Today"))
    } else if (d as i64) == (today as i64) - 1 {
        Some(owned("Yesterday"))
    } else {
        format_date(d, "%d %b")
    };
    match label {
        Some(l) => {
            let t = format_hm(secs);
            Some(concat3(l.as_str(), " ", t.as_str()))
        },
        None => None,
    }
}

/// The day offset of the timetable's day choice.
pub open spec fn day_offset(choice: Seq<char>) -> int {
    if choice == "Yesterday"@ {
        -1
    } else if choice == "Tomorrow"@ {
        1
    } else {
        0
    }
}

/// The word that heads the timetable's date for a day choice.
pub open spec fn day_prefix(choice: Seq<char>) -> Seq<char> {
    if choice == "Yesterday"@ {
        "Yesterday"@
    } else if choice == "Tomorrow"@ {
        "Tomorrow"@
    } else {
        "Today"@
    }
}

/// The day offset of a day choice.
pub fn timetable_offset(choice: &str) -> (r: i64)
    ensures
        r == day_offset(choice@),
{
    if str_eq(choice, "Yesterday") {
        -1
    } else if str_eq(choice, "Tomorrow") {
        1
    } else {
        0
    }
}

/// The day that the timetable shows, as a day number, if it is one.
pub open spec fn chosen_day(today: i32, choice: Seq<char>) -> Option<i32> {
    let d = today + day_offset(choice);
    if i32::MIN <= d <= i32::MAX {
        Some(d as i32)
    } else {
        None
    }
}

/// The day that the timetable shows.
fn timetable_day(today: i32, choice: &str) -> (r: Option<i32>)
    ensures
        r == chosen_day(today, choice@),
{
    let d = (today as i64) + timetable_offset(choice);
    if d < -2147483648 || d > 2147483647 {
        None
    } else {
        Some(d as i32)
    }
}

/// The ISO date of the day that the timetable shows.
pub open spec fn chosen_date_iso(today: i32, choice: Seq<char>) -> Option<Seq<char>> {
    match chosen_day(today, choice) {
        Some(d) => date_format(d, "%Y-%m-%d"@),
        None => None,
    }
}

/// The ISO date that the timetable shows for a day choice, `today` being
/// the day number of the current local date.
pub fn selected_date_iso(today: i32, choice: &str) -> (r: Option<String>)
    ensures
        text_opt(r) == chosen_date_iso(today, choice@),
{
    match timetable_day(today, choice) {
        Some(d) => format_date(d, "%Y-%m-%d"),
        None => None,
    }
}

/// The heading date of the timetable ("Today, Wednesday, October  9 2024").
pub open spec fn chosen_date_pretty(today: i32, choice: Seq<char>) -> Option<Seq<char>> {
    match chosen_day(today, choice) {
        Some(d) => match date_format(d, "%A, %B %e %Y"@) {
            Some(t) => Some(day_prefix(choice) + ", "@ + t),
            None => None,
        },
        None => None,
    }
}

/// The heading date of the timetable for a day choice.
pub fn selected_date_pretty(today: i32, choice: &str) -> (r: Option<String>)
    ensures
        text_opt(r) == chosen_date_pretty(today, choice@),
{
    let prefix: &str = if str_eq(choice, "Yesterday") {
        "Yesterday"
    } else if str_eq(choice, "Tomorrow") {
        "Tomorrow"
    } else {
        "Today"
    };
    match timetable_day(today, choice) {
        Some(d) => match format_date(d, "%A, %B %e %Y") {
            Some(t) => Some(concat3(prefix, ", ", t.as_str())),
            None => None,
        },
        None => None,
    }
}

/// The minutes a timetable row shows for a class: its duration, at least
/// a quarter of an hour.
pub open spec fn shown_minutes(duration: int) -> int {
    if duration < 15 {
        15
    } else {
        duration
    }
}

/// The start of a class in seconds from midnight: its time, or ten
/// o'clock when the time is unreadable.
pub open spec fn row_start(time: Seq<char>) -> int {
    match hm_seconds(time) {
        Some(v) => v as int,
        None => 36000,
    }
}

/// "HH:MM - HH:MM": the start and, the shown minutes later, the end of a
/// class (the clock wrapping at midnight).
pub open spec fn time_range(time: Seq<char>, duration: int) -> Seq<char> {
    hm_text(row_start(time)) + " - "@ + hm_text((row_start(time) + shown_minutes(duration) * 60) % 86400)
}

/// The time range of a timetable row.
pub fn class_time_range(time: &str, duration_minutes: i32) -> (r: String)
    ensures
        r@ == time_range(time@, duration_minutes as int),
{
    let start: u32 = match parse_hm(time) {
        Some(v) => v,
        None => 36000,
    };
    let minutes: i64 = if duration_minutes < 15 {
        15
    } else {
        duration_minutes as i64
    };
    let end = (((start as i64) + minutes * 60) % 86400) as u32;
    let a = format_hm(start);
    let b = format_hm(end);
    concat3(a.as_str(), " - ", b.as_str())
}

/// The duration of a timetable row: whole hours as "2h", anything else in
/// minutes ("45 min").
pub open spec fn duration_label(duration: int) -> Seq<char> {
    let m = shown_minutes(duration);
    if m % 60 == 0 {
        decimal((m / 60) as nat) + "h"@
    } else {
        decimal(m as nat) + " min"@
    }
}

/// The duration shown on a timetable row.
pub fn duration_display(duration_minutes: i32) -> (r: String)
    ensures
        r@ == duration_label(duration_minutes as int),
{
    let m: i64 = if duration_minutes < 15 {
        15
    } else {
        duration_minutes as i64
    };
    if m % 60 == 0 {
        let n = int_to_string(m / 60);
        concat2(n.as_str(), "h")
    } else {
        let n = int_to_string(m);
        concat2(n.as_str(), " min")
    }
}

/// The links of a timetable row: start the class's attendance session, and
/// edit the class, both returning to the timetable.
pub fn timetable_links(class_id: i64) -> (r: (String, String))
    ensures
        r.0@ == "/classes/qr?id="@ + signed_decimal(class_id as int) + "&origin=timetable"@,
        r.1@ == "/classes/edit?id="@ + signed_decimal(class_id as int) + "&origin=timetable"@,
{
    let id = int_to_string(class_id);
    (concat3("/classes/qr?id=", id.as_str(), "&origin=timetable"), concat3(
        "/classes/edit?id=",
        id.as_str(),
        "&origin=timetable",
    ))
}

/// The venue of a timetable row, "TBA" when none is known.
pub fn row_venue(venue: &Option<String>) -> (r: String)
    ensures
        r@ == match *venue {
            Some(v) => v@,
            None => "TBA"@,
        },
{
    match venue {
        Some(v) => owned(v.as_str()),
        None => owned("TBA"),
    }
}

/// The ASCII letters of `s`, in order.
pub open spec fn ascii_letters(s: Seq<char>) -> Seq<char>
    decreases s.len(),
{
    if s.len() == 0 {
        s
    } else if is_ascii_alpha(s.last()) {
        ascii_letters(s.drop_last()).push(s.last())
    } else {
        ascii_letters(s.drop_last())
    }
}

/// Every character upper-cased (ASCII letters only change).
pub open spec fn upper_all(s: Seq<char>) -> Seq<char> {
    Seq::new(s.len(), |i: int| ascii_upper(s[i]))
}

/// The initials of a module on the timetable: its first three ASCII
/// letters, upper-cased, or "MOD" when it has none.
pub open spec fn module_initials(module_code: Seq<char>) -> Seq<char> {
    let l = ascii_letters(module_code);
    if l.len() == 0 {
        "MOD"@
    } else if l.len() <= 3 {
        upper_all(l)
    } else {
        upper_all(l.take(3))
    }
}

/// The initials of a module on the timetable.
pub fn initials_of(module_code: &str) -> (r: String)
    ensures
        r@ == module_initials(module_code@),
{
    let cs = chars_of(module_code);
    let mut letters: Vec<char> = Vec::new();
    let mut i: usize = 0;
    while i < cs.len()
        invariant
            0 <= i <= cs.len(),
            letters@ == upper_all(ascii_letters(cs@.subrange(0, i as int))),
        decreases cs.len() - i,
    {
        let c = cs[i];
        proof {
            let p = cs@.subrange(0, i as int);
            assert(cs@.subrange(0, i + 1).drop_last() =~= p);
        }
        if ('a' <= c && c <= 'z') || ('A' <= c && c <= 'Z') {
            letters.push(to_ascii_upper(c));
            assert(letters@ =~= upper_all(ascii_letters(cs@.subrange(0, i + 1))));
        }
        i = i + 1;
    }
    assert(cs@.subrange(0, cs.len() as int) =~= cs@);
    if letters.len() == 0 {
        owned("MOD")
    } else if letters.len() <= 3 {
        string_of(&letters)
    } else {
        let mut first: Vec<char> = Vec::new();
        first.push(letters[0]);
        first.push(letters[1]);
        first.push(letters[2]);
        assert(first@ =~= upper_all(ascii_letters(module_code@).take(3)));
        string_of(&first)
    }
}

/// The style of a class's icon on the timetable.
pub fn class_icon_style(module_code: &str) -> (r: String)
    ensures
        r@ == "class-icon "@ + module_card_look(module_shade(module_code@)).1,
{
    let (_icon, variant) = module_card_style(module_code);
    concat2("class-icon ", variant)
}

/// Every string of `s` once, at its first place.
pub open spec fn distinct_first(s: Seq<Seq<char>>) -> Seq<Seq<char>>
    decreases s.len(),
{
    if s.len() == 0 {
        s
    } else if s.drop_last().contains(s.last()) {
        distinct_first(s.drop_last())
    } else {
        distinct_first(s.drop_last()).push(s.last())
    }
}

/// A string is among the distinct ones exactly when it is among all.
pub proof fn lemma_distinct_contains(s: Seq<Seq<char>>, x: Seq<char>)
    ensures
        distinct_first(s).contains(x) <==> s.contains(x),
    decreases s.len(),
{
    if s.len() > 0 {
        lemma_distinct_contains(s.drop_last(), x);
        let d = distinct_first(s.drop_last());
        if s.contains(x) {
            let k = choose|k: int| 0 <= k < s.len() && s[k] == x;
            if k < s.len() - 1 {
                assert(s.drop_last()[k] == x);
            }
        }
        if s.drop_last().contains(x) {
            let k = choose|k: int| 0 <= k < s.drop_last().len() && s.drop_last()[k] == x;
            assert(s[k] == x);
        }
        if !s.drop_last().contains(s.last()) {
            assert(d.push(s.last())[d.len() as int] == s.last());
            if d.push(s.last()).contains(x) {
                let k = choose|k: int| 0 <= k < d.len() + 1 && d.push(s.last())[k] == x;
                if k < d.len() {
                    assert(d[k] == x);
                }
            }
            if d.contains(x) {
                let k = choose|k: int| 0 <= k < d.len() && d[k] == x;
                assert(d.push(s.last())[k] == x);
            }
        }
        assert(s[s.len() - 1] == s.last());
    }
}

/// The distinct strings hold no string twice.
pub proof fn lemma_distinct_no_repeats(s: Seq<Seq<char>>)
    ensures
        forall|i: int, j: int|
            0 <= i < j < distinct_first(s).len() ==> #[trigger] distinct_first(s)[i] != #[trigger] distinct_first(
                s,
            )[j],
    decreases s.len(),
{
    if s.len() > 0 {
        lemma_distinct_no_repeats(s.drop_last());
        let d = distinct_first(s.drop_last());
        if !s.drop_last().contains(s.last()) {
            lemma_distinct_contains(s.drop_last(), s.last());
            assert forall|i: int, j: int| 0 <= i < j < d.len() + 1 implies #[trigger] d.push(s.last())[i]
                != #[trigger] d.push(s.last())[j] by {
                if j == d.len() {
                    assert(d.push(s.last())[i] == d[i]);
                    if d[i] == s.last() {
                        assert(d.contains(s.last()));
                    }
                } else {
                    assert(d.push(s.last())[i] == d[i] && d.push(s.last())[j] == d[j]);
                }
            }
        }
    }
}

/// The module codes of classes.
pub open spec fn module_codes(cs: Seq<Class>) -> Seq<Seq<char>> {
    Seq::new(cs.len(), |i: int| cs[i].module_code@)
}

/// Whether `s` occurs among `v`.
fn has_string(v: &Vec<String>, s: &str) -> (b: bool)
    ensures
        b == crate::text::views(v@).contains(s@),
{
    let mut i: usize = 0;
    while i < v.len()
        invariant
            0 <= i <= v.len(),
            forall|j: int| 0 <= j < i ==> v@[j]@ != s@,
        decreases v.len() - i,
    {
        if str_eq(v[i].as_str(), s) {
            assert(crate::text::views(v@)[i as int] == s@);
            return true;
        }
        i = i + 1;
    }
    assert forall|j: int| 0 <= j < crate::text::views(v@).len() implies crate::text::views(v@)[j] != s@ by {
        assert(v@[j]@ != s@);
    }
    false
}

/// The modules of the timetable's classes, each once, in the order they
/// first appear (whose enrolments the timetable adds up).
pub fn distinct_module_codes(classes: &Vec<Class>) -> (r: Vec<String>)
    ensures
        crate::text::views(r@) == distinct_first(module_codes(classes@)),
{
    let mut out: Vec<String> = Vec::new();
    let mut i: usize = 0;
    while i < classes.len()
        invariant
            0 <= i <= classes.len(),
            crate::text::views(out@) == distinct_first(module_codes(classes@).subrange(0, i as int)),
        decreases classes.len() - i,
    {
        proof {
            let p = module_codes(classes@).subrange(0, i as int);
            assert(module_codes(classes@).subrange(0, i + 1).drop_last() =~= p);
            assert(module_codes(classes@).subrange(0, i + 1).last() == classes@[i as int].module_code@);
        }
        let code = classes[i].module_code.as_str();
        proof {
            lemma_distinct_contains(module_codes(classes@).subrange(0, i as int), code@);
        }
        if !has_string(&out, code) {
            let ghost before = out@;
            out.push(owned(code));
            assert(crate::text::views(out@) =~= crate::text::views(before).push(code@));
        }
        i = i + 1;
    }
    assert(module_codes(classes@).subrange(0, classes.len() as int) =~= module_codes(classes@));
    out
}

/// The students of the lecturer's modules, added up.
pub open spec fn student_total(ms: Seq<ModuleWithStats>) -> int
    decreases ms.len(),
{
    if ms.len() == 0 {
        0
    } else {
        student_total(ms.drop_last()) + ms.last().student_count
    }
}

/// The students of the lecturer's modules (the home page's tile); every
/// running total must fit an `i32`, as the page adds them in one.
pub fn total_students(modules: &Vec<ModuleWithStats>) -> (n: i32)
    requires
        forall|k: int| 0 <= k <= modules@.len() ==> i32::MIN <= #[trigger] student_total(modules@.take(k)) <= i32::MAX,
    ensures
        n == student_total(modules@),
{
    let mut n: i32 = 0;
    let mut i: usize = 0;
    assert(modules@.take(0) =~= Seq::<ModuleWithStats>::empty());
    while i < modules.len()
        invariant
            0 <= i <= modules.len(),
            n == student_total(modules@.take(i as int)),
            forall|k: int| 0 <= k <= modules@.len() ==> i32::MIN <= #[trigger] student_total(modules@.take(k)) <= i32::MAX,
        decreases modules.len() - i,
    {
        proof {
            assert(modules@.take(i + 1).drop_last() =~= modules@.take(i as int));
            assert(i32::MIN <= student_total(modules@.take(i + 1)) <= i32::MAX);
        }
        n = n + modules[i].student_count;
        i = i + 1;
    }
    assert(modules@.take(modules.len() as int) =~= modules@);
    n
}

/// The bytes that URL encoding leaves as they are: ASCII letters, digits
/// and `-`, `.`, `_`, `~`.
pub open spec fn url_safe(b: u8) -> bool {
    (48 <= b <= 57) || (65 <= b <= 90) || (97 <= b <= 122) || b == 45 || b == 46 || b == 95 || b == 126
}

/// An upper-case hexadecimal digit.
pub open spec fn hex_digit(d: int) -> char {
    if d < 10 {
        (48 + d) as char
    } else {
        (55 + d) as char
    }
}

/// How URL encoding writes one byte: as itself when safe, else `%` and its
/// two upper-case hexadecimal digits.
pub open spec fn url_piece(b: u8) -> Seq<char> {
    if url_safe(b) {
        seq![b as char]
    } else {
        seq!['%', hex_digit(b as int / 16), hex_digit(b as int % 16)]
    }
}

/// URL (percent) encoding of bytes.
pub open spec fn url_encoded(bytes: Seq<u8>) -> Seq<char>
    decreases bytes.len(),
{
    if bytes.len() == 0 {
        Seq::empty()
    } else {
        url_encoded(bytes.drop_last()) + url_piece(bytes.last())
    }
}

/// `urlencoding::encode`: every byte of the UTF-8 text percent-encoded
/// except ASCII letters, digits and `-`, `_`, `.`, `~`, with upper-case
/// hexadecimal digits.
#[verifier::external_body]
fn url_encode(s: &str) -> (r: String)
    ensures
        r@ == url_encoded(vstd::utf8::encode_utf8(s@)),
{
    urlencoding::encode(s).into_owned()
}

/// The avatar picture of a user: drawn from the initials of the full name.
pub open spec fn avatar_link(u: UserProfile) -> Seq<char> {
    "https://ui-avatars.com/api/?name="@ + url_encoded(vstd::utf8::encode_utf8(u.name@ + " "@ + u.surname@))
        + "&background=14b8a6&color=ffffff&format=svg"@
}

/// The avatar picture of a user.
pub fn avatar_url(user: &UserProfile) -> (r: String)
    ensures
        r@ == avatar_link(*user),
{
    let full = concat3(user.name.as_str(), " ", user.surname.as_str());
    let encoded = url_encode(full.as_str());
    concat3("https://ui-avatars.com/api/?name=", encoded.as_str(), "&background=14b8a6&color=ffffff&format=svg")
}

/// The student number shown on the profile: "STU-" and the user id in six
/// digits, or "STU-000000" when no one is signed in.
pub open spec fn student_number(user: Option<UserProfile>) -> Seq<char> {
    match user {
        Some(u) => "STU-"@ + signed_padded(u.user_id as int, 6),
        None => "STU-000000"@,
    }
}

/// The student number shown on the profile.
pub fn student_id_label(user: &Option<UserProfile>) -> (r: String)
    ensures
        r@ == student_number(*user),
{
    match user {
        Some(u) => {
            let n = int_to_padded_string(u.user_id, 6);
            concat2("STU-", n.as_str())
        },
        None => owned("STU-000000"),
    }
}

/// The full name shown on the student pages, "Student" when no one is
/// signed in.
pub open spec fn student_display_name(user: Option<UserProfile>) -> Seq<char> {
    match user {
        Some(u) => u.name@ + " "@ + u.surname@,
        None => "Student"@,
    }
}

/// The full name shown on the student pages.
pub fn student_full_name(user: &Option<UserProfile>) -> (r: String)
    ensures
        r@ == student_display_name(*user),
{
    match user {
        Some(u) => concat3(u.name.as_str(), " ", u.surname.as_str()),
        None => owned("Student"),
    }
}

/// The email line of the student profile, "student@example.com" when no
/// one is signed in.
pub fn student_email_label(user: &Option<UserProfile>) -> (r: String)
    ensures
        r@ == match *user {
            Some(u) => u.email_address@,
            None => "student@example.com"@,
        },
{
    match user {
        Some(u) => owned(u.email_address.as_str()),
        None => owned("student@example.com"),
    }
}

/// The subtitle of the student's home page: "Welcome back, " and the first
/// name ("Student" when no one is signed in), then "!".
pub open spec fn student_welcome(user: Option<UserProfile>) -> Seq<char> {
    match user {
        Some(u) => "Welcome back, "@ + u.name@ + "!"@,
        None => "Welcome back, Student!"@,
    }
}

/// The subtitle of the student's home page.
pub fn student_subtitle(user: &Option<UserProfile>) -> (r: String)
    ensures
        r@ == student_welcome(*user),
{
    match user {
        Some(u) => concat3("Welcome back, ", u.name.as_str(), "!"),
        None => owned("Welcome back, Student!"),
    }
}

/// The role shown on the student profile, "Student" when no one is signed
/// in.
pub fn user_role_label(user: &Option<UserProfile>) -> (r: String)
    ensures
        r@ == match *user {
            Some(u) => role_label(u.role@),
            None => "Student"@,
        },
{
    match user {
        Some(u) => format_role(u.role.as_str()),
        None => owned("Student"),
    }
}

} // verus!
