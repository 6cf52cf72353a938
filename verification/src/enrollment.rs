//! Enrolling students in modules: one at a time, or a class list pasted as
//! comma- or line-separated addresses.
use vstd::prelude::*;
use crate::models::{EnrollmentResponse, StudentInfo, StudentScheduleItem};
use crate::numbers::{int_to_string, signed_decimal};
use crate::text::{
    blank, chars_of, contains_char, has_char, is_blank, lowercase, owned, split_chars, split_fields,
    string_of, to_lowercase, trim, trim_chars, trim_str, views,
};

verus! {

/// The addresses kept from the fields of a class list: each field trimmed,
/// kept when it is not empty and holds an '@'.
pub open spec fn picked_addresses(fields: Seq<Seq<char>>) -> Seq<Seq<char>>
    decreases fields.len(),
{
    if fields.len() == 0 {
        Seq::empty()
    } else {
        let rest = picked_addresses(fields.drop_last());
        let f = trim(fields.last());
        if f.len() > 0 && has_char(f, '@') {
            rest.push(f)
        } else {
            rest
        }
    }
}

/// The addresses of a pasted class list: its lines split at commas, each
/// field trimmed, kept when not empty and holding an '@'. (Splitting at
/// every newline and comma gives the same fields as `lines()` and then
/// `split(',')`, since the '\r' that `lines()` drops is trimmed anyway.)
pub open spec fn class_list_addresses(content: Seq<char>) -> Seq<Seq<char>> {
    picked_addresses(split_fields(content, seq!['\n', ',']))
}

/// Every address taken from a class list is non-empty and holds an '@'.
pub proof fn lemma_listed_addresses_hold_at(fields: Seq<Seq<char>>)
    ensures
        forall|i: int|
            0 <= i < picked_addresses(fields).len() ==> (#[trigger] picked_addresses(fields)[i]).len() > 0
                && has_char(picked_addresses(fields)[i], '@'),
    decreases fields.len(),
{
    if fields.len() > 0 {
        lemma_listed_addresses_hold_at(fields.drop_last());
        let rest = picked_addresses(fields.drop_last());
        let f = trim(fields.last());
        if f.len() > 0 && has_char(f, '@') {
            assert forall|i: int| 0 <= i < rest.push(f).len() implies (#[trigger] rest.push(f)[i]).len() > 0
                && has_char(rest.push(f)[i], '@') by {
                if i < rest.len() {
                    assert(rest.push(f)[i] == rest[i]);
                }
            }
        }
    }
}

/// The addresses of a pasted class list.
pub fn class_list_emails(content: &str) -> (r: Vec<String>)
    ensures
        views(r@) == class_list_addresses(content@),
{
    let cs = chars_of(content);
    let mut seps: Vec<char> = Vec::new();
    seps.push('\n');
    seps.push(',');
    assert(seps@ =~= seq!['\n', ',']);
    let fields = split_chars(&cs, &seps);
    let ghost fs = split_fields(cs@, seps@);
    let mut out: Vec<String> = Vec::new();
    let mut i: usize = 0;
    while i < fields.len()
        invariant
            0 <= i <= fields.len(),
            fields@.len() == fs.len(),
            forall|k: int| 0 <= k < fields@.len() ==> (#[trigger] fields@[k])@ == fs[k],
            views(out@) == picked_addresses(fs.subrange(0, i as int)),
        decreases fields.len() - i,
    {
        let t = trim_chars(&fields[i]);
        proof {
            let p = fs.subrange(0, i as int);
            assert(fs.subrange(0, i + 1) =~= p.push(fs[i as int]));
            assert(p.push(fs[i as int]).drop_last() =~= p);
        }
        if t.len() > 0 && contains_char(&t, '@') {
            let s = string_of(&t);
            out.push(s);
            proof {
                assert(views(out@) =~= picked_addresses(fs.subrange(0, i as int)).push(t@));
            }
        }
        i = i + 1;
    }
    assert(fs.subrange(0, fields.len() as int) =~= fs);
    out
}

/// Plans a class-list import on the new-module page: refused with nothing
/// pasted, before the module is created, or without any address;
/// otherwise the addresses.
pub fn plan_class_list_import(content: &str, module_code: &str) -> (r: Result<Vec<String>, &'static str>)
    ensures
        is_blank(content@) ==> r is Err && r->Err_0@ == "Please paste CSV content"@,
        !is_blank(content@) && module_code@.len() == 0 ==> r is Err && r->Err_0@
            == "Please create the module first"@,
        !is_blank(content@) && module_code@.len() != 0 && class_list_addresses(content@).len() == 0
            ==> r is Err && r->Err_0@ == "No valid email addresses found in CSV"@,
        !is_blank(content@) && module_code@.len() != 0 && class_list_addresses(content@).len() != 0
            ==> r is Ok && views(r->Ok_0@) == class_list_addresses(content@),
{
    if blank(content) {
        return Err("Please paste CSV content");
    }
    if module_code.is_empty() {
        return Err("Please create the module first");
    }
    let emails = class_list_emails(content);
    if emails.len() == 0 {
        return Err("No valid email addresses found in CSV");
    }
    Ok(emails)
}

/// Plans a class-list import on the module editor (whose module exists):
/// refused with nothing pasted or without any address; otherwise the
/// addresses, in the order they were pasted.
pub fn plan_edit_class_list_import(content: &str) -> (r: Result<Vec<String>, &'static str>)
    ensures
        is_blank(content@) ==> r is Err && r->Err_0@ == "Please paste CSV content"@,
        !is_blank(content@) && class_list_addresses(content@).len() == 0 ==> r is Err && r->Err_0@
            == "No valid email addresses found"@,
        !is_blank(content@) && class_list_addresses(content@).len() != 0 ==> r is Ok && views(r->Ok_0@)
            == class_list_addresses(content@),
{
    if blank(content) {
        return Err("Please paste CSV content");
    }
    let emails = class_list_emails(content);
    if emails.len() == 0 {
        return Err("No valid email addresses found");
    }
    Ok(emails)
}

/// An address as the enrolment of a class list reads it: trimmed and
/// lower-cased; none when nothing is left.
pub open spec fn listed_address(raw: Seq<char>) -> Option<Seq<char>> {
    let e = lowercase(trim(raw));
    if e.len() == 0 {
        None
    } else {
        Some(e)
    }
}

/// Reads one address of a class list.
pub fn read_listed_address(raw: &str) -> (r: Option<String>)
    ensures
        match listed_address(raw@) {
            Some(e) => r is Some && r->0@ == e,
            None => r is None,
        },
{
    let t = trim_str(raw);
    let e = to_lowercase(t.as_str());
    if e.as_str().is_empty() {
        None
    } else {
        Some(e)
    }
}

/// What became of one address of a class list.
#[derive(PartialEq, Eq, Debug, Clone, Copy)]
pub enum EnrollOutcome {
    /// No student account has the address.
    NotFound,
    /// The student was already enrolled (skipped silently).
    AlreadyEnrolled,
    Enrolled,
    /// Storing the enrolment failed.
    Failed,
}

/// The tally of a class-list enrolment.
#[derive(Clone, Debug, PartialEq)]
pub struct BulkTally {
    pub enrolled: u32,
    pub errors: Vec<String>,
}

/// The error note for an address, if its outcome gives one.
pub open spec fn outcome_note(email: Seq<char>, outcome: EnrollOutcome) -> Option<Seq<char>> {
    match outcome {
        EnrollOutcome::NotFound => Some(email + " (not found)"@),
        EnrollOutcome::Failed => Some(email + " (enrollment failed)"@),
        _ => None,
    }
}

/// An empty tally.
pub fn new_tally() -> (t: BulkTally)
    ensures
        t.enrolled == 0,
        t.errors@.len() == 0,
{
    BulkTally { enrolled: 0, errors: Vec::new() }
}

/// Counts the outcome for `email` into the tally: an enrolment adds one, a
/// missing account or a failure adds its note.
pub fn tally_outcome(t: &mut BulkTally, email: &str, outcome: EnrollOutcome)
    requires
        old(t).enrolled < u32::MAX,
    ensures
        final(t).enrolled == old(t).enrolled + (if outcome == EnrollOutcome::Enrolled { 1int } else { 0 }),
        views(final(t).errors@) == match outcome_note(email@, outcome) {
            Some(n) => views(old(t).errors@).push(n),
            None => views(old(t).errors@),
        },
{
    let ghost before = views(t.errors@);
    match outcome {
        EnrollOutcome::NotFound => {
            let n = crate::text::concat2(email, " (not found)");
            t.errors.push(n);
            assert(views(t.errors@) =~= before.push(email@ + " (not found)"@));
        },
        EnrollOutcome::Failed => {
            let n = crate::text::concat2(email, " (enrollment failed)");
            t.errors.push(n);
            assert(views(t.errors@) =~= before.push(email@ + " (enrollment failed)"@));
        },
        EnrollOutcome::Enrolled => {
            t.enrolled = t.enrolled + 1;
        },
        EnrollOutcome::AlreadyEnrolled => {},
    }
}

/// The notes joined with `sep` between them.
pub open spec fn joined(items: Seq<Seq<char>>, sep: Seq<char>) -> Seq<char>
    decreases items.len(),
{
    if items.len() == 0 {
        Seq::empty()
    } else if items.len() == 1 {
        items[0]
    } else {
        joined(items.drop_last(), sep) + sep + items.last()
    }
}

/// `items.join(sep)`.
pub fn join_strings(items: &Vec<String>, sep: &str) -> (r: String)
    ensures
        r@ == joined(views(items@), sep@),
{
    let mut out = String::new();
    let mut i: usize = 0;
    while i < items.len()
        invariant
            0 <= i <= items.len(),
            out@ == joined(views(items@).subrange(0, i as int), sep@),
        decreases items.len() - i,
    {
        proof {
            let p = views(items@).subrange(0, i as int);
            assert(views(items@).subrange(0, i + 1) =~= p.push(items@[i as int]@));
            assert(p.push(items@[i as int]@).drop_last() =~= p);
        }
        if i > 0 {
            out.append(sep);
        } else {
            assert(out@ =~= Seq::<char>::empty());
        }
        out.append(items[i].as_str());
        i = i + 1;
    }
    assert(views(items@).subrange(0, items.len() as int) =~= views(items@));
    out
}

/// The message that ends a class-list enrolment.
pub open spec fn bulk_message(enrolled: int, errors: Seq<Seq<char>>) -> Seq<char> {
    if errors.len() == 0 {
        "Successfully enrolled "@ + signed_decimal(enrolled) + " student(s)"@
    } else {
        "Enrolled "@ + signed_decimal(enrolled) + " student(s). Errors: "@ + joined(errors, ", "@)
    }
}

/// The answer that ends a class-list enrolment: a success when anyone was
/// enrolled.
pub fn bulk_answer(t: &BulkTally) -> (r: EnrollmentResponse)
    ensures
        r.success == (t.enrolled > 0),
        r.message@ == bulk_message(t.enrolled as int, views(t.errors@)),
        r.student is None,
{
    let n = int_to_string(t.enrolled as i64);
    let message = if t.errors.len() == 0 {
        crate::text::concat3("Successfully enrolled ", n.as_str(), " student(s)")
    } else {
        let list = join_strings(&t.errors, ", ");
        let mut m = crate::text::concat3("Enrolled ", n.as_str(), " student(s). Errors: ");
        m.append(list.as_str());
        m
    };
    EnrollmentResponse { success: t.enrolled > 0, message, student: None }
}

/// The first reason why a single enrolment is refused, checked in order:
/// no such student, no such module, already enrolled.
pub open spec fn enrollment_refusal(student_found: bool, module_exists: bool, already_enrolled: bool) -> Option<
    Seq<char>,
> {
    if !student_found {
        Some("Student not found with this email address"@)
    } else if !module_exists {
        Some("Module not found"@)
    } else if already_enrolled {
        Some("Student is already enrolled in this module"@)
    } else {
        None
    }
}

/// The answer to a refused single enrolment, if it is refused.
pub fn enrollment_refused(student_found: bool, module_exists: bool, already_enrolled: bool) -> (r: Option<
    EnrollmentResponse,
>)
    ensures
        match enrollment_refusal(student_found, module_exists, already_enrolled) {
            Some(m) => r is Some && !r->0.success && r->0.message@ == m && r->0.student is None,
            None => r is None,
        },
{
    let m = if !student_found {
        "Student not found with this email address"
    } else if !module_exists {
        "Module not found"
    } else if already_enrolled {
        "Student is already enrolled in this module"
    } else {
        return None;
    };
    Some(EnrollmentResponse { success: false, message: owned(m), student: None })
}

/// The answer after a student was enrolled.
pub fn enrolled(student: StudentInfo) -> (r: EnrollmentResponse)
    ensures
        r.success,
        r.message@ == "Student enrolled successfully!"@,
        r.student == Some(student),
{
    EnrollmentResponse {
        success: true,
        message: owned("Student enrolled successfully!"),
        student: Some(student),
    }
}

/// The answer after removing a student, by how many enrolments were deleted.
pub fn unenrolled(rows_affected: u64) -> (r: EnrollmentResponse)
    ensures
        r.success == (rows_affected != 0),
        rows_affected == 0 ==> r.message@ == "Student was not enrolled in this module"@,
        rows_affected != 0 ==> r.message@ == "Student removed successfully!"@,
        r.student is None,
{
    if rows_affected == 0 {
        EnrollmentResponse {
            success: false,
            message: owned("Student was not enrolled in this module"),
            student: None,
        }
    } else {
        EnrollmentResponse {
            success: true,
            message: owned("Student removed successfully!"),
            student: None,
        }
    }
}

/// Plans adding one student on the new-module page: the address trimmed
/// and lower-cased, refused when empty or before the module is created.
pub fn plan_add_student(email_input: &str, module_code: &str) -> (r: Result<String, &'static str>)
    ensures
        lowercase(trim(email_input@)).len() == 0 ==> r is Err && r->Err_0@
            == "Please enter a student email"@,
        lowercase(trim(email_input@)).len() != 0 && module_code@.len() == 0 ==> r is Err && r->Err_0@
            == "Please create the module first"@,
        lowercase(trim(email_input@)).len() != 0 && module_code@.len() != 0 ==> r is Ok && r->Ok_0@
            == lowercase(trim(email_input@)),
{
    let t = trim_str(email_input);
    let e = to_lowercase(t.as_str());
    if e.as_str().is_empty() {
        return Err("Please enter a student email");
    }
    if module_code.is_empty() {
        return Err("Please create the module first");
    }
    Ok(e)
}

/// Plans adding one student on the module editor (whose module exists):
/// the address trimmed and lower-cased, refused when empty.
pub fn plan_edit_add_student(email_input: &str) -> (r: Result<String, &'static str>)
    ensures
        lowercase(trim(email_input@)).len() == 0 ==> r is Err && r->Err_0@ == "Please enter a student email"@,
        lowercase(trim(email_input@)).len() != 0 ==> r is Ok && r->Ok_0@ == lowercase(trim(email_input@)),
{
    let t = trim_str(email_input);
    let e = to_lowercase(t.as_str());
    if e.as_str().is_empty() {
        return Err("Please enter a student email");
    }
    Ok(e)
}

/// The students to mark absent when a session ends: those enrolled with no
/// attendance recorded for the class, in the order they are listed.
pub open spec fn absent_students(enrolled: Seq<i64>, recorded: Seq<i64>) -> Seq<i64>
    decreases enrolled.len(),
{
    if enrolled.len() == 0 {
        enrolled
    } else if recorded.contains(enrolled.last()) {
        absent_students(enrolled.drop_last(), recorded)
    } else {
        absent_students(enrolled.drop_last(), recorded).push(enrolled.last())
    }
}

/// The students marked absent are the enrolled students with no recorded
/// attendance, each kept in its place in the enrolment list: the list
/// filtered by "not recorded".
pub proof fn lemma_absentees_are_unrecorded(enrolled: Seq<i64>, recorded: Seq<i64>)
    ensures
        absent_students(enrolled, recorded) == enrolled.filter(|x: i64| !recorded.contains(x)),
    decreases enrolled.len(),
{
    reveal_with_fuel(Seq::<i64>::filter, 1);
    if enrolled.len() > 0 {
        lemma_absentees_are_unrecorded(enrolled.drop_last(), recorded);
    }
}

/// Whether `x` occurs in `v`.
fn has_id(v: &Vec<i64>, x: i64) -> (b: bool)
    ensures
        b == v@.contains(x),
{
    let mut i: usize = 0;
    while i < v.len()
        invariant
            0 <= i <= v.len(),
            forall|j: int| 0 <= j < i ==> v@[j] != x,
        decreases v.len() - i,
    {
        if v[i] == x {
            assert(v@[i as int] == x);
            return true;
        }
        i = i + 1;
    }
    false
}

/// The students to mark absent when a session ends: the enrolled students
/// (by user id) for whom no attendance is recorded.
pub fn absentees(enrolled: &Vec<i64>, recorded: &Vec<i64>) -> (r: Vec<i64>)
    ensures
        r@ == absent_students(enrolled@, recorded@),
{
    let mut out: Vec<i64> = Vec::new();
    let mut i: usize = 0;
    while i < enrolled.len()
        invariant
            0 <= i <= enrolled.len(),
            out@ == absent_students(enrolled@.subrange(0, i as int), recorded@),
        decreases enrolled.len() - i,
    {
        proof {
            let p = enrolled@.subrange(0, i as int);
            assert(enrolled@.subrange(0, i + 1).drop_last() =~= p);
        }
        if !has_id(recorded, enrolled[i]) {
            out.push(enrolled[i]);
        }
        i = i + 1;
    }
    assert(enrolled@.subrange(0, enrolled.len() as int) =~= enrolled@);
    out
}

/// The answer to a request for a student's schedule.
#[derive(Clone, Debug, PartialEq)]
pub struct StudentScheduleResponse {
    pub success: bool,
    pub message: String,
    pub classes: Vec<StudentScheduleItem>,
}

/// The email and the date of a schedule request: the email trimmed and
/// lower-cased, the date trimmed, or `today` when none (or a blank one) is
/// given.
pub open spec fn schedule_query(email: Seq<char>, date: Option<Seq<char>>, today: Seq<char>) -> Result<
    (Seq<char>, Seq<char>),
    Seq<char>,
> {
    let e = lowercase(trim(email));
    let d = match date {
        Some(x) => if trim(x).len() == 0 { today } else { trim(x) },
        None => today,
    };
    if e.len() == 0 {
        Err("Student email is required"@)
    } else if d.len() == 0 {
        Err("Could not determine the requested date"@)
    } else {
        Ok((e, d))
    }
}

/// Checks a schedule request; `today` is the ISO date of the current local
/// day.
pub fn schedule_request(student_email: &str, date: &Option<String>, today: &str) -> (r: Result<
    (String, String),
    &'static str,
>)
    ensures
        match schedule_query(
            student_email@,
            match *date {
                Some(x) => Some(x@),
                None => None,
            },
            today@,
        ) {
            Ok((e, d)) => r is Ok && r->Ok_0.0@ == e && r->Ok_0.1@ == d,
            Err(m) => r is Err && r->Err_0@ == m,
        },
{
    let t = trim_str(student_email);
    let e = to_lowercase(t.as_str());
    if e.as_str().is_empty() {
        return Err("Student email is required");
    }
    let d = match date {
        Some(x) => {
            let tx = trim_str(x.as_str());
            if tx.as_str().is_empty() {
                owned(today)
            } else {
                tx
            }
        },
        None => owned(today),
    };
    if d.as_str().is_empty() {
        return Err("Could not determine the requested date");
    }
    Ok((e, d))
}

/// The answer that refuses a schedule request with `message`.
pub fn schedule_refused(message: &str) -> (r: StudentScheduleResponse)
    ensures
        !r.success,
        r.message@ == message@,
        r.classes@.len() == 0,
{
    StudentScheduleResponse { success: false, message: owned(message), classes: Vec::new() }
}

/// The answer carrying a student's classes of the day.
pub fn schedule_answer(classes: Vec<StudentScheduleItem>) -> (r: StudentScheduleResponse)
    ensures
        r.success,
        r.classes == classes,
        classes@.len() == 0 ==> r.message@ == "No upcoming classes found for the selected date"@,
        classes@.len() > 0 ==> r.message@ == "Schedule loaded"@,
{
    let message = if classes.len() == 0 {
        owned("No upcoming classes found for the selected date")
    } else {
        owned("Schedule loaded")
    };
    StudentScheduleResponse { success: true, message, classes }
}

/// The note that the student's home page shows about a schedule answer:
/// its message when it failed or found nothing (and has a message).
pub fn schedule_feedback(response: &StudentScheduleResponse) -> (r: Option<String>)
    ensures
        ((!response.success || response.classes@.len() == 0) && response.message@.len() > 0) ==> r is Some
            && r->0@ == response.message@,
        !((!response.success || response.classes@.len() == 0) && response.message@.len() > 0) ==> r is None,
{
    if (!response.success || response.classes.len() == 0) && !response.message.as_str().is_empty() {
        Some(owned(response.message.as_str()))
    } else {
        None
    }
}

/// The answer to a request for a module's students.
#[derive(Clone, Debug, PartialEq)]
pub struct StudentsListResponse {
    pub success: bool,
    pub message: String,
    pub students: Vec<StudentInfo>,
}

/// The answer carrying a module's students.
pub fn students_listed(students: Vec<StudentInfo>) -> (r: StudentsListResponse)
    ensures
        r.success,
        r.message@ == "Students fetched successfully"@,
        r.students == students,
{
    StudentsListResponse { success: true, message: owned("Students fetched successfully"), students }
}

/// How a listed student's name reads: name and surname.
pub fn student_list_name(student: &StudentInfo) -> (r: String)
    ensures
        r@ == student.name@ + " "@ + student.surname@,
{
    crate::text::concat3(student.name.as_str(), " ", student.surname.as_str())
}

} // verus!
