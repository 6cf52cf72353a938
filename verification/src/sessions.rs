//! Attendance sessions: when a class's session opens and closes, what a
//! scanned QR code says, and whether a scan may be recorded.
use vstd::prelude::*;
use crate::dates::{hm_parse, iso_date_parse, read_hm, read_iso_date};
use crate::models::{ClassSession, UserProfile};
use crate::numbers::{parse_i64_spec, parse_int_chars};
use crate::text::{
    blank, chars_eq, chars_of, concat2, is_blank, lemma_split_append_sep, lemma_split_extend, lemma_split_words,
    owned, split_chars, split_fields, string_of,
};

verus! {

/// The answer to a request about a class's attendance session.
#[derive(Clone, Debug, PartialEq)]
pub struct ClassSessionResponse {
    pub success: bool,
    pub message: String,
    pub session: Option<ClassSession>,
    pub class_status: Option<String>,
}

/// The answer to a scanned attendance code.
#[derive(Clone, Debug, PartialEq)]
pub struct RecordAttendanceResponse {
    pub success: bool,
    pub message: String,
}

/// The start of a class in seconds of local time (day number times a day,
/// plus the time of day), or the message for an unreadable date or time.
pub open spec fn class_start(date: Seq<char>, time: Seq<char>) -> Result<int, Seq<char>> {
    match iso_date_parse(date) {
        Err(e) => Err("Invalid class date: "@ + e),
        Ok(d) => match hm_parse(time) {
            Err(e) => Err("Invalid class time: "@ + e),
            Ok(t) => Ok(d as int * 86400 + t as int),
        },
    }
}

/// When a class starts, in seconds (see `class_start`).
pub fn class_start_seconds(date: &str, time: &str) -> (r: Result<i64, String>)
    ensures
        match class_start(date@, time@) {
            Ok(v) => r == Ok::<i64, String>(v as i64),
            Err(m) => r is Err && r->Err_0@ == m,
        },
{
    let d = match read_iso_date(date) {
        Ok(d) => d,
        Err(e) => return Err(concat2("Invalid class date: ", e.as_str())),
    };
    let t = match read_hm(time) {
        Ok(t) => t,
        Err(e) => return Err(concat2("Invalid class time: ", e.as_str())),
    };
    Ok((d as i64) * 86400 + (t as i64))
}

/// A session lasts the class's duration, and at least a quarter of an hour.
pub open spec fn session_minutes(duration_minutes: int) -> int {
    if duration_minutes < 15 {
        15
    } else {
        duration_minutes
    }
}

/// A class without a running session gets one once its start has come.
pub open spec fn opens_session(start: int, now: int, has_active: bool) -> bool {
    !has_active && now >= start
}

/// Whether a session is to be opened for a class now.
pub fn should_open_session(start: i64, now: i64, has_active: bool) -> (b: bool)
    ensures
        b == opens_session(start as int, now as int, has_active),
{
    !has_active && now >= start
}

/// A running session closes once the session length has passed since it
/// started (since the class's start when its start time is unreadable).
pub open spec fn session_over(started: Option<int>, class_start: int, duration_minutes: int, now: int) -> bool {
    let from = match started {
        Some(s) => s,
        None => class_start,
    };
    now >= from + session_minutes(duration_minutes) * 60
}

/// Whether a running session is to be closed now; times in seconds.
pub fn should_close_session(started: Option<i64>, class_start: i64, duration_minutes: i32, now: i64) -> (b: bool)
    requires
        i64::MIN / 2 <= class_start <= i64::MAX / 2,
        started matches Some(s) ==> i64::MIN / 2 <= s <= i64::MAX / 2,
    ensures
        b == session_over(
            match started {
                Some(s) => Some(s as int),
                None => None,
            },
            class_start as int,
            duration_minutes as int,
            now as int,
        ),
{
    let from = match started {
        Some(s) => s,
        None => class_start,
    };
    let minutes: i64 = if duration_minutes < 15 {
        15
    } else {
        duration_minutes as i64
    };
    now >= from + minutes * 60
}

/// A session is opened for a class exactly when none is running and the
/// class's start time has come (at that very second too).
pub proof fn lemma_session_opens_at_start(start: int, now: int, has_active: bool)
    ensures
        has_active ==> !opens_session(start, now, has_active),
        !has_active ==> (opens_session(start, now, has_active) <==> start <= now),
{
}

/// A running session is over exactly once the class's duration in minutes
/// has passed since the session started, with a quarter of an hour at the
/// least and no upper bound; without a start time, it is counted from the
/// class's start.
pub proof fn lemma_session_length(started: int, class_start: int, duration_minutes: int, now: int)
    ensures
        duration_minutes >= 15 ==> (session_over(Some(started), class_start, duration_minutes, now) <==> now
            - started >= duration_minutes * 60),
        duration_minutes < 15 ==> (session_over(Some(started), class_start, duration_minutes, now) <==> now
            - started >= 900),
        session_over(None, class_start, duration_minutes, now) == session_over(
            Some(class_start),
            started,
            duration_minutes,
            now,
        ),
{
}

/// A session opened by the check that finds a class due is not closed by
/// the same check: it lasts at least a quarter of an hour from its start.
pub proof fn lemma_opened_session_stays_open(class_start: int, duration_minutes: int, now: int)
    requires
        opens_session(class_start, now, false),
    ensures
        !session_over(Some(now), class_start, duration_minutes, now),
        session_over(Some(now), class_start, duration_minutes, now + session_minutes(duration_minutes) * 60),
{
}

/// A scanned code on the student's home page: recorded for the signed-in
/// student's address; refused, with no request made, when no one is signed
/// in.
pub fn plan_scan(user: &Option<UserProfile>) -> (r: Result<String, &'static str>)
    ensures
        match *user {
            Some(u) => r is Ok && r->Ok_0@ == u.email_address@,
            None => r is Err && r->Err_0@ == "Please log in as a student to record attendance."@,
        },
{
    match user {
        Some(u) => Ok(owned(u.email_address.as_str())),
        None => Err("Please log in as a student to record attendance."),
    }
}

/// Why a scanned code is refused.
#[derive(PartialEq, Eq, Debug, Clone, Copy)]
pub enum PayloadError {
    /// Not of the form `session:<id>:class:<id>`.
    InvalidQr,
    InvalidSessionId,
    InvalidClassId,
}

/// What a scanned attendance code names: `session:<session id>:class:<class id>`.
pub open spec fn payload_ids(payload: Seq<char>) -> Result<(int, int), PayloadError> {
    let parts = split_fields(payload, seq![':']);
    if parts.len() != 4 || parts[0] != "session"@ || parts[2] != "class"@ {
        Err(PayloadError::InvalidQr)
    } else {
        match parse_i64_spec(parts[1]) {
            None => Err(PayloadError::InvalidSessionId),
            Some(s) => match parse_i64_spec(parts[3]) {
                None => Err(PayloadError::InvalidClassId),
                Some(c) => Ok((s, c)),
            },
        }
    }
}

/// Reads a scanned attendance code: the session and class it names.
pub fn read_payload(payload: &str) -> (r: Result<(i64, i64), PayloadError>)
    ensures
        match payload_ids(payload@) {
            Ok((s, c)) => r == Ok::<(i64, i64), PayloadError>((s as i64, c as i64)),
            Err(e) => r == Err::<(i64, i64), PayloadError>(e),
        },
{
    let cs = chars_of(payload);
    let mut seps: Vec<char> = Vec::new();
    seps.push(':');
    assert(seps@ =~= seq![':']);
    let parts = split_chars(&cs, &seps);
    let session_word = chars_of("session");
    let class_word = chars_of("class");
    if parts.len() != 4 || !chars_eq(&parts[0], &session_word) || !chars_eq(&parts[2], &class_word) {
        return Err(PayloadError::InvalidQr);
    }
    let sid = match parse_int_chars(&parts[1], true, i64::MIN, i64::MAX) {
        Some(v) => v,
        None => return Err(PayloadError::InvalidSessionId),
    };
    let cid = match parse_int_chars(&parts[3], true, i64::MIN, i64::MAX) {
        Some(v) => v,
        None => return Err(PayloadError::InvalidClassId),
    };
    Ok((sid, cid))
}

/// The code that a class's attendance QR shows for a session.
pub open spec fn payload_text(session_id: int, class_id: int) -> Seq<char> {
    "session:"@ + crate::numbers::signed_decimal(session_id) + ":class:"@
        + crate::numbers::signed_decimal(class_id)
}

/// The code that the attendance QR of a session shows.
pub fn attendance_payload(session_id: i64, class_id: i64) -> (r: String)
    ensures
        r@ == payload_text(session_id as int, class_id as int),
{
    let a = crate::numbers::int_to_string(session_id);
    let b = crate::numbers::int_to_string(class_id);
    crate::text::concat4("session:", a.as_str(), ":class:", b.as_str())
}

/// The QR code of a session names that session and its class again.
pub proof fn lemma_payload_round_trip(session_id: i64, class_id: i64)
    ensures
        payload_ids(payload_text(session_id as int, class_id as int)) == Ok::<(int, int), PayloadError>(
            (session_id as int, class_id as int),
        ),
{
    let a = crate::numbers::signed_decimal(session_id as int);
    let b = crate::numbers::signed_decimal(class_id as int);
    lemma_decimal_has_no_colon(session_id as int);
    lemma_decimal_has_no_colon(class_id as int);
    let seps = seq![':'];
    assert(seps.contains(':')) by {
        assert(seps[0] == ':');
    }
    reveal_strlit("session");
    reveal_strlit("class");
    reveal_strlit("session:");
    reveal_strlit(":class:");
    let s1 = "session"@;
    let s2 = "class"@;
    assert("session:"@ =~= s1.push(':'));
    assert(":class:"@ =~= seq![':'] + s2.push(':'));
    lemma_split_words(s1, seps);
    lemma_split_words(s2, seps);
    let whole = payload_text(session_id as int, class_id as int);
    assert(whole =~= s1.push(':') + a + seq![':'] + s2.push(':') + b);
    lemma_split_append_sep(s1, ':', seps);
    assert(s1.push(':').last() == ':');
    lemma_split_extend(s1.push(':'), a, seps);
    assert((s1.push(':') + a + seq![':']).last() == ':');
    assert((s1.push(':') + a + seq![':'] + s2.push(':')).last() == ':');
    lemma_split_append_sep(s1.push(':') + a, ':', seps);
    lemma_split_extend(s1.push(':') + a + seq![':'], s2, seps);
    lemma_split_append_sep(s1.push(':') + a + seq![':'] + s2, ':', seps);
    lemma_split_extend(s1.push(':') + a + seq![':'] + s2.push(':'), b, seps);
    assert(s1.push(':') + a + seq![':'] + s2.push(':') =~= s1.push(':') + a + seq![':'] + s2 + seq![
        ':',
    ]);
    assert(s1.push(':') + a + seq![':'] =~= (s1.push(':') + a).push(':'));
    assert((s1.push(':') + a + seq![':'] + s2).push(':') =~= s1.push(':') + a + seq![':'] + s2
        + seq![':']);
    crate::numbers::lemma_parse_of_format(session_id);
    crate::numbers::lemma_parse_of_format(class_id);
    let parts = split_fields(whole, seps);
    assert(parts =~= seq![s1, a, s2, b]);
}

/// No decimal text of an integer holds a ':'.
proof fn lemma_decimal_has_no_colon(x: int)
    ensures
        forall|i: int|
            0 <= i < crate::numbers::signed_decimal(x).len() ==> crate::numbers::signed_decimal(x)[i]
                != ':',
{
    let s = crate::numbers::signed_decimal(x);
    if x < 0 {
        crate::numbers::lemma_decimal_digits((-x) as nat);
        assert(crate::numbers::zero_pad(crate::numbers::decimal((-x) as nat), 0) == crate::numbers::decimal((-x) as nat));
        assert(s =~= seq!['-'] + crate::numbers::decimal((-x) as nat));
        assert forall|i: int| 0 <= i < s.len() implies s[i] != ':' by {
            if i > 0 {
                assert(s[i] == crate::numbers::decimal((-x) as nat)[i - 1]);
                assert(crate::numbers::is_digit_char(crate::numbers::decimal((-x) as nat)[i - 1]));
            }
        }
    } else {
        crate::numbers::lemma_decimal_digits(x as nat);
        assert(crate::numbers::zero_pad(crate::numbers::decimal(x as nat), 0) == crate::numbers::decimal(x as nat));
        assert forall|i: int| 0 <= i < s.len() implies s[i] != ':' by {
            assert(crate::numbers::is_digit_char(s[i]));
        }
    }
}

/// The answer to a refused scan.
pub fn scan_refused(message: &str) -> (r: RecordAttendanceResponse)
    ensures
        !r.success,
        r.message@ == message@,
{
    RecordAttendanceResponse { success: false, message: owned(message) }
}

/// The answer to a recorded scan.
pub fn scan_recorded() -> (r: RecordAttendanceResponse)
    ensures
        r.success,
        r.message@ == "Attendance recorded"@,
{
    RecordAttendanceResponse { success: true, message: owned("Attendance recorded") }
}

/// The answer to a scan whose code does not read: a refused scan where the
/// code is not in the session format, an error where its session or class
/// number is unreadable.
pub fn payload_answer(e: PayloadError) -> (r: Result<RecordAttendanceResponse, String>)
    ensures
        match e {
            PayloadError::InvalidQr => r is Ok && !r->Ok_0.success && r->Ok_0.message@ == "Invalid QR code"@,
            PayloadError::InvalidSessionId => r is Err && r->Err_0@ == "Invalid session id"@,
            PayloadError::InvalidClassId => r is Err && r->Err_0@ == "Invalid class id"@,
        },
{
    match e {
        PayloadError::InvalidQr => Ok(scan_refused("Invalid QR code")),
        PayloadError::InvalidSessionId => Err(owned("Invalid session id")),
        PayloadError::InvalidClassId => Err(owned("Invalid class id")),
    }
}

/// The first reason why a scan for class `class_id` cannot be recorded
/// against the session found for it, if any.
pub open spec fn scan_refusal(
    lookup: Result<Option<ClassSession>, String>,
    class_id: i64,
    student_email: Seq<char>,
) -> Option<Seq<char>> {
    match lookup {
        Err(e) => Some(e@),
        Ok(None) => Some("Session not found"@),
        Ok(Some(s)) => if s.ended_at is Some {
            Some("Session has ended"@)
        } else if s.class_id != class_id {
            Some("Session mismatch"@)
        } else if is_blank(student_email) {
            Some("Missing student email"@)
        } else {
            None
        },
    }
}

/// Checks a scan against the session that the code names: the refusal
/// message, if any.
pub fn check_scan(lookup: Result<Option<ClassSession>, String>, class_id: i64, student_email: &str) -> (r: Option<
    String,
>)
    ensures
        match scan_refusal(lookup, class_id, student_email@) {
            Some(m) => r is Some && r->0@ == m,
            None => r is None,
        },
{
    match lookup {
        Err(e) => Some(e),
        Ok(None) => Some(owned("Session not found")),
        Ok(Some(s)) => {
            if s.ended_at.is_some() {
                Some(owned("Session has ended"))
            } else if s.class_id != class_id {
                Some(owned("Session mismatch"))
            } else if blank(student_email) {
                Some(owned("Missing student email"))
            } else {
                None
            }
        },
    }
}

/// The answer after trying to open a session.
pub fn session_started(outcome: Result<ClassSession, String>) -> (r: ClassSessionResponse)
    ensures
        match outcome {
            Ok(s) => r.success && r.message@ == "Session started"@ && r.session == Some(s)
                && (r.class_status matches Some(st) && st@ == "in_progress"@),
            Err(e) => !r.success && r.message == e && r.session is None && r.class_status is None,
        },
{
    match outcome {
        Ok(s) => ClassSessionResponse {
            success: true,
            message: owned("Session started"),
            session: Some(s),
            class_status: Some(owned("in_progress")),
        },
        Err(e) => ClassSessionResponse { success: false, message: e, session: None, class_status: None },
    }
}

/// The answer after trying to close a session.
pub fn session_ended(outcome: Result<ClassSession, String>) -> (r: ClassSessionResponse)
    ensures
        match outcome {
            Ok(s) => r.success && r.message@ == "Session ended"@ && r.session == Some(s)
                && (r.class_status matches Some(st) && st@ == "completed"@),
            Err(e) => !r.success && r.message == e && r.session is None && r.class_status is None,
        },
{
    match outcome {
        Ok(s) => ClassSessionResponse {
            success: true,
            message: owned("Session ended"),
            session: Some(s),
            class_status: Some(owned("completed")),
        },
        Err(e) => ClassSessionResponse { success: false, message: e, session: None, class_status: None },
    }
}

/// The answer to a query for a class's running session, with the class's
/// status.
pub fn active_session_answer(session: Option<ClassSession>, class_status: String) -> (r: ClassSessionResponse)
    ensures
        r.class_status == Some(class_status),
        match session {
            Some(s) => r.success && r.message@ == "Active session found"@ && r.session == Some(s),
            None => !r.success && r.message@ == "No active session"@ && r.session is None,
        },
{
    match session {
        Some(s) => ClassSessionResponse {
            success: true,
            message: owned("Active session found"),
            session: Some(s),
            class_status: Some(class_status),
        },
        None => ClassSessionResponse {
            success: false,
            message: owned("No active session"),
            session: None,
            class_status: Some(class_status),
        },
    }
}

/// The refusal when a class already has a running session.
pub fn session_already_active() -> (m: String)
    ensures
        m@ == "A session is already active for this class"@,
{
    owned("A session is already active for this class")
}

} // verus!
