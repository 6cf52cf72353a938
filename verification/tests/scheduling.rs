use clock_it::records::{attendance_write, session_start_refusal, AttendanceWrite};
use clock_it::sessions::payload_answer;
use clock_it::classes::{class_deleted, class_found, class_updated, classes_listed};
use clock_it::class_views::{
    classes_on_date, count_with_status, filter_classes, hours_display, sort_by_time, stable_time_order,
    status_badge, status_filter_token, status_text, total_minutes, HoursDisplay,
};
use clock_it::classes::{
    check_new_class, class_created, class_created_message, class_refused, class_update_request,
    form_duration, further_dates, is_repeating, new_class_request, optional_field, plan_class_edit,
    plan_new_class, repeat_interval, rewritten_series_total, series_rewritten_message, series_to_delete,
    series_updated_message, status_changed_message, time_component, unknown_module_message,
};
use clock_it::models::{Class, ClassSession, DbClass, DbClassSession};
use clock_it::sessions::{
    active_session_answer, attendance_payload, check_scan, class_start_seconds, read_payload, scan_recorded,
    scan_refused, session_already_active, session_ended, session_started, should_close_session,
    should_open_session, PayloadError,
};

fn class(id: i64, code: &str, title: &str, date: &str, time: &str, minutes: i32, status: &str) -> Class {
    Class {
        class_id: id,
        module_code: code.to_string(),
        title: title.to_string(),
        venue: Some("Hall A".to_string()),
        description: Some("Weekly lecture".to_string()),
        recurring: None,
        date: date.to_string(),
        time: time.to_string(),
        duration_minutes: minutes,
        status: status.to_string(),
        created_at: "c".to_string(),
        updated_at: "u".to_string(),
    }
}

fn session(id: i64, class_id: i64, ended: bool) -> ClassSession {
    ClassSession {
        session_id: id,
        class_id,
        started_at: "2025-03-03T09:00:00".to_string(),
        ended_at: if ended { Some("2025-03-03T10:00:00".to_string()) } else { None },
        started_by: Some("lect@uni".to_string()),
    }
}

#[test]
fn new_class_checks_in_order() {
    assert_eq!(check_new_class(" ", "2025-01-01", "09:00", 60), Some("Class title is required"));
    assert_eq!(check_new_class("T", "", "09:00", 60), Some("Date and time are required"));
    assert_eq!(check_new_class("T", "2025-01-01", " ", 60), Some("Date and time are required"));
    assert_eq!(check_new_class("T", "2025-01-01", "09:00", 0), Some("Please choose a valid duration"));
    assert_eq!(check_new_class("T", "2025-01-01", "09:00", 45), None);
    assert_eq!(class_refused("Class title is required").message, "Class title is required");
    assert_eq!(unknown_module_message("XYZ9"), "Module 'XYZ9' does not exist");
}

#[test]
fn new_class_request_cleans_fields() {
    let r = new_class_request(
        "COS1",
        "  Lecture 1 ",
        &Some("  ".to_string()),
        &Some("Intro".to_string()),
        &Some("No repeat".to_string()),
        "2025-03-03",
        "09:00",
        90,
    );
    assert_eq!(r.module_code, "COS1");
    assert_eq!(r.title, "Lecture 1");
    assert_eq!(r.venue, None);
    assert_eq!(r.description, Some("Intro".to_string()));
    assert_eq!(r.recurring, None);
    assert_eq!(r.date, "2025-03-03");
    assert_eq!(r.duration_minutes, 90);
    let w = new_class_request("C", "T", &None, &None, &Some("Weekly".to_string()), "d", "t", 30);
    assert_eq!(w.recurring, Some("Weekly".to_string()));
}

#[test]
fn repeat_patterns() {
    assert!(is_repeating(&Some("Weekly".to_string())));
    assert!(!is_repeating(&Some("No repeat".to_string())));
    assert!(!is_repeating(&None));
    assert_eq!(repeat_interval("Daily"), 1);
    assert_eq!(repeat_interval("Weekly"), 7);
    assert_eq!(repeat_interval("Monthly"), 30);
    assert_eq!(repeat_interval("Fortnightly"), 7);
}

#[test]
fn weekly_series_dates() {
    let d = further_dates("2025-03-03", "Weekly", 4);
    assert_eq!(d, vec!["2025-03-10", "2025-03-17", "2025-03-24"]);
}

#[test]
fn monthly_series_is_thirty_days_apart() {
    let d = further_dates("2025-01-31", "Monthly", 3);
    assert_eq!(d, vec!["2025-03-02", "2025-04-01"]);
}

#[test]
fn series_of_one_or_unreadable_date_has_no_further_dates() {
    assert!(further_dates("2025-03-03", "Daily", 1).is_empty());
    assert!(further_dates("2025-03-03", "Daily", -5).is_empty());
    assert!(further_dates("03/03/2025", "Daily", 5).is_empty());
}

#[test]
fn creation_messages() {
    assert_eq!(class_created_message(&None, None), "Class created successfully!");
    assert_eq!(
        class_created_message(&Some("Weekly".to_string()), None),
        "Created 8 recurring class instances successfully!"
    );
    assert_eq!(
        class_created_message(&Some("Daily".to_string()), Some(3)),
        "Created 3 recurring class instances successfully!"
    );
    let c = class_created(class(1, "A", "T", "d", "t", 60, "upcoming"), &None, None);
    assert!(c.success);
    assert_eq!(c.class.unwrap().class_id, 1);
}

#[test]
fn class_update_checks() {
    let r = class_update_request(" T ", &Some(" ".to_string()), " 2025-01-02 ", " 10:00 ", 60, &Some("Lab".to_string()), &None)
        .unwrap();
    assert_eq!(r.title, "T");
    assert_eq!(r.description, None);
    assert_eq!(r.date, "2025-01-02");
    assert_eq!(r.time, "10:00");
    assert_eq!(r.venue, Some("Lab".to_string()));
    assert_eq!(class_update_request(" ", &None, "d", "t", 60, &None, &None).unwrap_err(), "Class title is required");
    assert_eq!(class_update_request("T", &None, " ", "t", 60, &None, &None).unwrap_err(), "Class date is required");
    assert_eq!(
        class_update_request("T", &None, "d", "t", -1, &None, &None).unwrap_err(),
        "Please choose a valid duration"
    );
}

#[test]
fn series_rewrites() {
    assert_eq!(rewritten_series_total(Some(5), 2), 5);
    assert_eq!(rewritten_series_total(Some(0), 2), 1);
    assert_eq!(rewritten_series_total(None, 4), 4);
    assert_eq!(rewritten_series_total(None, 0), 1);
    assert_eq!(series_to_delete(&vec![4, 5, 6, 5], 5), vec![4, 6]);
    assert_eq!(
        series_rewritten_message(&Some("Daily".to_string()), 2),
        "Series updated to 'Daily' recurrence. Now 3 instance(s) in total."
    );
    assert_eq!(series_rewritten_message(&None, 0), "Series updated to 'No repeat'. Removed future instances.");
    assert_eq!(series_updated_message(4), "Updated 4 classes in the series");
    assert_eq!(status_changed_message("completed"), "Class status updated to completed");
}

#[test]
fn class_editor_plan() {
    let e = plan_class_edit("Lab", "2025-05-05", "14", "30", " ", "notes", "Weekly", "6", "45", &Some("Weekly".to_string()))
        .unwrap();
    assert_eq!(e.time, "14:30");
    assert_eq!(e.venue, None);
    assert_eq!(e.description, Some("notes".to_string()));
    assert_eq!(e.recurring, Some("Weekly".to_string()));
    assert_eq!(e.recurrence_count, Some(6));
    assert_eq!(e.duration_minutes, 45);
    assert!(!e.rewrite_series);
    let changed = plan_class_edit("Lab", "2025-05-05", "14", "30", "", "", "Daily", "3", "45", &Some("Weekly".to_string()))
        .unwrap();
    assert!(changed.rewrite_series);
    let started = plan_class_edit("Lab", "2025-05-05", "14", "30", "", "", "Weekly", "8", "45", &None).unwrap();
    assert!(started.rewrite_series);
    let same = plan_class_edit("Lab", "2025-05-05", "9", "0", "", "", "Weekly", "", "x", &Some("Weekly".to_string()))
        .unwrap();
    assert_eq!(same.duration_minutes, 90);
    assert!(!same.rewrite_series);
    let off = plan_class_edit("Lab", "2025-05-05", "9", "0", "", "", "No repeat", "3", "10", &Some("Daily".to_string()))
        .unwrap();
    assert_eq!(off.recurring, None);
    assert_eq!(off.recurrence_count, None);
    assert_eq!(off.duration_minutes, 15);
    assert!(off.rewrite_series);
    assert_eq!(plan_class_edit(" ", "d", "", "", "", "", "", "", "", &None).unwrap_err(), "Please enter a class title");
    assert_eq!(plan_class_edit("T", " ", "", "", "", "", "", "", "", &None).unwrap_err(), "Please select a date");
}

#[test]
fn new_class_form_plan() {
    let f = plan_new_class("COS1", "Intro", "2025-02-02", "7", "5", "Hall", "", "No repeat", "", "60").unwrap();
    assert_eq!(f.time, "07:05");
    assert_eq!(f.venue, Some("Hall".to_string()));
    assert_eq!(f.description, None);
    assert_eq!(f.recurring, None);
    assert_eq!(f.duration_minutes, 60);
    let g = plan_new_class("COS1", "Intro", "2025-02-02", "xx", "75", "", "", "Daily", "4", "").unwrap();
    assert_eq!(g.time, "09:59");
    assert_eq!(g.recurring, Some("Daily".to_string()));
    assert_eq!(g.recurrence_count, Some(4));
    assert_eq!(g.duration_minutes, 90);
    assert_eq!(
        plan_new_class("", "T", "d", "", "", "", "", "", "", "").unwrap_err(),
        "No module selected. Please go back and select a module."
    );
    assert_eq!(plan_new_class("C", "", "d", "", "", "", "", "", "", "").unwrap_err(), "Please enter a class title");
    assert_eq!(plan_new_class("C", "T", "", "", "", "", "", "", "", "").unwrap_err(), "Please select a date");
}

#[test]
fn form_pieces() {
    assert_eq!(time_component("30", 9, 23), "23");
    assert_eq!(time_component("", 9, 23), "09");
    assert_eq!(time_component("-1", 0, 59), "00");
    assert_eq!(form_duration("5"), 15);
    assert_eq!(form_duration("120"), 120);
    assert_eq!(optional_field("  "), None);
    assert_eq!(optional_field(" x "), Some(" x ".to_string()));
}

#[test]
fn db_rows_convert() {
    let row = DbClass {
        class_id: 3,
        module_code: "M".to_string(),
        title: "T".to_string(),
        venue: None,
        description: None,
        recurring: Some("Daily".to_string()),
        date: "2025-01-01".to_string(),
        time: "08:00".to_string(),
        duration_minutes: 50,
        status: "upcoming".to_string(),
        created_at: "a".to_string(),
        updated_at: "b".to_string(),
    };
    let c = Class::from(row);
    assert_eq!(c.class_id, 3);
    assert_eq!(c.recurring, Some("Daily".to_string()));
    assert_eq!(c.duration_minutes, 50);
    let s = ClassSession::from(DbClassSession {
        session_id: 8,
        class_id: 3,
        started_at: "s".to_string(),
        ended_at: None,
        started_by: None,
    });
    assert_eq!(s.session_id, 8);
    assert_eq!(s.ended_at, None);
}

#[test]
fn filter_by_search_and_status() {
    let cs = vec![
        class(1, "COS301", "Software Engineering", "2025-03-03", "09:00", 60, "upcoming"),
        class(2, "INF214", "Databases", "2025-03-04", "10:00", 90, "in_progress"),
        class(3, "COS301", "Testing", "2025-03-05", "11:00", 60, "completed"),
    ];
    let all = filter_classes(&cs, "  ", "All");
    assert_eq!(all.len(), 3);
    let cos = filter_classes(&cs, "cos", "All");
    assert_eq!(cos.iter().map(|c| c.class_id).collect::<Vec<_>>(), vec![1, 3]);
    let prog = filter_classes(&cs, "in progress", "All");
    assert_eq!(prog.iter().map(|c| c.class_id).collect::<Vec<_>>(), vec![2]);
    let done = filter_classes(&cs, "", "Completed");
    assert_eq!(done.iter().map(|c| c.class_id).collect::<Vec<_>>(), vec![3]);
    assert_eq!(done.len(), count_with_status(&cs, "completed"));
    let hall = filter_classes(&cs, "HALL a", "Upcoming");
    assert_eq!(hall.iter().map(|c| c.class_id).collect::<Vec<_>>(), vec![1]);
    assert!(filter_classes(&cs, "zzz", "All").is_empty());
    assert_eq!(status_filter_token("In Progress"), Some("in_progress"));
    assert_eq!(status_filter_token("All"), None);
}

#[test]
fn counts_and_days() {
    let cs = vec![
        class(1, "A", "a", "2025-03-03", "09:00", 60, "upcoming"),
        class(2, "A", "b", "2025-03-03", "08:00", -20, "upcoming"),
        class(3, "B", "c", "2025-03-04", "10:00", 30, "completed"),
    ];
    assert_eq!(count_with_status(&cs, "upcoming"), 2);
    assert_eq!(count_with_status(&cs, "cancelled"), 0);
    let day = classes_on_date(&cs, "2025-03-03");
    assert_eq!(day.iter().map(|c| c.class_id).collect::<Vec<_>>(), vec![1, 2]);
    assert_eq!(total_minutes(&day), 60);
    assert_eq!(total_minutes(&cs), 90);
}

#[test]
fn hours_read() {
    assert_eq!(hours_display(0), HoursDisplay::Zero);
    assert_eq!(hours_display(-30), HoursDisplay::Zero);
    assert_eq!(hours_display(120), HoursDisplay::WholeHours(2));
    assert_eq!(hours_display(90), HoursDisplay::FractionOfMinutes(90));
}

#[test]
fn stable_sort_by_start_time() {
    let cs = vec![
        class(1, "A", "a", "d", "10:00", 60, "upcoming"),
        class(2, "A", "b", "d", "09:00", 60, "upcoming"),
        class(3, "A", "c", "d", "10:00", 60, "upcoming"),
        class(4, "A", "e", "d", "08:30", 60, "upcoming"),
    ];
    let sorted = sort_by_time(&cs);
    assert_eq!(sorted.iter().map(|c| c.class_id).collect::<Vec<_>>(), vec![4, 2, 1, 3]);
    let order = stable_time_order(&vec!["b".to_string(), "a".to_string(), "b".to_string(), "".to_string()]);
    assert_eq!(order, vec![3, 1, 0, 2]);
    assert!(sort_by_time(&Vec::new()).is_empty());
}

#[test]
fn status_words() {
    assert_eq!(status_badge("completed"), "status-badge completed");
    assert_eq!(status_badge("in_progress"), "status-badge in-progress");
    assert_eq!(status_badge("other"), "status-badge upcoming");
    assert_eq!(status_text("completed"), "Completed");
    assert_eq!(status_text("in_progress"), "In Progress");
    assert_eq!(status_text("upcoming"), "Upcoming");
    assert_eq!(status_text("cancelled"), "Unknown");
}

#[test]
fn qr_payload_round_trip() {
    let p = attendance_payload(12, 345);
    assert_eq!(p, "session:12:class:345");
    assert_eq!(read_payload(&p), Ok((12, 345)));
    let n = attendance_payload(-3, i64::MAX);
    assert_eq!(read_payload(&n), Ok((-3, i64::MAX)));
}

#[test]
fn qr_payload_refusals() {
    assert_eq!(read_payload("hello"), Err(PayloadError::InvalidQr));
    assert_eq!(read_payload("session:1:klass:2"), Err(PayloadError::InvalidQr));
    assert_eq!(read_payload("session:1:class:2:extra"), Err(PayloadError::InvalidQr));
    assert_eq!(read_payload("session:x:class:2"), Err(PayloadError::InvalidSessionId));
    assert_eq!(read_payload("session:1:class:"), Err(PayloadError::InvalidClassId));
    assert_eq!(read_payload("session:+7:class:8"), Ok((7, 8)));
}

#[test]
fn class_start_in_seconds() {
    let t = class_start_seconds("1970-01-02", "01:30").unwrap();
    let day0 = class_start_seconds("1970-01-01", "00:00").unwrap();
    assert_eq!(t - day0, 86400 + 5400);
    assert!(class_start_seconds("1970-13-40", "01:30").unwrap_err().starts_with("Invalid class date: "));
    assert!(class_start_seconds("1970-01-01", "25:99").unwrap_err().starts_with("Invalid class time: "));
}

#[test]
fn session_timing() {
    assert!(should_open_session(100, 100, false));
    assert!(!should_open_session(100, 99, false));
    assert!(!should_open_session(100, 200, true));
    assert!(should_close_session(Some(0), 0, 30, 1800));
    assert!(!should_close_session(Some(0), 0, 30, 1799));
    assert!(should_close_session(None, 1000, 5, 1000 + 900));
    assert!(!should_close_session(None, 1000, 5, 1000 + 899));
}

#[test]
fn scan_checks() {
    assert_eq!(check_scan(Err("Database error".to_string()), 1, "s@x"), Some("Database error".to_string()));
    assert_eq!(check_scan(Ok(None), 1, "s@x"), Some("Session not found".to_string()));
    assert_eq!(check_scan(Ok(Some(session(1, 1, true))), 1, "s@x"), Some("Session has ended".to_string()));
    assert_eq!(check_scan(Ok(Some(session(1, 2, false))), 1, "s@x"), Some("Session mismatch".to_string()));
    assert_eq!(check_scan(Ok(Some(session(1, 1, false))), 1, "  "), Some("Missing student email".to_string()));
    assert_eq!(check_scan(Ok(Some(session(1, 1, false))), 1, "s@x"), None);
    assert!(scan_recorded().success);
    assert_eq!(scan_recorded().message, "Attendance recorded");
    assert!(!scan_refused("Session mismatch").success);
}

#[test]
fn session_answers() {
    let s = session_started(Ok(session(4, 9, false)));
    assert!(s.success);
    assert_eq!(s.session.unwrap().session_id, 4);
    let e = session_started(Err(session_already_active()));
    assert!(!e.success);
    assert_eq!(e.message, "A session is already active for this class");
    let end = session_ended(Ok(session(4, 9, true)));
    assert!(end.success);
    let a = active_session_answer(None, "upcoming".to_string());
    assert_eq!(a.class_status, Some("upcoming".to_string()));
    assert!(a.session.is_none());
}

#[test]
fn class_answers() {
    let l = classes_listed(Ok(vec![class(1, "A", "t", "d", "t", 60, "upcoming")]));
    assert!(l.success);
    assert_eq!(l.message, "Classes fetched successfully");
    assert_eq!(l.classes.len(), 1);
    let e = classes_listed(Err("Database error: x".to_string()));
    assert!(!e.success && e.classes.is_empty());
    assert_eq!(class_found(None).message, "Class not found");
    assert_eq!(class_found(Some(class(2, "A", "t", "d", "t", 60, "upcoming"))).message, "Class found");
    assert_eq!(class_updated(Ok(class(2, "A", "t", "d", "t", 60, "upcoming"))).message, "Class updated successfully!");
    assert_eq!(class_updated(Err("Failed to update class: x".to_string())).message, "Failed to update class: x");
    assert_eq!(class_deleted(Ok(())).message, "Class deleted successfully!");
    assert!(!class_deleted(Err("no".to_string())).success);
}

#[test]
fn a_session_opened_now_is_not_closed_now() {
    let start = class_start_seconds("2025-03-03", "09:00").unwrap();
    let now = start + 60;
    assert!(should_open_session(start, now, false));
    assert!(!should_close_session(Some(now), start, 0, now));
    assert!(should_close_session(Some(now), start, 0, now + 15 * 60));
}

#[test]
fn unreadable_scan_answers() {
    let qr = payload_answer(read_payload("hello").unwrap_err()).unwrap();
    assert!(!qr.success);
    assert_eq!(qr.message, "Invalid QR code");
    assert_eq!(payload_answer(read_payload("session:abc:class:5").unwrap_err()).unwrap_err(), "Invalid session id");
    assert_eq!(payload_answer(read_payload("session:4:class:x").unwrap_err()).unwrap_err(), "Invalid class id");
}

#[test]
fn repeated_scan_updates_the_row() {
    assert_eq!(attendance_write(None), AttendanceWrite::Insert);
    assert_eq!(attendance_write(Some(12)), AttendanceWrite::Update(12));
}

#[test]
fn second_session_start_refused() {
    assert_eq!(session_start_refusal(&None), None);
    assert_eq!(
        session_start_refusal(&Some(session(3, 9, false))),
        Some("A session is already active for this class".to_string())
    );
}

#[test]
fn empty_search_keeps_every_class() {
    let cs = vec![class(1, "COS101", "Intro", "2025-03-01", "09:00", 60, "upcoming"), class(2, "COS102", "Lab", "2025-03-02", "10:00", 90, "completed")];
    assert_eq!(filter_classes(&cs, "", "All"), cs);
}
