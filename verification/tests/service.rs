use clock_it::enrollment::{absentees, plan_edit_add_student, plan_edit_class_list_import};
use clock_it::models::{StudentModuleBreakdown, StudentWeeklyAttendancePoint, UserProfile};
use clock_it::sessions::plan_scan;
use clock_it::stats::{best_module, best_module_note, highest_rate, lowest_rate, most_missed_module, most_missed_note, worst_day};
use clock_it::enrollment::{schedule_feedback, student_list_name, students_listed};
use clock_it::dates::days_of_ymd;
use clock_it::enrollment::{
    bulk_answer, class_list_emails, enrolled, enrollment_refused, join_strings, new_tally, plan_add_student,
    plan_class_list_import, read_listed_address, schedule_answer, schedule_refused, schedule_request,
    tally_outcome, unenrolled, EnrollOutcome,
};
use clock_it::models::{StudentInfo, StudentScheduleItem};
use clock_it::numbers::{int_to_padded_string, int_to_string, parse_i32, parse_i64, parse_u16, parse_u32};
use clock_it::qr::{decode_qr, first_decoded, grayscale, pixel_at};
use clock_it::server_config::{
    phone_access_hint, resolve_port, resolve_use_tls, sanitize_host, server_scheme, PhoneHintOrigin,
};
use clock_it::stats::{
    across_modules, day_meta, find_first, month_labels, next_month_within, sessions_text, shift_month,
    statistics_title, trend_point_label, week_day_keys, week_label, week_points, week_slots,
};
use clock_it::text::{blank, str_le, trim_str};

#[test]
fn numbers_format_and_parse() {
    assert_eq!(int_to_string(0), "0");
    assert_eq!(int_to_string(-120), "-120");
    assert_eq!(int_to_string(i64::MIN), "-9223372036854775808");
    assert_eq!(int_to_padded_string(7, 4), "0007");
    assert_eq!(int_to_padded_string(-7, 4), "-007");
    assert_eq!(int_to_padded_string(12345, 2), "12345");
    for x in [0i64, 1, -1, 42, i64::MAX, i64::MIN] {
        assert_eq!(parse_i64(&int_to_string(x)), Some(x));
    }
    assert_eq!(parse_i64("+5"), Some(5));
    assert_eq!(parse_i64("-"), None);
    assert_eq!(parse_i64(" 5"), None);
    assert_eq!(parse_i32("2147483648"), None);
    assert_eq!(parse_u32("-1"), None);
    assert_eq!(parse_u16("65535"), Some(65535));
    assert_eq!(parse_u16("65536"), None);
}

#[test]
fn text_helpers() {
    assert_eq!(trim_str("\t a b \n"), "a b");
    assert!(blank(" \u{3000}\n"));
    assert!(!blank(" x "));
    assert!(str_le("09:00", "10:00"));
    assert!(str_le("", "a"));
    assert!(!str_le("b", "a"));
}

#[test]
fn class_list_addresses() {
    let content = " a@x.com, bad ,\r\nB@Y.com\n,  \nc@z";
    assert_eq!(class_list_emails(content), vec!["a@x.com", "B@Y.com", "c@z"]);
    assert_eq!(plan_class_list_import("  ", "M1").unwrap_err(), "Please paste CSV content");
    assert_eq!(plan_class_list_import("a@b", "").unwrap_err(), "Please create the module first");
    assert_eq!(plan_class_list_import("nobody, here", "M1").unwrap_err(), "No valid email addresses found in CSV");
    assert_eq!(plan_class_list_import("a@b,c@d", "M1").unwrap(), vec!["a@b", "c@d"]);
    assert_eq!(read_listed_address("  Ann@X.com "), Some("ann@x.com".to_string()));
    assert_eq!(read_listed_address("   "), None);
}

#[test]
fn bulk_enrolment_tally() {
    let mut t = new_tally();
    tally_outcome(&mut t, "a@x", EnrollOutcome::Enrolled);
    tally_outcome(&mut t, "b@x", EnrollOutcome::NotFound);
    tally_outcome(&mut t, "c@x", EnrollOutcome::AlreadyEnrolled);
    tally_outcome(&mut t, "d@x", EnrollOutcome::Failed);
    tally_outcome(&mut t, "e@x", EnrollOutcome::Enrolled);
    assert_eq!(t.enrolled, 2);
    let r = bulk_answer(&t);
    assert!(r.success);
    assert_eq!(r.message, "Enrolled 2 student(s). Errors: b@x (not found), d@x (enrollment failed)");
    let mut clean = new_tally();
    tally_outcome(&mut clean, "a@x", EnrollOutcome::Enrolled);
    assert_eq!(bulk_answer(&clean).message, "Successfully enrolled 1 student(s)");
    let mut none = new_tally();
    tally_outcome(&mut none, "z@x", EnrollOutcome::NotFound);
    let n = bulk_answer(&none);
    assert!(!n.success);
    assert_eq!(n.message, "Enrolled 0 student(s). Errors: z@x (not found)");
    assert_eq!(join_strings(&vec!["a".to_string(), "b".to_string()], ", "), "a, b");
    assert_eq!(join_strings(&Vec::new(), ", "), "");
}

#[test]
fn single_enrolment() {
    assert_eq!(
        enrollment_refused(false, true, false).unwrap().message,
        "Student not found with this email address"
    );
    assert_eq!(enrollment_refused(true, false, true).unwrap().message, "Module not found");
    assert_eq!(
        enrollment_refused(true, true, true).unwrap().message,
        "Student is already enrolled in this module"
    );
    assert!(enrollment_refused(true, true, false).is_none());
    let s = StudentInfo { user_id: 3, name: "A".to_string(), surname: "B".to_string(), email_address: "a@b".to_string() };
    let e = enrolled(s);
    assert!(e.success);
    assert_eq!(e.message, "Student enrolled successfully!");
    assert_eq!(e.student.unwrap().user_id, 3);
    assert!(!unenrolled(0).success);
    assert_eq!(unenrolled(0).message, "Student was not enrolled in this module");
    assert_eq!(unenrolled(1).message, "Student removed successfully!");
    assert_eq!(plan_add_student("  ME@X.COM ", "M1").unwrap(), "me@x.com");
    assert_eq!(plan_add_student("  ", "M1").unwrap_err(), "Please enter a student email");
    assert_eq!(plan_add_student("me@x", "").unwrap_err(), "Please create the module first");
}

#[test]
fn student_schedule_requests() {
    assert_eq!(
        schedule_request(" S@X.COM ", &None, "2025-03-05").unwrap(),
        ("s@x.com".to_string(), "2025-03-05".to_string())
    );
    assert_eq!(
        schedule_request("s@x", &Some(" 2025-04-01 ".to_string()), "2025-03-05").unwrap(),
        ("s@x".to_string(), "2025-04-01".to_string())
    );
    assert_eq!(
        schedule_request("s@x", &Some("  ".to_string()), "2025-03-05").unwrap().1,
        "2025-03-05"
    );
    assert_eq!(schedule_request(" ", &None, "2025-03-05").unwrap_err(), "Student email is required");
    assert_eq!(schedule_request("s@x", &None, "").unwrap_err(), "Could not determine the requested date");
    assert!(!schedule_refused("Student email is required").success);
    let empty = schedule_answer(Vec::new());
    assert!(empty.success);
    assert_eq!(empty.message, "No upcoming classes found for the selected date");
    let one = schedule_answer(vec![StudentScheduleItem {
        class_id: 1,
        module_code: "M".to_string(),
        module_title: "Mt".to_string(),
        class_title: "C".to_string(),
        venue: None,
        date: "2025-03-05".to_string(),
        time: "09:00".to_string(),
        status: "upcoming".to_string(),
    }]);
    assert_eq!(one.message, "Schedule loaded");
    assert_eq!(one.classes.len(), 1);
}

#[test]
fn trend_slots_and_labels() {
    assert_eq!(week_slots(&vec![2, 1, 2, 7]), vec![Some(1), Some(2), None, None, None]);
    assert_eq!(week_label(3), "Week 3");
    assert_eq!(month_labels(2025, 3), vec!["2025-01", "2025-02", "2025-03"]);
    assert!(month_labels(2025, 0).is_empty());
    let keys = vec!["2025-01".to_string(), "2025-02".to_string(), "2025-01".to_string()];
    assert_eq!(find_first(&keys, "2025-01"), Some(0));
    assert_eq!(find_first(&keys, "2025-03"), None);
    assert_eq!(trend_point_label("2025-03", "Monthly"), "Mar");
    assert_eq!(trend_point_label("2025-13", "Monthly"), "2025-13");
    assert_eq!(trend_point_label("Week 2", "Weekly"), "W2");
    assert_eq!(trend_point_label("Week 2", "Daily"), "Week 2");
    assert_eq!(sessions_text(3, 4, "No sessions yet"), "3 of 4 sessions");
    assert_eq!(sessions_text(0, 0, "No sessions yet"), "No sessions yet");
    assert_eq!(day_meta(2, 3), "2 / 3 present");
    assert_eq!(day_meta(0, 0), "No classes");
    assert_eq!(across_modules(4), "Across 4 modules");
}

#[test]
fn student_week() {
    let today = days_of_ymd(2025, 3, 5).unwrap();
    let keys = week_day_keys(today).unwrap();
    assert_eq!(
        keys,
        vec!["2025-03-03", "2025-03-04", "2025-03-05", "2025-03-06", "2025-03-07", "2025-03-08", "2025-03-09"]
    );
    let rows = vec![
        ("2025-03-04".to_string(), 1i64, 2i64),
        ("2025-03-04".to_string(), 9i64, 9i64),
        ("2025-03-09".to_string(), 0i64, 1i64),
    ];
    let pts = week_points(&keys, &rows);
    assert_eq!(pts.len(), 7);
    assert_eq!((pts[0].present, pts[0].recorded), (0, 0));
    assert_eq!((pts[1].present, pts[1].recorded), (1, 2));
    assert_eq!(pts[1].date, "2025-03-04");
    assert_eq!((pts[6].present, pts[6].recorded), (0, 1));
}

#[test]
fn month_navigation() {
    assert_eq!(shift_month("2025-03", true), Some("2025-04".to_string()));
    assert_eq!(shift_month("2025-12", true), Some("2026-01".to_string()));
    assert_eq!(shift_month("2025-01", false), Some("2024-12".to_string()));
    assert_eq!(shift_month("2025", true), None);
    let next = shift_month("2024-12", true).unwrap();
    assert_eq!(shift_month(&next, false), Some("2024-12".to_string()));
    assert_eq!(next_month_within("2025-02", "2025-03"), Some("2025-03".to_string()));
    assert_eq!(next_month_within("2025-03", "2025-03"), None);
    assert_eq!(
        statistics_title(&Some("M2".to_string()), &vec!["M1".to_string(), "M2".to_string()], &vec!["One".to_string(), "Two".to_string()]),
        "Attendance Statistics - Two"
    );
    assert_eq!(
        statistics_title(&Some("M9".to_string()), &vec!["M1".to_string()], &vec!["One".to_string()]),
        "Attendance Statistics"
    );
    assert_eq!(statistics_title(&None, &Vec::new(), &Vec::new()), "Attendance Statistics - All Modules");
}

#[test]
fn server_settings() {
    assert_eq!(server_scheme(true), "https");
    assert_eq!(server_scheme(false), "http");
    assert_eq!(sanitize_host("  https://192.168.1.5/ "), Some("192.168.1.5".to_string()));
    assert_eq!(sanitize_host("http://host//"), Some("host".to_string()));
    assert_eq!(sanitize_host("   "), None);
    assert_eq!(sanitize_host("https:///"), None);
    let t = resolve_use_tls(&Some(" OFF ".to_string()));
    assert!(!t.use_tls && !t.warn);
    let y = resolve_use_tls(&Some("Yes".to_string()));
    assert!(y.use_tls && !y.warn);
    let w = resolve_use_tls(&Some("maybe".to_string()));
    assert!(w.use_tls && w.warn);
    assert!(resolve_use_tls(&None).use_tls);
    assert!(resolve_use_tls(&Some(" ".to_string())).use_tls);
}

#[test]
fn server_ports() {
    let p = resolve_port(true, &Some(" 8080 ".to_string()), &Some("9000".to_string()));
    assert_eq!((p.port, p.warn_port, p.warn_clock_port), (8080, false, false));
    let q = resolve_port(true, &Some("abc".to_string()), &Some("9000".to_string()));
    assert_eq!((q.port, q.warn_port, q.warn_clock_port), (9000, true, false));
    let r = resolve_port(false, &None, &Some("0".to_string()));
    assert_eq!((r.port, r.warn_port, r.warn_clock_port), (3000, false, true));
    let s = resolve_port(true, &Some("  ".to_string()), &None);
    assert_eq!((s.port, s.warn_port, s.warn_clock_port), (3443, false, false));
    let u = resolve_port(false, &None, &Some(" ".to_string()));
    assert_eq!((u.port, u.warn_port, u.warn_clock_port), (3000, false, false));
}

#[test]
fn phone_hints() {
    assert_eq!(
        phone_access_hint(3443, "https", &Some("http://pc.local/".to_string()), &Some("10.0.0.2".to_string())),
        ("https://pc.local:3443".to_string(), PhoneHintOrigin::Override)
    );
    assert_eq!(
        phone_access_hint(3000, "http", &Some("  ".to_string()), &Some("10.0.0.2".to_string())),
        ("http://10.0.0.2:3000".to_string(), PhoneHintOrigin::Autodetected)
    );
    assert_eq!(
        phone_access_hint(3000, "http", &None, &None),
        ("http://<your-lan-ip>:3000".to_string(), PhoneHintOrigin::Fallback)
    );
}

#[test]
fn greyscale_frames() {
    // white, black and pure red pixels
    let rgba = vec![255u8, 255, 255, 255, 0, 0, 0, 255, 255, 0, 0, 255];
    assert_eq!(grayscale(&rgba), vec![255, 0, 76]);
    // a last group of three bytes still makes a pixel
    assert_eq!(grayscale(&vec![10u8, 20, 30]), vec![18]);
    assert!(grayscale(&Vec::new()).is_empty());
    let g = vec![1u8, 2, 3, 4, 5, 6];
    assert_eq!(pixel_at(&g, 3, 1, 1), 5);
    assert_eq!(pixel_at(&g, 3, 0, 2), 0);
    assert_eq!(pixel_at(&g, usize::MAX, 2, 2), 0);
}

#[test]
fn decoded_codes() {
    assert_eq!(
        first_decoded(vec![None, Some("session:1:class:2".to_string()), Some("other".to_string())]),
        Some("session:1:class:2".to_string())
    );
    assert_eq!(first_decoded(vec![None, None]), None);
    // a blank frame holds no code
    let frame = vec![255u8; 4 * 40 * 40];
    assert_eq!(decode_qr(40, 40, &frame), None);
}

#[test]
fn schedule_notes_and_student_lists() {
    assert_eq!(
        schedule_feedback(&schedule_answer(Vec::new())),
        Some("No upcoming classes found for the selected date".to_string())
    );
    assert_eq!(
        schedule_feedback(&schedule_refused("Student email is required")),
        Some("Student email is required".to_string())
    );
    assert_eq!(schedule_feedback(&schedule_refused("")), None);
    let s = StudentInfo { user_id: 1, name: "Ann".to_string(), surname: "Lee".to_string(), email_address: "a@l".to_string() };
    assert_eq!(student_list_name(&s), "Ann Lee");
    let l = students_listed(vec![s]);
    assert!(l.success);
    assert_eq!(l.message, "Students fetched successfully");
    assert_eq!(l.students.len(), 1);
}

#[test]
fn trimming_leaves_nothing_exactly_for_blank_text() {
    for s in ["", "   ", "\t\n", " a ", "b", "\u{2003}x\u{2003}"] {
        assert_eq!(trim_str(s).is_empty(), blank(s));
    }
}

#[test]
fn text_order_is_total_and_transitive() {
    let words = ["", "a", "ab", "b", "10:00", "09:30"];
    for x in words {
        for y in words {
            assert!(str_le(x, y) || str_le(y, x));
            if str_le(x, y) && str_le(y, x) {
                assert_eq!(x, y);
            }
            for z in words {
                if str_le(x, y) && str_le(y, z) {
                    assert!(str_le(x, z));
                }
            }
        }
    }
}

#[test]
fn edit_page_class_list_import() {
    assert_eq!(plan_edit_class_list_import("  ").unwrap_err(), "Please paste CSV content");
    assert_eq!(plan_edit_class_list_import("nobody, here").unwrap_err(), "No valid email addresses found");
    assert_eq!(
        plan_edit_class_list_import("b@x, a@x\nc@x").unwrap(),
        vec!["b@x".to_string(), "a@x".to_string(), "c@x".to_string()]
    );
    assert_eq!(plan_edit_add_student("  Me@X.com ").unwrap(), "me@x.com");
    assert_eq!(plan_edit_add_student("   ").unwrap_err(), "Please enter a student email");
}

#[test]
fn students_marked_absent() {
    assert_eq!(absentees(&vec![5, 6, 7, 8], &vec![6, 8, 99]), vec![5, 7]);
    assert!(absentees(&vec![1, 2], &vec![2, 1]).is_empty());
    assert_eq!(absentees(&vec![3], &Vec::new()), vec![3]);
}

fn breakdown(title: &str, present: i64, recorded: i64) -> StudentModuleBreakdown {
    StudentModuleBreakdown { module_code: title.to_string(), module_title: title.to_string(), present, recorded }
}

#[test]
fn module_insights() {
    let ms = vec![breakdown("A", 1, 2), breakdown("B", 0, 0), breakdown("C", 3, 4), breakdown("D", 2, 4), breakdown("E", 6, 8)];
    // A and D tie lowest (50%): the first is chosen; C and E tie highest (75%): the last is chosen
    assert_eq!(most_missed_module(&ms), Some(0));
    assert_eq!(best_module(&ms), Some(4));
    assert_eq!(most_missed_note(&ms), "A needs attention");
    assert_eq!(best_module_note(&ms), "Great job in E");
    let none = vec![breakdown("B", 0, 0)];
    assert_eq!(most_missed_module(&none), None);
    assert_eq!(most_missed_note(&none), "All modules are on track");
    assert_eq!(best_module_note(&none), "Keep up the consistency");
    assert_eq!(lowest_rate(&vec![(i64::MAX, i64::MAX), (1, 2)]), Some(1));
    assert_eq!(highest_rate(&vec![(i64::MAX, i64::MAX), (1, 2)]), Some(0));
}

#[test]
fn week_worst_day() {
    let pts = vec![
        StudentWeeklyAttendancePoint { date: "2025-03-03".to_string(), present: 2, recorded: 2 },
        StudentWeeklyAttendancePoint { date: "2025-03-04".to_string(), present: 0, recorded: 0 },
        StudentWeeklyAttendancePoint { date: "2025-03-05".to_string(), present: 1, recorded: 3 },
    ];
    assert_eq!(worst_day(&pts), Some(2));
}

#[test]
fn scans_need_a_signed_in_student() {
    assert_eq!(plan_scan(&None).unwrap_err(), "Please log in as a student to record attendance.");
    let u = UserProfile {
        user_id: 1,
        name: "A".to_string(),
        surname: "B".to_string(),
        email_address: "a@b".to_string(),
        university: "U".to_string(),
        role: "student".to_string(),
    };
    assert_eq!(plan_scan(&Some(u)).unwrap(), "a@b");
}

#[test]
fn month_text_reads_back() {
    assert_eq!(shift_month("0000-02", false), Some("0000-01".to_string()));
    assert_eq!(shift_month("0999-12", true), Some("1000-01".to_string()));
}
