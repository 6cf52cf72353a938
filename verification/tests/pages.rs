use clock_it::display::{class_attendance_status, student_email_label};
use clock_it::class_views::{class_row_request, class_row_shows, class_row_status_after, ClassRowAction};
use clock_it::classes::ClassResponse;
use clock_it::display::recent_activity;
use clock_it::display::{
    activates_card, home_path_for_role, module_edit_link, module_icon_style, recorded_status, shell_class,
    shows_sidebar,
};
use clock_it::calendar::{
    calendar_cells, calendar_date_text, calendar_title, day_class_names, days_in_month, has_classes_on_date,
    month_name, next_month, prev_month, CalendarDate,
};
use clock_it::dates::{days_of_ymd, format_hm, parse_hm, parse_iso_date, start_of_week};
use clock_it::display::{
    avatar_url, build_return_path, class_dot_color, class_edit_link, class_icon_style, class_list_sub_line,
    class_time_range, distinct_module_codes, duration_display, format_day_long, format_day_short,
    format_pretty_date, format_recent_time, format_role, format_short_date, format_status_label, greeting,
    initials_of, module_card_description, module_card_links, module_card_style, module_shade_of,
    nav_link_active, nav_link_class, row_venue, schedule_card, schedule_card_color, schedule_details,
    schedule_icon, selected_date_iso, selected_date_pretty, student_full_name, student_id_label,
    student_subtitle, timetable_links, timetable_offset, total_students, user_role_label,
    week_range_label,
};
use clock_it::models::{Class, ModuleWithStats, StudentScheduleItem, StudentWeeklyAttendancePoint, UserProfile};

fn day(y: i32, m: u32, d: u32) -> i32 {
    days_of_ymd(y, m, d).unwrap()
}

fn user(id: i64, name: &str, surname: &str, role: &str) -> UserProfile {
    UserProfile {
        user_id: id,
        name: name.to_string(),
        surname: surname.to_string(),
        email_address: "x@y.z".to_string(),
        university: "UJ".to_string(),
        role: role.to_string(),
    }
}

fn class(id: i64, code: &str, date: &str, venue: Option<&str>) -> Class {
    Class {
        class_id: id,
        module_code: code.to_string(),
        title: "T".to_string(),
        venue: venue.map(|v| v.to_string()),
        description: None,
        recurring: None,
        date: date.to_string(),
        time: "09:15".to_string(),
        duration_minutes: 60,
        status: "upcoming".to_string(),
        created_at: String::new(),
        updated_at: String::new(),
    }
}

fn point(date: &str) -> StudentWeeklyAttendancePoint {
    StudentWeeklyAttendancePoint { date: date.to_string(), present: 1, recorded: 2 }
}

#[test]
fn return_paths() {
    assert_eq!(build_return_path(Some("timetable".to_string()), "COS1"), "/timetable");
    assert_eq!(build_return_path(Some("home".to_string()), "COS1"), "/classes?module=COS1");
    assert_eq!(build_return_path(None, "COS1"), "/classes?module=COS1");
    assert_eq!(build_return_path(None, ""), "/classes");
}

#[test]
fn navigation_links() {
    assert!(nav_link_active("/home", "/home"));
    assert!(nav_link_active("/classes", "/classes/edit"));
    assert!(!nav_link_active("/home", "/timetable"));
    assert!(nav_link_active("/", "/"));
    assert!(nav_link_active("/", ""));
    assert!(!nav_link_active("/", "/home"));
    assert_eq!(nav_link_class(true), "nav-link active");
    assert_eq!(nav_link_class(false), "nav-link");
}

#[test]
fn roles_and_greetings() {
    assert_eq!(format_role("student"), "Student");
    assert_eq!(format_role("lecturer"), "Lecturer");
    assert_eq!(format_role("tutor"), "Tutor");
    assert_eq!(format_role("admin"), "Admin");
    assert_eq!(format_role("ßeta"), "SSeta");
    assert_eq!(format_role(""), "Student");
    assert_eq!(greeting(&Some(user(1, "Ann", "Bee", "lecturer"))), "Welcome back, Dr. Ann Bee");
    assert_eq!(greeting(&Some(user(1, "Ann", "Bee", "tutor"))), "Welcome back, Mr./Ms. Ann Bee");
    assert_eq!(greeting(&Some(user(1, "Ann", "Bee", "student"))), "Welcome back,  Ann Bee");
    assert_eq!(greeting(&None), "Welcome back");
    assert_eq!(user_role_label(&None), "Student");
    assert_eq!(user_role_label(&Some(user(1, "A", "B", "tutor"))), "Tutor");
}

#[test]
fn activity_labels() {
    assert_eq!(format_status_label("present"), ("activity-icon-success", "Present"));
    assert_eq!(format_status_label("late"), ("activity-icon-warning", "Late"));
    assert_eq!(format_status_label("excused"), ("activity-icon-warning", "Excused"));
    assert_eq!(format_status_label("upcoming"), ("activity-icon-info", "Upcoming"));
    assert_eq!(format_status_label("absent"), ("activity-icon-error", "Absent"));
    assert_eq!(format_status_label("??"), ("activity-icon-error", "Absent"));
}

#[test]
fn schedule_cards() {
    assert_eq!(schedule_card_color(0), "purple");
    assert_eq!(schedule_card_color(5), "red");
    assert_eq!(schedule_card_color(6), "yellow");
    assert_eq!(schedule_card_color(7), "teal");
    assert_eq!(schedule_icon("  cos301"), "C");
    assert_eq!(schedule_icon("-9x"), "9");
    assert_eq!(schedule_icon("--"), "•");
    assert_eq!(schedule_details("Lab", &Some("Hall".to_string())), "Lab · Hall");
    assert_eq!(schedule_details(" ", &Some("Hall".to_string())), "Hall");
    assert_eq!(schedule_details("Lab", &Some(" ".to_string())), "Lab");
    assert_eq!(schedule_details("Lab", &None), "Lab · Location TBA");
    let item = StudentScheduleItem {
        class_id: 1,
        module_code: "inf1".to_string(),
        module_title: "Informatics".to_string(),
        class_title: "Lecture".to_string(),
        venue: None,
        date: "2025-03-05".to_string(),
        time: "10:00".to_string(),
        status: "upcoming".to_string(),
    };
    let today = schedule_card(&item, 2, "2025-03-05");
    assert_eq!(today.time, "10:00");
    assert_eq!(today.color, "yellow");
    assert_eq!(today.icon, "I");
    assert_eq!(today.module_title, "Informatics");
    assert_eq!(today.line, "Lecture · Location TBA");
    let later = schedule_card(&item, 0, "2025-03-04");
    assert_eq!(later.line, "05 Mar · Lecture · Location TBA");
}

#[test]
fn module_cards() {
    // 'A' (65) + 'B' (66) = 131, 131 % 4 == 3
    assert_eq!(module_shade_of("AB"), 3);
    assert_eq!(module_card_style("AB"), ("🍃", "mod-green"));
    // 'D' = 68, 68 % 4 == 0
    assert_eq!(module_card_style("D"), ("</>", "mod-purp"));
    assert_eq!(module_card_style("E"), ("🗄️", "mod-blue"));
    assert_eq!(module_card_style("F"), ("🧩", "mod-orange"));
    assert_eq!(module_card_style(""), ("</>", "mod-purp"));
    assert_eq!(class_icon_style("AB"), "class-icon mod-green");
    assert_eq!(module_card_description(""), "No description available");
    assert_eq!(module_card_description("About"), "About");
    assert_eq!(
        module_card_links("COS3"),
        ("/classes?module=COS3".to_string(), "/classes/new?module=COS3".to_string())
    );
}

#[test]
fn class_list_items() {
    assert_eq!(class_dot_color("COS1S1"), "dot-purple");
    assert_eq!(class_dot_color("CS3"), "dot-blue");
    assert_eq!(class_dot_color("CS1S3"), "dot-purple");
    assert_eq!(class_dot_color("XS1"), "dot-green");
    assert_eq!(class_dot_color(""), "dot-green");
    assert_eq!(class_list_sub_line(&class(1, "A", "d", Some("Lab 2"))), "09:15 – Lab 2");
    assert_eq!(class_list_sub_line(&class(1, "A", "d", None)), "09:15");
    assert_eq!(class_edit_link(42), "/classes/edit?id=42");
}

#[test]
fn date_labels() {
    assert_eq!(format_short_date("2025-03-05"), "05 Mar");
    assert_eq!(format_short_date("not a date"), "not a date");
    assert_eq!(format_day_short("2025-03-05"), "Wed");
    assert_eq!(format_day_long("2025-03-05"), "Wednesday");
    assert_eq!(format_day_long("2025-3-x"), "2025-3-x");
    let today = day(2025, 3, 7);
    assert_eq!(format_pretty_date("2025-03-05", today), Some("Wednesday, 05 Mar".to_string()));
    assert_eq!(format_pretty_date("", today), Some("Friday, 07 Mar".to_string()));
}

#[test]
fn week_range_labels() {
    let today = day(2025, 3, 7);
    let pts = vec![point("2025-03-03"), point("bad"), point("2025-03-09")];
    assert_eq!(week_range_label(&pts, today), Some("03 Mar - 09 Mar".to_string()));
    assert_eq!(week_range_label(&vec![point("2025-02-28"), point("2025-03-02")], today), Some("28 Feb - 02 Mar".to_string()));
    assert_eq!(week_range_label(&Vec::new(), today), Some("03 Mar - 09 Mar".to_string()));
}

#[test]
fn recent_times() {
    let today = day(2025, 3, 7);
    assert_eq!(format_recent_time("2025-03-07", "09:05", today), Some("Today 09:05".to_string()));
    assert_eq!(format_recent_time("2025-03-06", "13:40", today), Some("Yesterday 13:40".to_string()));
    assert_eq!(format_recent_time("2025-03-01", "xx", today), Some("01 Mar 00:00".to_string()));
    assert_eq!(format_recent_time("garbage", "23:59", today), Some("Today 23:59".to_string()));
}

#[test]
fn timetable_days() {
    let today = day(2024, 10, 9);
    assert_eq!(timetable_offset("Yesterday"), -1);
    assert_eq!(timetable_offset("Tomorrow"), 1);
    assert_eq!(timetable_offset("Today"), 0);
    assert_eq!(selected_date_iso(today, "Tomorrow"), Some("2024-10-10".to_string()));
    assert_eq!(selected_date_iso(today, "Yesterday"), Some("2024-10-08".to_string()));
    assert_eq!(selected_date_iso(today, "anything"), Some("2024-10-09".to_string()));
    assert_eq!(selected_date_pretty(today, "Today"), Some("Today, Wednesday, October  9 2024".to_string()));
    assert_eq!(selected_date_pretty(today, "Tomorrow"), Some("Tomorrow, Thursday, October 10 2024".to_string()));
}

#[test]
fn timetable_rows() {
    assert_eq!(class_time_range("09:00", 90), "09:00 - 10:30");
    assert_eq!(class_time_range("23:30", 60), "23:30 - 00:30");
    assert_eq!(class_time_range("bad", 5), "10:00 - 10:15");
    assert_eq!(duration_display(120), "2h");
    assert_eq!(duration_display(45), "45 min");
    assert_eq!(duration_display(0), "15 min");
    assert_eq!(
        timetable_links(7),
        ("/classes/qr?id=7&origin=timetable".to_string(), "/classes/edit?id=7&origin=timetable".to_string())
    );
    assert_eq!(row_venue(&None), "TBA");
    assert_eq!(row_venue(&Some("Lab".to_string())), "Lab");
    assert_eq!(initials_of("cos301"), "COS");
    assert_eq!(initials_of("a1b"), "AB");
    assert_eq!(initials_of("1234"), "MOD");
    assert_eq!(initials_of("inf-2-abcd"), "INF");
}

#[test]
fn distinct_codes_keep_first_order() {
    let cs = vec![class(1, "B", "d", None), class(2, "A", "d", None), class(3, "B", "d", None)];
    assert_eq!(distinct_module_codes(&cs), vec!["B".to_string(), "A".to_string()]);
    assert!(distinct_module_codes(&Vec::new()).is_empty());
}

#[test]
fn student_totals() {
    let ms = vec![
        ModuleWithStats {
            module_code: "A".to_string(),
            module_title: "a".to_string(),
            description: None,
            student_count: 12,
            class_count: 1,
        },
        ModuleWithStats {
            module_code: "B".to_string(),
            module_title: "b".to_string(),
            description: None,
            student_count: 30,
            class_count: 4,
        },
    ];
    assert_eq!(total_students(&ms), 42);
    assert_eq!(total_students(&Vec::new()), 0);
}

#[test]
fn profile_labels() {
    let u = user(42, "Mary Ann", "O'Neil", "student");
    assert_eq!(
        avatar_url(&u),
        "https://ui-avatars.com/api/?name=Mary%20Ann%20O%27Neil&background=14b8a6&color=ffffff&format=svg"
    );
    let v = user(1, "Zoë", "K", "student");
    assert_eq!(
        avatar_url(&v),
        "https://ui-avatars.com/api/?name=Zo%C3%AB%20K&background=14b8a6&color=ffffff&format=svg"
    );
    assert_eq!(student_id_label(&Some(u.clone())), "STU-000042");
    assert_eq!(student_id_label(&None), "STU-000000");
    assert_eq!(student_full_name(&Some(u.clone())), "Mary Ann O'Neil");
    assert_eq!(student_full_name(&None), "Student");
    assert_eq!(student_subtitle(&Some(u)), "Welcome back, Mary Ann!");
    assert_eq!(student_subtitle(&None), "Welcome back, Student!");
}

#[test]
fn calendar_navigation() {
    let mid = CalendarDate { year: 2025, month: 3, day: 18 };
    assert_eq!(prev_month(&mid), Some(CalendarDate { year: 2025, month: 2, day: 1 }));
    let first = CalendarDate { year: 2025, month: 1, day: 1 };
    assert_eq!(prev_month(&first), Some(CalendarDate { year: 2024, month: 12, day: 1 }));
    assert_eq!(next_month(&CalendarDate { year: 2025, month: 12, day: 9 }), Some(CalendarDate { year: 2026, month: 1, day: 1 }));
    assert_eq!(next_month(&mid), Some(CalendarDate { year: 2025, month: 4, day: 1 }));
    let back = prev_month(&next_month(&first).unwrap()).unwrap();
    assert_eq!(back, first);
}

#[test]
fn calendar_grid() {
    // March 2025 starts on a Saturday and has 31 days
    assert_eq!(days_in_month(2025, 3), Some((6, 31)));
    assert_eq!(days_in_month(2024, 2), Some((4, 29)));
    assert_eq!(days_in_month(2025, 12), Some((1, 31)));
    let cells = calendar_cells(6, 31);
    assert_eq!(cells.len(), 42);
    assert_eq!(cells[5], None);
    assert_eq!(cells[6], Some(1));
    assert_eq!(cells[36], Some(31));
    assert_eq!(cells[37], None);
    let listed: Vec<u32> = cells.iter().filter_map(|c| *c).collect();
    assert_eq!(listed, (1..=31).collect::<Vec<u32>>());
    assert_eq!(month_name(2), "February");
    assert_eq!(month_name(13), "Unknown");
    assert_eq!(calendar_title(2025, 3), "March 2025");
    assert_eq!(calendar_date_text(2025, 3, 7), "2025-03-07");
    assert_eq!(calendar_date_text(987, 11, 30), "0987-11-30");
    assert_eq!(day_class_names("2025-03-07", "2025-03-07", "2025-03-07"), "day day-selected");
    assert_eq!(day_class_names("2025-03-07", "2025-03-07", "2025-03-01"), "day day-today");
    assert_eq!(day_class_names("2025-03-08", "2025-03-07", "2025-03-01"), "day");
    let cs = vec![class(1, "A", "2025-03-07", None)];
    assert!(has_classes_on_date(&cs, "2025-03-07"));
    assert!(!has_classes_on_date(&cs, "2025-03-08"));
}

#[test]
fn chrono_dates() {
    let d = parse_iso_date("2025-03-05").unwrap();
    assert_eq!(d, day(2025, 3, 5));
    assert_eq!(parse_iso_date("2025-02-30"), None);
    assert_eq!(parse_hm("09:30"), Some(34200));
    assert_eq!(parse_hm("9"), None);
    assert_eq!(format_hm(34200), "09:30");
    assert_eq!(format_hm(0), "00:00");
    // Wednesday 2025-03-05: its week starts on Monday 2025-03-03
    assert_eq!(start_of_week(d), day(2025, 3, 3) as i64);
    assert_eq!(start_of_week(day(2025, 3, 3)), day(2025, 3, 3) as i64);
    assert_eq!(start_of_week(day(2025, 3, 9)), day(2025, 3, 3) as i64);
}

#[test]
fn page_frame_and_links() {
    assert!(shows_sidebar("/home"));
    assert!(shows_sidebar("/classes/new"));
    assert!(shows_sidebar("/modules/edit"));
    assert!(!shows_sidebar("/"));
    assert!(!shows_sidebar("/student/home"));
    assert_eq!(shell_class("/timetable"), "app-shell");
    assert_eq!(shell_class("/register"), "app-shell no-sidebar");
    assert_eq!(home_path_for_role("student"), "/student/home");
    assert_eq!(home_path_for_role("lecturer"), "/home");
    assert_eq!(home_path_for_role("tutor"), "/home");
    assert_eq!(module_icon_style("AB"), "module-icon mod-green");
    assert_eq!(module_edit_link("COS1"), "/modules/edit?code=COS1");
    assert!(activates_card("Enter"));
    assert!(activates_card(" "));
    assert!(!activates_card("Escape"));
    assert_eq!(recorded_status(None), "upcoming");
    assert_eq!(recorded_status(Some("late".to_string())), "late");
}

#[test]
fn recent_activity_defaults_to_upcoming() {
    let a = recent_activity(3, "Lab".to_string(), "M1".to_string(), "2025-03-01".to_string(), "09:00".to_string(), None);
    assert_eq!(a.status, "upcoming");
    assert_eq!(a.class_id, 3);
    let b = recent_activity(4, "Lab".to_string(), "M1".to_string(), "d".to_string(), "t".to_string(), Some("present".to_string()));
    assert_eq!(b.status, "present");
}

#[test]
fn profile_email_line() {
    assert_eq!(student_email_label(&None), "student@example.com");
    assert_eq!(student_email_label(&Some(user(1, "A", "B", "student"))), "x@y.z");
}

#[test]
fn class_row_buttons() {
    assert!(class_row_shows("upcoming", ClassRowAction::Start));
    assert!(!class_row_shows("upcoming", ClassRowAction::End));
    assert!(class_row_shows("in_progress", ClassRowAction::End));
    assert!(!class_row_shows("completed", ClassRowAction::Start));
    assert_eq!(class_row_request("upcoming", ClassRowAction::Start), Some("in_progress"));
    assert_eq!(class_row_request("in_progress", ClassRowAction::End), Some("completed"));
    assert_eq!(class_row_request("completed", ClassRowAction::End), None);
    let mut c = class(1, "A", "d", None);
    c.status = "in_progress".to_string();
    let ok = ClassResponse { success: true, message: "m".to_string(), class: Some(c) };
    assert_eq!(class_row_status_after("upcoming".to_string(), Ok(ok)), "in_progress");
    let refused = ClassResponse { success: false, message: "m".to_string(), class: None };
    assert_eq!(class_row_status_after("upcoming".to_string(), Ok(refused)), "upcoming");
    assert_eq!(class_row_status_after("upcoming".to_string(), Err("down".to_string())), "upcoming");
}

#[test]
fn lecturer_view_attendance_status() {
    assert_eq!(class_attendance_status(None), "absent");
    assert_eq!(class_attendance_status(Some("late".to_string())), "late");
}
