//! How a scan and a session start change the attendance and session tables:
//! the decision the service takes on what it looked up, and the tables as
//! sequences of rows, over which the decisions keep one attendance row per
//! student and class and at most one open session per class.
use vstd::prelude::*;
use crate::models::ClassSession;
use crate::sessions::session_already_active;

verus! {

/// What a recorded scan writes to the attendance table.
#[derive(Clone, Debug, PartialEq)]
pub enum AttendanceWrite {
    /// Marks the existing row with this attendance number present.
    Update(i64),
    /// Adds a new row, marked present.
    Insert,
}

/// The write for a recorded scan, given the attendance number already held
/// for the student and class, if any.
pub fn attendance_write(existing: Option<i64>) -> (w: AttendanceWrite)
    ensures
        w == planned_write(existing),
{
    match existing {
        Some(id) => AttendanceWrite::Update(id),
        None => AttendanceWrite::Insert,
    }
}

/// `Update` of the row found, `Insert` where none was.
pub open spec fn planned_write(existing: Option<i64>) -> AttendanceWrite {
    match existing {
        Some(id) => AttendanceWrite::Update(id),
        None => AttendanceWrite::Insert,
    }
}

/// A row of the attendance table, as far as a scan touches it.
pub ghost struct AttendanceRow {
    pub attendance_id: int,
    pub student_id: int,
    pub class_id: int,
    pub present: bool,
}

/// The row belongs to `student` in `class`.
pub open spec fn row_for(r: AttendanceRow, student: int, class: int) -> bool {
    r.student_id == student && r.class_id == class
}

/// Attendance numbers are distinct, and no student has two rows for one
/// class.
pub open spec fn attendance_kept(t: Seq<AttendanceRow>) -> bool {
    &&& forall|i: int, j: int|
        0 <= i < t.len() && 0 <= j < t.len() && #[trigger] t[i].attendance_id == #[trigger] t[j].attendance_id
            ==> i == j
    &&& forall|i: int, j: int|
        0 <= i < t.len() && 0 <= j < t.len() && #[trigger] row_for(t[i], t[j].student_id, t[j].class_id)
            ==> i == j
}

/// `existing` is what the lookup of the row of `student` in `class` gives:
/// its attendance number, or none where there is no such row.
pub open spec fn found_row(t: Seq<AttendanceRow>, student: int, class: int, existing: Option<i64>) -> bool {
    match existing {
        Some(id) => exists|i: int| 0 <= i < t.len() && row_for(t[i], student, class) && t[i].attendance_id == id,
        None => forall|i: int| 0 <= i < t.len() ==> !row_for(#[trigger] t[i], student, class),
    }
}

/// `fresh` is an attendance number that no row has.
pub open spec fn unused_id(t: Seq<AttendanceRow>, fresh: int) -> bool {
    forall|i: int| 0 <= i < t.len() ==> (#[trigger] t[i]).attendance_id != fresh
}

/// The table after a write for `student` in `class`, a new row taking the
/// number `fresh`.
pub open spec fn after_write(
    t: Seq<AttendanceRow>,
    w: AttendanceWrite,
    student: int,
    class: int,
    fresh: int,
) -> Seq<AttendanceRow> {
    match w {
        AttendanceWrite::Update(id) => t.map_values(
            |r: AttendanceRow|
                if r.attendance_id == id {
                    AttendanceRow { present: true, ..r }
                } else {
                    r
                },
        ),
        AttendanceWrite::Insert => t.push(
            AttendanceRow { attendance_id: fresh, student_id: student, class_id: class, present: true },
        ),
    }
}

/// The table holds exactly one row of `student` in `class`, marked present.
pub open spec fn recorded_once(t: Seq<AttendanceRow>, student: int, class: int) -> bool {
    exists|i: int|
        0 <= i < t.len() && row_for(t[i], student, class) && t[i].present && forall|j: int|
            0 <= j < t.len() && row_for(#[trigger] t[j], student, class) ==> j == i
}

/// A recorded scan keeps the table in order and leaves exactly one row of
/// the student in the class, marked present; recording the same scan again
/// adds no row and still leaves exactly that one.
pub proof fn lemma_scan_recorded_once(
    t: Seq<AttendanceRow>,
    student: int,
    class: int,
    existing: Option<i64>,
    fresh: int,
    again: Option<i64>,
    fresh_again: int,
)
    requires
        attendance_kept(t),
        found_row(t, student, class, existing),
        unused_id(t, fresh),
        found_row(after_write(t, planned_write(existing), student, class, fresh), student, class, again),
        unused_id(after_write(t, planned_write(existing), student, class, fresh), fresh_again),
    ensures
        ({
            let t1 = after_write(t, planned_write(existing), student, class, fresh);
            let t2 = after_write(t1, planned_write(again), student, class, fresh_again);
            &&& attendance_kept(t1)
            &&& recorded_once(t1, student, class)
            &&& attendance_kept(t2)
            &&& recorded_once(t2, student, class)
            &&& t2.len() == t1.len()
        }),
{
    let t1 = after_write(t, planned_write(existing), student, class, fresh);
    lemma_write_keeps(t, student, class, existing, fresh);
    lemma_write_keeps(t1, student, class, again, fresh_again);
    assert(again is Some);
}

/// One write keeps the table in order and leaves the student's row, alone
/// and present; an update adds no row.
proof fn lemma_write_keeps(t: Seq<AttendanceRow>, student: int, class: int, existing: Option<i64>, fresh: int)
    requires
        attendance_kept(t),
        found_row(t, student, class, existing),
        unused_id(t, fresh),
    ensures
        ({
            let t1 = after_write(t, planned_write(existing), student, class, fresh);
            &&& attendance_kept(t1)
            &&& recorded_once(t1, student, class)
            &&& existing is Some ==> t1.len() == t.len()
            &&& existing is None ==> t1.len() == t.len() + 1
        }),
{
    let t1 = after_write(t, planned_write(existing), student, class, fresh);
    match existing {
        Some(id) => {
            let k = choose|i: int| 0 <= i < t.len() && row_for(t[i], student, class) && t[i].attendance_id == id;
            assert forall|i: int| 0 <= i < t1.len() implies #[trigger] t1[i].attendance_id == t[i].attendance_id
                && t1[i].student_id == t[i].student_id && t1[i].class_id == t[i].class_id by {}
            assert(t1[k].present);
            assert forall|j: int| 0 <= j < t1.len() && row_for(#[trigger] t1[j], student, class) implies j == k by {
                assert(row_for(t[j], t[k].student_id, t[k].class_id));
            }
            assert forall|i: int, j: int|
                0 <= i < t1.len() && 0 <= j < t1.len() && #[trigger] t1[i].attendance_id
                    == #[trigger] t1[j].attendance_id implies i == j by {
                assert(t[i].attendance_id == t[j].attendance_id);
            }
            assert forall|i: int, j: int|
                0 <= i < t1.len() && 0 <= j < t1.len() && #[trigger] row_for(
                    t1[i],
                    t1[j].student_id,
                    t1[j].class_id,
                ) implies i == j by {
                assert(row_for(t[i], t[j].student_id, t[j].class_id));
            }
        },
        None => {
            let k = t.len() as int;
            assert(t1[k].present && row_for(t1[k], student, class));
            assert forall|j: int| 0 <= j < t1.len() && row_for(#[trigger] t1[j], student, class) implies j == k by {
                if j < k {
                    assert(t1[j] == t[j]);
                }
            }
            assert forall|i: int, j: int|
                0 <= i < t1.len() && 0 <= j < t1.len() && #[trigger] t1[i].attendance_id
                    == #[trigger] t1[j].attendance_id implies i == j by {
                if i < k && j < k {
                    assert(t1[i] == t[i] && t1[j] == t[j]);
                } else if i < k {
                    assert(t1[i] == t[i]);
                } else if j < k {
                    assert(t1[j] == t[j]);
                }
            }
            assert forall|i: int, j: int|
                0 <= i < t1.len() && 0 <= j < t1.len() && #[trigger] row_for(
                    t1[i],
                    t1[j].student_id,
                    t1[j].class_id,
                ) implies i == j by {
                if i < k && j < k {
                    assert(t1[i] == t[i] && t1[j] == t[j]);
                    assert(row_for(t[i], t[j].student_id, t[j].class_id));
                } else if i < k {
                    assert(t1[i] == t[i]);
                } else if j < k {
                    assert(t1[j] == t[j]);
                    assert(row_for(t[j], student, class));
                }
            }
        },
    }
}

/// A session start is refused exactly where the class already has an open
/// session.
pub open spec fn start_refused(active: Option<ClassSession>) -> bool {
    active is Some
}

/// The refusal of a session start, given the open session found for the
/// class, if any; none where the session may start.
pub fn session_start_refusal(active: &Option<ClassSession>) -> (r: Option<String>)
    ensures
        r is Some == start_refused(*active),
        r matches Some(m) ==> m@ == "A session is already active for this class"@,
{
    match active {
        Some(_) => Some(session_already_active()),
        None => None,
    }
}

/// A row of the session table, as far as starting and ending touch it.
pub ghost struct SessionRow {
    pub session_id: int,
    pub class_id: int,
    pub open: bool,
}

/// No class has two open sessions.
pub open spec fn one_open_each(t: Seq<SessionRow>) -> bool {
    forall|i: int, j: int|
        0 <= i < t.len() && 0 <= j < t.len() && (#[trigger] t[i]).open && (#[trigger] t[j]).open && t[i].class_id
            == t[j].class_id ==> i == j
}

/// `active` is what the lookup of the open session of `class` gives.
pub open spec fn found_open(t: Seq<SessionRow>, class: int, active: Option<ClassSession>) -> bool {
    active is Some <==> exists|i: int| 0 <= i < t.len() && (#[trigger] t[i]).open && t[i].class_id == class
}

/// The table after a start for `class` (refused or not), a new session
/// taking the number `fresh`.
pub open spec fn after_start(t: Seq<SessionRow>, class: int, refused: bool, fresh: int) -> Seq<SessionRow> {
    if refused {
        t
    } else {
        t.push(SessionRow { session_id: fresh, class_id: class, open: true })
    }
}

/// The table after the session numbered `session_id` is ended.
pub open spec fn after_end(t: Seq<SessionRow>, session_id: int) -> Seq<SessionRow> {
    t.map_values(|r: SessionRow| if r.session_id == session_id { SessionRow { open: false, ..r } } else { r })
}

/// Starting a session, refused where the lookup found one open, and ending
/// one, each leave at most one open session per class.
pub proof fn lemma_one_open_session(
    t: Seq<SessionRow>,
    class: int,
    active: Option<ClassSession>,
    fresh: int,
    session_id: int,
)
    requires
        one_open_each(t),
        found_open(t, class, active),
    ensures
        one_open_each(after_start(t, class, start_refused(active), fresh)),
        one_open_each(after_end(t, session_id)),
{
    let t1 = after_start(t, class, start_refused(active), fresh);
    if !start_refused(active) {
        let k = t.len() as int;
        assert forall|i: int, j: int|
            0 <= i < t1.len() && 0 <= j < t1.len() && (#[trigger] t1[i]).open && (#[trigger] t1[j]).open
                && t1[i].class_id == t1[j].class_id implies i == j by {
            if i < k {
                assert(t1[i] == t[i]);
            }
            if j < k {
                assert(t1[j] == t[j]);
            }
        }
    }
    let t2 = after_end(t, session_id);
    assert forall|i: int, j: int|
        0 <= i < t2.len() && 0 <= j < t2.len() && (#[trigger] t2[i]).open && (#[trigger] t2[j]).open
            && t2[i].class_id == t2[j].class_id implies i == j by {
        assert(t[i].open && t[j].open);
    }
}

} // verus!
