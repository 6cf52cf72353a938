//! The records that the service stores and exchanges.
use vstd::prelude::*;

verus! {

/// A user's profile without the password: what the client may see.
#[derive(Clone, Debug, PartialEq)]
pub struct UserProfile {
    pub user_id: i64,
    pub name: String,
    pub surname: String,
    pub email_address: String,
    pub university: String,
    pub role: String,
}

/// What the registration form sends.
#[derive(Clone, Debug, PartialEq)]
pub struct RegisterData {
    pub name: String,
    pub surname: String,
    pub email: String,
    pub password: String,
    pub confirm_password: String,
    pub role: String,
}

/// What the login form sends.
#[derive(Clone, Debug, PartialEq)]
pub struct LoginData {
    pub email: String,
    pub password: String,
}

/// The answer to a registration or login attempt.
#[derive(Clone, Debug, PartialEq)]
pub struct AuthResponse {
    pub success: bool,
    pub message: String,
    pub user: Option<UserProfile>,
}

/// An answer that carries only an outcome and a message.
#[derive(Clone, Debug, PartialEq)]
pub struct BasicResponse {
    pub success: bool,
    pub message: String,
}

/// A row of the `users` table.
#[derive(Clone, Debug, PartialEq)]
pub struct User {
    pub user_id: i64,
    pub name: String,
    pub surname: String,
    pub email_address: String,
    pub password: String,
    pub role: String,
    pub university: String,
    pub created_at: String,
    pub updated_at: String,
}

/// A validated request to create a user account.
#[derive(Clone, Debug, PartialEq)]
pub struct CreateUserRequest {
    pub name: String,
    pub surname: String,
    pub email: String,
    pub password: String,
    pub role: String,
}

/// Credentials of a login request.
#[derive(Clone, Debug, PartialEq)]
pub struct LoginRequest {
    pub email: String,
    pub password: String,
}

/// A scheduled class of a module.
#[derive(Clone, Debug, PartialEq)]
pub struct Class {
    pub class_id: i64,
    pub module_code: String,
    pub title: String,
    pub venue: Option<String>,
    pub description: Option<String>,
    pub recurring: Option<String>,
    pub date: String,
    pub time: String,
    pub duration_minutes: i32,
    pub status: String,
    pub created_at: String,
    pub updated_at: String,
}

/// A request to create one class.
#[derive(Clone, Debug, PartialEq)]
pub struct CreateClassRequest {
    pub module_code: String,
    pub title: String,
    pub venue: Option<String>,
    pub description: Option<String>,
    pub recurring: Option<String>,
    pub date: String,
    pub time: String,
    pub duration_minutes: i32,
}

/// A request to change the details of one class.
#[derive(Clone, Debug, PartialEq)]
pub struct UpdateClassRequest {
    pub title: String,
    pub description: Option<String>,
    pub date: String,
    pub time: String,
    pub duration_minutes: i32,
    pub venue: Option<String>,
    pub recurring: Option<String>,
}

/// A row of the `classes` table.
#[derive(Clone, Debug, PartialEq)]
pub struct DbClass {
    pub class_id: i64,
    pub module_code: String,
    pub title: String,
    pub venue: Option<String>,
    pub description: Option<String>,
    pub recurring: Option<String>,
    pub date: String,
    pub time: String,
    pub duration_minutes: i32,
    pub status: String,
    pub created_at: String,
    pub updated_at: String,
}

/// An attendance session of a class (running while `ended_at` is `None`).
#[derive(Clone, Debug, PartialEq)]
pub struct ClassSession {
    pub session_id: i64,
    pub class_id: i64,
    pub started_at: String,
    pub ended_at: Option<String>,
    pub started_by: Option<String>,
}

/// A row of the `class_sessions` table.
#[derive(Clone, Debug, PartialEq)]
pub struct DbClassSession {
    pub session_id: i64,
    pub class_id: i64,
    pub started_at: String,
    pub ended_at: Option<String>,
    pub started_by: Option<String>,
}

/// A module (course) that lecturers teach.
#[derive(Clone, Debug, PartialEq)]
pub struct Module {
    pub module_code: String,
    pub module_title: String,
    pub description: Option<String>,
    pub created_at: String,
    pub updated_at: String,
}

/// A request to create a module.
#[derive(Clone, Debug, PartialEq)]
pub struct CreateModuleRequest {
    pub module_code: String,
    pub module_title: String,
    pub description: Option<String>,
}

/// A request to change a module's title and description.
#[derive(Clone, Debug, PartialEq)]
pub struct UpdateModuleRequest {
    pub module_code: String,
    pub module_title: String,
    pub description: Option<String>,
}

/// A module together with its student and class counts.
#[derive(Clone, Debug, PartialEq)]
pub struct ModuleWithStats {
    pub module_code: String,
    pub module_title: String,
    pub description: Option<String>,
    pub student_count: i32,
    pub class_count: i32,
}

/// A row of the `modules` table.
#[derive(Clone, Debug, PartialEq)]
pub struct DbModule {
    pub module_code: String,
    pub module_title: String,
    pub description: Option<String>,
    pub created_at: String,
    pub updated_at: String,
}

/// A class on a student's schedule.
#[derive(Clone, Debug, PartialEq)]
pub struct StudentScheduleItem {
    pub class_id: i64,
    pub module_code: String,
    pub module_title: String,
    pub class_title: String,
    pub venue: Option<String>,
    pub date: String,
    pub time: String,
    pub status: String,
}

/// A module offered in the statistics filter.
#[derive(Clone, Debug, PartialEq)]
pub struct ModuleOption {
    pub module_code: String,
    pub module_title: String,
}

/// A class offered in the statistics filter.
#[derive(Clone, Debug, PartialEq)]
pub struct ClassOption {
    pub class_id: i64,
    pub title: String,
}

/// One class of a student's attendance record in a module.
#[derive(Clone, Debug, PartialEq)]
pub struct StudentClassAttendance {
    pub class_id: i64,
    pub title: String,
    pub date: String,
    pub time: String,
    pub status: String,
}

/// A student's attendance in one module.
#[derive(Clone, Debug, PartialEq)]
pub struct StudentModuleBreakdown {
    pub module_code: String,
    pub module_title: String,
    pub present: i64,
    pub recorded: i64,
}

/// A recent class of a student and what was recorded for it.
#[derive(Clone, Debug, PartialEq)]
pub struct StudentRecentActivity {
    pub class_id: i64,
    pub title: String,
    pub module_code: String,
    pub date: String,
    pub time: String,
    pub status: String,
}

/// A request to enrol a student in a module.
#[derive(Clone, Debug, PartialEq)]
pub struct EnrollStudentRequest {
    pub student_email: String,
    pub module_code: String,
}

/// A student as listed for a module.
#[derive(Clone, Debug, PartialEq)]
pub struct StudentInfo {
    pub user_id: i64,
    pub name: String,
    pub surname: String,
    pub email_address: String,
}

/// The answer to an enrolment request.
#[derive(Clone, Debug, PartialEq)]
pub struct EnrollmentResponse {
    pub success: bool,
    pub message: String,
    pub student: Option<StudentInfo>,
}

/// One day of a student's weekly attendance.
#[derive(Clone, Debug, PartialEq)]
pub struct StudentWeeklyAttendancePoint {
    pub date: String,
    pub present: i64,
    pub recorded: i64,
}

/// A profile change that a user submits.
#[derive(Clone, Debug, PartialEq)]
pub struct UpdateProfileRequest {
    pub user_id: i64,
    pub name: String,
    pub surname: String,
    pub email_address: String,
    pub university: String,
}

impl From<DbClass> for Class {
    fn from(db: DbClass) -> (r: Self) {
        Class {
            class_id: db.class_id,
            module_code: db.module_code,
            title: db.title,
            venue: db.venue,
            description: db.description,
            recurring: db.recurring,
            date: db.date,
            time: db.time,
            duration_minutes: db.duration_minutes,
            status: db.status,
            created_at: db.created_at,
            updated_at: db.updated_at,
        }
    }
}

impl vstd::std_specs::convert::FromSpecImpl<DbClass> for Class {
    open spec fn obeys_from_spec() -> bool {
        true
    }

    open spec fn from_spec(db: DbClass) -> Class {
        Class {
            class_id: db.class_id,
            module_code: db.module_code,
            title: db.title,
            venue: db.venue,
            description: db.description,
            recurring: db.recurring,
            date: db.date,
            time: db.time,
            duration_minutes: db.duration_minutes,
            status: db.status,
            created_at: db.created_at,
            updated_at: db.updated_at,
        }
    }
}

impl From<User> for UserProfile {
    fn from(user: User) -> (r: Self) {
        UserProfile {
            user_id: user.user_id,
            name: user.name,
            surname: user.surname,
            email_address: user.email_address,
            role: user.role,
            university: user.university,
        }
    }
}

impl vstd::std_specs::convert::FromSpecImpl<User> for UserProfile {
    open spec fn obeys_from_spec() -> bool {
        true
    }

    /// The profile keeps everything of the row but the password and the
    /// timestamps.
    open spec fn from_spec(user: User) -> UserProfile {
        UserProfile {
            user_id: user.user_id,
            name: user.name,
            surname: user.surname,
            email_address: user.email_address,
            role: user.role,
            university: user.university,
        }
    }
}

impl From<DbModule> for Module {
    fn from(db: DbModule) -> (r: Self) {
        Module {
            module_code: db.module_code,
            module_title: db.module_title,
            description: db.description,
            created_at: db.created_at,
            updated_at: db.updated_at,
        }
    }
}

impl vstd::std_specs::convert::FromSpecImpl<DbModule> for Module {
    open spec fn obeys_from_spec() -> bool {
        true
    }

    open spec fn from_spec(db: DbModule) -> Module {
        Module {
            module_code: db.module_code,
            module_title: db.module_title,
            description: db.description,
            created_at: db.created_at,
            updated_at: db.updated_at,
        }
    }
}

impl From<DbClassSession> for ClassSession {
    fn from(db: DbClassSession) -> (r: Self) {
        ClassSession {
            session_id: db.session_id,
            class_id: db.class_id,
            started_at: db.started_at,
            ended_at: db.ended_at,
            started_by: db.started_by,
        }
    }
}

impl vstd::std_specs::convert::FromSpecImpl<DbClassSession> for ClassSession {
    open spec fn obeys_from_spec() -> bool {
        true
    }

    open spec fn from_spec(db: DbClassSession) -> ClassSession {
        ClassSession {
            session_id: db.session_id,
            class_id: db.class_id,
            started_at: db.started_at,
            ended_at: db.ended_at,
            started_by: db.started_by,
        }
    }
}

} // verus!
