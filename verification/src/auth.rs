//! Accounts: password hashing, and the checks on registration, login and
//! password-reset requests.
use vstd::prelude::*;
use std::hash::{Hash, Hasher};
use crate::models::{AuthResponse, BasicResponse, CreateUserRequest, User, UserProfile, RegisterData};
use crate::numbers::decimal;
use crate::text::{
    blank, byte_len, chars_of, utf8_len, contains_char, has_char, is_ascii_digit, is_blank, lowercase, owned, str_eq,
    string_of, to_lowercase, trim, trim_chars, trim_str,
};

verus! {

/// What `DefaultHasher` (created by `DefaultHasher::new`, which starts from
/// fixed keys, so that every hasher made this way hashes alike) yields after
/// hashing the string `password`. The standard library leaves the hashing
/// algorithm unspecified across its releases; within one build of the
/// service the digest depends on the password alone.
pub uninterp spec fn password_digest(password: Seq<char>) -> u64;

/// Hashes `password` with `std::collections::hash_map::DefaultHasher` as
/// `str`'s `Hash` impl feeds it; the name `password_digest` stands for the
/// result, which depends on the password alone.
#[verifier::external_body]
fn digest_of(password: &str) -> (d: u64)
    ensures
        d == password_digest(password@),
{
    let mut hasher = std::collections::hash_map::DefaultHasher::new();
    password.hash(&mut hasher);
    hasher.finish()
}

/// The stored form of a password: "simple_hash_" followed by the decimal
/// digest.
pub open spec fn password_hash_text(password: Seq<char>) -> Seq<char> {
    "simple_hash_"@ + decimal(password_digest(password) as nat)
}

/// Appends the decimal digits of `n`.
fn push_u64_decimal(n: u64, out: &mut Vec<char>)
    ensures
        final(out)@ == old(out)@ + decimal(n as nat),
    decreases n,
{
    if n >= 10 {
        push_u64_decimal(n / 10, out);
    }
    let d = n % 10;
    let c = ((d as u8) + 48u8) as char;
    out.push(c);
    proof {
        if n >= 10 {
            assert(decimal(n as nat) == decimal((n / 10) as nat).push(
                crate::numbers::digit_char((n % 10) as int),
            ));
        }
    }
}

/// Hashes a password for storage (a development-grade scheme).
pub fn hash_password(password: &str) -> (h: String)
    ensures
        h@ == password_hash_text(password@),
{
    let digest = digest_of(password);
    let mut cs = chars_of("simple_hash_");
    push_u64_decimal(digest, &mut cs);
    string_of(&cs)
}

/// Whether `password` matches the stored `hash`.
pub fn verify_password(password: &str, hash: &str) -> (ok: bool)
    ensures
        ok == (hash@ == password_hash_text(password@)),
{
    let h = hash_password(password);
    str_eq(h.as_str(), hash)
}

/// Passwords whose digests differ never share a stored hash, so the hash
/// of one is never accepted for the other.
pub proof fn lemma_hash_distinguishes(p: Seq<char>, q: Seq<char>)
    requires
        password_digest(p) != password_digest(q),
    ensures
        password_hash_text(p) != password_hash_text(q),
{
    let a = decimal(password_digest(p) as nat);
    let b = decimal(password_digest(q) as nat);
    crate::numbers::lemma_decimal_digits(password_digest(p) as nat);
    crate::numbers::lemma_decimal_digits(password_digest(q) as nat);
    let prefix = "simple_hash_"@;
    if password_hash_text(p) == password_hash_text(q) {
        assert((prefix + a).subrange(prefix.len() as int, (prefix + a).len() as int) =~= a);
        assert((prefix + b).subrange(prefix.len() as int, (prefix + b).len() as int) =~= b);
        assert(a == b);
    }
}

/// Why a registration is refused, in the order in which the checks run.
#[derive(PartialEq, Eq, Debug, Clone, Copy)]
pub enum RegistrationError {
    NameRequired,
    SurnameRequired,
    EmailRequired,
    PasswordTooShort,
    PasswordMismatch,
    InvalidRole,
}

impl RegistrationError {
    /// The message shown for the refusal.
    pub open spec fn message_spec(self) -> Seq<char> {
        match self {
            RegistrationError::NameRequired => "Name is required"@,
            RegistrationError::SurnameRequired => "Surname is required"@,
            RegistrationError::EmailRequired => "Email is required"@,
            RegistrationError::PasswordTooShort => "Password must be at least 6 characters"@,
            RegistrationError::PasswordMismatch => "Passwords do not match"@,
            RegistrationError::InvalidRole => "Invalid role selected"@,
        }
    }

    /// The message shown for the refusal.
    pub fn message(&self) -> (m: &'static str)
        ensures
            m@ == self.message_spec(),
    {
        match self {
            RegistrationError::NameRequired => "Name is required",
            RegistrationError::SurnameRequired => "Surname is required",
            RegistrationError::EmailRequired => "Email is required",
            RegistrationError::PasswordTooShort => "Password must be at least 6 characters",
            RegistrationError::PasswordMismatch => "Passwords do not match",
            RegistrationError::InvalidRole => "Invalid role selected",
        }
    }
}

/// The roles that an account may have.
pub open spec fn is_known_role(role: Seq<char>) -> bool {
    role == "lecturer"@ || role == "tutor"@ || role == "student"@
}

/// The first check that a registration fails, if any.
pub open spec fn registration_error(
    name: Seq<char>,
    surname: Seq<char>,
    email: Seq<char>,
    password: Seq<char>,
    confirm: Seq<char>,
    role: Seq<char>,
) -> Option<RegistrationError> {
    if is_blank(name) {
        Some(RegistrationError::NameRequired)
    } else if is_blank(surname) {
        Some(RegistrationError::SurnameRequired)
    } else if is_blank(email) {
        Some(RegistrationError::EmailRequired)
    } else if byte_len(password) < 6 {
        Some(RegistrationError::PasswordTooShort)
    } else if password != confirm {
        Some(RegistrationError::PasswordMismatch)
    } else if !is_known_role(role) {
        Some(RegistrationError::InvalidRole)
    } else {
        None
    }
}

/// Whether `role` is one of the account roles.
pub fn known_role(role: &str) -> (b: bool)
    ensures
        b == is_known_role(role@),
{
    str_eq(role, "lecturer") || str_eq(role, "tutor") || str_eq(role, "student")
}

/// Checks a registration and, when it passes, builds the account request:
/// names trimmed, email trimmed and lower-cased, password and role as given.
pub fn validate_registration(data: RegisterData) -> (r: Result<CreateUserRequest, RegistrationError>)
    ensures
        match registration_error(
            data.name@,
            data.surname@,
            data.email@,
            data.password@,
            data.confirm_password@,
            data.role@,
        ) {
            Some(e) => r == Err::<CreateUserRequest, RegistrationError>(e),
            None => r is Ok && r->Ok_0.name@ == trim(data.name@) && r->Ok_0.surname@ == trim(
                data.surname@,
            ) && r->Ok_0.email@ == lowercase(trim(data.email@)) && r->Ok_0.password@
                == data.password@ && r->Ok_0.role@ == data.role@,
        },
{
    if blank(data.name.as_str()) {
        return Err(RegistrationError::NameRequired);
    }
    if blank(data.surname.as_str()) {
        return Err(RegistrationError::SurnameRequired);
    }
    if blank(data.email.as_str()) {
        return Err(RegistrationError::EmailRequired);
    }
    let pw = chars_of(data.password.as_str());
    if utf8_len(&pw) < 6 {
        return Err(RegistrationError::PasswordTooShort);
    }
    if !str_eq(data.password.as_str(), data.confirm_password.as_str()) {
        return Err(RegistrationError::PasswordMismatch);
    }
    if !known_role(data.role.as_str()) {
        return Err(RegistrationError::InvalidRole);
    }
    let name = trim_str(data.name.as_str());
    let surname = trim_str(data.surname.as_str());
    let email_trimmed = trim_str(data.email.as_str());
    let email = to_lowercase(email_trimmed.as_str());
    Ok(CreateUserRequest { name, surname, email, password: data.password, role: data.role })
}

/// The registration form: refused until the terms are accepted; otherwise
/// what it sends, the role lower-cased and all else as typed.
pub fn plan_registration_form(
    name: &str,
    surname: &str,
    email: &str,
    password: &str,
    confirm_password: &str,
    role: &str,
    terms_accepted: bool,
) -> (r: Result<RegisterData, &'static str>)
    ensures
        !terms_accepted ==> r is Err && r->Err_0@ == "You must accept the Terms of Service to create an account"@,
        terms_accepted ==> r is Ok && r->Ok_0.name@ == name@ && r->Ok_0.surname@ == surname@ && r->Ok_0.email@
            == email@ && r->Ok_0.password@ == password@ && r->Ok_0.confirm_password@ == confirm_password@
            && r->Ok_0.role@ == lowercase(role@),
{
    if !terms_accepted {
        return Err("You must accept the Terms of Service to create an account");
    }
    Ok(RegisterData {
        name: owned(name),
        surname: owned(surname),
        email: owned(email),
        password: owned(password),
        confirm_password: owned(confirm_password),
        role: to_lowercase(role),
    })
}

/// The answer to a refused registration.
pub fn registration_refused(e: RegistrationError) -> (r: AuthResponse)
    ensures
        !r.success,
        r.message@ == e.message_spec(),
        r.user is None,
{
    AuthResponse { success: false, message: owned(e.message()), user: None }
}

/// The answer to a registration once the account store has answered:
/// the new profile, or the store's error message.
pub fn registration_answer(created: Result<UserProfile, String>) -> (r: AuthResponse)
    ensures
        match created {
            Ok(u) => r.success && r.message@ == "Account created successfully!"@ && r.user == Some(u),
            Err(e) => !r.success && r.message == e && r.user is None,
        },
{
    match created {
        Ok(user) => AuthResponse {
            success: true,
            message: owned("Account created successfully!"),
            user: Some(user),
        },
        Err(e) => AuthResponse { success: false, message: e, user: None },
    }
}

/// Whom a login names: an email address, or a student number.
#[derive(PartialEq, Eq, Debug)]
pub enum LoginTarget {
    Email(String),
    StudentId(i64),
}

/// Why a login is refused before the account store is asked.
#[derive(PartialEq, Eq, Debug, Clone, Copy)]
pub enum LoginError {
    EmailRequired,
    PasswordRequired,
    NotAnIdentifier,
    InvalidStudentId,
}

impl LoginError {
    /// The message shown for the refusal.
    pub open spec fn message_spec(self) -> Seq<char> {
        match self {
            LoginError::EmailRequired => "Email is required"@,
            LoginError::PasswordRequired => "Password is required"@,
            LoginError::NotAnIdentifier => "Please enter a valid email address or student ID"@,
            LoginError::InvalidStudentId => "Invalid student ID format"@,
        }
    }

    /// The message shown for the refusal.
    pub fn message(&self) -> (m: &'static str)
        ensures
            m@ == self.message_spec(),
    {
        match self {
            LoginError::EmailRequired => "Email is required",
            LoginError::PasswordRequired => "Password is required",
            LoginError::NotAnIdentifier => "Please enter a valid email address or student ID",
            LoginError::InvalidStudentId => "Invalid student ID format",
        }
    }
}

/// The ASCII digits of `s`, in order.
pub open spec fn ascii_digits_of(s: Seq<char>) -> Seq<char>
    decreases s.len(),
{
    if s.len() == 0 {
        s
    } else if is_ascii_digit(s.last()) {
        ascii_digits_of(s.drop_last()).push(s.last())
    } else {
        ascii_digits_of(s.drop_last())
    }
}

/// What a login identifier resolves to before the account store is asked.
pub open spec fn login_resolution(email: Seq<char>, password: Seq<char>) -> Result<
    LoginTargetView,
    LoginError,
> {
    if is_blank(email) {
        Err(LoginError::EmailRequired)
    } else if is_blank(password) {
        Err(LoginError::PasswordRequired)
    } else if has_char(trim(email), '@') {
        Ok(LoginTargetView::Email(lowercase(trim(email))))
    } else if ascii_digits_of(trim(email)).len() == 0 {
        Err(LoginError::NotAnIdentifier)
    } else {
        match crate::numbers::parse_i64_spec(ascii_digits_of(trim(email))) {
            Some(id) => Ok(LoginTargetView::StudentId(id)),
            None => Err(LoginError::InvalidStudentId),
        }
    }
}

/// The model of a login target.
pub enum LoginTargetView {
    Email(Seq<char>),
    StudentId(int),
}

impl LoginTarget {
    pub open spec fn view(&self) -> LoginTargetView {
        match self {
            LoginTarget::Email(s) => LoginTargetView::Email(s@),
            LoginTarget::StudentId(id) => LoginTargetView::StudentId(*id as int),
        }
    }
}

/// The ASCII digits of `cs`, kept in order.
fn keep_ascii_digits(cs: &Vec<char>) -> (r: Vec<char>)
    ensures
        r@ == ascii_digits_of(cs@),
{
    let mut out: Vec<char> = Vec::new();
    let mut i: usize = 0;
    while i < cs.len()
        invariant
            0 <= i <= cs.len(),
            out@ == ascii_digits_of(cs@.subrange(0, i as int)),
        decreases cs.len() - i,
    {
        let c = cs[i];
        proof {
            let p = cs@.subrange(0, i as int);
            assert(cs@.subrange(0, i + 1) =~= p.push(c));
            assert(p.push(c).drop_last() =~= p);
        }
        if '0' <= c && c <= '9' {
            out.push(c);
        }
        i = i + 1;
    }
    assert(cs@.subrange(0, cs.len() as int) =~= cs@);
    out
}

/// Resolves the identifier of a login form: an address (containing '@',
/// lower-cased) or a student number (the digits it holds).
pub fn resolve_login(email: &str, password: &str) -> (r: Result<LoginTarget, LoginError>)
    ensures
        match login_resolution(email@, password@) {
            Ok(t) => r is Ok && r->Ok_0.view() == t,
            Err(e) => r == Err::<LoginTarget, LoginError>(e),
        },
{
    if blank(email) {
        return Err(LoginError::EmailRequired);
    }
    if blank(password) {
        return Err(LoginError::PasswordRequired);
    }
    let cs = chars_of(email);
    let identifier = trim_chars(&cs);
    if contains_char(&identifier, '@') {
        let ident = string_of(&identifier);
        return Ok(LoginTarget::Email(to_lowercase(ident.as_str())));
    }
    let digits = keep_ascii_digits(&identifier);
    if digits.len() == 0 {
        return Err(LoginError::NotAnIdentifier);
    }
    match crate::numbers::parse_int_chars(&digits, true, i64::MIN, i64::MAX) {
        Some(id) => Ok(LoginTarget::StudentId(id)),
        None => Err(LoginError::InvalidStudentId),
    }
}

/// An account registered with an address is looked up again by a login
/// with the same typed address and password: the login asks the store for
/// exactly the address that registration stored (trimmed and lower-cased)
/// (for addresses holding an '@' and passwords that are not all white
/// space).
pub proof fn lemma_register_then_login(
    name: Seq<char>,
    surname: Seq<char>,
    email: Seq<char>,
    password: Seq<char>,
    role: Seq<char>,
)
    requires
        registration_error(name, surname, email, password, password, role) is None,
        has_char(trim(email), '@'),
        !is_blank(password),
    ensures
        login_resolution(email, password) == Ok::<LoginTargetView, LoginError>(
            LoginTargetView::Email(lowercase(trim(email))),
        ),
{
}

/// The answer to a login refused before the account store is asked.
pub fn login_refused(e: LoginError) -> (r: AuthResponse)
    ensures
        !r.success,
        r.message@ == e.message_spec(),
        r.user is None,
{
    AuthResponse { success: false, message: owned(e.message()), user: None }
}

/// The answer when no account has the given student number.
pub fn unknown_student_id() -> (r: AuthResponse)
    ensures
        !r.success,
        r.message@ == "No account found with that student ID"@,
        r.user is None,
{
    AuthResponse {
        success: false,
        message: owned("No account found with that student ID"),
        user: None,
    }
}

/// Checks a password against the account found for an address (if any):
/// the profile on a match, the same refusal for an unknown address and for
/// a wrong password.
pub fn authenticate(user: Option<User>, password: &str) -> (r: Result<UserProfile, String>)
    ensures
        match user {
            Some(u) => if u.password@ == password_hash_text(password@) {
                r == Ok::<UserProfile, String>(
                    UserProfile {
                        user_id: u.user_id,
                        name: u.name,
                        surname: u.surname,
                        email_address: u.email_address,
                        role: u.role,
                        university: u.university,
                    },
                )
            } else {
                r is Err && r->Err_0@ == "Invalid email or password"@
            },
            None => r is Err && r->Err_0@ == "Invalid email or password"@,
        },
{
    match user {
        None => Err(owned("Invalid email or password")),
        Some(u) => {
            if verify_password(password, u.password.as_str()) {
                Ok(UserProfile::from(u))
            } else {
                Err(owned("Invalid email or password"))
            }
        },
    }
}

/// The address a login by student number checks the password against: the
/// address of the account found under that number, lower-cased; where no
/// account was found, the refusal.
pub fn student_login_address(found: &Option<User>) -> (r: Result<String, AuthResponse>)
    ensures
        match found {
            Some(u) => r is Ok && r->Ok_0@ == lowercase(u.email_address@),
            None => r is Err && !r->Err_0.success && r->Err_0.message@
                == "No account found with that student ID"@ && r->Err_0.user is None,
        },
{
    match found {
        Some(u) => Ok(to_lowercase(u.email_address.as_str())),
        None => Err(unknown_student_id()),
    }
}

/// The answer to a login once the account store has answered.
pub fn login_answer(outcome: Result<UserProfile, String>) -> (r: AuthResponse)
    ensures
        match outcome {
            Ok(u) => r.success && r.message@ == "Login successful!"@ && r.user == Some(u),
            Err(e) => !r.success && r.message == e && r.user is None,
        },
{
    match outcome {
        Ok(user) => AuthResponse { success: true, message: owned("Login successful!"), user: Some(user) },
        Err(e) => AuthResponse { success: false, message: e, user: None },
    }
}

/// The first check that a password reset fails, if any.
pub open spec fn reset_error(email: Seq<char>, new_password: Seq<char>, confirm: Seq<char>) -> Option<
    Seq<char>,
> {
    if is_blank(email) {
        Some("Email is required"@)
    } else if byte_len(new_password) < 6 {
        Some("Password must be at least 6 characters"@)
    } else if new_password != confirm {
        Some("Passwords do not match"@)
    } else {
        None
    }
}

/// Checks a password reset: the refusal to answer with, or the address
/// (trimmed, lower-cased) whose password is to change.
pub fn validate_reset(email: &str, new_password: &str, confirm_password: &str) -> (r: Result<
    String,
    BasicResponse,
>)
    ensures
        match reset_error(email@, new_password@, confirm_password@) {
            Some(m) => r is Err && !r->Err_0.success && r->Err_0.message@ == m,
            None => r is Ok && r->Ok_0@ == lowercase(trim(email@)),
        },
{
    if blank(email) {
        return Err(BasicResponse { success: false, message: owned("Email is required") });
    }
    let pw = chars_of(new_password);
    if utf8_len(&pw) < 6 {
        return Err(
            BasicResponse { success: false, message: owned("Password must be at least 6 characters") },
        );
    }
    if !str_eq(new_password, confirm_password) {
        return Err(BasicResponse { success: false, message: owned("Passwords do not match") });
    }
    let t = trim_str(email);
    Ok(to_lowercase(t.as_str()))
}

/// The answer to a password reset once the account store has answered.
pub fn reset_answer(outcome: Result<(), String>) -> (r: BasicResponse)
    ensures
        match outcome {
            Ok(_) => r.success && r.message@
                == "Password updated successfully. You can now sign in with your new password."@,
            Err(e) => !r.success && r.message == e,
        },
{
    match outcome {
        Ok(_) => BasicResponse {
            success: true,
            message: owned(
                "Password updated successfully. You can now sign in with your new password.",
            ),
        },
        Err(e) => BasicResponse { success: false, message: e },
    }
}

/// Whether an account may be created for an email: not when a user with
/// that email exists.
pub fn account_email_free(existing: &Option<User>) -> (r: Result<(), &'static str>)
    ensures
        existing is Some ==> r is Err && r->Err_0@ == "User with this email already exists"@,
        existing is None ==> r is Ok,
{
    match existing {
        Some(_) => Err("User with this email already exists"),
        None => Ok(()),
    }
}

/// The outcome of storing a new password: an error when no row changed
/// (no user has that email).
pub fn password_update_outcome(rows_affected: u64) -> (r: Result<(), &'static str>)
    ensures
        rows_affected == 0 ==> r is Err && r->Err_0@ == "No user found with that email"@,
        rows_affected > 0 ==> r is Ok,
{
    if rows_affected == 0 {
        Err("No user found with that email")
    } else {
        Ok(())
    }
}

} // verus!
