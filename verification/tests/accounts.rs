use clock_it::auth::student_login_address;
use clock_it::module_rules::{plan_profile_edit, plan_module_edit, profile_display_name};
use clock_it::auth::{
    account_email_free, authenticate, hash_password, known_role, login_answer, login_refused,
    password_update_outcome, registration_answer, registration_refused, reset_answer, resolve_login,
    unknown_student_id, validate_registration, validate_reset, verify_password, LoginError, LoginTarget,
    RegistrationError,
};
use clock_it::models::{RegisterData, User, UserProfile, UpdateProfileRequest};
use clock_it::module_rules::{
    check_module_update, check_new_module, check_profile_update, module_code_free, module_created,
    module_deleted, module_found, module_refused, module_updated, modules_listed, plan_new_module,
    profile_refused, profile_updated,
};
use clock_it::models::{Module, ModuleWithStats};
use clock_it::user_context::UserContext;

fn register(name: &str, surname: &str, email: &str, pw: &str, confirm: &str, role: &str) -> RegisterData {
    RegisterData {
        name: name.to_string(),
        surname: surname.to_string(),
        email: email.to_string(),
        password: pw.to_string(),
        confirm_password: confirm.to_string(),
        role: role.to_string(),
    }
}

fn profile(id: i64, name: &str, surname: &str, role: &str) -> UserProfile {
    UserProfile {
        user_id: id,
        name: name.to_string(),
        surname: surname.to_string(),
        email_address: format!("{}@uni.ac.za", name.to_lowercase()),
        university: "UJ".to_string(),
        role: role.to_string(),
    }
}

fn stored_user(password_hash: String) -> User {
    User {
        user_id: 7,
        name: "Thandi".to_string(),
        surname: "Mokoena".to_string(),
        email_address: "thandi@uni.ac.za".to_string(),
        password: password_hash,
        role: "lecturer".to_string(),
        university: "Wits".to_string(),
        created_at: "2024-01-01".to_string(),
        updated_at: "2024-01-02".to_string(),
    }
}

fn module(code: &str) -> Module {
    Module {
        module_code: code.to_string(),
        module_title: "Data Structures".to_string(),
        description: None,
        created_at: "t0".to_string(),
        updated_at: "t1".to_string(),
    }
}

#[test]
fn hash_has_the_simple_scheme_prefix_and_digits() {
    let h = hash_password("secret1");
    assert!(h.starts_with("simple_hash_"));
    let digits = &h["simple_hash_".len()..];
    assert!(!digits.is_empty());
    assert!(digits.chars().all(|c| c.is_ascii_digit()));
    assert_eq!(digits.parse::<u64>().unwrap().to_string(), digits);
}

#[test]
fn hashing_is_deterministic() {
    assert_eq!(hash_password("hunter22"), hash_password("hunter22"));
}

#[test]
fn verify_accepts_own_hash_and_rejects_others() {
    let h = hash_password("correct horse");
    assert!(verify_password("correct horse", &h));
    assert!(!verify_password("wrong horse", &h));
    assert!(!verify_password("correct horse", "simple_hash_0"));
}

#[test]
fn different_passwords_give_different_hashes() {
    assert_ne!(hash_password("alpha1"), hash_password("alpha2"));
}

#[test]
fn registration_trims_and_lowercases() {
    let r = validate_registration(register("  Ada ", " Lovelace ", "  Ada@Example.COM ", "secret", "secret", "lecturer"))
        .unwrap();
    assert_eq!(r.name, "Ada");
    assert_eq!(r.surname, "Lovelace");
    assert_eq!(r.email, "ada@example.com");
    assert_eq!(r.password, "secret");
    assert_eq!(r.role, "lecturer");
}

#[test]
fn registration_errors_in_order() {
    assert_eq!(
        validate_registration(register(" ", "", "", "", "", "")).unwrap_err(),
        RegistrationError::NameRequired
    );
    assert_eq!(
        validate_registration(register("A", "\t", "", "", "", "")).unwrap_err(),
        RegistrationError::SurnameRequired
    );
    assert_eq!(
        validate_registration(register("A", "B", "  ", "", "", "")).unwrap_err(),
        RegistrationError::EmailRequired
    );
    assert_eq!(
        validate_registration(register("A", "B", "a@b", "12345", "12345", "student")).unwrap_err(),
        RegistrationError::PasswordTooShort
    );
    assert_eq!(
        validate_registration(register("A", "B", "a@b", "123456", "123457", "student")).unwrap_err(),
        RegistrationError::PasswordMismatch
    );
    assert_eq!(
        validate_registration(register("A", "B", "a@b", "123456", "123456", "admin")).unwrap_err(),
        RegistrationError::InvalidRole
    );
}

#[test]
fn password_length_counts_bytes() {
    // three two-byte characters are six bytes, as `str::len` counts them
    assert!(validate_registration(register("A", "B", "a@b", "ééé", "ééé", "tutor")).is_ok());
}

#[test]
fn registration_answers() {
    let refused = registration_refused(RegistrationError::PasswordMismatch);
    assert!(!refused.success);
    assert_eq!(refused.message, "Passwords do not match");
    assert!(refused.user.is_none());
    let ok = registration_answer(Ok(profile(3, "Ada", "L", "student")));
    assert!(ok.success);
    assert_eq!(ok.message, "Account created successfully!");
    assert_eq!(ok.user.unwrap().user_id, 3);
    let err = registration_answer(Err("User with this email already exists".to_string()));
    assert!(!err.success);
    assert_eq!(err.message, "User with this email already exists");
}

#[test]
fn known_roles() {
    assert!(known_role("lecturer"));
    assert!(known_role("tutor"));
    assert!(known_role("student"));
    assert!(!known_role("Student"));
}

#[test]
fn login_by_email_or_student_number() {
    assert_eq!(
        resolve_login("  Jo@Uni.AC.za ", "pw").unwrap(),
        LoginTarget::Email("jo@uni.ac.za".to_string())
    );
    assert_eq!(resolve_login("STU-000042", "pw").unwrap(), LoginTarget::StudentId(42));
    assert_eq!(resolve_login("", "pw").unwrap_err(), LoginError::EmailRequired);
    assert_eq!(resolve_login("jo@x", " ").unwrap_err(), LoginError::PasswordRequired);
    assert_eq!(resolve_login("nobody", "pw").unwrap_err(), LoginError::NotAnIdentifier);
    assert_eq!(
        resolve_login("99999999999999999999", "pw").unwrap_err(),
        LoginError::InvalidStudentId
    );
}

#[test]
fn login_answers() {
    let r = login_refused(LoginError::NotAnIdentifier);
    assert_eq!(r.message, "Please enter a valid email address or student ID");
    assert_eq!(login_refused(LoginError::InvalidStudentId).message, "Invalid student ID format");
    let u = unknown_student_id();
    assert!(!u.success);
    assert_eq!(u.message, "No account found with that student ID");
    let ok = login_answer(Ok(profile(1, "Sam", "N", "student")));
    assert!(ok.success);
    assert_eq!(ok.message, "Login successful!");
}

#[test]
fn authenticate_checks_the_stored_hash() {
    let user = stored_user(hash_password("letmein"));
    let p = authenticate(Some(user.clone()), "letmein").unwrap();
    assert_eq!(p.user_id, 7);
    assert_eq!(p.name, "Thandi");
    assert_eq!(p.role, "lecturer");
    assert_eq!(p.university, "Wits");
    assert_eq!(authenticate(Some(user), "letmeout").unwrap_err(), "Invalid email or password");
    assert_eq!(authenticate(None, "letmein").unwrap_err(), "Invalid email or password");
}

#[test]
fn reset_checks() {
    assert_eq!(validate_reset("  Me@X.com", "abcdef", "abcdef").unwrap(), "me@x.com");
    assert_eq!(validate_reset(" ", "abcdef", "abcdef").unwrap_err().message, "Email is required");
    assert_eq!(
        validate_reset("a@b", "abc", "abc").unwrap_err().message,
        "Password must be at least 6 characters"
    );
    assert_eq!(validate_reset("a@b", "abcdef", "abcdeg").unwrap_err().message, "Passwords do not match");
    let ok = reset_answer(Ok(()));
    assert!(ok.success);
    assert_eq!(ok.message, "Password updated successfully. You can now sign in with your new password.");
    let bad = reset_answer(Err("No user found with that email".to_string()));
    assert!(!bad.success);
}

#[test]
fn account_store_decisions() {
    assert_eq!(account_email_free(&Some(stored_user(String::new()))).unwrap_err(), "User with this email already exists");
    assert!(account_email_free(&None).is_ok());
    assert_eq!(password_update_outcome(0).unwrap_err(), "No user found with that email");
    assert!(password_update_outcome(1).is_ok());
}

#[test]
fn sign_in_then_out() {
    let mut ctx = UserContext::init_user_context();
    assert_eq!(ctx.get_user_role(), None);
    assert_eq!(ctx.get_user_name(), "User");
    assert!(!ctx.is_student());
    ctx.set_current_user(profile(5, "Lindiwe", "Dube", "student"));
    assert_eq!(ctx.get_user_role(), Some("student".to_string()));
    assert_eq!(ctx.get_user_name(), "Lindiwe Dube");
    assert!(ctx.is_student());
    assert!(!ctx.is_lecturer_or_tutor());
    assert_eq!(ctx.get_current_user().unwrap().user_id, 5);
    ctx.set_current_user(profile(6, "Pat", "Ngu", "tutor"));
    assert!(ctx.is_lecturer_or_tutor());
    ctx.clear_current_user();
    assert_eq!(ctx.get_current_user(), None);
    assert_eq!(ctx.get_user_name(), "User");
}

#[test]
fn new_module_checks() {
    let r = check_new_module("  COS301 ", " Software Engineering ", &Some("  ".to_string())).unwrap();
    assert_eq!(r.module_code, "COS301");
    assert_eq!(r.module_title, "Software Engineering");
    assert_eq!(r.description, None);
    let d = check_new_module("A", "B", &Some(" kept as typed ".to_string())).unwrap();
    assert_eq!(d.description, Some(" kept as typed ".to_string()));
    assert_eq!(check_new_module(" ", "B", &None).unwrap_err(), "Module code is required");
    assert_eq!(check_new_module("A", "\n", &None).unwrap_err(), "Module title is required");
}

#[test]
fn module_update_checks() {
    let r = check_module_update(" X1 ", "  New title ", &Some("desc".to_string())).unwrap();
    assert_eq!(r.module_code, " X1 ");
    assert_eq!(r.module_title, "New title");
    assert_eq!(r.description, Some("desc".to_string()));
    assert_eq!(check_module_update("X1", "  ", &None).unwrap_err(), "Module title is required");
}

#[test]
fn module_answers() {
    assert_eq!(module_refused("nope").message, "nope");
    assert_eq!(module_code_free(&Some(module("A"))).unwrap_err(), "Module with this code already exists");
    assert!(module_code_free(&None).is_ok());
    let c = module_created(Ok(module("A")));
    assert!(c.success);
    assert_eq!(c.message, "Module created successfully!");
    assert_eq!(c.module.unwrap().module_code, "A");
    let u = module_updated(Err("Failed to update module: x".to_string()));
    assert!(!u.success);
    assert_eq!(u.message, "Failed to update module: x");
    assert_eq!(module_updated(Ok(module("B"))).message, "Module updated successfully!");
    let d = module_deleted(Ok(()));
    assert!(d.success);
    assert_eq!(d.message, "Module deleted successfully!");
    assert!(d.module.is_none());
    assert_eq!(module_found(Ok(None)).message, "Module not found");
    assert!(!module_found(Ok(None)).success);
    assert_eq!(module_found(Ok(Some(module("C")))).message, "Module found");
    let l = modules_listed(Ok(vec![ModuleWithStats {
        module_code: "A".to_string(),
        module_title: "T".to_string(),
        description: None,
        student_count: 3,
        class_count: 2,
    }]));
    assert!(l.success);
    assert_eq!(l.message, "Modules fetched successfully");
    assert_eq!(l.modules.len(), 1);
    let e = modules_listed(Err("Database error: x".to_string()));
    assert!(!e.success);
    assert!(e.modules.is_empty());
}

#[test]
fn new_module_form() {
    let email = Some("lect@uni.ac.za".to_string());
    let f = plan_new_module("  INF2 ", " Intro ", "  ", &email).unwrap();
    assert_eq!(f.module_code, "INF2");
    assert_eq!(f.module_title, " Intro ");
    assert_eq!(f.description, None);
    assert_eq!(f.lecturer_email, "lect@uni.ac.za");
    let g = plan_new_module("INF2", "Intro", "about", &email).unwrap();
    assert_eq!(g.description, Some("about".to_string()));
    assert_eq!(plan_new_module(" ", "T", "", &email).unwrap_err(), "Please enter a module code");
    assert_eq!(plan_new_module("C", " ", "", &email).unwrap_err(), "Please enter a module title");
    assert_eq!(
        plan_new_module("C", "T", "", &None).unwrap_err(),
        "You must be logged in to create a module"
    );
}

#[test]
fn profile_update_checks() {
    let req = UpdateProfileRequest {
        user_id: 9,
        name: " Zola ".to_string(),
        surname: " Budd ".to_string(),
        email_address: " z@b.com ".to_string(),
        university: " UCT ".to_string(),
    };
    let r = check_profile_update(&req).unwrap();
    assert_eq!(r.user_id, 9);
    assert_eq!(r.name, "Zola");
    assert_eq!(r.surname, "Budd");
    assert_eq!(r.email_address, "z@b.com");
    assert_eq!(r.university, "UCT");
    let mut bad = req.clone();
    bad.name = "  ".to_string();
    assert_eq!(check_profile_update(&bad).unwrap_err(), "Name is required");
    let mut bad2 = req.clone();
    bad2.surname = String::new();
    assert_eq!(check_profile_update(&bad2).unwrap_err(), "Surname is required");
    let mut bad3 = req.clone();
    bad3.email_address = "\t".to_string();
    assert_eq!(check_profile_update(&bad3).unwrap_err(), "Email is required");
    assert_eq!(profile_refused("Name is required").message, "Name is required");
    let ok = profile_updated(profile(9, "Zola", "Budd", "student"));
    assert!(ok.success);
    assert_eq!(ok.message, "Profile updated successfully!");
}

#[test]
fn registration_form() {
    let f = clock_it::auth::plan_registration_form("A", "B", "a@b", "pw1234", "pw1234", "Lecturer", true).unwrap();
    assert_eq!(f.role, "lecturer");
    assert_eq!(f.name, "A");
    assert_eq!(f.confirm_password, "pw1234");
    assert_eq!(
        clock_it::auth::plan_registration_form("A", "B", "a@b", "p", "p", "Tutor", false).unwrap_err(),
        "You must accept the Terms of Service to create an account"
    );
}

#[test]
fn student_profile_form() {
    assert_eq!(profile_display_name(" Ann ", " Lee "), "Ann Lee");
    assert_eq!(profile_display_name("", " Lee "), "Lee");
    assert_eq!(profile_display_name("  ", ""), "Student");
    let current = Some(profile(4, "Ann", "Lee", "student"));
    let r = plan_profile_edit(4, " Ann ", " Lee ", " ann@x ", &current).unwrap();
    assert_eq!((r.user_id, r.name.as_str(), r.surname.as_str()), (4, "Ann", "Lee"));
    assert_eq!(r.email_address, "ann@x");
    assert_eq!(r.university, "UJ");
    assert_eq!(plan_profile_edit(4, "A", "B", "c", &None).unwrap().university, "Stellenbosch University");
    assert_eq!(plan_profile_edit(4, " ", "B", "c", &None).unwrap_err(), "First name is required");
    assert_eq!(plan_profile_edit(4, "A", "", "c", &None).unwrap_err(), "Last name is required");
    assert_eq!(plan_profile_edit(4, "A", "B", " ", &None).unwrap_err(), "Email is required");
    assert_eq!(plan_module_edit(" ", "d").unwrap_err(), "Please enter a module title");
    assert_eq!(plan_module_edit(" T ", " ").unwrap(), (" T ".to_string(), None));
    assert_eq!(plan_module_edit("T", "about").unwrap(), ("T".to_string(), Some("about".to_string())));
}

#[test]
fn registered_address_is_what_login_looks_up() {
    let typed = "  New.Student@Uni.AC.za ";
    let stored = validate_registration(register("N", "S", typed, "secret9", "secret9", "student")).unwrap();
    match resolve_login(typed, "secret9").unwrap() {
        LoginTarget::Email(address) => assert_eq!(address, stored.email),
        other => panic!("unexpected target {:?}", other),
    }
    // a password of white space registers but cannot be used to sign in
    assert!(validate_registration(register("N", "S", typed, "      ", "      ", "student")).is_ok());
    assert_eq!(resolve_login(typed, "      ").unwrap_err(), LoginError::PasswordRequired);
}

#[test]
fn login_by_student_number_address() {
    let mut u = stored_user("h".to_string());
    u.email_address = "Thandi@Uni.AC.za".to_string();
    assert_eq!(student_login_address(&Some(u)).unwrap(), "thandi@uni.ac.za");
    let refused = student_login_address(&None).unwrap_err();
    assert!(!refused.success);
    assert_eq!(refused.message, "No account found with that student ID");
    assert!(refused.user.is_none());
}
