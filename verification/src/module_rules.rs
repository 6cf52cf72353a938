//! Modules and profiles: the checks on their forms, the requests built from
//! them, and the answers the service gives.
use vstd::prelude::*;
use crate::classes::{keep_non_blank, non_blank_field, opt_view};
use crate::models::{CreateModuleRequest, Module, ModuleWithStats, UpdateModuleRequest, UpdateProfileRequest, UserProfile};
use crate::text::{blank, is_blank, owned, trim, trim_str};

verus! {

/// The answer to a request about one module.
#[derive(Clone, Debug, PartialEq)]
pub struct ModuleResponse {
    pub success: bool,
    pub message: String,
    pub module: Option<Module>,
}

/// The answer to a request for a lecturer's modules.
#[derive(Clone, Debug, PartialEq)]
pub struct ModulesListResponse {
    pub success: bool,
    pub message: String,
    pub modules: Vec<ModuleWithStats>,
}

/// The first check that a new module fails, if any.
pub open spec fn new_module_error(code: Seq<char>, title: Seq<char>) -> Option<Seq<char>> {
    if is_blank(code) {
        Some("Module code is required"@)
    } else if is_blank(title) {
        Some("Module title is required"@)
    } else {
        None
    }
}

/// Checks a new module and, when it passes, builds its request: code and
/// title trimmed, a blank description dropped.
pub fn check_new_module(module_code: &str, module_title: &str, description: &Option<String>) -> (r: Result<
    CreateModuleRequest,
    &'static str,
>)
    ensures
        match new_module_error(module_code@, module_title@) {
            Some(m) => r is Err && r->Err_0@ == m,
            None => r is Ok && r->Ok_0.module_code@ == trim(module_code@) && r->Ok_0.module_title@ == trim(
                module_title@,
            ) && opt_view(r->Ok_0.description) == non_blank_field(opt_view(*description)),
        },
{
    if blank(module_code) {
        return Err("Module code is required");
    }
    if blank(module_title) {
        return Err("Module title is required");
    }
    Ok(CreateModuleRequest {
        module_code: trim_str(module_code),
        module_title: trim_str(module_title),
        description: keep_non_blank(description),
    })
}

/// Checks a module change and, when it passes, builds its request: the
/// code as given, the title trimmed, a blank description dropped.
pub fn check_module_update(module_code: &str, module_title: &str, description: &Option<String>) -> (r: Result<
    UpdateModuleRequest,
    &'static str,
>)
    ensures
        is_blank(module_title@) ==> r is Err && r->Err_0@ == "Module title is required"@,
        !is_blank(module_title@) ==> r is Ok && r->Ok_0.module_code@ == module_code@ && r->Ok_0.module_title@
            == trim(module_title@) && opt_view(r->Ok_0.description) == non_blank_field(
            opt_view(*description),
        ),
{
    if blank(module_title) {
        return Err("Module title is required");
    }
    Ok(UpdateModuleRequest {
        module_code: owned(module_code),
        module_title: trim_str(module_title),
        description: keep_non_blank(description),
    })
}

/// The answer that refuses a module request with `message`.
pub fn module_refused(message: &str) -> (r: ModuleResponse)
    ensures
        !r.success,
        r.message@ == message@,
        r.module is None,
{
    ModuleResponse { success: false, message: owned(message), module: None }
}

/// Whether a module may be created: not when one with its code exists.
pub fn module_code_free(existing: &Option<Module>) -> (r: Result<(), &'static str>)
    ensures
        existing is Some ==> r is Err && r->Err_0@ == "Module with this code already exists"@,
        existing is None ==> r is Ok,
{
    match existing {
        Some(_) => Err("Module with this code already exists"),
        None => Ok(()),
    }
}

/// The answer once the store has created (or refused) a module.
pub fn module_created(created: Result<Module, String>) -> (r: ModuleResponse)
    ensures
        match created {
            Ok(m) => r.success && r.message@ == "Module created successfully!"@ && r.module == Some(m),
            Err(e) => !r.success && r.message == e && r.module is None,
        },
{
    match created {
        Ok(m) => ModuleResponse { success: true, message: owned("Module created successfully!"), module: Some(m) },
        Err(e) => ModuleResponse { success: false, message: e, module: None },
    }
}

/// The answer once the store has updated (or refused to update) a module.
pub fn module_updated(updated: Result<Module, String>) -> (r: ModuleResponse)
    ensures
        match updated {
            Ok(m) => r.success && r.message@ == "Module updated successfully!"@ && r.module == Some(m),
            Err(e) => !r.success && r.message == e && r.module is None,
        },
{
    match updated {
        Ok(m) => ModuleResponse { success: true, message: owned("Module updated successfully!"), module: Some(m) },
        Err(e) => ModuleResponse { success: false, message: e, module: None },
    }
}

/// The answer once the store has deleted (or refused to delete) a module.
pub fn module_deleted(deleted: Result<(), String>) -> (r: ModuleResponse)
    ensures
        match deleted {
            Ok(_) => r.success && r.message@ == "Module deleted successfully!"@ && r.module is None,
            Err(e) => !r.success && r.message == e && r.module is None,
        },
{
    match deleted {
        Ok(_) => ModuleResponse { success: true, message: owned("Module deleted successfully!"), module: None },
        Err(e) => ModuleResponse { success: false, message: e, module: None },
    }
}

/// The answer to a lookup of one module.
pub fn module_found(found: Result<Option<Module>, String>) -> (r: ModuleResponse)
    ensures
        match found {
            Ok(Some(m)) => r.success && r.message@ == "Module found"@ && r.module == Some(m),
            Ok(None) => !r.success && r.message@ == "Module not found"@ && r.module is None,
            Err(e) => !r.success && r.message == e && r.module is None,
        },
{
    match found {
        Ok(Some(m)) => ModuleResponse { success: true, message: owned("Module found"), module: Some(m) },
        Ok(None) => ModuleResponse { success: false, message: owned("Module not found"), module: None },
        Err(e) => ModuleResponse { success: false, message: e, module: None },
    }
}

/// The answer to a request for a lecturer's modules.
pub fn modules_listed(listed: Result<Vec<ModuleWithStats>, String>) -> (r: ModulesListResponse)
    ensures
        match listed {
            Ok(ms) => r.success && r.message@ == "Modules fetched successfully"@ && r.modules == ms,
            Err(e) => !r.success && r.message == e && r.modules@.len() == 0,
        },
{
    match listed {
        Ok(ms) => ModulesListResponse { success: true, message: owned("Modules fetched successfully"), modules: ms },
        Err(e) => ModulesListResponse { success: false, message: e, modules: Vec::new() },
    }
}

/// What the new-module form sends, once it passes its own checks.
#[derive(Clone, Debug, PartialEq)]
pub struct NewModuleForm {
    pub module_code: String,
    pub module_title: String,
    pub description: Option<String>,
    pub lecturer_email: String,
}

/// The first check that the new-module form fails, if any: a code, a
/// title, and a signed-in user are needed.
pub open spec fn new_module_form_error(code: Seq<char>, title: Seq<char>, signed_in: bool) -> Option<Seq<char>> {
    if trim(code).len() == 0 {
        Some("Please enter a module code"@)
    } else if is_blank(title) {
        Some("Please enter a module title"@)
    } else if !signed_in {
        Some("You must be logged in to create a module"@)
    } else {
        None
    }
}

/// The new-module form: checks it, and builds what it sends (code trimmed,
/// title as typed, a blank description left out).
pub fn plan_new_module(module_code: &str, module_title: &str, description: &str, lecturer_email: &Option<String>) -> (r:
    Result<NewModuleForm, &'static str>)
    ensures
        match new_module_form_error(module_code@, module_title@, lecturer_email is Some) {
            Some(m) => r is Err && r->Err_0@ == m,
            None => r is Ok && r->Ok_0.module_code@ == trim(module_code@) && r->Ok_0.module_title@
                == module_title@ && (is_blank(description@) ==> r->Ok_0.description is None) && (!is_blank(
                description@,
            ) ==> opt_view(r->Ok_0.description) == Some(description@)) && r->Ok_0.lecturer_email@
                == lecturer_email->0@,
        },
{
    let code = trim_str(module_code);
    if code.as_str().is_empty() {
        return Err("Please enter a module code");
    }
    if blank(module_title) {
        return Err("Please enter a module title");
    }
    let email = match lecturer_email {
        Some(e) => owned(e.as_str()),
        None => {
            return Err("You must be logged in to create a module");
        },
    };
    let desc = if blank(description) {
        None
    } else {
        Some(owned(description))
    };
    Ok(NewModuleForm { module_code: code, module_title: owned(module_title), description: desc, lecturer_email: email })
}

/// The module editor: refused without a title; otherwise the title as
/// typed and the description, left out when blank.
pub fn plan_module_edit(module_title: &str, description: &str) -> (r: Result<(String, Option<String>), &'static str>)
    ensures
        is_blank(module_title@) ==> r is Err && r->Err_0@ == "Please enter a module title"@,
        !is_blank(module_title@) ==> r is Ok && r->Ok_0.0@ == module_title@ && (is_blank(description@)
            ==> r->Ok_0.1 is None) && (!is_blank(description@) ==> opt_view(r->Ok_0.1) == Some(description@)),
{
    if blank(module_title) {
        return Err("Please enter a module title");
    }
    let desc = if blank(description) {
        None
    } else {
        Some(owned(description))
    };
    Ok((owned(module_title), desc))
}

/// The answer to a profile change.
#[derive(Clone, Debug, PartialEq)]
pub struct ProfileResponse {
    pub success: bool,
    pub message: String,
    pub user: Option<UserProfile>,
}

/// The first check that a profile change fails, if any.
pub open spec fn profile_error(name: Seq<char>, surname: Seq<char>, email: Seq<char>) -> Option<Seq<char>> {
    if is_blank(name) {
        Some("Name is required"@)
    } else if is_blank(surname) {
        Some("Surname is required"@)
    } else if is_blank(email) {
        Some("Email is required"@)
    } else {
        None
    }
}

/// Checks a profile change and, when it passes, gives the values stored:
/// each field trimmed.
pub fn check_profile_update(request: &UpdateProfileRequest) -> (r: Result<UpdateProfileRequest, &'static str>)
    ensures
        match profile_error(request.name@, request.surname@, request.email_address@) {
            Some(m) => r is Err && r->Err_0@ == m,
            None => r is Ok && r->Ok_0.user_id == request.user_id && r->Ok_0.name@ == trim(request.name@)
                && r->Ok_0.surname@ == trim(request.surname@) && r->Ok_0.email_address@ == trim(
                request.email_address@,
            ) && r->Ok_0.university@ == trim(request.university@),
        },
{
    if blank(request.name.as_str()) {
        return Err("Name is required");
    }
    if blank(request.surname.as_str()) {
        return Err("Surname is required");
    }
    if blank(request.email_address.as_str()) {
        return Err("Email is required");
    }
    Ok(UpdateProfileRequest {
        user_id: request.user_id,
        name: trim_str(request.name.as_str()),
        surname: trim_str(request.surname.as_str()),
        email_address: trim_str(request.email_address.as_str()),
        university: trim_str(request.university.as_str()),
    })
}

/// The name shown while a student edits the profile: first and last name
/// trimmed and joined, "Student" when nothing is left.
pub open spec fn edit_display_name(first: Seq<char>, last: Seq<char>) -> Seq<char> {
    let combined = trim(trim(first) + " "@ + trim(last));
    if combined.len() == 0 {
        "Student"@
    } else {
        combined
    }
}

/// The name shown while a student edits the profile.
pub fn profile_display_name(first: &str, last: &str) -> (r: String)
    ensures
        r@ == edit_display_name(first@, last@),
{
    let f = trim_str(first);
    let l = trim_str(last);
    let joined = crate::text::concat3(f.as_str(), " ", l.as_str());
    let combined = trim_str(joined.as_str());
    if combined.as_str().is_empty() {
        owned("Student")
    } else {
        combined
    }
}

/// The first check that the student's profile form fails, if any.
pub open spec fn profile_form_error(first: Seq<char>, last: Seq<char>, email: Seq<char>) -> Option<Seq<char>> {
    if is_blank(first) {
        Some("First name is required"@)
    } else if is_blank(last) {
        Some("Last name is required"@)
    } else if is_blank(email) {
        Some("Email is required"@)
    } else {
        None
    }
}

/// The student's profile form: checks it, and builds the change it sends
/// (fields trimmed; the university kept from the signed-in user, or the
/// form's default one).
pub fn plan_profile_edit(
    user_id: i64,
    first: &str,
    last: &str,
    email: &str,
    current: &Option<UserProfile>,
) -> (r: Result<UpdateProfileRequest, &'static str>)
    ensures
        match profile_form_error(first@, last@, email@) {
            Some(m) => r is Err && r->Err_0@ == m,
            None => r is Ok && r->Ok_0.user_id == user_id && r->Ok_0.name@ == trim(first@) && r->Ok_0.surname@
                == trim(last@) && r->Ok_0.email_address@ == trim(email@) && r->Ok_0.university@ == match *current {
                Some(u) => u.university@,
                None => "Stellenbosch University"@,
            },
        },
{
    if blank(first) {
        return Err("First name is required");
    }
    if blank(last) {
        return Err("Last name is required");
    }
    if blank(email) {
        return Err("Email is required");
    }
    let university = match current {
        Some(u) => owned(u.university.as_str()),
        None => owned("Stellenbosch University"),
    };
    Ok(UpdateProfileRequest {
        user_id,
        name: trim_str(first),
        surname: trim_str(last),
        email_address: trim_str(email),
        university,
    })
}

/// The answer that refuses a profile change with `message`.
pub fn profile_refused(message: &str) -> (r: ProfileResponse)
    ensures
        !r.success,
        r.message@ == message@,
        r.user is None,
{
    ProfileResponse { success: false, message: owned(message), user: None }
}

/// The answer once the stored profile has been read back.
pub fn profile_updated(user: UserProfile) -> (r: ProfileResponse)
    ensures
        r.success,
        r.message@ == "Profile updated successfully!"@,
        r.user == Some(user),
{
    ProfileResponse { success: true, message: owned("Profile updated successfully!"), user: Some(user) }
}

} // verus!
