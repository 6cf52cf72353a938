//! The signed-in user of a page: who it is, what role it holds, and how its
//! name reads.
use vstd::prelude::*;
use crate::models::UserProfile;
use crate::text::{concat3, owned, str_eq};

verus! {

/// The user that the pages know to be signed in, if any.
#[derive(Clone, Debug, PartialEq)]
pub struct UserContext {
    pub current: Option<UserProfile>,
}

/// The role of the signed-in user, if any.
pub open spec fn role_of(current: Option<UserProfile>) -> Option<Seq<char>> {
    match current {
        Some(u) => Some(u.role@),
        None => None,
    }
}

/// How the signed-in user's name reads: name and surname, or "User" when
/// no one is signed in.
pub open spec fn user_name_of(current: Option<UserProfile>) -> Seq<char> {
    match current {
        Some(u) => u.name@ + " "@ + u.surname@,
        None => "User"@,
    }
}

/// A copy of a profile.
pub fn copy_profile(u: &UserProfile) -> (r: UserProfile)
    ensures
        r == *u,
{
    UserProfile {
        user_id: u.user_id,
        name: u.name.clone(),
        surname: u.surname.clone(),
        email_address: u.email_address.clone(),
        university: u.university.clone(),
        role: u.role.clone(),
    }
}

impl UserContext {
    /// No one signed in.
    pub fn init_user_context() -> (r: UserContext)
        ensures
            r.current is None,
    {
        UserContext { current: None }
    }

    /// Signs `user` in.
    pub fn set_current_user(&mut self, user: UserProfile)
        ensures
            final(self).current == Some(user),
    {
        self.current = Some(user);
    }

    /// Signs the user out.
    pub fn clear_current_user(&mut self)
        ensures
            final(self).current is None,
    {
        self.current = None;
    }

    /// The signed-in user, if any.
    pub fn get_current_user(&self) -> (r: Option<UserProfile>)
        ensures
            r == self.current,
    {
        match &self.current {
            Some(u) => Some(copy_profile(u)),
            None => None,
        }
    }

    /// The role of the signed-in user, if any.
    pub fn get_user_role(&self) -> (r: Option<String>)
        ensures
            match r {
                Some(s) => role_of(self.current) == Some(s@),
                None => role_of(self.current) is None,
            },
    {
        match &self.current {
            Some(u) => Some(owned(u.role.as_str())),
            None => None,
        }
    }

    /// Whether a student is signed in.
    pub fn is_student(&self) -> (b: bool)
        ensures
            b == (role_of(self.current) == Some("student"@)),
    {
        match &self.current {
            Some(u) => str_eq(u.role.as_str(), "student"),
            None => false,
        }
    }

    /// Whether a lecturer or a tutor is signed in.
    pub fn is_lecturer_or_tutor(&self) -> (b: bool)
        ensures
            b == (role_of(self.current) == Some("lecturer"@) || role_of(self.current) == Some("tutor"@)),
    {
        match &self.current {
            Some(u) => str_eq(u.role.as_str(), "lecturer") || str_eq(u.role.as_str(), "tutor"),
            None => false,
        }
    }

    /// How the signed-in user's name reads.
    pub fn get_user_name(&self) -> (r: String)
        ensures
            r@ == user_name_of(self.current),
    {
        match &self.current {
            Some(u) => concat3(u.name.as_str(), " ", u.surname.as_str()),
            None => owned("User"),
        }
    }
}

/// Signing a user in and asking who is signed in gives that user back, with
/// its role and name; signing out leaves no one, no role, and "User".
pub proof fn lemma_sign_in_out(user: UserProfile)
    ensures
        role_of(Some(user)) == Some(user.role@),
        user_name_of(Some(user)) == user.name@ + " "@ + user.surname@,
        role_of(None) is None,
        user_name_of(None) == "User"@,
{
}

} // verus!
