//! User accounts.
use vstd::prelude::*;

verus! {

pub struct User {
    pub username: String,
    pub email: String,
    pub sign_in_count: u64,
    pub active: bool,
}

/// A new, active account that has signed in once.
pub fn build_user(email: String, username: String) -> (r: User)
    ensures
        r.email@ == email@,
        r.username@ == username@,
        r.active,
        r.sign_in_count == 1,
{
    User { username, email, active: true, sign_in_count: 1 }
}

} // verus!
