use vstd::prelude::*;

verus! {

/// A user row as the relational store hands it back for public reading:
/// no password hash.
#[derive(Debug)]
pub struct UserFromDB {
    pub id: i64,
    pub email: String,
    pub email_hash: Option<String>,
    pub active_photo_id: i32,
}

/// A user row with the stored password hash, read only while a login
/// attempt is checked.
#[derive(Debug)]
pub struct UserFromDBWithPassword {
    pub id: i64,
    pub email: String,
    pub password: String,
    pub email_hash: Option<String>,
    pub active_photo_id: i32,
}

/// A profile image row: its own identifier and the owning user.
#[derive(Debug)]
pub struct ProfileFromDB {
    pub id: i64,
    pub user_id: i64,
}

/// The identifiers of all profile images of one user.
#[derive(Debug)]
pub struct AllProfiles {
    pub id: Vec<i64>,
}

} // verus!
