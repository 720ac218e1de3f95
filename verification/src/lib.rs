use vstd::prelude::*;

pub mod account;
pub mod credential;
pub mod models;
pub mod profile;
pub mod session;
pub mod snowflake;
pub mod token;

verus! {

} // verus!
