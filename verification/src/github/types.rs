//! What GitHub answers.

use vstd::prelude::*;

verus! {

/// A page of the runners of a repository.
#[derive(Debug)]
pub struct RunnersResponse {
    pub runners: Vec<Runner>,
}

/// A runner of a repository.
#[derive(Debug)]
pub struct Runner {
    pub id: u64,
    pub name: String,
    pub status: String,
    pub busy: bool,
}

/// A token that registers new runners.
#[derive(Debug)]
pub struct RegistrationTokenResponse {
    pub token: String,
}

} // verus!
