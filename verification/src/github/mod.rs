//! The GitHub side: runners, and the requests that ask for them.

pub mod client;
pub mod types;
