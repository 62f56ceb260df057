//! What the operations promise as a whole.
//!
//! The laws here speak of the texts, numbers and lists that go into an operation and come out of it:
//! what is written is read back, how the result of a whole is made of the results of its parts, and
//! what every result has to satisfy.

pub mod billing;
pub mod claims;
pub mod commands;
pub mod containers;
pub mod events;
pub mod github;
pub mod handling;
pub mod making;
pub mod messages;
pub mod objects;
pub mod operations;
pub mod posting;
pub mod reading;
pub mod requests;
pub mod results;
pub mod rounds;
pub mod running;
pub mod runtime;
pub mod settings;
pub mod slots;
pub mod status;
pub mod steps;
pub mod texts;
pub mod wallet;
pub mod workers;
