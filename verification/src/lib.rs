//! A controller for a pool of Loom workers in NixOS containers.
//!
//! Workers advertise their software and their prices over Nostr, accept jobs that are paid for in
//! advance, run them in warm containers, and publish the results with a bill.
//!
//! The library holds what the controller decides and computes. What touches the world (relays,
//! the wallet and container programs, files, the clock) is asked for by a stage or a command of the
//! library, and its outcome is handed back as a plain value.
//!
//! * Settings: [`config`], [`github`].
//! * Workers and their events: [`loom`], [`event`], [`jobs`], [`post_job`].
//! * Payment: [`payments`], [`wallet_output`], [`claim`].
//! * Containers: [`container`], [`spawn`], [`state`].
//! * The controller: [`listener`], [`reconciliation`], [`maintenance`], [`slots`], [`dispatch`],
//!   [`run_loop`], [`http`].
//! * Text and time: [`text`], [`search`], [`number`], [`json`], [`paths`], [`clock`].
//! * What the operations promise as a whole: [`laws`].

pub mod claim;
pub mod clock;
pub mod config;
pub mod container;
pub mod dispatch;
pub mod event;
pub mod github;
pub mod http;
pub mod jobs;
pub mod json;
pub mod laws;
pub mod listener;
pub mod loom;
pub mod maintenance;
pub mod number;
pub mod paths;
pub mod payments;
pub mod post_job;
pub mod reconciliation;
pub mod run_loop;
pub mod search;
pub mod slots;
pub mod spawn;
pub mod state;
pub mod text;
pub mod wallet_output;
