//! Runs untrusted code in a throwaway container and streams its output back.
//!
//! The library holds the decisions of the job pipeline: the names of a job's
//! workspace and engine artifacts, the steps that set a job up, the relay that
//! merges the output reader's and the timer's events into one stream ending
//! at the first terminal event, and the outcome that the caller receives.
//! Running processes, touching the filesystem and serving requests is left
//! to the program around it.

pub mod event;
pub mod job;
pub mod outcome;
pub mod relay;
pub mod setup;

pub use event::Msg;
pub use job::Job;
pub use outcome::Outcome;
pub use relay::{Relay, RelayAction};
pub use setup::{Setup, Stage};
