//! A child-process supervisor: tracks the lifecycle of one external
//! process (start, observe, stop) as a verified state machine.
//!
//! The supervisor itself performs no I/O. A host embeds it, asks it what
//! to do (`begin_start`, `begin_stop`), performs the OS work (spawning,
//! signalling, reaping), and reports the outcome back
//! (`finish_start`, `finish_stop`, `notice_exit`). Every transition is
//! specified against the spec-level step function in `state`, and the
//! central safety property — at most one live OS process is ever
//! attributed to a supervisor — is proved there over arbitrary event
//! traces.

pub mod state;
pub mod supervisor;
pub mod text;
