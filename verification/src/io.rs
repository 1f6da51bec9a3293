//! Decisions behind the guest's console and logging output.

pub mod stdio;
