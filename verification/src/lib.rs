//! Guest-side cooperative task runtime for a sandboxed application module.
//!
//! The heart of the crate is the task scheduler under [`asynch`]: a work
//! queue of runnable task handles, the task state machine that governs
//! polling and waking, and the executor transitions that drive suspended
//! computations to completion.  The host boundary (blocking wait, resume
//! notification, interrupt gating, drawing, logging) stays outside this
//! library; the modules here hold the data and the decisions, stated and
//! proved over a mathematical view of the scheduler state.

pub mod asynch;
pub mod critical_section;
pub mod io;
pub mod net;
pub mod rng;
pub mod time;
pub mod widget;
