//! The cooperative scheduler: tasks, the shared work queue, and the
//! executor state machine.

pub mod channel;
pub mod executor;
pub mod task;
